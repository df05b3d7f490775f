use release_manager::app::github::{user_agent, Asset, GitHubClient, Release};

fn release(tag: &str) -> Release {
    Release {
        tag_name: tag.to_string(),
        name: Some(format!("Release {}", tag)),
        assets: vec![Asset { name: "a.zip".to_string(), browser_download_url: "u".to_string(), size: Some(3) }],
    }
}

#[test]
fn parse_repo_url_takes_the_last_two_parts() {
    assert_eq!(
        GitHubClient::parse_repo_url("https://github.com/owner/repo"),
        Some(("owner".to_string(), "repo".to_string()))
    );
    assert_eq!(
        GitHubClient::parse_repo_url("https://github.com/owner/repo///"),
        Some(("owner".to_string(), "repo".to_string()))
    );
    assert_eq!(GitHubClient::parse_repo_url("owner/repo"), Some(("owner".to_string(), "repo".to_string())));
    assert_eq!(GitHubClient::parse_repo_url("/repo"), Some(("".to_string(), "repo".to_string())));
    assert_eq!(GitHubClient::parse_repo_url("repo"), None);
    assert_eq!(GitHubClient::parse_repo_url(""), None);
    assert_eq!(GitHubClient::parse_repo_url("////"), None);
}

#[test]
fn request_parts() {
    assert_eq!(GitHubClient::releases_url("o", "r"), "https://api.github.com/repos/o/r/releases");
    assert_eq!(GitHubClient::new(Some("t0k".to_string())).authorization(), Some("Bearer t0k".to_string()));
    assert_eq!(GitHubClient::new(None).authorization(), None);
    assert_eq!(GitHubClient::new(Some("x".to_string())).get_token(), &Some("x".to_string()));
    assert_eq!(user_agent(), "GitHub-Release-Manager");
}

#[test]
fn latest_release_is_the_first() {
    let r = GitHubClient::latest_release(vec![release("v2"), release("v1")]).unwrap();
    assert_eq!(r.tag_name, "v2");
    assert_eq!(r.name, Some("Release v2".to_string()));
    assert_eq!(r.assets.len(), 1);
    assert!(GitHubClient::latest_release(vec![]).is_none());
}

#[test]
fn repo_url_reads_back_owner_and_repo() {
    for (owner, repo) in [("o", "r"), ("rust-lang", "rust"), ("", "x")] {
        for prefix in ["", "https://github.com/", "/"] {
            let url = format!("{}{}/{}", prefix, owner, repo);
            assert_eq!(GitHubClient::parse_repo_url(&url), Some((owner.to_string(), repo.to_string())), "{}", url);
        }
    }
}
