use release_manager::app::model::{non_empty, LinkedFolder, Settings, SettingsError, SoftwareEntry, Timestamp};
use release_manager::app::updater::Updater;
use release_manager::app::github::{Asset, Release};
use release_manager::app::db::entries_with_tag;

fn ts(seconds: i64, nanos: u32) -> Timestamp {
    Timestamp { seconds, nanos, offset_seconds: 28800 }
}

fn entry(name: &str, current: &str, tags: &[&str]) -> SoftwareEntry {
    SoftwareEntry {
        id: Some(1),
        name: name.to_string(),
        alias: String::new(),
        repo_url: "https://github.com/o/r".to_string(),
        current_version: current.to_string(),
        latest_version: None,
        asset_name: String::new(),
        install_path: None,
        executable_path: None,
        notes: String::new(),
        tags: tags.iter().map(|t| t.to_string()).collect(),
        linked_folders: vec![LinkedFolder { path: "C:/x".to_string(), alias: "x".to_string() }],
        created_at: ts(0, 0),
        updated_at: ts(0, 0),
    }
}

#[test]
fn hours_round_toward_zero() {
    assert_eq!(ts(7200, 0).hours_since(&ts(0, 0)), 2);
    assert_eq!(ts(3599, 999_999_999).hours_since(&ts(0, 0)), 0);
    assert_eq!(ts(3600, 0).hours_since(&ts(0, 0)), 1);
    assert_eq!(ts(0, 0).hours_since(&ts(7200, 0)), -2);
    assert_eq!(ts(-3600, 600_000_000).hours_since(&ts(0, 500_000_000)), 0);
    assert_eq!(ts(-3600, 0).hours_since(&ts(0, 0)), -1);
}

#[test]
fn settings_from_stored_values() {
    let s = Settings::from_stored(Some("tok".to_string()), None, Some(ts(5, 0)), None).ok().unwrap();
    assert_eq!(s.auto_check_interval_hours, 24);
    assert_eq!(s.github_token, Some("tok".to_string()));
    assert_eq!(s.last_check_time.unwrap().seconds, 5);
    assert_eq!(s.download_dir, None);
    let s = Settings::from_stored(None, Some("+12".to_string()), None, Some("D:/dl".to_string())).ok().unwrap();
    assert_eq!(s.auto_check_interval_hours, 12);
    assert_eq!(s.download_dir, Some("D:/dl".to_string()));
    assert!(matches!(Settings::from_stored(None, Some("12h".to_string()), None, None), Err(SettingsError::InvalidInterval)));
    assert!(matches!(Settings::from_stored(None, Some(String::new()), None, None), Err(SettingsError::InvalidInterval)));
}

#[test]
fn default_settings() {
    let s = Settings::default();
    assert_eq!(s.github_token, None);
    assert_eq!(s.auto_check_interval_hours, 0);
    assert!(s.last_check_time.is_none());
    assert_eq!(s.download_dir, None);
}

#[test]
fn stored_settings_read_back() {
    let s = Settings { github_token: None, auto_check_interval_hours: 48, last_check_time: None, download_dir: Some("d".to_string()) };
    let (token, interval, dir) = s.stored_texts();
    assert_eq!(token, "");
    assert_eq!(interval, "48");
    assert_eq!(dir, "d");
    let back = Settings::from_stored(Some(token), Some(interval), None, Some(dir)).ok().unwrap();
    assert_eq!(back.auto_check_interval_hours, 48);
    // A missing token is stored as an empty text and reads back as an empty token.
    assert_eq!(back.github_token, Some(String::new()));
}

#[test]
fn optional_fields_from_text() {
    assert_eq!(non_empty(String::new()), None);
    assert_eq!(non_empty("a".to_string()), Some("a".to_string()));
    assert_eq!(non_empty(" ".to_string()), Some(" ".to_string()));
}

#[test]
fn entry_helpers() {
    let mut e = entry("Tool", "1.0.0", &["a"]);
    assert_eq!(e.parse_repo(), Some(("o".to_string(), "r".to_string())));
    assert!(e.has_repo());
    assert!(!e.has_new_version());
    assert_eq!(e.display_name(), "Tool");
    e.alias = "T".to_string();
    assert_eq!(e.display_name(), "T (Tool)");
    e.record_latest_version("1.1.0".to_string(), ts(99, 1));
    assert_eq!(e.latest_version, Some("1.1.0".to_string()));
    assert_eq!(e.updated_at.seconds, 99);
    assert!(e.has_new_version());
    let c = e.clone();
    assert_eq!(c.name, e.name);
    assert_eq!(c.tags, e.tags);
    assert_eq!(c.linked_folders[0].alias, "x");
    e.repo_url = String::new();
    assert!(!e.has_repo());
    assert_eq!(e.parse_repo(), None);
}

#[test]
fn updater_reports_only_newer_tags() {
    let e = entry("Tool", "v1.2.0", &[]);
    let rel = |t: &str| Release { tag_name: t.to_string(), name: None, assets: vec![Asset { name: "a".to_string(), browser_download_url: "u".to_string(), size: None }] };
    assert_eq!(Updater::newer_release_tag(&e, Some(rel("v1.10.0"))), Some("v1.10.0".to_string()));
    assert_eq!(Updater::newer_release_tag(&e, Some(rel("1.2.0"))), None);
    assert_eq!(Updater::newer_release_tag(&e, Some(rel("v1.1.9"))), None);
    assert_eq!(Updater::newer_release_tag(&e, None), None);
    let u = Updater::new(Some("t".to_string()));
    assert_eq!(u.github_client().get_token(), &Some("t".to_string()));
}

#[test]
fn search_by_tag_substring() {
    let entries = vec![entry("A", "1", &["editor", "dev"]), entry("B", "1", &["game"]), entry("C", "1", &["devops"])];
    let found: Vec<String> = entries_with_tag(entries, "dev").into_iter().map(|e| e.name).collect();
    assert_eq!(found, vec!["A", "C"]);
    let none = entries_with_tag(vec![entry("A", "1", &["Dev"])], "dev");
    assert!(none.is_empty());
}
