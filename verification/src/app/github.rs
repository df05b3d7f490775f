//! GitHub releases: the data the API returns, and the client's request logic.

use vstd::prelude::*;
use vstd::string::*;
use crate::text::{
    strip_trailing, strip_trailing_char, split_on, split_char, views, lemma_split_on_nonempty, lemma_split_on_concat,
    lemma_split_on_no_delim,
};

verus! {

/// One downloadable file of a release.
pub struct Asset {
    pub name: String,
    pub browser_download_url: String,
    pub size: Option<u64>,
}

impl Clone for Asset {
    fn clone(&self) -> (r: Self)
        ensures
            r == *self,
    {
        Asset { name: self.name.clone(), browser_download_url: self.browser_download_url.clone(), size: self.size }
    }
}

/// A release of a repository, newest first in the API's answer.
pub struct Release {
    pub tag_name: String,
    pub name: Option<String>,
    pub assets: Vec<Asset>,
}

/// A release seen with its asset list as a sequence.
pub struct ReleaseView {
    pub tag_name: String,
    pub name: Option<String>,
    pub assets: Seq<Asset>,
}

impl View for Release {
    type V = ReleaseView;

    open spec fn view(&self) -> ReleaseView {
        ReleaseView { tag_name: self.tag_name, name: self.name, assets: self.assets@ }
    }
}

impl Clone for Release {
    fn clone(&self) -> (r: Self)
        ensures
            r@ == self@,
    {
        let name = match &self.name {
            Some(n) => Some(n.clone()),
            None => None,
        };
        let assets = clone_assets(&self.assets);
        Release { tag_name: self.tag_name.clone(), name, assets }
    }
}

/// The owner and repository of a repository URL: the last two '/'-separated parts
/// once trailing '/'s are removed, where there are at least two parts.
pub open spec fn repo_parts(url: Seq<char>) -> Option<(Seq<char>, Seq<char>)> {
    let parts = split_on(strip_trailing(url, '/'), '/');
    if parts.len() >= 2 {
        Some((parts[parts.len() - 2], parts[parts.len() - 1]))
    } else {
        None
    }
}

/// A repository address read back: for a path `prefix` + owner + "/" + repo, where
/// the prefix is empty or ends with '/', neither name holds '/', and the repository
/// name is not empty, the owner and repository are those names.
pub proof fn lemma_repo_parts_of_path(prefix: Seq<char>, owner: Seq<char>, repo: Seq<char>)
    requires
        prefix.len() == 0 || prefix.last() == '/',
        !owner.contains('/'),
        !repo.contains('/'),
        repo.len() > 0,
    ensures
        repo_parts(prefix + owner + seq!['/'] + repo) == Some((owner, repo)),
{
    let s = prefix + owner + seq!['/'] + repo;
    assert(s.last() == repo.last());
    assert(repo.last() != '/') by {
        assert(repo[repo.len() - 1] == repo.last());
    }
    assert(strip_trailing(s, '/') == s);
    lemma_split_on_concat(prefix + owner, '/', repo);
    lemma_split_on_no_delim(repo, '/');
    if prefix.len() == 0 {
        assert(prefix + owner =~= owner);
        lemma_split_on_no_delim(owner, '/');
    } else {
        let p2 = prefix.drop_last();
        assert(prefix + owner =~= p2 + seq!['/'] + owner);
        lemma_split_on_concat(p2, '/', owner);
        lemma_split_on_no_delim(owner, '/');
        lemma_split_on_nonempty(p2, '/');
    }
    assert(s =~= (prefix + owner) + seq!['/'] + repo);
}

/// A client of the GitHub releases API, with an optional access token.
pub struct GitHubClient {
    token: Option<String>,
}

impl GitHubClient {
    /// A client that sends `token`, where there is one.
    pub fn new(token: Option<String>) -> (r: Self)
        ensures
            r.token() == token,
    {
        GitHubClient { token }
    }

    /// The access token the client sends.
    pub closed spec fn token(&self) -> Option<String> {
        self.token
    }

    /// The access token the client sends.
    pub fn get_token(&self) -> (r: &Option<String>)
        ensures
            *r == self.token(),
    {
        &self.token
    }

    /// Splits a GitHub repository URL into owner and repository name: the last two
    /// '/'-separated parts once trailing '/'s are removed; `None` where there is no '/'.
    pub fn parse_repo_url(url: &str) -> (r: Option<(String, String)>)
        ensures
            match r {
                Some((o, p)) => repo_parts(url@) == Some((o@, p@)),
                None => repo_parts(url@) is None,
            },
    {
        let url = strip_trailing_char(url, '/');
        let parts = split_char(url, '/');
        let n = parts.len();
        if n >= 2 {
            proof {
                assert(views(parts@)[n - 2] == parts@[n - 2]@);
                assert(views(parts@)[n - 1] == parts@[n - 1]@);
            }
            Some((parts[n - 2].clone(), parts[n - 1].clone()))
        } else {
            None
        }
    }

    /// The API address of the releases of `owner`'s repository `repo`.
    pub fn releases_url(owner: &str, repo: &str) -> (r: String)
        ensures
            r@ == "https://api.github.com/repos/"@ + owner@ + "/"@ + repo@ + "/releases"@,
    {
        let mut r = String::from_str("https://api.github.com/repos/");
        r.append(owner);
        r.append("/");
        r.append(repo);
        r.append("/releases");
        r
    }

    /// The value of the `Authorization` header: "Bearer " and the token, where the
    /// client has a token.
    pub fn authorization(&self) -> (r: Option<String>)
        ensures
            match self.token() {
                Some(t) => r matches Some(h) && h@ == "Bearer "@ + t@,
                None => r is None,
            },
    {
        match &self.token {
            Some(t) => {
                let mut h = String::from_str("Bearer ");
                h.append(t.as_str());
                Some(h)
            },
            None => None,
        }
    }

    /// The latest release of a list that the API gave, newest first: its first.
    pub fn latest_release(releases: Vec<Release>) -> (r: Option<Release>)
        ensures
            releases@.len() == 0 ==> r is None,
            releases@.len() > 0 ==> (r matches Some(x) && x@ == releases@[0]@),
    {
        if releases.len() == 0 {
            None
        } else {
            Some(releases[0].clone())
        }
    }
}

/// The `User-Agent` the client sends.
pub fn user_agent() -> (r: &'static str)
    ensures
        r@ == "GitHub-Release-Manager"@,
{
    "GitHub-Release-Manager"
}

/// An element-wise copy of a list of assets.
pub fn clone_assets(v: &Vec<Asset>) -> (r: Vec<Asset>)
    ensures
        r@ == v@,
{
    let mut r: Vec<Asset> = Vec::new();
    let mut i: usize = 0;
    while i < v.len()
        invariant
            i <= v@.len(),
            r@ == v@.take(i as int),
        decreases v@.len() - i,
    {
        r.push(v[i].clone());
        i = i + 1;
        assert(r@ =~= v@.take(i as int));
    }
    assert(v@.take(i as int) =~= v@);
    r
}

} // verus!
