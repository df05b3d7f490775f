//! Deciding whether a release is an update for an installed entry.

use vstd::prelude::*;
use crate::app::github::{GitHubClient, Release};
use crate::app::model::SoftwareEntry;
use crate::utils::version::{is_newer, version_order};

verus! {

/// Checks installed software against the latest releases on GitHub.
pub struct Updater {
    github_client: GitHubClient,
}

impl Updater {
    /// An updater whose client sends `token`, where there is one.
    pub fn new(token: Option<String>) -> (r: Self)
        ensures
            r.client().token() == token,
    {
        Updater { github_client: GitHubClient::new(token) }
    }

    /// The client the updater asks.
    pub closed spec fn client(&self) -> GitHubClient {
        self.github_client
    }

    /// The client the updater asks.
    pub fn github_client(&self) -> (r: &GitHubClient)
        ensures
            *r == self.client(),
    {
        &self.github_client
    }

    /// The tag of the latest release where it is newer than the entry's current
    /// version; `None` where there is no release or it is not newer.
    pub fn newer_release_tag(entry: &SoftwareEntry, latest: Option<Release>) -> (r: Option<String>)
        ensures
            match latest {
                Some(rel) => if version_order(rel.tag_name@, entry.current_version@) == 1 {
                    r == Some(rel.tag_name)
                } else {
                    r is None
                },
                None => r is None,
            },
    {
        match latest {
            Some(release) => {
                if is_newer(release.tag_name.as_str(), entry.current_version.as_str()) {
                    Some(release.tag_name)
                } else {
                    None
                }
            },
            None => None,
        }
    }
}

} // verus!
