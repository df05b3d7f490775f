//! The records the application keeps: installed software, tag groups and settings.

use vstd::prelude::*;
use crate::app::github::{GitHubClient, repo_parts};
use vstd::string::*;
use crate::text::{u64_text, parse_u64, decimal, decimal_string, string_eq, lemma_decimal_roundtrip};

verus! {

/// A moment in local time: seconds and nanoseconds since the Unix epoch, and the
/// offset from UTC, in seconds, that was in force.
#[derive(Clone, Copy)]
pub struct Timestamp {
    pub seconds: i64,
    pub nanos: u32,
    pub offset_seconds: i32,
}

/// The time from `earlier` to `later` in nanoseconds.
pub open spec fn nanos_between(earlier: Timestamp, later: Timestamp) -> int {
    (later.seconds - earlier.seconds) * 1_000_000_000 + (later.nanos - earlier.nanos)
}

/// Whole hours from `earlier` to `later`, rounded toward zero, as chrono's
/// `(later - earlier).num_hours()` counts them.
pub open spec fn whole_hours(earlier: Timestamp, later: Timestamp) -> int {
    let d = nanos_between(earlier, later);
    if d >= 0 {
        d / 3_600_000_000_000
    } else {
        -((-d) / 3_600_000_000_000)
    }
}

impl Timestamp {
    /// Whole hours from `earlier` to `self`, rounded toward zero.
    pub fn hours_since(&self, earlier: &Timestamp) -> (r: i64)
        ensures
            r as int == whole_hours(*earlier, *self),
    {
        let d: i128 = (self.seconds as i128 - earlier.seconds as i128) * 1_000_000_000 + (self.nanos as i128
            - earlier.nanos as i128);
        let h: i128 = if d >= 0 {
            d / 3_600_000_000_000
        } else {
            -((-d) / 3_600_000_000_000)
        };
        h as i64
    }
}

/// A folder linked to an entry, shown under its alias where it has one.
pub struct LinkedFolder {
    pub path: String,
    pub alias: String,
}

impl Clone for LinkedFolder {
    fn clone(&self) -> (r: Self)
        ensures
            r == *self,
    {
        LinkedFolder { path: self.path.clone(), alias: self.alias.clone() }
    }
}

/// One installed piece of software.
pub struct SoftwareEntry {
    pub id: Option<i64>,
    pub name: String,
    pub alias: String,
    pub repo_url: String,
    pub current_version: String,
    pub latest_version: Option<String>,
    pub asset_name: String,
    pub install_path: Option<String>,
    pub executable_path: Option<String>,
    pub notes: String,
    pub tags: Vec<String>,
    pub linked_folders: Vec<LinkedFolder>,
    pub created_at: Timestamp,
    pub updated_at: Timestamp,
}

/// An entry with its lists seen as sequences.
pub struct SoftwareEntryView {
    pub id: Option<i64>,
    pub name: String,
    pub alias: String,
    pub repo_url: String,
    pub current_version: String,
    pub latest_version: Option<String>,
    pub asset_name: String,
    pub install_path: Option<String>,
    pub executable_path: Option<String>,
    pub notes: String,
    pub tags: Seq<String>,
    pub linked_folders: Seq<LinkedFolder>,
    pub created_at: Timestamp,
    pub updated_at: Timestamp,
}

impl View for SoftwareEntry {
    type V = SoftwareEntryView;

    open spec fn view(&self) -> SoftwareEntryView {
        SoftwareEntryView {
            id: self.id,
            name: self.name,
            alias: self.alias,
            repo_url: self.repo_url,
            current_version: self.current_version,
            latest_version: self.latest_version,
            asset_name: self.asset_name,
            install_path: self.install_path,
            executable_path: self.executable_path,
            notes: self.notes,
            tags: self.tags@,
            linked_folders: self.linked_folders@,
            created_at: self.created_at,
            updated_at: self.updated_at,
        }
    }
}

/// `None` for an empty text, else the text (how optional fields are edited).
pub open spec fn optional_text(s: String) -> Option<String> {
    if s@.len() == 0 { None } else { Some(s) }
}

/// `None` for an empty text, else the text.
pub fn non_empty(s: String) -> (r: Option<String>)
    ensures
        r == optional_text(s),
{
    if s.as_str().unicode_len() == 0 {
        None
    } else {
        Some(s)
    }
}

/// A copy of an optional string.
pub fn clone_opt_string(s: &Option<String>) -> (r: Option<String>)
    ensures
        r == *s,
{
    match s {
        Some(x) => Some(x.clone()),
        None => None,
    }
}

/// An element-wise copy of a list of strings.
pub fn clone_strings(v: &Vec<String>) -> (r: Vec<String>)
    ensures
        r@ == v@,
{
    let mut r: Vec<String> = Vec::new();
    let mut i: usize = 0;
    while i < v.len()
        invariant
            i <= v@.len(),
            r@ == v@.take(i as int),
        decreases v@.len() - i,
    {
        r.push(v[i].clone());
        i = i + 1;
        assert(r@ =~= v@.take(i as int));
    }
    assert(v@.take(i as int) =~= v@);
    r
}

/// An element-wise copy of a list of linked folders.
pub fn clone_folders(v: &Vec<LinkedFolder>) -> (r: Vec<LinkedFolder>)
    ensures
        r@ == v@,
{
    let mut r: Vec<LinkedFolder> = Vec::new();
    let mut i: usize = 0;
    while i < v.len()
        invariant
            i <= v@.len(),
            r@ == v@.take(i as int),
        decreases v@.len() - i,
    {
        r.push(v[i].clone());
        i = i + 1;
        assert(r@ =~= v@.take(i as int));
    }
    assert(v@.take(i as int) =~= v@);
    r
}

impl Clone for SoftwareEntry {
    fn clone(&self) -> (r: Self)
        ensures
            r@ == self@,
    {
        SoftwareEntry {
            id: self.id,
            name: self.name.clone(),
            alias: self.alias.clone(),
            repo_url: self.repo_url.clone(),
            current_version: self.current_version.clone(),
            latest_version: clone_opt_string(&self.latest_version),
            asset_name: self.asset_name.clone(),
            install_path: clone_opt_string(&self.install_path),
            executable_path: clone_opt_string(&self.executable_path),
            notes: self.notes.clone(),
            tags: clone_strings(&self.tags),
            linked_folders: clone_folders(&self.linked_folders),
            created_at: self.created_at,
            updated_at: self.updated_at,
        }
    }
}

impl SoftwareEntry {
    /// Records that `latest` is the newest version, as of `now`.
    pub fn record_latest_version(&mut self, latest: String, now: Timestamp)
        ensures
            final(self)@ == (SoftwareEntryView { latest_version: Some(latest), updated_at: now, ..old(self)@ }),
    {
        self.latest_version = Some(latest);
        self.updated_at = now;
    }

    /// Whether a newer version than the current one is known: the latest version
    /// differs from the current one.
    pub fn has_new_version(&self) -> (r: bool)
        ensures
            r == (self.latest_version matches Some(l) && l@ != self.current_version@),
    {
        match &self.latest_version {
            Some(l) => !string_eq(l, &self.current_version),
            None => false,
        }
    }

    /// Whether a repository is configured (the URL is not empty).
    pub fn has_repo(&self) -> (r: bool)
        ensures
            r == (self.repo_url@.len() > 0),
    {
        self.repo_url.as_str().unicode_len() > 0
    }

    /// The name shown for the entry: "alias (name)" where it has an alias, else its name.
    pub fn display_name(&self) -> (r: String)
        ensures
            r@ == (if self.alias@.len() > 0 {
                self.alias@ + " ("@ + self.name@ + ")"@
            } else {
                self.name@
            }),
    {
        if self.alias.as_str().unicode_len() > 0 {
            let mut s = self.alias.clone();
            s.append(" (");
            s.append(self.name.as_str());
            s.append(")");
            s
        } else {
            self.name.clone()
        }
    }

    /// The owner and repository named by the entry's repository URL.
    pub fn parse_repo(&self) -> (r: Option<(String, String)>)
        ensures
            match r {
                Some((o, p)) => repo_parts(self.repo_url@) == Some((o@, p@)),
                None => repo_parts(self.repo_url@) is None,
            },
    {
        GitHubClient::parse_repo_url(self.repo_url.as_str())
    }
}

/// A named set of tags that can be selected at once.
pub struct TagGroup {
    pub id: Option<i64>,
    pub name: String,
    pub tags: Vec<String>,
}

/// A tag group with its tags seen as a sequence.
pub struct TagGroupView {
    pub id: Option<i64>,
    pub name: String,
    pub tags: Seq<String>,
}

impl View for TagGroup {
    type V = TagGroupView;

    open spec fn view(&self) -> TagGroupView {
        TagGroupView { id: self.id, name: self.name, tags: self.tags@ }
    }
}

impl Clone for TagGroup {
    fn clone(&self) -> (r: Self)
        ensures
            r@ == self@,
    {
        TagGroup { id: self.id, name: self.name.clone(), tags: clone_strings(&self.tags) }
    }
}

/// The user's settings.
pub struct Settings {
    pub github_token: Option<String>,
    pub auto_check_interval_hours: u64,
    pub last_check_time: Option<Timestamp>,
    pub download_dir: Option<String>,
}

impl Clone for Settings {
    fn clone(&self) -> (r: Self)
        ensures
            r == *self,
    {
        Settings {
            github_token: clone_opt_string(&self.github_token),
            auto_check_interval_hours: self.auto_check_interval_hours,
            last_check_time: self.last_check_time,
            download_dir: clone_opt_string(&self.download_dir),
        }
    }
}

impl Default for Settings {
    fn default() -> (r: Self)
        ensures
            r.github_token is None,
            r.auto_check_interval_hours == 0,
            r.last_check_time is None,
            r.download_dir is None,
    {
        Settings { github_token: None, auto_check_interval_hours: 0, last_check_time: None, download_dir: None }
    }
}

impl Settings {
    /// The texts that store the settings: the token (empty for none), the interval
    /// in hours in decimal, and the download folder (empty for none).
    pub fn stored_texts(&self) -> (r: (String, String, String))
        ensures
            r.0@ == (match self.github_token {
                Some(t) => t@,
                None => Seq::<char>::empty(),
            }),
            r.1@ == decimal(self.auto_check_interval_hours as nat),
            r.2@ == (match self.download_dir {
                Some(d) => d@,
                None => Seq::<char>::empty(),
            }),
    {
        let token = match &self.github_token {
            Some(t) => t.clone(),
            None => String::new(),
        };
        let dir = match &self.download_dir {
            Some(d) => d.clone(),
            None => String::new(),
        };
        (token, decimal_string(self.auto_check_interval_hours), dir)
    }
}

/// The stored interval reads back as the interval that was stored.
pub proof fn lemma_interval_roundtrip(s: Settings)
    ensures
        u64_text(decimal(s.auto_check_interval_hours as nat)) == Some(s.auto_check_interval_hours),
{
    lemma_decimal_roundtrip(s.auto_check_interval_hours);
}

/// Why stored settings could not be read.
pub enum SettingsError {
    /// The stored update interval is not a number of hours.
    InvalidInterval,
}

/// The interval, in hours, used where none is stored.
pub open spec fn default_interval_text() -> Seq<char> {
    seq!['2', '4']
}

impl Settings {
    /// Builds the settings from the stored values: the interval text defaults to
    /// "24" and must be a `u64`; the other values are taken as they are.
    pub fn from_stored(
        github_token: Option<String>,
        auto_check_interval: Option<String>,
        last_check_time: Option<Timestamp>,
        download_dir: Option<String>,
    ) -> (r: Result<Settings, SettingsError>)
        ensures
            ({
                let text = match auto_check_interval {
                    Some(t) => t@,
                    None => default_interval_text(),
                };
                match r {
                    Ok(s) => u64_text(text) == Some(s.auto_check_interval_hours) && s.github_token == github_token
                        && s.last_check_time == last_check_time && s.download_dir == download_dir,
                    Err(_) => u64_text(text) is None,
                }
            }),
    {
        let parsed = match &auto_check_interval {
            Some(t) => parse_u64(t.as_str()),
            None => {
                let d = "24";
                proof {
                    reveal_strlit("24");
                    assert(d@ =~= default_interval_text());
                }
                parse_u64(d)
            },
        };
        match parsed {
            Some(hours) => Ok(
                Settings {
                    github_token,
                    auto_check_interval_hours: hours,
                    last_check_time,
                    download_dir,
                },
            ),
            None => Err(SettingsError::InvalidInterval),
        }
    }
}

} // verus!
