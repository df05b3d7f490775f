//! The three-step window that adds a piece of software: the repository link, then
//! the release and asset, then the local details.

use vstd::prelude::*;
use vstd::string::*;
use crate::app::github::{GitHubClient, Release, ReleaseView, repo_parts};
use crate::app::model::{SoftwareEntry, SoftwareEntryView, Timestamp, optional_text, non_empty};
use crate::app::platform::{filter_assets_for_windows, is_ranking};
use crate::tags::{parse_tags, tag_list};
use crate::text::{trim, trim_str, is_blank, views};

verus! {

/// The state of the add window. Step 0 asks for the repository link, step 1 for the
/// release and asset, step 2 for the local details.
pub struct AddWizard {
    pub step: usize,
    pub repo_url: String,
    pub owner: String,
    pub repo: String,
    pub releases: Vec<Release>,
    pub selected_release_index: usize,
    pub selected_asset_index: usize,
    pub current_download_url: String,
    pub software_name: String,
    pub alias: String,
    pub current_version: String,
    pub latest_version: String,
    pub asset_name: String,
    pub install_path: String,
    pub executable_path: String,
    pub notes: String,
    pub tags: String,
    pub loading: bool,
    pub error: Option<String>,
    pub closed: bool,
    pub show_error_dialog: bool,
    pub error_message: String,
}

/// The add window's state with its release list seen as a sequence.
pub struct AddWizardView {
    pub step: usize,
    pub repo_url: String,
    pub owner: String,
    pub repo: String,
    pub releases: Seq<ReleaseView>,
    pub selected_release_index: usize,
    pub selected_asset_index: usize,
    pub current_download_url: String,
    pub software_name: String,
    pub alias: String,
    pub current_version: String,
    pub latest_version: String,
    pub asset_name: String,
    pub install_path: String,
    pub executable_path: String,
    pub notes: String,
    pub tags: String,
    pub loading: bool,
    pub error: Option<String>,
    pub closed: bool,
    pub show_error_dialog: bool,
    pub error_message: String,
}

impl View for AddWizard {
    type V = AddWizardView;

    open spec fn view(&self) -> AddWizardView {
        AddWizardView {
            step: self.step,
            repo_url: self.repo_url,
            owner: self.owner,
            repo: self.repo,
            releases: self.releases@.map_values(|r: Release| r@),
            selected_release_index: self.selected_release_index,
            selected_asset_index: self.selected_asset_index,
            current_download_url: self.current_download_url,
            software_name: self.software_name,
            alias: self.alias,
            current_version: self.current_version,
            latest_version: self.latest_version,
            asset_name: self.asset_name,
            install_path: self.install_path,
            executable_path: self.executable_path,
            notes: self.notes,
            tags: self.tags,
            loading: self.loading,
            error: self.error,
            closed: self.closed,
            show_error_dialog: self.show_error_dialog,
            error_message: self.error_message,
        }
    }
}

/// The entry that the details of step 2 describe, created at `now`.
pub open spec fn wizard_entry(w: AddWizardView, e: SoftwareEntryView, now: Timestamp) -> bool {
    &&& e.id is None
    &&& e.name == w.software_name
    &&& e.alias == w.alias
    &&& e.repo_url@ == trim(w.repo_url@)
    &&& e.current_version == w.current_version
    &&& e.latest_version == optional_text(w.latest_version)
    &&& e.asset_name == w.asset_name
    &&& e.install_path == optional_text(w.install_path)
    &&& e.executable_path == optional_text(w.executable_path)
    &&& e.notes == w.notes
    &&& views(e.tags) == tag_list(w.tags@)
    &&& e.linked_folders.len() == 0
    &&& e.created_at == now
    &&& e.updated_at == now
}

/// Where the selected asset of a release should move so that it is one of the
/// recommended ones: the best-ranked where the selection is not recommended; an
/// index past the end falls back to 0 where nothing is recommended.
pub open spec fn chosen_asset(selected: usize, ranked: Seq<(usize, u32)>, n_assets: int) -> usize {
    if ranked.len() > 0 {
        if exists|k: int| 0 <= k < ranked.len() && ranked[k].0 == selected {
            selected
        } else {
            ranked[0].0
        }
    } else if selected >= n_assets {
        0
    } else {
        selected
    }
}

/// Which asset is settled on: where some assets are recommended, a recommended one
/// (the current selection where it is recommended, else the best); where none is, the
/// current selection if it is an asset, else the first.
pub proof fn lemma_chosen_asset_meaning(selected: usize, ranked: Seq<(usize, u32)>, n_assets: int)
    ensures
        ranked.len() > 0 ==> exists|k: int| 0 <= k < ranked.len() && ranked[k].0 == chosen_asset(selected, ranked, n_assets),
        (exists|k: int| 0 <= k < ranked.len() && ranked[k].0 == selected) ==> chosen_asset(selected, ranked, n_assets)
            == selected,
        ranked.len() > 0 && !(exists|k: int| 0 <= k < ranked.len() && ranked[k].0 == selected) ==> chosen_asset(
            selected,
            ranked,
            n_assets,
        ) == ranked[0].0,
        ranked.len() == 0 && selected < n_assets ==> chosen_asset(selected, ranked, n_assets) == selected,
        ranked.len() == 0 && selected >= n_assets ==> chosen_asset(selected, ranked, n_assets) == 0,
{
    if ranked.len() > 0 {
        if exists|k: int| 0 <= k < ranked.len() && ranked[k].0 == selected {
        } else {
            assert(ranked[0].0 == chosen_asset(selected, ranked, n_assets));
        }
    }
}

impl AddWizard {
    /// A fresh window at step 0 with every field empty.
    pub fn new() -> (r: Self)
        ensures
            r.step == 0,
            r.repo_url@.len() == 0,
            r.owner@.len() == 0,
            r.repo@.len() == 0,
            r.releases@.len() == 0,
            r.selected_release_index == 0,
            r.selected_asset_index == 0,
            r.current_download_url@.len() == 0,
            r.software_name@.len() == 0,
            r.alias@.len() == 0,
            r.current_version@.len() == 0,
            r.latest_version@.len() == 0,
            r.asset_name@.len() == 0,
            r.install_path@.len() == 0,
            r.executable_path@.len() == 0,
            r.notes@.len() == 0,
            r.tags@.len() == 0,
            r.error_message@.len() == 0,
            !r.loading,
            r.error is None,
            !r.closed,
            !r.show_error_dialog,
    {
        AddWizard {
            step: 0,
            repo_url: String::new(),
            owner: String::new(),
            repo: String::new(),
            releases: Vec::new(),
            selected_release_index: 0,
            selected_asset_index: 0,
            current_download_url: String::new(),
            software_name: String::new(),
            alias: String::new(),
            current_version: String::new(),
            latest_version: String::new(),
            asset_name: String::new(),
            install_path: String::new(),
            executable_path: String::new(),
            notes: String::new(),
            tags: String::new(),
            loading: false,
            error: None,
            closed: false,
            show_error_dialog: false,
            error_message: String::new(),
        }
    }

    /// The heading of the current step.
    pub fn title(&self) -> (r: &'static str)
        ensures
            self.step == 0 ==> r@ == "步骤1: 输入 GitHub 链接"@,
            self.step == 1 ==> r@ == "步骤2: 选择版本与安装包"@,
            self.step == 2 ==> r@ == "步骤3: 填写本地信息"@,
            self.step > 2 ==> r@ == ""@,
    {
        if self.step == 0 {
            "步骤1: 输入 GitHub 链接"
        } else if self.step == 1 {
            "步骤2: 选择版本与安装包"
        } else if self.step == 2 {
            "步骤3: 填写本地信息"
        } else {
            ""
        }
    }

    /// Closes the window.
    pub fn close(&mut self)
        ensures
            final(self)@ == (AddWizardView { closed: true, ..old(self)@ }),
    {
        self.closed = true;
    }

    /// Starts fetching the releases of the typed link ("获取 Releases"). Nothing
    /// happens while a fetch is running or when the link is empty. Otherwise the link
    /// is trimmed; where it names an owner and a repository the fetch starts and
    /// they are returned, else the error says the link is invalid.
    pub fn start_fetch(&mut self) -> (r: Option<(String, String)>)
        ensures
            (old(self).loading || old(self).repo_url@.len() == 0) ==> (r is None && final(self)@ == old(self)@),
            !(old(self).loading || old(self).repo_url@.len() == 0) ==> ({
                let url = trim(old(self).repo_url@);
                &&& final(self).repo_url@ == url
                &&& match repo_parts(url) {
                    Some((o, p)) => {
                        &&& r matches Some((ro, rp)) && ro@ == o && rp@ == p
                        &&& final(self)@ == (AddWizardView {
                            repo_url: final(self).repo_url,
                            owner: final(self).owner,
                            repo: final(self).repo,
                            loading: true,
                            error: None,
                            ..old(self)@
                        })
                        &&& final(self).owner@ == o && final(self).repo@ == p
                    },
                    None => {
                        &&& r is None
                        &&& final(self)@ == (AddWizardView {
                            repo_url: final(self).repo_url,
                            error: final(self).error,
                            ..old(self)@
                        })
                        &&& final(self).error matches Some(e) && e@ == "无效的 GitHub 链接"@
                    },
                }
            }),
    {
        if self.loading || self.repo_url.as_str().unicode_len() == 0 {
            return None;
        }
        let trimmed = String::from_str(trim_str(self.repo_url.as_str()));
        self.repo_url = trimmed;
        match GitHubClient::parse_repo_url(self.repo_url.as_str()) {
            Some((owner, repo)) => {
                self.owner = owner.clone();
                self.repo = repo.clone();
                self.loading = true;
                self.error = None;
                Some((owner, repo))
            },
            None => {
                self.error = Some(String::from_str("无效的 GitHub 链接"));
                None
            },
        }
    }

    /// Takes in the answer of a release fetch. Loading ends; no releases gives an
    /// error; releases move the window to step 1; a failure gives "获取失败: " and
    /// its message.
    pub fn receive_releases(&mut self, result: Result<Vec<Release>, String>)
        ensures
            match result {
                Ok(rels) => if rels@.len() == 0 {
                    &&& final(self)@ == (AddWizardView { loading: false, error: final(self).error, ..old(self)@ })
                    &&& final(self).error matches Some(e) && e@ == "该仓库没有发布版本"@
                } else {
                    final(self)@ == (AddWizardView {
                        loading: false,
                        releases: rels@.map_values(|r: Release| r@),
                        step: 1,
                        error: None,
                        ..old(self)@
                    })
                },
                Err(msg) => {
                    &&& final(self)@ == (AddWizardView { loading: false, error: final(self).error, ..old(self)@ })
                    &&& final(self).error matches Some(e) && e@ == "获取失败: "@ + msg@
                },
            },
    {
        self.loading = false;
        match result {
            Ok(releases) => {
                if releases.len() == 0 {
                    self.error = Some(String::from_str("该仓库没有发布版本"));
                } else {
                    self.releases = releases;
                    self.step = 1;
                    self.error = None;
                }
            },
            Err(e) => {
                let mut m = String::from_str("获取失败: ");
                m.append(e.as_str());
                self.error = Some(m);
            },
        }
    }

    /// Skips the release steps for software that is not on GitHub: the release list
    /// is emptied and the window goes to step 2.
    pub fn skip_to_details(&mut self)
        ensures
            final(self)@ == (AddWizardView { releases: Seq::empty(), step: 2, ..old(self)@ }),
    {
        self.releases = Vec::new();
        self.step = 2;
        proof {
            assert(self@.releases =~= Seq::<ReleaseView>::empty());
        }
    }

    /// Goes back to step 0.
    pub fn back_to_link(&mut self)
        ensures
            final(self)@ == (AddWizardView { step: 0, ..old(self)@ }),
    {
        self.step = 0;
    }

    /// Goes back to step 1.
    pub fn back_to_release(&mut self)
        ensures
            final(self)@ == (AddWizardView { step: 1, ..old(self)@ }),
    {
        self.step = 1;
    }

    /// Starts drawing step 1: with no releases nothing changes; otherwise the latest
    /// version becomes the first release's tag and a selection past the end falls
    /// back to the first release.
    pub fn begin_release_step(&mut self)
        ensures
            old(self).releases@.len() == 0 ==> final(self)@ == old(self)@,
            old(self).releases@.len() > 0 ==> final(self)@ == (AddWizardView {
                latest_version: old(self)@.releases[0].tag_name,
                selected_release_index: if old(self).selected_release_index < old(self).releases@.len() {
                    old(self).selected_release_index
                } else {
                    0usize
                },
                ..old(self)@
            }),
    {
        if self.releases.len() == 0 {
            return;
        }
        proof {
            assert(self@.releases[0] == self.releases@[0]@);
        }
        self.latest_version = self.releases[0].tag_name.clone();
        if self.selected_release_index >= self.releases.len() {
            self.selected_release_index = 0;
        }
    }

    /// Settles the asset selection for release `rel` (the one shown when step 1
    /// began) and returns its recommended assets, best first. The selected asset
    /// moves to a recommended one (`chosen_asset`), and the download link, current
    /// version and package name follow it; a release without assets clears the
    /// selection and the link.
    pub fn settle_asset_selection(&mut self, rel: usize) -> (r: Vec<(usize, u32)>)
        requires
            rel < old(self).releases@.len(),
        ensures
            ({
                let release = old(self)@.releases[rel as int];
                let asset = chosen_asset(old(self).selected_asset_index, r@, release.assets.len() as int);
                &&& is_ranking(r@, release.assets, release.assets.len() as int)
                &&& if release.assets.len() > 0 {
                    &&& asset < release.assets.len()
                    &&& final(self)@ == (AddWizardView {
                        selected_asset_index: asset,
                        current_download_url: release.assets[asset as int].browser_download_url,
                        current_version: release.tag_name,
                        asset_name: release.assets[asset as int].name,
                        ..old(self)@
                    })
                } else {
                    &&& final(self)@ == (AddWizardView {
                        selected_asset_index: 0,
                        current_download_url: final(self).current_download_url,
                        ..old(self)@
                    })
                    &&& final(self).current_download_url@.len() == 0
                }
            }),
    {
        proof {
            assert(self@.releases[rel as int] == self.releases@[rel as int]@);
        }
        let ranked = filter_assets_for_windows(self.releases[rel].assets.as_slice());
        let n_assets = self.releases[rel].assets.len();
        if n_assets > 0 {
            if ranked.len() > 0 {
                let mut found = false;
                let mut k: usize = 0;
                while k < ranked.len()
                    invariant
                        k <= ranked@.len(),
                        found == exists|j: int| 0 <= j < k && ranked@[j].0 == self.selected_asset_index,
                    decreases ranked@.len() - k,
                {
                    if ranked[k].0 == self.selected_asset_index {
                        found = true;
                    }
                    k = k + 1;
                }
                if !found {
                    self.selected_asset_index = ranked[0].0;
                }
            } else if self.selected_asset_index >= n_assets {
                self.selected_asset_index = 0;
            }
            let a = self.selected_asset_index;
            self.current_download_url = self.releases[rel].assets[a].browser_download_url.clone();
            self.current_version = self.releases[rel].tag_name.clone();
            self.asset_name = self.releases[rel].assets[a].name.clone();
        } else {
            self.selected_asset_index = 0;
            self.current_download_url = String::new();
        }
        ranked
    }

    /// Selects release `i` in the list; choosing a different release resets the
    /// selected asset to the first.
    pub fn select_release(&mut self, i: usize)
        ensures
            i == old(self).selected_release_index ==> final(self)@ == old(self)@,
            i != old(self).selected_release_index ==> final(self)@ == (AddWizardView {
                selected_release_index: i,
                selected_asset_index: 0,
                ..old(self)@
            }),
    {
        if i != self.selected_release_index {
            self.selected_release_index = i;
            self.selected_asset_index = 0;
        }
    }

    /// Selects asset `a` of release `rel`: its link and name follow.
    pub fn select_asset(&mut self, rel: usize, a: usize)
        requires
            rel < old(self).releases@.len(),
            a < old(self).releases@[rel as int].assets@.len(),
        ensures
            ({
                let release = old(self)@.releases[rel as int];
                final(self)@ == (AddWizardView {
                    selected_asset_index: a,
                    current_download_url: release.assets[a as int].browser_download_url,
                    asset_name: release.assets[a as int].name,
                    ..old(self)@
                })
            }),
    {
        proof {
            assert(self@.releases[rel as int] == self.releases@[rel as int]@);
        }
        self.selected_asset_index = a;
        self.current_download_url = self.releases[rel].assets[a].browser_download_url.clone();
        self.asset_name = self.releases[rel].assets[a].name.clone();
    }

    /// Moves from step 1 to step 2 ("下一步"); an empty software name becomes the
    /// repository name.
    pub fn go_to_details(&mut self)
        ensures
            old(self).software_name@.len() == 0 ==> final(self)@ == (AddWizardView {
                software_name: old(self).repo,
                step: 2,
                ..old(self)@
            }),
            old(self).software_name@.len() > 0 ==> final(self)@ == (AddWizardView { step: 2, ..old(self)@ }),
    {
        if self.software_name.as_str().unicode_len() == 0 {
            self.software_name = self.repo.clone();
        }
        self.step = 2;
    }

    /// A folder was chosen as the install path; the executable found in it, if any,
    /// becomes the executable path.
    pub fn set_install_folder(&mut self, folder: String, found_executable: Option<String>)
        ensures
            match found_executable {
                Some(exe) => final(self)@ == (AddWizardView {
                    install_path: folder,
                    executable_path: exe,
                    ..old(self)@
                }),
                None => final(self)@ == (AddWizardView { install_path: folder, ..old(self)@ }),
            },
    {
        self.install_path = folder;
        if let Some(exe) = found_executable {
            self.executable_path = exe;
        }
    }

    /// Finishes the window ("完成"): a blank software name opens the error dialog
    /// and gives nothing; otherwise the entry that the details describe, created now.
    pub fn finish(&mut self, now: Timestamp) -> (r: Option<SoftwareEntry>)
        ensures
            trim(old(self).software_name@).len() == 0 ==> ({
                &&& r is None
                &&& final(self)@ == (AddWizardView {
                    show_error_dialog: true,
                    error_message: final(self).error_message,
                    ..old(self)@
                })
                &&& final(self).error_message@ == "软件名称不能为空"@
            }),
            trim(old(self).software_name@).len() > 0 ==> ({
                &&& final(self)@ == old(self)@
                &&& r matches Some(e) && wizard_entry(old(self)@, e@, now)
            }),
            trim(old(self).software_name@).len() > 0 ==> (r matches Some(e) && {
                &&& e.id is None
                &&& e.name == old(self).software_name
                &&& e.alias == old(self).alias
                &&& e.repo_url@ == trim(old(self).repo_url@)
                &&& e.current_version == old(self).current_version
                &&& e.latest_version == (if old(self).latest_version@.len() == 0 {
                    None
                } else {
                    Some(old(self).latest_version)
                })
                &&& e.asset_name == old(self).asset_name
                &&& e.install_path == (if old(self).install_path@.len() == 0 {
                    None
                } else {
                    Some(old(self).install_path)
                })
                &&& e.executable_path == (if old(self).executable_path@.len() == 0 {
                    None
                } else {
                    Some(old(self).executable_path)
                })
                &&& e.notes == old(self).notes
                &&& views(e.tags@) == tag_list(old(self).tags@)
                &&& e.linked_folders@.len() == 0
                &&& e.created_at == now
                &&& e.updated_at == now
            }),
    {
        if is_blank(self.software_name.as_str()) {
            self.error_message = String::from_str("软件名称不能为空");
            self.show_error_dialog = true;
            return None;
        }
        let tags = parse_tags(self.tags.as_str());
        let entry = SoftwareEntry {
            id: None,
            name: self.software_name.clone(),
            alias: self.alias.clone(),
            repo_url: String::from_str(trim_str(self.repo_url.as_str())),
            current_version: self.current_version.clone(),
            latest_version: non_empty(self.latest_version.clone()),
            asset_name: self.asset_name.clone(),
            install_path: non_empty(self.install_path.clone()),
            executable_path: non_empty(self.executable_path.clone()),
            notes: self.notes.clone(),
            tags,
            linked_folders: Vec::new(),
            created_at: now,
            updated_at: now,
        };
        Some(entry)
    }

    /// Closes the error dialog.
    pub fn dismiss_error(&mut self)
        ensures
            final(self)@ == (AddWizardView { show_error_dialog: false, ..old(self)@ }),
    {
        self.show_error_dialog = false;
    }
}

} // verus!
