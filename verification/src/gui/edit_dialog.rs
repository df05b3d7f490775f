//! The window that edits an entry.

use vstd::prelude::*;
use vstd::string::*;
use crate::app::model::{SoftwareEntry, SoftwareEntryView, Timestamp, optional_text, non_empty};
use crate::tags::{join, join_strings, parse_tags, tag_list};
use crate::text::{trim, is_blank, views};

verus! {

/// The state of the edit window: the entry being edited and its tags as text.
pub struct EditDialog {
    pub entry: SoftwareEntry,
    pub open: bool,
    pub tags_string: String,
    pub show_error_dialog: bool,
    pub error_message: String,
}

/// The edit window's state with the entry seen through its view.
pub struct EditDialogView {
    pub entry: SoftwareEntryView,
    pub open: bool,
    pub tags_string: String,
    pub show_error_dialog: bool,
    pub error_message: String,
}

impl View for EditDialog {
    type V = EditDialogView;

    open spec fn view(&self) -> EditDialogView {
        EditDialogView {
            entry: self.entry@,
            open: self.open,
            tags_string: self.tags_string,
            show_error_dialog: self.show_error_dialog,
            error_message: self.error_message,
        }
    }
}

impl EditDialog {
    /// Opens the window on `entry`, its tags joined with ", ".
    pub fn new(entry: SoftwareEntry) -> (r: Self)
        ensures
            r.entry@ == entry@,
            r.open,
            r.tags_string@ == join(views(entry.tags@), ", "@),
            !r.show_error_dialog,
            r.error_message@.len() == 0,
    {
        let tags_string = join_strings(&entry.tags, ", ");
        EditDialog { entry, open: true, tags_string, show_error_dialog: false, error_message: String::new() }
    }

    /// The latest-version field was edited: empty means none.
    pub fn set_latest_version(&mut self, text: String)
        ensures
            final(self)@ == (EditDialogView {
                entry: SoftwareEntryView { latest_version: optional_text(text), ..old(self)@.entry },
                ..old(self)@
            }),
    {
        self.entry.latest_version = non_empty(text);
    }

    /// The install-path field was edited: empty means none.
    pub fn set_install_path(&mut self, text: String)
        ensures
            final(self)@ == (EditDialogView {
                entry: SoftwareEntryView { install_path: optional_text(text), ..old(self)@.entry },
                ..old(self)@
            }),
    {
        self.entry.install_path = non_empty(text);
    }

    /// The executable-path field was edited: empty means none.
    pub fn set_executable_path(&mut self, text: String)
        ensures
            final(self)@ == (EditDialogView {
                entry: SoftwareEntryView { executable_path: optional_text(text), ..old(self)@.entry },
                ..old(self)@
            }),
    {
        self.entry.executable_path = non_empty(text);
    }

    /// A folder was chosen as the install path; the executable found in it, if any,
    /// becomes the executable path.
    pub fn set_install_folder(&mut self, folder: String, found_executable: Option<String>)
        ensures
            final(self)@ == (EditDialogView {
                entry: SoftwareEntryView {
                    install_path: Some(folder),
                    executable_path: match found_executable {
                        Some(exe) => Some(exe),
                        None => old(self).entry.executable_path,
                    },
                    ..old(self)@.entry
                },
                ..old(self)@
            }),
    {
        self.entry.install_path = Some(folder);
        if let Some(exe) = found_executable {
            self.entry.executable_path = Some(exe);
        }
    }

    /// An executable (file or folder) was chosen.
    pub fn set_executable(&mut self, path: String)
        ensures
            final(self)@ == (EditDialogView {
                entry: SoftwareEntryView { executable_path: Some(path), ..old(self)@.entry },
                ..old(self)@
            }),
    {
        self.entry.executable_path = Some(path);
    }

    /// Saves ("保存"): a blank name opens the error dialog and gives nothing;
    /// otherwise the tags are parsed from the tag text, the entry is stamped with
    /// `now`, the window closes and the entry is returned.
    pub fn save(&mut self, now: Timestamp) -> (r: Option<SoftwareEntry>)
        ensures
            trim(old(self).entry.name@).len() == 0 ==> ({
                &&& r is None
                &&& final(self)@ == (EditDialogView {
                    show_error_dialog: true,
                    error_message: final(self).error_message,
                    ..old(self)@
                })
                &&& final(self).error_message@ == "软件名称不能为空"@
            }),
            trim(old(self).entry.name@).len() > 0 ==> ({
                &&& r matches Some(e) && e@ == final(self)@.entry
                &&& views(final(self).entry.tags@) == tag_list(old(self).tags_string@)
                &&& final(self)@ == (EditDialogView {
                    entry: SoftwareEntryView {
                        tags: final(self)@.entry.tags,
                        updated_at: now,
                        ..old(self)@.entry
                    },
                    open: false,
                    ..old(self)@
                })
            }),
    {
        if is_blank(self.entry.name.as_str()) {
            self.error_message = String::from_str("软件名称不能为空");
            self.show_error_dialog = true;
            return None;
        }
        self.entry.tags = parse_tags(self.tags_string.as_str());
        self.entry.updated_at = now;
        let r = self.entry.clone();
        self.open = false;
        Some(r)
    }

    /// Cancels ("取消"): the window closes.
    pub fn cancel(&mut self)
        ensures
            final(self)@ == (EditDialogView { open: false, ..old(self)@ }),
    {
        self.open = false;
    }

    /// Closes the error dialog.
    pub fn dismiss_error(&mut self)
        ensures
            final(self)@ == (EditDialogView { show_error_dialog: false, ..old(self)@ }),
    {
        self.show_error_dialog = false;
    }
}

} // verus!
