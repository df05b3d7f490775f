//! The window that creates, edits and deletes tag groups.

use vstd::prelude::*;
use vstd::string::*;
use crate::app::model::{TagGroup, TagGroupView};
use crate::tags::{join, join_strings, parse_tags, tag_list};
use crate::text::{trim, trim_str, is_blank, views};

verus! {

/// The state of the tag-group window.
pub struct TagGroupManager {
    pub groups: Vec<TagGroup>,
    pub open: bool,
    pub editing_group: Option<TagGroup>,
    pub is_creating: bool,
    pub edit_name: String,
    pub edit_tags: String,
    pub show_error: bool,
    pub error_message: String,
    pub pending_delete_id: Option<i64>,
}

/// The tag-group window's state with its groups seen through their views.
pub struct TagGroupManagerView {
    pub groups: Seq<TagGroupView>,
    pub open: bool,
    pub editing_group: Option<TagGroupView>,
    pub is_creating: bool,
    pub edit_name: String,
    pub edit_tags: String,
    pub show_error: bool,
    pub error_message: String,
    pub pending_delete_id: Option<i64>,
}

/// The views of a list of groups.
pub open spec fn group_views(v: Seq<TagGroup>) -> Seq<TagGroupView> {
    v.map_values(|g: TagGroup| g@)
}

impl View for TagGroupManager {
    type V = TagGroupManagerView;

    open spec fn view(&self) -> TagGroupManagerView {
        TagGroupManagerView {
            groups: group_views(self.groups@),
            open: self.open,
            editing_group: match self.editing_group {
                Some(g) => Some(g@),
                None => None,
            },
            is_creating: self.is_creating,
            edit_name: self.edit_name,
            edit_tags: self.edit_tags,
            show_error: self.show_error,
            error_message: self.error_message,
            pending_delete_id: self.pending_delete_id,
        }
    }
}

/// An element-wise copy of a list of groups.
pub fn clone_groups(v: &Vec<TagGroup>) -> (r: Vec<TagGroup>)
    ensures
        group_views(r@) == group_views(v@),
{
    let mut r: Vec<TagGroup> = Vec::new();
    let mut i: usize = 0;
    while i < v.len()
        invariant
            i <= v@.len(),
            r@.len() == i,
            forall|j: int| 0 <= j < i ==> (#[trigger] r@[j])@ == v@[j]@,
        decreases v@.len() - i,
    {
        let g = v[i].clone();
        r.push(g);
        i = i + 1;
    }
    assert(group_views(r@) =~= group_views(v@));
    r
}

impl TagGroupManager {
    /// Opens the window on the stored groups.
    pub fn new(groups: Vec<TagGroup>) -> (r: Self)
        ensures
            r@ == (TagGroupManagerView {
                groups: group_views(groups@),
                open: true,
                editing_group: None,
                is_creating: false,
                edit_name: r.edit_name,
                edit_tags: r.edit_tags,
                show_error: false,
                error_message: r.error_message,
                pending_delete_id: None,
            }),
            r.edit_name@.len() == 0,
            r.edit_tags@.len() == 0,
            r.error_message@.len() == 0,
    {
        TagGroupManager {
            groups,
            open: true,
            editing_group: None,
            is_creating: false,
            edit_name: String::new(),
            edit_tags: String::new(),
            show_error: false,
            error_message: String::new(),
            pending_delete_id: None,
        }
    }

    /// The groups were read again from storage.
    pub fn set_groups(&mut self, groups: Vec<TagGroup>)
        ensures
            final(self)@ == (TagGroupManagerView { groups: group_views(groups@), ..old(self)@ }),
    {
        self.groups = groups;
    }

    /// Takes the group whose deletion was asked for, if any; its id leaves the state.
    pub fn take_pending_delete(&mut self) -> (r: Option<i64>)
        ensures
            r == old(self).pending_delete_id,
            final(self)@ == (TagGroupManagerView { pending_delete_id: None, ..old(self)@ }),
    {
        let r = self.pending_delete_id;
        self.pending_delete_id = None;
        r
    }

    /// Asks for the deletion of `group` (done before the next drawing).
    pub fn request_delete(&mut self, group: &TagGroup)
        ensures
            final(self)@ == (TagGroupManagerView { pending_delete_id: group.id, ..old(self)@ }),
    {
        self.pending_delete_id = group.id;
    }

    /// Starts a new group ("新建组"): no group is edited and the fields are empty.
    pub fn begin_create(&mut self)
        ensures
            final(self)@ == (TagGroupManagerView {
                editing_group: None,
                is_creating: true,
                edit_name: final(self).edit_name,
                edit_tags: final(self).edit_tags,
                ..old(self)@
            }),
            final(self).edit_name@.len() == 0,
            final(self).edit_tags@.len() == 0,
    {
        self.editing_group = None;
        self.is_creating = true;
        self.edit_name = String::new();
        self.edit_tags = String::new();
    }

    /// Starts editing `group`: its name and its tags joined with ", " fill the fields.
    pub fn begin_edit(&mut self, group: &TagGroup)
        ensures
            final(self)@ == (TagGroupManagerView {
                editing_group: Some(group@),
                is_creating: false,
                edit_name: group.name,
                edit_tags: final(self).edit_tags,
                ..old(self)@
            }),
            final(self).edit_tags@ == join(views(group.tags@), ", "@),
    {
        self.editing_group = Some(group.clone());
        self.is_creating = false;
        self.edit_name = group.name.clone();
        self.edit_tags = join_strings(&group.tags, ", ");
    }

    /// Whether the edit fields are shown: a group is edited or created.
    pub fn is_editing(&self) -> (r: bool)
        ensures
            r == (self.editing_group is Some || self.is_creating),
    {
        self.editing_group.is_some() || self.is_creating
    }

    /// Ends editing: no group is edited and the fields are empty.
    pub fn cancel_edit(&mut self)
        ensures
            final(self)@ == (TagGroupManagerView {
                editing_group: None,
                is_creating: false,
                edit_name: final(self).edit_name,
                edit_tags: final(self).edit_tags,
                ..old(self)@
            }),
            final(self).edit_name@.len() == 0,
            final(self).edit_tags@.len() == 0,
    {
        self.editing_group = None;
        self.is_creating = false;
        self.edit_name = String::new();
        self.edit_tags = String::new();
    }

    /// Saves the edited group ("保存"): a blank name shows the error "组名不能为空"
    /// and gives nothing. Otherwise it gives the group to store (the edited group's
    /// id, or none for a new one; the trimmed name; the parsed tags) and editing ends.
    pub fn save(&mut self) -> (r: Option<TagGroup>)
        ensures
            trim(old(self).edit_name@).len() == 0 ==> ({
                &&& r is None
                &&& final(self)@ == (TagGroupManagerView {
                    show_error: true,
                    error_message: final(self).error_message,
                    ..old(self)@
                })
                &&& final(self).error_message@ == "组名不能为空"@
            }),
            trim(old(self).edit_name@).len() > 0 ==> ({
                &&& r matches Some(g) && {
                    &&& g.id == (match old(self).editing_group {
                        Some(e) => e.id,
                        None => None,
                    })
                    &&& g.name@ == trim(old(self).edit_name@)
                    &&& views(g.tags@) == tag_list(old(self).edit_tags@)
                }
                &&& final(self)@ == (TagGroupManagerView {
                    editing_group: None,
                    is_creating: false,
                    edit_name: final(self).edit_name,
                    edit_tags: final(self).edit_tags,
                    ..old(self)@
                })
                &&& final(self).edit_name@.len() == 0
                &&& final(self).edit_tags@.len() == 0
            }),
    {
        if is_blank(self.edit_name.as_str()) {
            self.error_message = String::from_str("组名不能为空");
            self.show_error = true;
            return None;
        }
        let id = match &self.editing_group {
            Some(g) => g.id,
            None => None,
        };
        let group = TagGroup {
            id,
            name: String::from_str(trim_str(self.edit_name.as_str())),
            tags: parse_tags(self.edit_tags.as_str()),
        };
        self.cancel_edit();
        Some(group)
    }

    /// Closes the error dialog.
    pub fn dismiss_error(&mut self)
        ensures
            final(self)@ == (TagGroupManagerView { show_error: false, ..old(self)@ }),
    {
        self.show_error = false;
    }

    /// Closes the window ("关闭").
    pub fn close(&mut self)
        ensures
            final(self)@ == (TagGroupManagerView { open: false, ..old(self)@ }),
    {
        self.open = false;
    }

    /// What the window gives back: the groups once it is closed, else nothing.
    pub fn result(&self) -> (r: Option<Vec<TagGroup>>)
        ensures
            self.open ==> r is None,
            !self.open ==> (r matches Some(g) && group_views(g@) == group_views(self.groups@)),
    {
        if self.open {
            None
        } else {
            Some(clone_groups(&self.groups))
        }
    }
}

} // verus!
