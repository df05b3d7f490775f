//! The main window: the list of entries with its filters, the update checks and
//! the confirmations. Drawing and storage are done by the caller; this is the
//! state and every decision it takes.

use vstd::prelude::*;
use vstd::string::*;
use crate::app::model::{
    SoftwareEntry, SoftwareEntryView, TagGroup, TagGroupView, Settings, Timestamp, whole_hours, nanos_between, clone_strings,
};
use crate::gui::tag_group_manager::group_views;
use crate::app::updater::Updater;
use crate::text::{
    views, lex_order, compare_str, lemma_lex_order_antisymmetric, lemma_lex_order_transitive, has_infix,
    lowercase, to_lowercase, chars_of, contains_chars, str_eq, decimal, decimal_string, lemma_to_set_push,
    lemma_filter_ne_to_set, lemma_push_no_duplicates, lemma_filter_no_duplicates,
};
use crate::gui::widgets;

verus! {

/// The set of texts in a list of strings.
pub open spec fn text_set(v: Seq<String>) -> Set<Seq<char>> {
    views(v).to_set()
}

/// Whether the texts are in strictly increasing `str` order (so sorted, no repeats).
pub open spec fn strictly_sorted(s: Seq<Seq<char>>) -> bool {
    forall|i: int, j: int| 0 <= i < j < s.len() ==> lex_order(#[trigger] s[i], #[trigger] s[j]) == -1
}

/// Whether `t` is a tag of one of the entries.
pub open spec fn is_tag_of(entries: Seq<SoftwareEntry>, t: Seq<char>) -> bool {
    exists|i: int| 0 <= i < entries.len() && views(#[trigger] entries[i].tags@).contains(t)
}

/// Whether an entry's text fields match the search text, case-insensitively:
/// an empty search matches everything.
pub open spec fn text_matches(e: SoftwareEntryView, filter: Seq<char>) -> bool {
    let f = lowercase(filter);
    ||| filter.len() == 0
    ||| has_infix(lowercase(e.name@), f)
    ||| has_infix(lowercase(e.alias@), f)
    ||| has_infix(lowercase(e.notes@), f)
    ||| exists|k: int| 0 <= k < e.tags.len() && has_infix(lowercase((#[trigger] e.tags[k])@), f)
}

/// Whether an entry carries one of the selected tags; with none selected every
/// entry does.
pub open spec fn tags_match(e: SoftwareEntryView, selected: Seq<String>) -> bool {
    selected.len() == 0 || exists|k: int| 0 <= k < e.tags.len() && text_set(selected).contains((#[trigger] e.tags[k])@)
}

/// Whether an entry is shown: it matches the search text and the selected tags.
pub open spec fn entry_shown(e: SoftwareEntryView, filter: Seq<char>, selected: Seq<String>) -> bool {
    text_matches(e, filter) && tags_match(e, selected)
}

/// What the search shows, field by field. With the selected tags matched (none
/// selected, or one of the entry's tags selected), an entry is shown where the
/// search text is empty, or where the lower-cased search text occurs in the
/// lower-cased name, alias, notes or any one tag. Nothing else is shown: a shown
/// entry matched the search in one of those places, and carries a selected tag
/// where any is selected.
pub proof fn lemma_search_fields(e: SoftwareEntryView, filter: Seq<char>, selected: Seq<String>)
    ensures
        ({
            let tags_ok = selected.len() == 0 || exists|k: int, j: int|
                0 <= k < e.tags.len() && 0 <= j < selected.len() && (#[trigger] e.tags[k])@ == (#[trigger] selected[j])@;
            let f = lowercase(filter);
            &&& tags_ok && filter.len() == 0 ==> entry_shown(e, filter, selected)
            &&& tags_ok && has_infix(lowercase(e.name@), f) ==> entry_shown(e, filter, selected)
            &&& tags_ok && has_infix(lowercase(e.alias@), f) ==> entry_shown(e, filter, selected)
            &&& tags_ok && has_infix(lowercase(e.notes@), f) ==> entry_shown(e, filter, selected)
            &&& forall|k: int| 0 <= k < e.tags.len() && tags_ok && has_infix(lowercase((#[trigger] e.tags[k])@), f)
                ==> entry_shown(e, filter, selected)
            &&& entry_shown(e, filter, selected) ==> tags_ok
            &&& entry_shown(e, filter, selected) ==> (filter.len() == 0 || has_infix(lowercase(e.name@), f)
                || has_infix(lowercase(e.alias@), f) || has_infix(lowercase(e.notes@), f) || exists|k: int|
                0 <= k < e.tags.len() && has_infix(lowercase((#[trigger] e.tags[k])@), f))
        }),
{
    let tags_ok = selected.len() == 0 || exists|k: int, j: int|
        0 <= k < e.tags.len() && 0 <= j < selected.len() && (#[trigger] e.tags[k])@ == (#[trigger] selected[j])@;
    if tags_ok && selected.len() > 0 {
        let (k, j) = choose|k: int, j: int|
            0 <= k < e.tags.len() && 0 <= j < selected.len() && (#[trigger] e.tags[k])@ == (#[trigger] selected[j])@;
        assert(views(selected)[j] == selected[j]@);
        assert(text_set(selected).contains(e.tags[k]@));
    }
    if tags_match(e, selected) && selected.len() > 0 {
        let k = choose|k: int| 0 <= k < e.tags.len() && text_set(selected).contains((#[trigger] e.tags[k])@);
        let j = choose|j: int| 0 <= j < views(selected).len() && views(selected)[j] == e.tags[k]@;
        assert(selected[j]@ == e.tags[k]@);
    }
}

/// When the automatic check is due: never with an interval of 0; always where no
/// check was ever made; otherwise exactly when at least the interval, in hours, has
/// passed since the last check (to the nanosecond). Intervals beyond `i64::MAX`
/// hours are left out: the hour count is compared as an `i64`, where they wrap.
pub proof fn lemma_check_due_meaning(interval_hours: u64, last: Option<Timestamp>, now: Timestamp)
    requires
        interval_hours <= 0x7fff_ffff_ffff_ffff,
    ensures
        interval_hours == 0 ==> !check_due(interval_hours, last, now),
        interval_hours > 0 && last is None ==> check_due(interval_hours, last, now),
        forall|l: Timestamp| interval_hours > 0 && last == Some(l) ==> (check_due(interval_hours, last, now) <==> (
        now.seconds - l.seconds) * 1_000_000_000 + (now.nanos - l.nanos) >= interval_hours * 3_600_000_000_000),
{
    assert forall|l: Timestamp| interval_hours > 0 && last == Some(l) implies (check_due(interval_hours, last, now)
        <==> (now.seconds - l.seconds) * 1_000_000_000 + (now.nanos - l.nanos) >= interval_hours
        * 3_600_000_000_000) by {
        let d = nanos_between(l, now);
        let n = interval_hours as int;
        assert((interval_hours as i64) as int == n);
        if d >= 0 {
            assert((d / 3_600_000_000_000 >= n) == (d >= n * 3_600_000_000_000)) by (nonlinear_arith)
                requires
                    d >= 0,
                    n >= 1,
            ;
        } else {
            assert(-((-d) / 3_600_000_000_000) <= 0) by (nonlinear_arith)
                requires
                    d < 0,
            ;
        }
    }
}

/// Which texts are tags of a list of entries: every tag of every entry, and
/// nothing else.
pub proof fn lemma_tag_of_meaning(entries: Seq<SoftwareEntry>, t: Seq<char>)
    ensures
        forall|i: int, k: int| 0 <= i < entries.len() && 0 <= k < entries[i].tags@.len() ==> is_tag_of(
            entries,
            (#[trigger] entries[i].tags@[k])@,
        ),
        is_tag_of(entries, t) ==> exists|i: int, k: int|
            0 <= i < entries.len() && 0 <= k < entries[i].tags@.len() && (#[trigger] entries[i].tags@[k])@ == t,
{
    assert forall|i: int, k: int| 0 <= i < entries.len() && 0 <= k < entries[i].tags@.len() implies is_tag_of(
        entries,
        (#[trigger] entries[i].tags@[k])@,
    ) by {
        assert(views(entries[i].tags@)[k] == entries[i].tags@[k]@);
    }
    if is_tag_of(entries, t) {
        let i = choose|i: int| 0 <= i < entries.len() && views(#[trigger] entries[i].tags@).contains(t);
        let k = choose|k: int| 0 <= k < views(entries[i].tags@).len() && views(entries[i].tags@)[k] == t;
        assert(entries[i].tags@[k]@ == t);
    }
}

/// With no search text and no tag selected every entry is shown, in order.
pub proof fn lemma_no_filter_shows_all(entries: Seq<SoftwareEntryView>)
    ensures
        entries.filter(|e: SoftwareEntryView| entry_shown(e, Seq::<char>::empty(), Seq::<String>::empty())) == entries,
    decreases entries.len(),
{
    reveal_with_fuel(Seq::filter, 1);
    let p = |e: SoftwareEntryView| entry_shown(e, Seq::<char>::empty(), Seq::<String>::empty());
    if entries.len() > 0 {
        lemma_no_filter_shows_all(entries.drop_last());
        assert(p(entries.last()));
        assert(entries.drop_last().push(entries.last()) =~= entries);
    } else {
        assert(entries.filter(p) =~= entries);
    }
}

/// How one update check ended.
pub enum UpdateOutcome {
    /// A newer version was found.
    Newer(String),
    /// The installed version is the latest.
    UpToDate,
    /// The check failed with this message.
    Failed(String),
}

/// The state of the main window.
pub struct MainWindow {
    pub entries: Vec<SoftwareEntry>,
    pub filter_text: String,
    pub selected_tags: Vec<String>,
    pub all_tags: Vec<String>,
    pub tag_groups: Vec<TagGroup>,
    pub show_add_wizard: bool,
    pub show_tag_group_manager: bool,
    pub show_delete_confirm: bool,
    pub pending_delete_id: Option<i64>,
    pub pending_delete_name: String,
    pub updater: Updater,
    pub check_all_in_progress: bool,
    pub check_single_in_progress: Vec<i64>,
    pub last_check_time: Option<Timestamp>,
    pub auto_check_interval_hours: u64,
    pub show_update_toast: bool,
    pub update_messages: Vec<String>,
    pub first_frame: bool,
}

/// The main window's state with its lists seen as sequences.
pub struct MainWindowView {
    pub entries: Seq<SoftwareEntryView>,
    pub filter_text: String,
    pub selected_tags: Seq<String>,
    pub all_tags: Seq<String>,
    pub tag_groups: Seq<TagGroupView>,
    pub show_add_wizard: bool,
    pub show_tag_group_manager: bool,
    pub show_delete_confirm: bool,
    pub pending_delete_id: Option<i64>,
    pub pending_delete_name: String,
    pub updater: Updater,
    pub check_all_in_progress: bool,
    pub check_single_in_progress: Seq<i64>,
    pub last_check_time: Option<Timestamp>,
    pub auto_check_interval_hours: u64,
    pub show_update_toast: bool,
    pub update_messages: Seq<String>,
    pub first_frame: bool,
}

/// The views of a list of entries.
pub open spec fn entry_views(v: Seq<SoftwareEntry>) -> Seq<SoftwareEntryView> {
    v.map_values(|e: SoftwareEntry| e@)
}

impl View for MainWindow {
    type V = MainWindowView;

    open spec fn view(&self) -> MainWindowView {
        MainWindowView {
            entries: entry_views(self.entries@),
            filter_text: self.filter_text,
            selected_tags: self.selected_tags@,
            all_tags: self.all_tags@,
            tag_groups: group_views(self.tag_groups@),
            show_add_wizard: self.show_add_wizard,
            show_tag_group_manager: self.show_tag_group_manager,
            show_delete_confirm: self.show_delete_confirm,
            pending_delete_id: self.pending_delete_id,
            pending_delete_name: self.pending_delete_name,
            updater: self.updater,
            check_all_in_progress: self.check_all_in_progress,
            check_single_in_progress: self.check_single_in_progress@,
            last_check_time: self.last_check_time,
            auto_check_interval_hours: self.auto_check_interval_hours,
            show_update_toast: self.show_update_toast,
            update_messages: self.update_messages@,
            first_frame: self.first_frame,
        }
    }
}

/// Whether the automatic check is due: the interval is not 0, and either no check
/// was ever made or at least the interval has passed since the last one.
pub open spec fn check_due(interval_hours: u64, last: Option<Timestamp>, now: Timestamp) -> bool {
    interval_hours > 0 && match last {
        Some(l) => whole_hours(l, now) >= (interval_hours as i64),
        None => true,
    }
}

/// The line shown for one found update: "name -> version".
pub open spec fn update_line(name: Seq<char>, version: Seq<char>) -> Seq<char> {
    name + " -> "@ + version
}

/// The message of a finished single check.
pub open spec fn outcome_message(name: Seq<char>, outcome: UpdateOutcome) -> Seq<char> {
    match outcome {
        UpdateOutcome::Newer(v) => name + " 有新版本: "@ + v@,
        UpdateOutcome::UpToDate => name + " 已是最新"@,
        UpdateOutcome::Failed(m) => name + " 检查失败: "@ + m@,
    }
}

/// Whether `k` is the first position of an entry with `id`.
pub open spec fn first_with_id(entries: Seq<SoftwareEntry>, id: i64, k: int) -> bool {
    &&& 0 <= k < entries.len()
    &&& entries[k].id == Some(id)
    &&& forall|j: int| 0 <= j < k ==> (#[trigger] entries[j]).id != Some(id)
}

/// Whether `v` holds the text `s`.
pub fn contains_text(v: &Vec<String>, s: &str) -> (r: bool)
    ensures
        r == views(v@).contains(s@),
{
    let mut i: usize = 0;
    while i < v.len()
        invariant
            i <= v@.len(),
            forall|j: int| 0 <= j < i ==> v@[j]@ != s@,
        decreases v@.len() - i,
    {
        if str_eq(v[i].as_str(), s) {
            assert(views(v@)[i as int] == s@);
            return true;
        }
        i = i + 1;
    }
    proof {
        if views(v@).contains(s@) {
            let j = choose|j: int| 0 <= j < views(v@).len() && views(v@)[j] == s@;
            assert(v@[j]@ == s@);
        }
    }
    false
}

/// Whether `v` holds `x`.
fn contains_id(v: &Vec<i64>, x: i64) -> (r: bool)
    ensures
        r == v@.contains(x),
{
    let mut i: usize = 0;
    while i < v.len()
        invariant
            i <= v@.len(),
            forall|j: int| 0 <= j < i ==> v@[j] != x,
        decreases v@.len() - i,
    {
        if v[i] == x {
            return true;
        }
        i = i + 1;
    }
    false
}

/// Inserts `t` into a strictly sorted list, unless it is there already.
fn insert_sorted(v: &mut Vec<String>, t: &String)
    requires
        strictly_sorted(views(old(v)@)),
    ensures
        strictly_sorted(views(final(v)@)),
        views(final(v)@).to_set() == views(old(v)@).to_set().insert(t@),
{
    let ghost old_v = views(v@);
    let n = v.len();
    let mut k: usize = 0;
    while k < n && compare_str(v[k].as_str(), t.as_str()) < 0
        invariant
            k <= n,
            n == v@.len(),
            views(v@) == old_v,
            forall|j: int| 0 <= j < k ==> lex_order(#[trigger] old_v[j], t@) == -1,
        decreases n - k,
    {
        proof {
            assert(old_v[k as int] == v@[k as int]@);
        }
        k = k + 1;
    }
    if k < n && compare_str(v[k].as_str(), t.as_str()) == 0 {
        proof {
            assert(old_v[k as int] == v@[k as int]@);
            lemma_lex_order_antisymmetric(old_v[k as int], t@);
            assert(old_v.to_set().insert(t@) =~= old_v.to_set());
        }
        return;
    }
    proof {
        if k < n {
            assert(old_v[k as int] == v@[k as int]@);
            lemma_lex_order_antisymmetric(old_v[k as int], t@);
        }
    }
    v.insert(k, t.clone());
    proof {
        let nv = views(v@);
        assert(nv =~= old_v.insert(k as int, t@));
        assert forall|a: int, b: int| 0 <= a < b < nv.len() implies lex_order(#[trigger] nv[a], #[trigger] nv[b])
            == -1 by {
            if b < k {
            } else if b == k {
            } else if a < k {
                assert(lex_order(old_v[a], old_v[b - 1]) == -1);
            } else if a == k {
                if b - 1 > k {
                    assert(lex_order(old_v[k as int], old_v[b - 1]) == -1);
                    lemma_lex_order_transitive(t@, old_v[k as int], old_v[b - 1]);
                }
            } else {
                assert(lex_order(old_v[a - 1], old_v[b - 1]) == -1);
            }
        }
        assert(nv.to_set() =~= old_v.to_set().insert(t@)) by {
            assert forall|x: Seq<char>| nv.to_set().contains(x) <==> old_v.to_set().insert(t@).contains(x) by {
                if nv.contains(x) {
                    let j = choose|j: int| 0 <= j < nv.len() && nv[j] == x;
                    if j < k {
                        assert(old_v[j] == x);
                    } else if j > k {
                        assert(old_v[j - 1] == x);
                    }
                }
                if old_v.contains(x) {
                    let j = choose|j: int| 0 <= j < old_v.len() && old_v[j] == x;
                    if j < k {
                        assert(nv[j] == x);
                    } else {
                        assert(nv[j + 1] == x);
                    }
                }
                if x == t@ {
                    assert(nv[k as int] == x);
                }
            }
        }
    }
}

impl MainWindow {
    /// Every tag of the entries, once each, in `str` order.
    pub fn extract_all_tags(entries: &[SoftwareEntry]) -> (r: Vec<String>)
        ensures
            strictly_sorted(views(r@)),
            forall|t: Seq<char>| views(r@).contains(t) <==> is_tag_of(entries@, t),
    {
        let mut r: Vec<String> = Vec::new();
        let mut i: usize = 0;
        while i < entries.len()
            invariant
                i <= entries@.len(),
                strictly_sorted(views(r@)),
                views(r@).to_set() == Set::new(|t: Seq<char>| is_tag_of(entries@.take(i as int), t)),
            decreases entries@.len() - i,
        {
            let tags = &entries[i].tags;
            let mut j: usize = 0;
            while j < tags.len()
                invariant
                    i < entries@.len(),
                    *tags == entries@[i as int].tags,
                    j <= tags@.len(),
                    strictly_sorted(views(r@)),
                    views(r@).to_set() == Set::new(|t: Seq<char>| is_tag_of(entries@.take(i as int), t)).union(
                        views(tags@).take(j as int).to_set(),
                    ),
                decreases tags@.len() - j,
            {
                let ghost before = views(r@).to_set();
                insert_sorted(&mut r, &tags[j]);
                proof {
                    let prev = Set::new(|t: Seq<char>| is_tag_of(entries@.take(i as int), t));
                    assert(views(tags@).take(j + 1) =~= views(tags@).take(j as int).push(tags@[j as int]@));
                    assert(views(tags@).take(j + 1).to_set() =~= views(tags@).take(j as int).to_set().insert(
                        tags@[j as int]@,
                    )) by {
                        let a = views(tags@).take(j + 1);
                        let b = views(tags@).take(j as int);
                        assert forall|x: Seq<char>| a.contains(x) <==> b.contains(x) || x == tags@[j as int]@ by {
                            if a.contains(x) {
                                let q = choose|q: int| 0 <= q < a.len() && a[q] == x;
                                if q < j {
                                    assert(b[q] == x);
                                }
                            }
                            if b.contains(x) {
                                let q = choose|q: int| 0 <= q < b.len() && b[q] == x;
                                assert(a[q] == x);
                            }
                            if x == tags@[j as int]@ {
                                assert(a[j as int] == x);
                            }
                        }
                    }
                    assert(views(r@).to_set() =~= prev.union(views(tags@).take(j + 1).to_set()));
                }
                j = j + 1;
            }
            proof {
                let es = entries@;
                assert(views(tags@).take(j as int) =~= views(tags@));
                assert forall|t: Seq<char>| is_tag_of(es.take(i + 1), t) <==> is_tag_of(es.take(i as int), t)
                    || views(tags@).contains(t) by {
                    if is_tag_of(es.take(i + 1), t) {
                        let q = choose|q: int| 0 <= q < es.take(i + 1).len() && views(
                            (#[trigger] es.take(i + 1)[q]).tags@,
                        ).contains(t);
                        if q < i {
                            assert(es.take(i as int)[q] == es[q]);
                        }
                    }
                    if is_tag_of(es.take(i as int), t) {
                        let q = choose|q: int| 0 <= q < es.take(i as int).len() && views(
                            (#[trigger] es.take(i as int)[q]).tags@,
                        ).contains(t);
                        assert(es.take(i + 1)[q] == es[q]);
                    }
                    if views(tags@).contains(t) {
                        assert(es.take(i + 1)[i as int] == es[i as int]);
                    }
                }
                assert(views(r@).to_set() =~= Set::new(|t: Seq<char>| is_tag_of(es.take(i + 1), t)));
            }
            i = i + 1;
        }
        proof {
            assert(entries@.take(i as int) =~= entries@);
            assert forall|t: Seq<char>| views(r@).contains(t) <==> is_tag_of(entries@, t) by {
                assert(views(r@).to_set().contains(t) == views(r@).contains(t));
            }
        }
        r
    }

    /// Whether `e` matches the search text, given the lower-cased search text.
    fn entry_text_matches(e: &SoftwareEntry, filter: &str, lower_filter: &Vec<char>) -> (r: bool)
        requires
            lower_filter@ == lowercase(filter@),
        ensures
            r == text_matches(e@, filter@),
    {
        if filter.unicode_len() == 0 {
            return true;
        }
        if contains_chars(&chars_of(to_lowercase(e.name.as_str()).as_str()), lower_filter) {
            return true;
        }
        if contains_chars(&chars_of(to_lowercase(e.alias.as_str()).as_str()), lower_filter) {
            return true;
        }
        if contains_chars(&chars_of(to_lowercase(e.notes.as_str()).as_str()), lower_filter) {
            return true;
        }
        let mut k: usize = 0;
        while k < e.tags.len()
            invariant
                k <= e.tags@.len(),
                lower_filter@ == lowercase(filter@),
                forall|j: int| 0 <= j < k ==> !has_infix(lowercase((#[trigger] e@.tags[j])@), lower_filter@),
            decreases e.tags@.len() - k,
        {
            let lt = to_lowercase(e.tags[k].as_str());
            let lc = chars_of(lt.as_str());
            assert(lc@ == lowercase(e.tags@[k as int]@));
            if contains_chars(&lc, lower_filter) {
                assert(has_infix(lc@, lower_filter@));
                assert(e@.tags[k as int] == e.tags@[k as int]);
                assert(lc@ == lowercase(e@.tags[k as int]@));
                assert(has_infix(lowercase(e@.tags[k as int]@), lowercase(filter@)));
                return true;
            }
            assert(e@.tags[k as int] == e.tags@[k as int]);
            k = k + 1;
        }
        false
    }

    /// Whether `e` carries one of the selected tags (any, where none is selected).
    fn entry_tags_match(e: &SoftwareEntry, selected: &Vec<String>) -> (r: bool)
        ensures
            r == tags_match(e@, selected@),
    {
        if selected.len() == 0 {
            return true;
        }
        let mut k: usize = 0;
        while k < e.tags.len()
            invariant
                k <= e.tags@.len(),
                forall|j: int| 0 <= j < k ==> !text_set(selected@).contains((#[trigger] e.tags@[j])@),
            decreases e.tags@.len() - k,
        {
            if contains_text(selected, e.tags[k].as_str()) {
                assert(text_set(selected@).contains(e.tags@[k as int]@));
                assert(e@.tags[k as int] == e.tags@[k as int]);
                return true;
            }
            k = k + 1;
        }
        false
    }

    /// The entries shown with the current search text and tag selection, in order.
    pub fn filtered_entries(&self) -> (r: Vec<&SoftwareEntry>)
        ensures
            r@.map_values(|e: &SoftwareEntry| e@) == self.entries@.map_values(|e: SoftwareEntry| e@).filter(
                |e: SoftwareEntryView| entry_shown(e, self.filter_text@, self.selected_tags@),
            ),
    {
        let lower_filter = chars_of(to_lowercase(self.filter_text.as_str()).as_str());
        let ghost all = self.entries@.map_values(|e: SoftwareEntry| e@);
        let ghost pred = |e: SoftwareEntryView| entry_shown(e, self.filter_text@, self.selected_tags@);
        let mut r: Vec<&SoftwareEntry> = Vec::new();
        let mut i: usize = 0;
        while i < self.entries.len()
            invariant
                i <= self.entries@.len(),
                lower_filter@ == lowercase(self.filter_text@),
                all == self.entries@.map_values(|e: SoftwareEntry| e@),
                pred == (|e: SoftwareEntryView| entry_shown(e, self.filter_text@, self.selected_tags@)),
                r@.map_values(|e: &SoftwareEntry| e@) == all.take(i as int).filter(pred),
            decreases self.entries@.len() - i,
        {
            let e = &self.entries[i];
            proof {
                assert(all.take(i + 1).drop_last() =~= all.take(i as int));
                assert(all.take(i + 1).last() == e@);
                reveal_with_fuel(Seq::filter, 1);
            }
            let ghost before = r@;
            let tm = Self::entry_text_matches(e, self.filter_text.as_str(), &lower_filter);
            let gm = Self::entry_tags_match(e, &self.selected_tags);
            proof {
                assert(tm == text_matches(e@, self.filter_text@));
                assert(pred(e@) == (tm && gm));
            }
            if tm && gm {
                r.push(e);
                proof {
                    assert(r@.map_values(|e: &SoftwareEntry| e@) =~= before.map_values(|e: &SoftwareEntry| e@).push(
                        e@,
                    ));
                }
            }
            i = i + 1;
        }
        proof {
            assert(all.take(i as int) =~= all);
        }
        r
    }

    /// The window's starting state: the stored entries and groups, the tags of the
    /// entries, and the settings, where they could be read (else no token, a
    /// 24-hour interval and no last check).
    pub fn new(entries: Vec<SoftwareEntry>, tag_groups: Vec<TagGroup>, settings: Option<Settings>) -> (r: Self)
        ensures
            r@.entries == entry_views(entries@),
            r@.tag_groups == group_views(tag_groups@),
            strictly_sorted(views(r.all_tags@)),
            forall|t: Seq<char>| views(r.all_tags@).contains(t) <==> is_tag_of(entries@, t),
            r.filter_text@.len() == 0,
            r.selected_tags@.len() == 0,
            !r.show_add_wizard,
            !r.show_tag_group_manager,
            !r.show_delete_confirm,
            r.pending_delete_id is None,
            r.pending_delete_name@.len() == 0,
            !r.check_all_in_progress,
            r.check_single_in_progress@.len() == 0,
            !r.show_update_toast,
            r.update_messages@.len() == 0,
            r.first_frame,
            match settings {
                Some(s) => {
                    &&& r.updater.client().token() == s.github_token
                    &&& r.auto_check_interval_hours == s.auto_check_interval_hours
                    &&& r.last_check_time == s.last_check_time
                },
                None => {
                    &&& r.updater.client().token() is None
                    &&& r.auto_check_interval_hours == 24
                    &&& r.last_check_time is None
                },
            },
    {
        let all_tags = Self::extract_all_tags(entries.as_slice());
        let (token, interval, last_check) = match settings {
            Some(s) => (s.github_token, s.auto_check_interval_hours, s.last_check_time),
            None => (None, 24, None),
        };
        MainWindow {
            entries,
            filter_text: String::new(),
            selected_tags: Vec::new(),
            all_tags,
            tag_groups,
            show_add_wizard: false,
            show_tag_group_manager: false,
            show_delete_confirm: false,
            pending_delete_id: None,
            pending_delete_name: String::new(),
            updater: Updater::new(token),
            check_all_in_progress: false,
            check_single_in_progress: Vec::new(),
            last_check_time: last_check,
            auto_check_interval_hours: interval,
            show_update_toast: false,
            update_messages: Vec::new(),
            first_frame: true,
        }
    }

    /// The entries were read again: they replace the list and its tags.
    pub fn reload(&mut self, entries: Vec<SoftwareEntry>)
        ensures
            final(self)@ == (MainWindowView {
                entries: entry_views(entries@),
                all_tags: final(self)@.all_tags,
                ..old(self)@
            }),
            strictly_sorted(views(final(self).all_tags@)),
            forall|t: Seq<char>| views(final(self).all_tags@).contains(t) <==> is_tag_of(entries@, t),
    {
        self.all_tags = Self::extract_all_tags(entries.as_slice());
        self.entries = entries;
    }

    /// The tag groups were read again.
    pub fn set_tag_groups(&mut self, groups: Vec<TagGroup>)
        ensures
            final(self)@ == (MainWindowView { tag_groups: group_views(groups@), ..old(self)@ }),
    {
        self.tag_groups = groups;
    }

    /// The search text was edited.
    pub fn set_filter_text(&mut self, text: String)
        ensures
            final(self)@ == (MainWindowView { filter_text: text, ..old(self)@ }),
    {
        self.filter_text = text;
    }

    /// Starts a check of every entry unless one is running; says whether it started.
    pub fn begin_check_all(&mut self) -> (r: bool)
        ensures
            r == !old(self).check_all_in_progress,
            final(self)@ == (MainWindowView { check_all_in_progress: true, ..old(self)@ }),
    {
        if self.check_all_in_progress {
            return false;
        }
        self.check_all_in_progress = true;
        true
    }

    /// On the first frame only: decides whether the automatic check is due at
    /// `now` and, if so, starts it. Says whether a check started.
    pub fn first_frame_check(&mut self, now: Timestamp) -> (r: bool)
        ensures
            !old(self).first_frame ==> (!r && final(self)@ == old(self)@),
            old(self).first_frame ==> ({
                let due = check_due(old(self).auto_check_interval_hours, old(self).last_check_time, now);
                &&& r == (due && !old(self).check_all_in_progress)
                &&& final(self)@ == (MainWindowView {
                    first_frame: false,
                    check_all_in_progress: old(self).check_all_in_progress || due,
                    ..old(self)@
                })
            }),
    {
        if !self.first_frame {
            return false;
        }
        self.first_frame = false;
        if self.auto_check_interval_hours > 0 {
            let should_check = match &self.last_check_time {
                Some(last) => now.hours_since(last) >= self.auto_check_interval_hours as i64,
                None => true,
            };
            if should_check {
                return self.begin_check_all();
            }
        }
        false
    }

    /// Starts a check of the entry with `id` unless one is running for it. Gives the
    /// first entry with that id; where there is none the check ends at once.
    pub fn begin_check_single(&mut self, id: i64) -> (r: Option<SoftwareEntry>)
        ensures
            old(self).check_single_in_progress@.no_duplicates() ==> final(self).check_single_in_progress@.no_duplicates(),
            old(self).check_single_in_progress@.contains(id) ==> (r is None && final(self)@ == old(self)@),
            !old(self).check_single_in_progress@.contains(id) ==> ({
                &&& (exists|k: int| 0 <= k < old(self).entries@.len() && (#[trigger] old(self).entries@[k]).id == Some(id))
                    ==> ({
                    &&& exists|k: int| first_with_id(old(self).entries@, id, k) && (r matches Some(e) && e@ == old(
                        self,
                    ).entries@[k]@)
                    &&& final(self)@ == (MainWindowView {
                        check_single_in_progress: old(self).check_single_in_progress@.push(id),
                        ..old(self)@
                    })
                })
                &&& !(exists|k: int| 0 <= k < old(self).entries@.len() && (#[trigger] old(self).entries@[k]).id == Some(id))
                    ==> (r is None && final(self)@ == old(self)@)
            }),
    {
        if contains_id(&self.check_single_in_progress, id) {
            return None;
        }
        let mut k: usize = 0;
        while k < self.entries.len()
            invariant
                k <= self.entries@.len(),
                self@ == old(self)@,
                self.entries@ == old(self).entries@,
                !old(self).check_single_in_progress@.contains(id),
                forall|j: int| 0 <= j < k ==> (#[trigger] self.entries@[j]).id != Some(id),
            decreases self.entries@.len() - k,
        {
            if self.entries[k].id == Some(id) {
                let e = self.entries[k].clone();
                self.check_single_in_progress.push(id);
                proof {
                    if old(self).check_single_in_progress@.no_duplicates() {
                        lemma_push_no_duplicates(old(self).check_single_in_progress@, id);
                    }
                    assert(first_with_id(old(self).entries@, id, k as int));
                }
                return Some(e);
            }
            k = k + 1;
        }
        None
    }

    /// The message and the update lines after checking every entry, given the
    /// updates found as (id, name, version).
    pub fn summarize_updates(updated: &Vec<(i64, String, String)>) -> (r: (String, Vec<String>))
        ensures
            updated@.len() == 0 ==> r.0@ == "所有软件已是最新"@,
            updated@.len() > 0 ==> r.0@ == "发现 "@ + decimal(updated@.len()) + " 个更新"@,
            r.1@.len() == updated@.len(),
            forall|i: int| 0 <= i < updated@.len() ==> (#[trigger] r.1@[i])@ == update_line(
                updated@[i].1@,
                updated@[i].2@,
            ),
    {
        let mut lines: Vec<String> = Vec::new();
        let mut i: usize = 0;
        while i < updated.len()
            invariant
                i <= updated@.len(),
                lines@.len() == i,
                forall|j: int| 0 <= j < i ==> (#[trigger] lines@[j])@ == update_line(updated@[j].1@, updated@[j].2@),
            decreases updated@.len() - i,
        {
            let mut line = updated[i].1.clone();
            line.append(" -> ");
            line.append(updated[i].2.as_str());
            lines.push(line);
            i = i + 1;
        }
        if updated.len() == 0 {
            (String::from_str("所有软件已是最新"), lines)
        } else {
            let mut msg = String::from_str("发现 ");
            let count = decimal_string(updated.len() as u64);
            msg.append(count.as_str());
            msg.append(" 个更新");
            (msg, lines)
        }
    }

    /// The message for a finished check of the entry called `name`.
    pub fn single_update_message(name: &str, outcome: &UpdateOutcome) -> (r: String)
        ensures
            r@ == outcome_message(name@, *outcome),
    {
        let mut m = String::from_str(name);
        match outcome {
            UpdateOutcome::Newer(v) => {
                m.append(" 有新版本: ");
                m.append(v.as_str());
            },
            UpdateOutcome::UpToDate => {
                m.append(" 已是最新");
            },
            UpdateOutcome::Failed(e) => {
                m.append(" 检查失败: ");
                m.append(e.as_str());
            },
        }
        m
    }

    /// The check of every entry ended with these update lines; the entries were read
    /// again. The lines are shown, the check is over, the list and its tags follow.
    pub fn finish_check_all(&mut self, lines: Vec<String>, entries: Vec<SoftwareEntry>)
        ensures
            final(self)@ == (MainWindowView {
                update_messages: lines@,
                show_update_toast: true,
                check_all_in_progress: false,
                entries: entry_views(entries@),
                all_tags: final(self)@.all_tags,
                ..old(self)@
            }),
            forall|t: Seq<char>| views(final(self).all_tags@).contains(t) <==> is_tag_of(entries@, t),
            strictly_sorted(views(final(self).all_tags@)),
    {
        self.update_messages = lines;
        self.show_update_toast = true;
        self.check_all_in_progress = false;
        self.reload(entries);
    }

    /// A single check ended with `message`; the entries were read again. The message
    /// is added, every single check is over and the list follows (its tags stay).
    pub fn finish_check_single(&mut self, message: String, entries: Vec<SoftwareEntry>)
        ensures
            final(self)@ == (MainWindowView {
                update_messages: old(self).update_messages@.push(message),
                show_update_toast: true,
                check_single_in_progress: Seq::empty(),
                entries: entry_views(entries@),
                ..old(self)@
            }),
    {
        self.update_messages.push(message);
        self.show_update_toast = true;
        self.check_single_in_progress = Vec::new();
        self.entries = entries;
        proof {
            assert(self@.check_single_in_progress =~= Seq::<i64>::empty());
        }
    }

    /// Records the time of the last check.
    pub fn set_last_check_time(&mut self, time: Timestamp)
        ensures
            final(self)@ == (MainWindowView { last_check_time: Some(time), ..old(self)@ }),
    {
        self.last_check_time = Some(time);
    }

    /// Whether the update results are shown: they were asked for and there is one.
    pub fn shows_update_results(&self) -> (r: bool)
        ensures
            r == (self.show_update_toast && self.update_messages@.len() > 0),
    {
        self.show_update_toast && self.update_messages.len() > 0
    }

    /// Closes the update results ("确定").
    pub fn dismiss_update_results(&mut self)
        ensures
            final(self)@ == (MainWindowView { show_update_toast: false, update_messages: Seq::empty(), ..old(self)@ }),
    {
        self.show_update_toast = false;
        self.update_messages = Vec::new();
        proof {
            assert(self@.update_messages =~= Seq::<String>::empty());
        }
    }

    /// Whether a check is running (the "正在检查" window is shown).
    pub fn check_in_progress(&self) -> (r: bool)
        ensures
            r == (self.check_all_in_progress || self.check_single_in_progress@.len() > 0),
    {
        self.check_all_in_progress || self.check_single_in_progress.len() > 0
    }

    /// Unselects every tag ("清除所有").
    pub fn clear_selected_tags(&mut self)
        ensures
            final(self)@ == (MainWindowView { selected_tags: Seq::empty(), ..old(self)@ }),
    {
        self.selected_tags = Vec::new();
        proof {
            assert(self@.selected_tags =~= Seq::<String>::empty());
        }
    }

    /// Whether `tag` is selected.
    pub fn is_tag_selected(&self, tag: &str) -> (r: bool)
        ensures
            r == text_set(self.selected_tags@).contains(tag@),
    {
        contains_text(&self.selected_tags, tag)
    }

    /// Selects or unselects `tag`.
    pub fn set_tag_selected(&mut self, tag: &String, selected: bool)
        ensures
            views(old(self).selected_tags@).no_duplicates() ==> views(final(self).selected_tags@).no_duplicates(),
            text_set(final(self).selected_tags@) == (if selected {
                text_set(old(self).selected_tags@).insert(tag@)
            } else {
                text_set(old(self).selected_tags@).remove(tag@)
            }),
            final(self)@ == (MainWindowView { selected_tags: final(self).selected_tags@, ..old(self)@ }),
    {
        let ghost old_set = text_set(self.selected_tags@);
        if selected {
            if !contains_text(&self.selected_tags, tag.as_str()) {
                self.selected_tags.push(tag.clone());
                proof {
                    assert(views(self.selected_tags@) =~= views(old(self).selected_tags@).push(tag@));
                    lemma_to_set_push(views(old(self).selected_tags@), tag@);
                    if views(old(self).selected_tags@).no_duplicates() {
                        lemma_push_no_duplicates(views(old(self).selected_tags@), tag@);
                    }
                }
            } else {
                proof {
                    assert(old_set.insert(tag@) =~= old_set);
                }
            }
        } else {
            widgets::set_tag_selected(&mut self.selected_tags, tag, false);
            proof {
                lemma_filter_ne_to_set(views(old(self).selected_tags@), tag@);
                if views(old(self).selected_tags@).no_duplicates() {
                    lemma_filter_no_duplicates(views(old(self).selected_tags@), |t: Seq<char>| t != tag@);
                }
            }
        }
    }

    /// Selects exactly the tags of `group` ("应用"), each once, in the group's order.
    pub fn apply_tag_group(&mut self, group: &TagGroup)
        ensures
            text_set(final(self).selected_tags@) == text_set(group.tags@),
            views(final(self).selected_tags@).no_duplicates(),
            final(self)@ == (MainWindowView { selected_tags: final(self).selected_tags@, ..old(self)@ }),
    {
        let tags = &group.tags;
        let mut sel: Vec<String> = Vec::new();
        let mut i: usize = 0;
        while i < tags.len()
            invariant
                i <= tags@.len(),
                views(sel@).no_duplicates(),
                text_set(sel@) == views(tags@).take(i as int).to_set(),
            decreases tags@.len() - i,
        {
            let ghost before = views(sel@);
            let ghost x = tags@[i as int]@;
            proof {
                assert(views(tags@).take(i + 1) =~= views(tags@).take(i as int).push(x));
                lemma_to_set_push(views(tags@).take(i as int), x);
            }
            if !contains_text(&sel, tags[i].as_str()) {
                sel.push(tags[i].clone());
                proof {
                    assert(views(sel@) =~= before.push(x));
                    lemma_to_set_push(before, x);
                    lemma_push_no_duplicates(before, x);
                }
            } else {
                proof {
                    assert(before.to_set().insert(x) =~= before.to_set());
                }
            }
            i = i + 1;
        }
        proof {
            assert(views(tags@).take(i as int) =~= views(tags@));
        }
        self.selected_tags = sel;
    }

    /// Whether the selected tags are exactly the tags of `group`, in any order.
    pub fn is_group_selected(&self, group: &TagGroup) -> (r: bool)
        ensures
            r == (text_set(group.tags@) == text_set(self.selected_tags@)),
    {
        let g = &group.tags;
        let s = &self.selected_tags;
        assert(g@ == group.tags@);
        assert(s@ == self.selected_tags@);
        let mut i: usize = 0;
        while i < g.len()
            invariant
                i <= g@.len(),
                g@ == group.tags@,
                s@ == self.selected_tags@,
                forall|j: int| 0 <= j < i ==> text_set(s@).contains((#[trigger] g@[j])@),
            decreases g@.len() - i,
        {
            if !contains_text(s, g[i].as_str()) {
                proof {
                    assert(views(g@)[i as int] == g@[i as int]@);
                    assert(text_set(g@).contains(g@[i as int]@));
                    assert(!text_set(s@).contains(g@[i as int]@));
                }
                return false;
            }
            i = i + 1;
        }
        let mut k: usize = 0;
        while k < s.len()
            invariant
                k <= s@.len(),
                g@ == group.tags@,
                s@ == self.selected_tags@,
                forall|j: int| 0 <= j < g@.len() ==> text_set(s@).contains((#[trigger] g@[j])@),
                forall|j: int| 0 <= j < k ==> text_set(g@).contains((#[trigger] s@[j])@),
            decreases s@.len() - k,
        {
            if !contains_text(g, s[k].as_str()) {
                proof {
                    assert(views(s@)[k as int] == s@[k as int]@);
                    assert(text_set(s@).contains(s@[k as int]@));
                    assert(!text_set(g@).contains(s@[k as int]@));
                }
                return false;
            }
            k = k + 1;
        }
        proof {
            assert(text_set(g@) =~= text_set(s@)) by {
                assert forall|x: Seq<char>| text_set(g@).contains(x) <==> text_set(s@).contains(x) by {
                    if views(g@).contains(x) {
                        let j = choose|j: int| 0 <= j < views(g@).len() && views(g@)[j] == x;
                        assert(text_set(s@).contains(g@[j]@));
                    }
                    if views(s@).contains(x) {
                        let j = choose|j: int| 0 <= j < views(s@).len() && views(s@)[j] == x;
                        assert(text_set(g@).contains(s@[j]@));
                    }
                }
            }
        }
        true
    }

    /// Asks to delete `entry` ("删除"): an entry with an id is remembered with its
    /// shown name and the confirmation opens; one without an id changes nothing.
    pub fn request_delete(&mut self, entry: &SoftwareEntry)
        ensures
            entry.id is None ==> final(self)@ == old(self)@,
            entry.id is Some ==> ({
                &&& final(self)@ == (MainWindowView {
                    pending_delete_id: entry.id,
                    pending_delete_name: final(self).pending_delete_name,
                    show_delete_confirm: true,
                    ..old(self)@
                })
                &&& final(self).pending_delete_name@ == (if entry.alias@.len() > 0 {
                    entry.alias@ + " ("@ + entry.name@ + ")"@
                } else {
                    entry.name@
                })
            }),
    {
        if let Some(id) = entry.id {
            self.pending_delete_id = Some(id);
            self.pending_delete_name = entry.display_name();
            self.show_delete_confirm = true;
        }
    }

    /// Confirms the deletion ("确认"): gives the id to delete and closes the
    /// confirmation; without a pending id nothing happens.
    pub fn confirm_delete(&mut self) -> (r: Option<i64>)
        ensures
            r == old(self).pending_delete_id,
            old(self).pending_delete_id is None ==> final(self)@ == old(self)@,
            old(self).pending_delete_id is Some ==> ({
                &&& final(self)@ == (MainWindowView {
                    show_delete_confirm: false,
                    pending_delete_id: None,
                    pending_delete_name: final(self).pending_delete_name,
                    ..old(self)@
                })
                &&& final(self).pending_delete_name@.len() == 0
            }),
    {
        match self.pending_delete_id {
            Some(id) => {
                self.show_delete_confirm = false;
                self.pending_delete_id = None;
                self.pending_delete_name = String::new();
                Some(id)
            },
            None => None,
        }
    }

    /// Cancels the deletion ("取消").
    pub fn cancel_delete(&mut self)
        ensures
            final(self)@ == (MainWindowView {
                show_delete_confirm: false,
                pending_delete_id: None,
                pending_delete_name: final(self).pending_delete_name,
                ..old(self)@
            }),
            final(self).pending_delete_name@.len() == 0,
    {
        self.show_delete_confirm = false;
        self.pending_delete_id = None;
        self.pending_delete_name = String::new();
    }

    /// Opens or closes the add window.
    pub fn set_show_add_wizard(&mut self, show: bool)
        ensures
            final(self)@ == (MainWindowView { show_add_wizard: show, ..old(self)@ }),
    {
        self.show_add_wizard = show;
    }

    /// Opens or closes the tag-group window.
    pub fn set_show_tag_group_manager(&mut self, show: bool)
        ensures
            final(self)@ == (MainWindowView { show_tag_group_manager: show, ..old(self)@ }),
    {
        self.show_tag_group_manager = show;
    }
}

} // verus!
