//! How entries and tag groups are stored, and the queries over stored entries
//! that are answered in memory. Reading and writing the database is the caller's.

use vstd::prelude::*;
use crate::app::model::{SoftwareEntry, SoftwareEntryView, LinkedFolder, TagGroup, Timestamp};
use crate::text::{chars_of, contains_chars, has_infix, views, lemma_filter_kept};
use crate::tags::join;

verus! {

#[verifier::external_type_specification]
#[verifier::external_body]
pub struct ExJsonError(serde_json::Error);

/// A lower-case hexadecimal digit.
pub open spec fn hex_digit(n: int) -> char {
    if n < 10 {
        (48 + n) as char
    } else {
        (87 + n) as char
    }
}

/// How serde_json writes one character inside a JSON string: `\"` and `\\` for
/// the quote and the backslash, the short escapes for backspace, tab, line feed,
/// form feed and carriage return, `\u00xx` (lower-case hex) for the other control
/// characters below 0x20, and every other character as it is.
pub open spec fn json_escape(c: char) -> Seq<char> {
    let n = c as int;
    if n == 0x22 {
        seq!['\\', '"']
    } else if n == 0x5C {
        seq!['\\', '\\']
    } else if n == 0x08 {
        seq!['\\', 'b']
    } else if n == 0x09 {
        seq!['\\', 't']
    } else if n == 0x0A {
        seq!['\\', 'n']
    } else if n == 0x0C {
        seq!['\\', 'f']
    } else if n == 0x0D {
        seq!['\\', 'r']
    } else if n < 0x20 {
        seq!['\\', 'u', '0', '0', hex_digit(n / 16), hex_digit(n % 16)]
    } else {
        seq![c]
    }
}

/// The characters of a text, each escaped as inside a JSON string.
pub open spec fn json_escaped(s: Seq<char>) -> Seq<char>
    decreases s.len(),
{
    if s.len() == 0 {
        Seq::empty()
    } else {
        json_escaped(s.drop_last()) + json_escape(s.last())
    }
}

/// A text written as a JSON string: quoted and escaped.
pub open spec fn json_string(s: Seq<char>) -> Seq<char> {
    seq!['"'] + json_escaped(s) + seq!['"']
}

/// The JSON text that `serde_json::to_string` gives for a list of strings: "[",
/// the strings written as JSON strings and separated by ",", then "]", with no
/// white space.
pub open spec fn json_of_strings(v: Seq<Seq<char>>) -> Seq<char> {
    seq!['['] + join(v.map_values(|x: Seq<char>| json_string(x)), seq![',']) + seq![']']
}

/// The list of strings that `serde_json::from_str` reads from a JSON text, where it
/// reads one.
pub uninterp spec fn strings_of_json(s: Seq<char>) -> Option<Seq<Seq<char>>>;

/// Calls `serde_json::to_string` on a list of strings. Claims that it succeeds (its
/// documentation: it fails only where a `Serialize` impl fails or a map has
/// non-string keys), that the text is `json_of_strings` of the list (its compact
/// formatter and escape table), and
/// that `serde_json::from_str` reads that text back as the same list (the writer
/// escapes quotes, backslashes and control characters, which the reader decodes).
#[verifier::external_body]
fn strings_to_json(v: &Vec<String>) -> (r: Result<String, serde_json::Error>)
    ensures
        r.is_ok(),
        r.unwrap()@ == json_of_strings(views(v@)),
        strings_of_json(r.unwrap()@) == Some(views(v@)),
{
    serde_json::to_string(v)
}

/// Calls `serde_json::from_str::<Vec<String>>`. Claims that it succeeds exactly
/// where the named `strings_of_json` is `Some`, with that list.
#[verifier::external_body]
fn json_to_strings(s: &str) -> (r: Result<Vec<String>, serde_json::Error>)
    ensures
        match r {
            Ok(v) => strings_of_json(s@) == Some(views(v@)),
            Err(_) => strings_of_json(s@) is None,
        },
{
    serde_json::from_str::<Vec<String>>(s)
}

/// The stored form of a tag list: its JSON text, which reads back as the same list.
pub fn encode_tags(tags: &Vec<String>) -> (r: String)
    ensures
        r@ == json_of_strings(views(tags@)),
        strings_of_json(r@) == Some(views(tags@)),
{
    match strings_to_json(tags) {
        Ok(s) => s,
        Err(_) => String::from_str("[]"),
    }
}

/// The tag list read from its stored JSON text; none where the text is not a list
/// of strings.
pub fn decode_tags(json: &str) -> (r: Vec<String>)
    ensures
        match strings_of_json(json@) {
            Some(v) => views(r@) == v,
            None => r@.len() == 0,
        },
{
    match json_to_strings(json) {
        Ok(v) => v,
        Err(_) => Vec::new(),
    }
}

/// The columns of a stored entry, with its times already read (`None` where a
/// stored time could not be read) and its linked folders already decoded.
pub struct StoredEntry {
    pub id: Option<i64>,
    pub name: String,
    pub alias: String,
    pub repo_url: String,
    pub current_version: String,
    pub latest_version: Option<String>,
    pub asset_name: String,
    pub install_path: Option<String>,
    pub executable_path: Option<String>,
    pub notes: String,
    pub tags_json: String,
    pub linked_folders: Vec<LinkedFolder>,
    pub created_at: Option<Timestamp>,
    pub updated_at: Option<Timestamp>,
}

/// The entry a stored row holds: the tags decoded from their JSON (none where it is
/// not a list of strings), and `now` for a time that could not be read.
pub fn row_to_entry(row: StoredEntry, now: Timestamp) -> (r: SoftwareEntry)
    ensures
        r.id == row.id,
        r.name == row.name,
        r.alias == row.alias,
        r.repo_url == row.repo_url,
        r.current_version == row.current_version,
        r.latest_version == row.latest_version,
        r.asset_name == row.asset_name,
        r.install_path == row.install_path,
        r.executable_path == row.executable_path,
        r.notes == row.notes,
        match strings_of_json(row.tags_json@) {
            Some(v) => views(r.tags@) == v,
            None => r.tags@.len() == 0,
        },
        r.linked_folders@ == row.linked_folders@,
        r.created_at == (match row.created_at {
            Some(t) => t,
            None => now,
        }),
        r.updated_at == (match row.updated_at {
            Some(t) => t,
            None => now,
        }),
{
    let tags = decode_tags(row.tags_json.as_str());
    let created_at = match row.created_at {
        Some(t) => t,
        None => now,
    };
    let updated_at = match row.updated_at {
        Some(t) => t,
        None => now,
    };
    SoftwareEntry {
        id: row.id,
        name: row.name,
        alias: row.alias,
        repo_url: row.repo_url,
        current_version: row.current_version,
        latest_version: row.latest_version,
        asset_name: row.asset_name,
        install_path: row.install_path,
        executable_path: row.executable_path,
        notes: row.notes,
        tags,
        linked_folders: row.linked_folders,
        created_at,
        updated_at,
    }
}

/// The tag group a stored row holds, its tags decoded from their JSON.
pub fn row_to_tag_group(id: Option<i64>, name: String, tags_json: &str) -> (r: TagGroup)
    ensures
        r.id == id,
        r.name == name,
        match strings_of_json(tags_json@) {
            Some(v) => views(r.tags@) == v,
            None => r.tags@.len() == 0,
        },
{
    TagGroup { id, name, tags: decode_tags(tags_json) }
}

/// Whether one of an entry's tags contains `tag` (case-sensitive).
pub open spec fn has_tag_containing(e: SoftwareEntryView, tag: Seq<char>) -> bool {
    exists|k: int| 0 <= k < e.tags.len() && has_infix((#[trigger] e.tags[k])@, tag)
}

/// The tag search looks at every tag: an entry is found where any one of its tags,
/// at any position, contains the text, and only then.
pub proof fn lemma_tag_search_any_position(e: SoftwareEntryView, tag: Seq<char>)
    ensures
        forall|k: int| 0 <= k < e.tags.len() && has_infix((#[trigger] e.tags[k])@, tag) ==> has_tag_containing(e, tag),
        has_tag_containing(e, tag) ==> exists|k: int| 0 <= k < e.tags.len() && has_infix((#[trigger] e.tags[k])@, tag),
        e.tags.len() == 0 ==> !has_tag_containing(e, tag),
{
}

/// What the tag search keeps of a list: each entry it gives is one of the list's
/// entries with a tag containing the text, and each entry of the list with such a
/// tag is given.
pub proof fn lemma_tag_search_keeps(entries: Seq<SoftwareEntryView>, tag: Seq<char>)
    ensures
        ({
            let found = entries.filter(|e: SoftwareEntryView| has_tag_containing(e, tag));
            &&& forall|i: int| 0 <= i < found.len() ==> entries.contains(#[trigger] found[i]) && exists|k: int|
                0 <= k < found[i].tags.len() && has_infix((#[trigger] found[i].tags[k])@, tag)
            &&& forall|i: int, k: int| 0 <= i < entries.len() && 0 <= k < entries[i].tags.len() && has_infix(
                (#[trigger] entries[i].tags[k])@,
                tag,
            ) ==> found.contains(entries[i])
        }),
{
    let p = |e: SoftwareEntryView| has_tag_containing(e, tag);
    let found = entries.filter(p);
    lemma_filter_kept(entries, p);
    assert forall|i: int, k: int| 0 <= i < entries.len() && 0 <= k < entries[i].tags.len() && has_infix(
        (#[trigger] entries[i].tags[k])@,
        tag,
    ) implies found.contains(entries[i]) by {
        assert(p(entries[i]));
        entries.lemma_filter_contains(p, i);
    }
}

/// The entries, in order, with a tag that contains `tag`.
pub fn entries_with_tag(entries: Vec<SoftwareEntry>, tag: &str) -> (r: Vec<SoftwareEntry>)
    ensures
        r@.map_values(|e: SoftwareEntry| e@) == entries@.map_values(|e: SoftwareEntry| e@).filter(
            |e: SoftwareEntryView| has_tag_containing(e, tag@),
        ),
{
    let t = chars_of(tag);
    let ghost all = entries@.map_values(|e: SoftwareEntry| e@);
    let ghost pred = |e: SoftwareEntryView| has_tag_containing(e, tag@);
    let mut r: Vec<SoftwareEntry> = Vec::new();
    let mut entries = entries;
    let ghost orig = entries@;
    let mut i: usize = 0;
    while i < entries.len()
        invariant
            i <= entries@.len(),
            entries@ == orig,
            t@ == tag@,
            all == orig.map_values(|e: SoftwareEntry| e@),
            pred == (|e: SoftwareEntryView| has_tag_containing(e, tag@)),
            r@.map_values(|e: SoftwareEntry| e@) == all.take(i as int).filter(pred),
        decreases entries@.len() - i,
    {
        let e = &entries[i];
        let mut found = false;
        let mut k: usize = 0;
        while k < e.tags.len()
            invariant
                k <= e.tags@.len(),
                t@ == tag@,
                found == exists|j: int| 0 <= j < k && has_infix((#[trigger] e@.tags[j])@, tag@),
            decreases e.tags@.len() - k,
        {
            let tc = chars_of(e.tags[k].as_str());
            if contains_chars(&tc, &t) {
                found = true;
            }
            proof {
                assert(e@.tags[k as int] == e.tags@[k as int]);
            }
            k = k + 1;
        }
        proof {
            assert(all.take(i + 1).drop_last() =~= all.take(i as int));
            assert(all.take(i + 1).last() == e@);
            reveal_with_fuel(Seq::filter, 1);
            assert(pred(e@) == found);
        }
        let ghost before = r@;
        if found {
            let c = e.clone();
            r.push(c);
            proof {
                assert(r@.map_values(|e: SoftwareEntry| e@) =~= before.map_values(|e: SoftwareEntry| e@).push(
                    e@,
                ));
            }
        }
        i = i + 1;
    }
    proof {
        assert(all.take(i as int) =~= all);
    }
    r
}

} // verus!
