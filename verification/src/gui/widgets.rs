//! Decisions behind the small reusable widgets.

use vstd::prelude::*;
use crate::text::{views, str_eq};

verus! {

/// The text of a search box after its clear button was pressed or not: pressing
/// it empties the text.
pub fn search_text_after(text: String, clear_pressed: bool) -> (r: String)
    ensures
        clear_pressed ==> r@.len() == 0,
        !clear_pressed ==> r == text,
{
    if clear_pressed {
        String::new()
    } else {
        text
    }
}

/// Selects or unselects `tag` in `selected_tags`: selecting appends it; unselecting
/// removes every copy of it, the rest keeping their order.
pub fn set_tag_selected(selected_tags: &mut Vec<String>, tag: &String, selected: bool)
    ensures
        selected ==> final(selected_tags)@ == old(selected_tags)@.push(*tag),
        !selected ==> views(final(selected_tags)@) == views(old(selected_tags)@).filter(|t: Seq<char>| t != tag@),
{
    if selected {
        selected_tags.push(tag.clone());
    } else {
        let ghost old_v = views(selected_tags@);
        let mut kept: Vec<String> = Vec::new();
        let mut i: usize = 0;
        while i < selected_tags.len()
            invariant
                i <= selected_tags@.len(),
                views(selected_tags@) == old_v,
                views(kept@) == old_v.take(i as int).filter(|t: Seq<char>| t != tag@),
            decreases selected_tags@.len() - i,
        {
            proof {
                assert(old_v.take(i + 1).drop_last() =~= old_v.take(i as int));
                reveal_with_fuel(Seq::filter, 1);
            }
            if !str_eq(selected_tags[i].as_str(), tag.as_str()) {
                kept.push(selected_tags[i].clone());
                proof {
                    assert(views(kept@) =~= old_v.take(i as int).filter(|t: Seq<char>| t != tag@).push(
                        old_v[i as int],
                    ));
                }
            }
            i = i + 1;
        }
        proof {
            assert(old_v.take(i as int) =~= old_v);
        }
        *selected_tags = kept;
    }
}

} // verus!
