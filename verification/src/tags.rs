//! Tag lists typed as comma-separated text, and shown joined with ", ".

use vstd::prelude::*;
use vstd::string::*;
use crate::text::{
    is_ws, trim, trim_start, trim_end, split_on, split_char, trim_str, views,
    lemma_split_on_nonempty, lemma_split_on_no_delim, lemma_split_on_concat,
};

verus! {

/// The trimmed, non-empty ones among `parts`, in order.
pub open spec fn keep_tags(parts: Seq<Seq<char>>) -> Seq<Seq<char>>
    decreases parts.len(),
{
    if parts.len() == 0 {
        Seq::empty()
    } else {
        let rest = keep_tags(parts.drop_last());
        let t = trim(parts.last());
        if t.len() > 0 { rest.push(t) } else { rest }
    }
}

/// The tags typed in a text: the comma-separated pieces, trimmed, empty ones left out.
pub open spec fn tag_list(s: Seq<char>) -> Seq<Seq<char>> {
    keep_tags(split_on(s, ','))
}

/// The parts joined with `sep` between each two.
pub open spec fn join(parts: Seq<Seq<char>>, sep: Seq<char>) -> Seq<char>
    decreases parts.len(),
{
    if parts.len() == 0 {
        Seq::empty()
    } else if parts.len() == 1 {
        parts[0]
    } else {
        join(parts.drop_last(), sep) + sep + parts.last()
    }
}

/// A tag as `parse_tags` gives it: not empty, trimmed, without a comma.
pub open spec fn is_clean_tag(t: Seq<char>) -> bool {
    t.len() > 0 && trim(t) == t && !t.contains(',')
}

/// The tags in a comma-separated text: each piece trimmed, empty pieces dropped.
pub fn parse_tags(s: &str) -> (r: Vec<String>)
    ensures
        views(r@) == tag_list(s@),
{
    let pieces = split_char(s, ',');
    let mut r: Vec<String> = Vec::new();
    let mut j: usize = 0;
    while j < pieces.len()
        invariant
            j <= pieces@.len(),
            views(pieces@) == split_on(s@, ','),
            views(r@) == keep_tags(views(pieces@).take(j as int)),
        decreases pieces@.len() - j,
    {
        let t = trim_str(pieces[j].as_str());
        let ghost before = views(r@);
        proof {
            assert(views(pieces@).take(j + 1).drop_last() =~= views(pieces@).take(j as int));
            assert(views(pieces@).take(j + 1).last() == pieces@[j as int]@);
        }
        if t.unicode_len() > 0 {
            r.push(String::from_str(t));
            proof {
                assert(views(r@) =~= before.push(t@));
            }
        }
        j = j + 1;
    }
    proof {
        assert(views(pieces@).take(j as int) =~= views(pieces@));
    }
    r
}

/// The strings of `v` joined with `sep` (`[String]::join`).
pub fn join_strings(v: &Vec<String>, sep: &str) -> (r: String)
    ensures
        r@ == join(views(v@), sep@),
{
    let mut r = String::new();
    let mut i: usize = 0;
    while i < v.len()
        invariant
            i <= v@.len(),
            r@ == join(views(v@).take(i as int), sep@),
        decreases v@.len() - i,
    {
        proof {
            assert(views(v@).take(i + 1).drop_last() =~= views(v@).take(i as int));
        }
        if i != 0 {
            r.append(sep);
        } else {
            assert(views(v@).take(0) =~= Seq::<Seq<char>>::empty());
        }
        r.append(v[i].as_str());
        i = i + 1;
    }
    proof {
        assert(views(v@).take(i as int) =~= views(v@));
    }
    r
}

proof fn lemma_trim_start_shape(s: Seq<char>)
    ensures
        exists|k: int| 0 <= k <= s.len() && trim_start(s) == s.skip(k),
        trim_start(s).len() == 0 || !is_ws(trim_start(s)[0]),
    decreases s.len(),
{
    if s.len() > 0 && is_ws(s[0]) {
        lemma_trim_start_shape(s.drop_first());
        let k = choose|k: int| 0 <= k <= s.drop_first().len() && trim_start(s.drop_first()) == s.drop_first().skip(k);
        assert(s.drop_first().skip(k) =~= s.skip(k + 1));
    } else {
        assert(s.skip(0) =~= s);
    }
}

proof fn lemma_trim_end_shape(s: Seq<char>)
    ensures
        exists|k: int| 0 <= k <= s.len() && trim_end(s) == s.take(k),
        trim_end(s).len() == 0 || !is_ws(trim_end(s).last()),
    decreases s.len(),
{
    if s.len() > 0 && is_ws(s.last()) {
        lemma_trim_end_shape(s.drop_last());
        let k = choose|k: int| 0 <= k <= s.drop_last().len() && trim_end(s.drop_last()) == s.drop_last().take(k);
        assert(s.drop_last().take(k) =~= s.take(k));
    } else {
        assert(s.take(s.len() as int) =~= s);
    }
}

/// `trim(s)` is a contiguous part of `s`, and starts and ends with no white space.
pub proof fn lemma_trim_shape(s: Seq<char>)
    ensures
        exists|a: int, b: int| 0 <= a <= b <= s.len() && trim(s) == s.subrange(a, b),
        trim(s).len() == 0 || (!is_ws(trim(s)[0]) && !is_ws(trim(s).last())),
{
    lemma_trim_start_shape(s);
    let u = trim_start(s);
    let a = choose|k: int| 0 <= k <= s.len() && u == s.skip(k);
    lemma_trim_end_shape(u);
    let b = choose|k: int| 0 <= k <= u.len() && trim_end(u) == u.take(k);
    assert(u.take(b) =~= s.subrange(a, a + b));
    if trim(s).len() > 0 {
        assert(trim(s)[0] == u[0]);
    }
}

/// Trimming twice is trimming once.
pub proof fn lemma_trim_idempotent(s: Seq<char>)
    ensures
        trim(trim(s)) == trim(s),
{
    lemma_trim_shape(s);
    let v = trim(s);
    if v.len() > 0 {
        assert(trim_start(v) == v);
        assert(trim_end(v) == v);
    } else {
        assert(trim_start(v) == v);
        assert(trim_end(v) == v);
    }
}

/// A space in front of a text does not change its trimmed form.
proof fn lemma_trim_leading_space(t: Seq<char>)
    ensures
        trim(seq![' '] + t) == trim(t),
{
    let s = seq![' '] + t;
    assert(is_ws(s[0]));
    assert(s.drop_first() =~= t);
}

/// No piece of `split_on(s, d)` holds `d`.
pub proof fn lemma_split_on_pieces(s: Seq<char>, d: char)
    ensures
        forall|i: int| 0 <= i < split_on(s, d).len() ==> !(#[trigger] split_on(s, d)[i]).contains(d),
    decreases s.len(),
{
    if s.len() > 0 {
        lemma_split_on_pieces(s.drop_last(), d);
        lemma_split_on_nonempty(s.drop_last(), d);
        let prev = split_on(s.drop_last(), d);
        if s.last() != d {
            let np = prev.last().push(s.last());
            assert(!np.contains(d)) by {
                if np.contains(d) {
                    let j = choose|j: int| 0 <= j < np.len() && np[j] == d;
                    if j < prev.last().len() {
                        assert(prev.last()[j] == d);
                        assert(prev[prev.len() - 1] == prev.last());
                    }
                }
            }
        } else {
            assert(!Seq::<char>::empty().contains(d));
        }
    } else {
        assert(!Seq::<char>::empty().contains(d));
    }
}

/// Every tag that `keep_tags` keeps from comma-free pieces is clean.
proof fn lemma_keep_tags_clean(parts: Seq<Seq<char>>)
    requires
        forall|i: int| 0 <= i < parts.len() ==> !(#[trigger] parts[i]).contains(','),
    ensures
        forall|i: int| 0 <= i < keep_tags(parts).len() ==> is_clean_tag(#[trigger] keep_tags(parts)[i]),
    decreases parts.len(),
{
    if parts.len() > 0 {
        let dl = parts.drop_last();
        assert forall|i: int| 0 <= i < dl.len() implies !(#[trigger] dl[i]).contains(',') by {
            assert(dl[i] == parts[i]);
        }
        lemma_keep_tags_clean(dl);
        let last = parts.last();
        assert(!last.contains(',')) by {
            assert(parts[parts.len() - 1] == last);
        }
        let t = trim(last);
        lemma_trim_shape(last);
        lemma_trim_idempotent(last);
        assert(!t.contains(',')) by {
            if t.contains(',') {
                let (a, b) = choose|a: int, b: int| 0 <= a <= b <= last.len() && t == last.subrange(a, b);
                let j = choose|j: int| 0 <= j < t.len() && t[j] == ',';
                assert(last[a + j] == ',');
            }
        }
        let rest = keep_tags(dl);
        let kt = keep_tags(parts);
        assert forall|i: int| 0 <= i < kt.len() implies is_clean_tag(#[trigger] kt[i]) by {
            if i < rest.len() {
                assert(kt[i] == rest[i]);
            } else {
                assert(kt[i] == t);
            }
        }
    }
}

/// Every tag that `parse_tags` gives is clean.
pub proof fn lemma_tag_list_clean(s: Seq<char>)
    ensures
        forall|i: int| 0 <= i < tag_list(s).len() ==> is_clean_tag(#[trigger] tag_list(s)[i]),
{
    lemma_split_on_pieces(s, ',');
    lemma_keep_tags_clean(split_on(s, ','));
}

proof fn lemma_split_joined(tags: Seq<Seq<char>>)
    requires
        tags.len() >= 1,
        forall|i: int| 0 <= i < tags.len() ==> is_clean_tag(#[trigger] tags[i]),
    ensures
        keep_tags(split_on(join(tags, seq![',', ' ']), ',')) == tags,
    decreases tags.len(),
{
    let sep = seq![',', ' '];
    if tags.len() == 1 {
        assert(is_clean_tag(tags[0]));
        lemma_split_on_no_delim(tags[0], ',');
        let one = seq![tags[0]];
        assert(one.drop_last() =~= Seq::<Seq<char>>::empty());
        assert(one.last() == tags[0]);
        assert(keep_tags(Seq::<Seq<char>>::empty()) =~= Seq::<Seq<char>>::empty());
        assert(keep_tags(one) =~= Seq::<Seq<char>>::empty().push(tags[0]));
        assert(tags =~= one);
    } else {
        let dl = tags.drop_last();
        assert forall|i: int| 0 <= i < dl.len() implies is_clean_tag(#[trigger] dl[i]) by {
            assert(dl[i] == tags[i]);
        }
        lemma_split_joined(dl);
        let last = tags.last();
        assert(is_clean_tag(tags[tags.len() - 1]));
        let x = join(dl, sep);
        let y = seq![' '] + last;
        assert(join(tags, sep) =~= x + seq![','] + y);
        lemma_split_on_concat(x, ',', y);
        assert(!y.contains(',')) by {
            if y.contains(',') {
                let j = choose|j: int| 0 <= j < y.len() && y[j] == ',';
                assert(last[j - 1] == ',');
            }
        }
        lemma_split_on_no_delim(y, ',');
        let p = split_on(x, ',') + seq![y];
        assert(p.drop_last() =~= split_on(x, ','));
        lemma_trim_leading_space(last);
        assert(tags =~= dl.push(last));
    }
}

/// Joining clean tags with ", " and parsing the text again gives the same tags: an
/// edit that leaves the tag text alone keeps the tags.
pub proof fn lemma_tags_roundtrip(tags: Seq<Seq<char>>)
    requires
        forall|i: int| 0 <= i < tags.len() ==> is_clean_tag(#[trigger] tags[i]),
    ensures
        tag_list(join(tags, ", "@)) == tags,
{
    reveal_strlit(", ");
    assert(", "@ =~= seq![',', ' ']);
    if tags.len() == 0 {
        let e = Seq::<char>::empty();
        assert(join(tags, ", "@) == e);
        assert(split_on(e, ',') =~= seq![e]);
        let one = seq![e];
        assert(one.drop_last() =~= Seq::<Seq<char>>::empty());
        assert(one.last() == e);
        assert(trim_start(e) == e);
        assert(trim_end(e) == e);
        assert(trim(e) == e);
        assert(keep_tags(Seq::<Seq<char>>::empty()) =~= Seq::<Seq<char>>::empty());
        assert(keep_tags(one) =~= Seq::<Seq<char>>::empty());
        assert(tags =~= Seq::<Seq<char>>::empty());
    } else {
        lemma_split_joined(tags);
    }
}

/// Parsing the joined form of parsed tags gives the same tags again.
pub proof fn lemma_tags_reparse(s: Seq<char>)
    ensures
        tag_list(join(tag_list(s), ", "@)) == tag_list(s),
{
    lemma_tag_list_clean(s);
    lemma_tags_roundtrip(tag_list(s));
}

} // verus!
