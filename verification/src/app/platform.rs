//! Ranking release assets by how well they fit Windows.

use vstd::prelude::*;
use crate::app::github::Asset;
use crate::text::{
    chars_of, contains_chars, ends_with_chars, has_infix, has_suffix, lowercase, to_lowercase, is_ascii_text,
    ascii_lowercase, ascii_uppercase,
};

verus! {

/// Whether a lower-cased asset name names another platform.
pub open spec fn names_other_platform(s: Seq<char>) -> bool {
    ||| has_infix(s, "linux"@)
    ||| has_infix(s, "darwin"@)
    ||| has_infix(s, "macos"@)
    ||| has_infix(s, "osx"@)
    ||| has_infix(s, "rpm"@)
    ||| has_infix(s, "deb"@)
    ||| has_infix(s, "appimage"@)
    ||| has_infix(s, "alpine"@)
}

/// Points for the Windows keywords in a lower-cased name.
pub open spec fn windows_keyword_points(s: Seq<char>) -> int {
    (if has_infix(s, "windows"@) { 40int } else { 0int })
    + (if has_infix(s, "win64"@) { 35int } else { 0int })
    + (if has_infix(s, "win32"@) { 30int } else { 0int })
    + (if has_infix(s, "win-"@) || has_infix(s, "_win"@) { 35int } else { 0int })
}

/// Points for the architecture keywords in a lower-cased name.
pub open spec fn arch_points(s: Seq<char>) -> int {
    (if has_infix(s, "x86_64"@) || has_infix(s, "amd64"@) || has_infix(s, "x64"@) { 15int } else { 0int })
    + (if has_infix(s, "x86"@) || has_infix(s, "i386"@) { 10int } else { 0int })
    + (if has_infix(s, "arm64"@) || has_infix(s, "aarch64"@) { 5int } else { 0int })
}

/// Points for the file type of a lower-cased name.
pub open spec fn file_type_points(s: Seq<char>) -> int {
    if has_suffix(s, ".exe"@) {
        30
    } else if has_suffix(s, ".msi"@) {
        25
    } else if has_suffix(s, ".zip"@) {
        15
    } else if has_suffix(s, ".7z"@) {
        10
    } else if has_suffix(s, ".tar"@) {
        5
    } else {
        0
    }
}

/// How well a lower-cased asset name fits Windows: 0 for another platform's asset,
/// else the sum of the keyword, architecture and file-type points, or 5 where that
/// sum is 0 and the name still holds "win".
pub open spec fn windows_score(s: Seq<char>) -> int {
    if names_other_platform(s) {
        0
    } else {
        let base = windows_keyword_points(s) + arch_points(s) + file_type_points(s);
        if has_infix(s, "win"@) && base == 0 { 5 } else { base }
    }
}

/// The score of an asset name: that of its lower-case form.
pub open spec fn asset_name_score(name: Seq<char>) -> int {
    windows_score(lowercase(name))
}

fn has(s: &Vec<char>, keyword: &str) -> (r: bool)
    ensures
        r == has_infix(s@, keyword@),
{
    let k = chars_of(keyword);
    contains_chars(s, &k)
}

fn ends(s: &Vec<char>, suffix: &str) -> (r: bool)
    ensures
        r == has_suffix(s@, suffix@),
{
    let k = chars_of(suffix);
    ends_with_chars(s, &k)
}

/// The Windows score of an already lower-cased asset name.
pub fn score_lowercase_name(lower: &str) -> (r: u32)
    ensures
        r as int == windows_score(lower@),
        r <= 200,
{
    let s = chars_of(lower);
    if has(&s, "linux") || has(&s, "darwin") || has(&s, "macos") || has(&s, "osx") || has(&s, "rpm")
        || has(&s, "deb") || has(&s, "appimage") || has(&s, "alpine") {
        return 0;
    }
    let mut score: u32 = 0;
    if has(&s, "windows") {
        score += 40;
    }
    if has(&s, "win64") {
        score += 35;
    }
    if has(&s, "win32") {
        score += 30;
    }
    if has(&s, "win-") || has(&s, "_win") {
        score += 35;
    }
    if has(&s, "x86_64") || has(&s, "amd64") || has(&s, "x64") {
        score += 15;
    }
    if has(&s, "x86") || has(&s, "i386") {
        score += 10;
    }
    if has(&s, "arm64") || has(&s, "aarch64") {
        score += 5;
    }
    if ends(&s, ".exe") {
        score += 30;
    } else if ends(&s, ".msi") {
        score += 25;
    } else if ends(&s, ".zip") {
        score += 15;
    } else if ends(&s, ".7z") {
        score += 10;
    } else if ends(&s, ".tar") {
        score += 5;
    }
    if has(&s, "win") && score == 0 {
        score += 5;
    }
    score
}

/// How well an asset name fits Windows; higher is a better fit, 0 means another
/// platform or no sign of Windows at all.
pub fn score_asset_for_windows(name: &str) -> (r: u32)
    ensures
        r as int == asset_name_score(name@),
        is_ascii_text(name@) ==> r as int == windows_score(ascii_lowercase(name@)),
        r <= 200,
{
    let lower = to_lowercase(name);
    score_lowercase_name(lower.as_str())
}

/// A lower-cased name that mentions linux, darwin, macos, osx, rpm, deb, appimage
/// or alpine anywhere is another platform's asset: it scores 0, whatever Windows
/// keywords it also holds. A name that scores above 0 mentions none of them.
pub proof fn lemma_other_platform_scores_zero(s: Seq<char>)
    ensures
        (has_infix(s, "linux"@) || has_infix(s, "darwin"@) || has_infix(s, "macos"@) || has_infix(s, "osx"@)
            || has_infix(s, "rpm"@) || has_infix(s, "deb"@) || has_infix(s, "appimage"@) || has_infix(
            s,
            "alpine"@,
        )) ==> windows_score(s) == 0,
        windows_score(s) > 0 ==> !has_infix(s, "linux"@) && !has_infix(s, "darwin"@) && !has_infix(s, "macos"@)
            && !has_infix(s, "osx"@) && !has_infix(s, "rpm"@) && !has_infix(s, "deb"@) && !has_infix(s, "appimage"@)
            && !has_infix(s, "alpine"@),
{
}

/// For a lower-cased name that names no other platform, each sign of Windows counts:
/// "windows" gives at least 40 points, "win64" or "win-" or "_win" at least 35,
/// "win32" at least 30, an ".exe" ending at least 30, an ".msi" ending at least 25,
/// a 64-bit x86 mark at least 15; any "win" at all gives a positive score. The
/// points add up: "windows" with an ".exe" ending is at least 70.
pub proof fn lemma_windows_signs_score(s: Seq<char>)
    requires
        !has_infix(s, "linux"@),
        !has_infix(s, "darwin"@),
        !has_infix(s, "macos"@),
        !has_infix(s, "osx"@),
        !has_infix(s, "rpm"@),
        !has_infix(s, "deb"@),
        !has_infix(s, "appimage"@),
        !has_infix(s, "alpine"@),
    ensures
        has_infix(s, "windows"@) ==> windows_score(s) >= 40,
        has_infix(s, "win64"@) ==> windows_score(s) >= 35,
        has_infix(s, "win-"@) ==> windows_score(s) >= 35,
        has_infix(s, "_win"@) ==> windows_score(s) >= 35,
        has_infix(s, "win32"@) ==> windows_score(s) >= 30,
        has_suffix(s, ".exe"@) ==> windows_score(s) >= 30,
        has_suffix(s, ".msi"@) ==> windows_score(s) >= 25,
        (has_infix(s, "x86_64"@) || has_infix(s, "amd64"@) || has_infix(s, "x64"@)) ==> windows_score(s) >= 15,
        has_infix(s, "win"@) ==> windows_score(s) > 0,
        has_infix(s, "windows"@) && has_suffix(s, ".exe"@) ==> windows_score(s) >= 70,
        (has_infix(s, "x86"@) || has_infix(s, "i386"@)) ==> windows_score(s) >= 10,
        (has_infix(s, "arm64"@) || has_infix(s, "aarch64"@)) ==> windows_score(s) >= 5,
        has_suffix(s, ".zip"@) ==> windows_score(s) >= 15,
        has_suffix(s, ".7z"@) ==> windows_score(s) >= 10,
        has_suffix(s, ".tar"@) ==> windows_score(s) >= 5,
        windows_score(s) >= 0,
{
}

/// For an ASCII name the score does not depend on letter case: the ASCII
/// lower-case and upper-case forms of the name are ASCII too, and they score as
/// the name does.
pub proof fn lemma_score_ignores_ascii_case(name: Seq<char>)
    requires
        is_ascii_text(name),
    ensures
        is_ascii_text(ascii_lowercase(name)),
        is_ascii_text(ascii_uppercase(name)),
        windows_score(ascii_lowercase(ascii_lowercase(name))) == windows_score(ascii_lowercase(name)),
        windows_score(ascii_lowercase(ascii_uppercase(name))) == windows_score(ascii_lowercase(name)),
{
    assert(ascii_lowercase(ascii_lowercase(name)) =~= ascii_lowercase(name));
    assert(ascii_lowercase(ascii_uppercase(name)) =~= ascii_lowercase(name));
}

/// Whether an asset is a Windows asset: its score is above 20.
pub fn is_windows_asset(name: &str) -> (r: bool)
    ensures
        r == (asset_name_score(name@) > 20),
{
    score_asset_for_windows(name) > 20
}

/// Whether a lower-cased asset name names a 64-bit x86 build.
pub open spec fn names_x64(s: Seq<char>) -> bool {
    has_infix(s, "x86_64"@) || has_infix(s, "amd64"@) || has_infix(s, "x64"@)
}

/// Whether an asset is marked as a 64-bit x86 build (its lower-cased name holds
/// "x86_64", "amd64" or "x64").
pub fn is_x64_asset(name: &str) -> (r: bool)
    ensures
        r == names_x64(lowercase(name@)),
{
    let lower = to_lowercase(name);
    let s = chars_of(lower.as_str());
    has(&s, "x86_64") || has(&s, "amd64") || has(&s, "x64")
}

/// `x` comes before `y` in the ranking: higher score first, then lower index.
pub open spec fn ranked_before(x: (usize, u32), y: (usize, u32)) -> bool {
    x.1 > y.1 || (x.1 == y.1 && x.0 < y.0)
}

/// `r` ranks, among the first `upto` assets, exactly those with a positive score:
/// each as its index and score, in ranking order.
pub open spec fn is_ranking(r: Seq<(usize, u32)>, assets: Seq<Asset>, upto: int) -> bool {
    &&& forall|k: int| 0 <= k < r.len() ==> {
        &&& #[trigger] r[k].0 < upto
        &&& r[k].1 as int == asset_name_score(assets[r[k].0 as int].name@)
        &&& r[k].1 > 0
    }
    &&& forall|j: int| 0 <= j < upto && asset_name_score(#[trigger] assets[j].name@) > 0 ==>
        exists|k: int| 0 <= k < r.len() && r[k].0 == j
    &&& forall|a: int, b: int| 0 <= a < b < r.len() ==> ranked_before(#[trigger] r[a], #[trigger] r[b])
}

/// What a ranking of assets is: each pair is an asset's index with that asset's
/// score, which is positive; scores never rise along the list; every asset with a
/// positive score appears, and only once; of two assets with equal scores the
/// earlier comes first.
pub proof fn lemma_ranking_meaning(r: Seq<(usize, u32)>, assets: Seq<Asset>)
    requires
        is_ranking(r, assets, assets.len() as int),
    ensures
        forall|k: int| 0 <= k < r.len() ==> (#[trigger] r[k]).0 < assets.len() && r[k].1 > 0 && r[k].1 as int
            == asset_name_score(assets[r[k].0 as int].name@),
        forall|a: int, b: int| 0 <= a < b < r.len() ==> (#[trigger] r[a]).1 >= (#[trigger] r[b]).1,
        forall|a: int, b: int| 0 <= a < b < r.len() && (#[trigger] r[a]).1 == (#[trigger] r[b]).1 ==> r[a].0 < r[b].0,
        forall|a: int, b: int| 0 <= a < b < r.len() ==> (#[trigger] r[a]).0 != (#[trigger] r[b]).0,
        forall|j: int| 0 <= j < assets.len() && asset_name_score(#[trigger] assets[j].name@) > 0 ==> exists|k: int|
            0 <= k < r.len() && r[k].0 == j,
{
    assert forall|a: int, b: int| 0 <= a < b < r.len() implies (#[trigger] r[a]).0 != (#[trigger] r[b]).0 by {
        assert(ranked_before(r[a], r[b]));
    }
}

/// The assets that score above 0, as (index, score) pairs, best first; assets
/// with equal scores keep their order.
pub fn filter_assets_for_windows(assets: &[Asset]) -> (r: Vec<(usize, u32)>)
    ensures
        is_ranking(r@, assets@, assets@.len() as int),
{
    let n = assets.len();
    let mut out: Vec<(usize, u32)> = Vec::new();
    let mut i: usize = 0;
    while i < n
        invariant
            i <= n,
            n == assets@.len(),
            is_ranking(out@, assets@, i as int),
        decreases n - i,
    {
        let s = score_asset_for_windows(&assets[i].name);
        if s > 0 {
            let mut k: usize = 0;
            while k < out.len() && out[k].1 >= s
                invariant
                    k <= out@.len(),
                    forall|j: int| 0 <= j < k ==> (#[trigger] out@[j]).1 >= s,
                decreases out@.len() - k,
            {
                k = k + 1;
            }
            let ghost old_out = out@;
            out.insert(k, (i, s));
            proof {
                let x = (i, s);
                assert(out@ == old_out.insert(k as int, x));
                assert forall|a: int, b: int| 0 <= a < b < out@.len() implies ranked_before(
                    #[trigger] out@[a],
                    #[trigger] out@[b],
                ) by {
                    if b < k {
                        assert(ranked_before(old_out[a], old_out[b]));
                    } else if b == k {
                        assert(old_out[a].1 >= s);
                    } else if a < k {
                        assert(ranked_before(old_out[a], old_out[b - 1]));
                    } else if a == k {
                        if k < old_out.len() {
                            assert(!(old_out[k as int].1 >= s));
                            if b - 1 > k {
                                assert(ranked_before(old_out[k as int], old_out[b - 1]));
                            }
                        }
                    } else {
                        assert(ranked_before(old_out[a - 1], old_out[b - 1]));
                    }
                }
                assert forall|j: int| 0 <= j < i + 1 && asset_name_score(#[trigger] assets@[j].name@) > 0 implies
                    exists|kk: int| 0 <= kk < out@.len() && out@[kk].0 == j by {
                    if j == i {
                        assert(out@[k as int].0 == j);
                    } else {
                        let kk = choose|kk: int| 0 <= kk < old_out.len() && old_out[kk].0 == j;
                        if kk < k {
                            assert(out@[kk].0 == j);
                        } else {
                            assert(out@[kk + 1].0 == j);
                        }
                    }
                }
            }
        }
        i = i + 1;
    }
    out
}

} // verus!
