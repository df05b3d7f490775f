//! Decisions about executables found in an install folder, and their versions.

use vstd::prelude::*;
use crate::text::{chars_of, str_eq, decimal, decimal_string};
use crate::utils::pe::{file_version_numbers, read_file_version_numbers};

verus! {

/// The extension of a file name, as `Path::extension` gives it: what follows the
/// last '.', where that dot is not the first character; none for "..".
pub open spec fn file_extension(name: Seq<char>) -> Option<Seq<char>> {
    if name == seq!['.', '.'] {
        None
    } else if exists|p: int| 0 < p < name.len() && name[p] == '.' {
        let p = choose|p: int|
            0 < p < name.len() && name[p] == '.' && forall|q: int| p < q < name.len() ==> name[q] != '.';
        Some(name.skip(p + 1))
    } else {
        None
    }
}

/// Whether a file name has the extension "exe" (exactly, as the search compares it).
pub open spec fn is_exe_name(name: Seq<char>) -> bool {
    file_extension(name) == Some(seq!['e', 'x', 'e'])
}

proof fn lemma_last_dot_exists(name: Seq<char>, p: int)
    requires
        0 < p < name.len(),
        name[p] == '.',
    ensures
        exists|c: int|
            0 < c < name.len() && name[c] == '.' && forall|q: int| c < q < name.len() ==> name[q] != '.',
    decreases name.len() - p,
{
    if exists|q: int| p < q < name.len() && name[q] == '.' {
        let q = choose|q: int| p < q < name.len() && name[q] == '.';
        lemma_last_dot_exists(name, q);
    } else {
        assert(0 < p < name.len() && name[p] == '.' && forall|q: int| p < q < name.len() ==> name[q] != '.');
    }
}

/// A file name has the extension "exe" exactly when it ends with ".exe" and has at
/// least one character before that dot.
pub proof fn lemma_exe_name_meaning(name: Seq<char>)
    ensures
        is_exe_name(name) <==> (name.len() >= 5 && name.subrange(name.len() - 4, name.len() as int) == seq![
            '.',
            'e',
            'x',
            'e',
        ]),
{
    let n = name.len();
    let exe = seq!['e', 'x', 'e'];
    if n >= 5 && name.subrange(n - 4, n as int) == seq!['.', 'e', 'x', 'e'] {
        let p = n - 4;
        assert(name[p] == name.subrange(n - 4, n as int)[0]);
        assert(name[p + 1] == name.subrange(n - 4, n as int)[1]);
        assert(name[p + 2] == name.subrange(n - 4, n as int)[2]);
        assert(name[p + 3] == name.subrange(n - 4, n as int)[3]);
        assert(name != seq!['.', '.']);
        lemma_last_dot_exists(name, p);
        let c = choose|c: int|
            0 < c < name.len() && name[c] == '.' && forall|q: int| c < q < name.len() ==> name[q] != '.';
        assert(c == p) by {
            if c < p {
                assert(name[p] != '.');
            }
        }
        assert(name.skip(p + 1) =~= exe);
    }
    if is_exe_name(name) {
        assert(name != seq!['.', '.']);
        let p0 = choose|p: int| 0 < p < name.len() && name[p] == '.';
        lemma_last_dot_exists(name, p0);
        let c = choose|c: int|
            0 < c < name.len() && name[c] == '.' && forall|q: int| c < q < name.len() ==> name[q] != '.';
        assert(name.skip(c + 1) == exe);
        assert(name.skip(c + 1).len() == 3);
        assert(c == n - 4);
        assert(name.subrange(n - 4, n as int) =~= seq!['.', 'e', 'x', 'e']) by {
            assert(name.skip(c + 1)[0] == name[c + 1]);
            assert(name.skip(c + 1)[1] == name[c + 2]);
            assert(name.skip(c + 1)[2] == name[c + 3]);
        }
    }
}

/// Whether a file name has the extension "exe".
pub fn is_exe_file_name(name: &str) -> (r: bool)
    ensures
        r == is_exe_name(name@),
{
    let cs = chars_of(name);
    let n = cs.len();
    if n == 2 && cs[0] == '.' && cs[1] == '.' {
        proof {
            assert(name@ =~= seq!['.', '.']);
        }
        return false;
    }
    proof {
        assert(name@ != seq!['.', '.']) by {
            if name@ == seq!['.', '.'] {
                assert(cs@[0] == '.' && cs@[1] == '.');
            }
        }
    }
    let mut k: usize = n;
    while k > 0 && cs[k - 1] != '.'
        invariant
            k <= n,
            n == name@.len(),
            cs@ == name@,
            forall|q: int| k <= q < n ==> name@[q] != '.',
        decreases k,
    {
        k = k - 1;
    }
    if k <= 1 {
        proof {
            assert(!exists|p: int| 0 < p < name@.len() && name@[p] == '.') by {
                if exists|p: int| 0 < p < name@.len() && name@[p] == '.' {
                    let p = choose|p: int| 0 < p < name@.len() && name@[p] == '.';
                    if k == 1 {
                        assert(p >= 1);
                    }
                }
            }
        }
        return false;
    }
    let p = k - 1;
    proof {
        let c = choose|c: int| 0 < c < name@.len() && name@[c] == '.' && forall|q: int| c < q < name@.len() ==> name@[q] != '.';
        assert(c == p) by {
            if c < p {
                assert(name@[p as int] == '.');
            } else if c > p {
                assert(name@[c] != '.');
            }
        }
        assert(name@.skip(p + 1) =~= name@.subrange(p + 1, n as int));
        reveal_strlit("exe");
        assert("exe"@ =~= seq!['e', 'x', 'e']);
    }
    let ext = name.substring_char(p + 1, n);
    str_eq(ext, "exe")
}

/// The position of the largest size, the last such where several are equal
/// (`Iterator::max_by_key`); none for an empty list.
pub fn index_of_largest(sizes: &Vec<u64>) -> (r: Option<usize>)
    ensures
        sizes@.len() == 0 ==> r is None,
        sizes@.len() > 0 ==> (r matches Some(k) && {
            &&& k < sizes@.len()
            &&& forall|j: int| 0 <= j < sizes@.len() ==> sizes@[j] <= sizes@[k as int]
            &&& forall|j: int| k < j < sizes@.len() ==> sizes@[j] < sizes@[k as int]
        }),
{
    if sizes.len() == 0 {
        return None;
    }
    let mut best: usize = 0;
    let mut i: usize = 1;
    while i < sizes.len()
        invariant
            1 <= i <= sizes@.len(),
            best < i,
            forall|j: int| 0 <= j < i ==> sizes@[j] <= sizes@[best as int],
            forall|j: int| best < j < i ==> sizes@[j] < sizes@[best as int],
        decreases sizes@.len() - i,
    {
        if sizes[i] >= sizes[best] {
            best = i;
        }
        i = i + 1;
    }
    Some(best)
}

/// The text of a file version given as its two 32-bit halves:
/// "major.minor.build.revision", each a 16-bit number in decimal.
pub open spec fn version_text(ms: int, ls: int) -> Seq<char> {
    decimal((ms / 65536) as nat) + "."@ + decimal((ms % 65536) as nat) + "."@ + decimal((ls / 65536) as nat) + "."@
        + decimal((ls % 65536) as nat)
}

/// The version information of an executable, given the file's bytes: the file
/// version recorded in its version resource, as "major.minor.build.revision";
/// none where the file records none.
pub fn get_file_version(contents: &[u8]) -> (r: Option<String>)
    ensures
        match file_version_numbers(contents@) {
            Some((ms, ls)) => r matches Some(s) && s@ == version_text(ms, ls),
            None => r is None,
        },
{
    match read_file_version_numbers(contents) {
        Some((ms, ls)) => {
            let mut s = decimal_string((ms / 65536) as u64);
            s.append(".");
            s.append(decimal_string((ms % 65536) as u64).as_str());
            s.append(".");
            s.append(decimal_string((ls / 65536) as u64).as_str());
            s.append(".");
            s.append(decimal_string((ls % 65536) as u64).as_str());
            Some(s)
        },
        None => None,
    }
}

} // verus!
