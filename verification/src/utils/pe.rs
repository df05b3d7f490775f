//! The file version recorded in a Windows executable (a PE file): the fixed part
//! of its version resource.
//!
//! The path taken through the file: the DOS header points at the PE signature; the
//! optional header's data directories give the address of the resource section;
//! sections map such addresses to file offsets; the resource tree is entered at
//! type 16 (version), then its first name and first language lead to the resource
//! data, which begins with `VS_VERSIONINFO` and its `VS_FIXEDFILEINFO`.

use vstd::prelude::*;

verus! {

/// The little-endian 16-bit number at offset `i`, where the file holds it.
pub open spec fn le16(b: Seq<u8>, i: int) -> Option<int> {
    if 0 <= i && i + 2 <= b.len() {
        Some(b[i] as int + 256 * (b[i + 1] as int))
    } else {
        None
    }
}

/// The little-endian 32-bit number at offset `i`, where the file holds it.
pub open spec fn le32(b: Seq<u8>, i: int) -> Option<int> {
    if 0 <= i && i + 4 <= b.len() {
        Some(
            b[i] as int + 256 * (b[i + 1] as int) + 65536 * (b[i + 2] as int) + 16777216 * (b[i + 3] as int),
        )
    } else {
        None
    }
}

/// An optional machine number seen as an optional integer.
pub open spec fn opt_int(r: Option<u64>) -> Option<int> {
    match r {
        Some(v) => Some(v as int),
        None => None,
    }
}

/// The offset of the PE signature: the file starts with "MZ", and the offset stored
/// at 0x3C points at the bytes "PE\0\0".
pub open spec fn pe_offset(b: Seq<u8>) -> Option<int> {
    let p = le32(b, 0x3C);
    if b.len() >= 2 && b[0] == 0x4D && b[1] == 0x5A && p is Some && p->0 + 4 <= b.len() && b[p->0] == 0x50
        && b[p->0 + 1] == 0x45 && b[p->0 + 2] == 0 && b[p->0 + 3] == 0 {
        Some(p->0)
    } else {
        None
    }
}

/// The offset of the data directories of the optional header at `opt` (PE32 or
/// PE32+), where there are more than two of them, so that the resource entry is one.
pub open spec fn data_dirs(b: Seq<u8>, opt: int) -> Option<int> {
    let magic = le16(b, opt);
    let pe32 = magic == Some(0x10bint);
    let count = le32(b, if pe32 { opt + 92 } else { opt + 108 });
    if (pe32 || magic == Some(0x20bint)) && count is Some && count->0 > 2 {
        Some(if pe32 { opt + 96 } else { opt + 112 })
    } else {
        None
    }
}

/// The address of the resource section, the offset of the section table and the
/// number of sections; none where the file is not a PE file or has no resources.
pub open spec fn pe_layout(b: Seq<u8>) -> Option<(int, int, int)> {
    let p = pe_offset(b)->0;
    let count = le16(b, p + 6);
    let opt_size = le16(b, p + 20);
    let dirs = data_dirs(b, p + 24);
    let rva = le32(b, dirs->0 + 16);
    if pe_offset(b) is Some && count is Some && opt_size is Some && dirs is Some && rva is Some && rva->0 != 0 {
        Some((rva->0, p + 24 + opt_size->0, count->0))
    } else {
        None
    }
}

/// The file offset of address `rva`: found in the first section, from the `i`th on,
/// whose data in the file covers it.
pub open spec fn section_offset(b: Seq<u8>, table: int, count: int, rva: int, i: int) -> Option<int>
    decreases count - i,
{
    if i < 0 || i >= count {
        None
    } else {
        let h = table + 40 * i;
        let raw_size = le32(b, h + 16);
        let va = le32(b, h + 12);
        let ptr = le32(b, h + 20);
        if raw_size is Some && va is Some && ptr is Some {
            if va->0 <= rva < va->0 + raw_size->0 {
                Some(rva - va->0 + ptr->0)
            } else {
                section_offset(b, table, count, rva, i + 1)
            }
        } else {
            None
        }
    }
}

/// The target of the first entry, from the `i`th up to `end`, of the resource
/// directory at `dir` whose id is `id`.
pub open spec fn id_entry(b: Seq<u8>, dir: int, id: int, i: int, end: int) -> Option<int>
    decreases end - i,
{
    if i < 0 || i >= end {
        None
    } else {
        let e = dir + 16 + 8 * i;
        let name = le32(b, e);
        let target = le32(b, e + 4);
        if name is Some && target is Some {
            if name->0 == id {
                Some(target->0)
            } else {
                id_entry(b, dir, id, i + 1, end)
            }
        } else {
            None
        }
    }
}

/// The target of the entry with id `id` of the resource directory at `dir`; the id
/// entries follow the named ones.
pub open spec fn find_id(b: Seq<u8>, dir: int, id: int) -> Option<int> {
    let named = le16(b, dir + 12);
    let ids = le16(b, dir + 14);
    if named is Some && ids is Some {
        id_entry(b, dir, id, named->0, named->0 + ids->0)
    } else {
        None
    }
}

/// The target of the first entry of the resource directory at `dir`, where it has one.
pub open spec fn first_entry(b: Seq<u8>, dir: int) -> Option<int> {
    let named = le16(b, dir + 12);
    let ids = le16(b, dir + 14);
    let target = le32(b, dir + 20);
    if named is Some && ids is Some && named->0 + ids->0 > 0 && target is Some {
        Some(target->0)
    } else {
        None
    }
}

/// The high bit of an entry's target: set where it leads to another directory.
pub open spec fn subdir_bit() -> int {
    0x8000_0000
}

/// The file offset of the data entry of the version resource, in the resource tree
/// at `res`: type 16, its first name, that name's first language.
pub open spec fn version_entry(b: Seq<u8>, res: int) -> Option<int> {
    let t = find_id(b, res, 16);
    let n = first_entry(b, res + t->0 - subdir_bit());
    let l = first_entry(b, res + n->0 - subdir_bit());
    if t is Some && t->0 >= subdir_bit() && n is Some && n->0 >= subdir_bit() && l is Some && l->0 < subdir_bit() {
        Some(res + l->0)
    } else {
        None
    }
}

/// The most and least significant halves of the file version in the version
/// resource's `VS_FIXEDFILEINFO` (signature 0xFEEF04BD, 40 bytes into the
/// resource data); none where the file has no such resource.
pub open spec fn file_version_numbers(b: Seq<u8>) -> Option<(int, int)> {
    let layout = pe_layout(b)->0;
    let res = section_offset(b, layout.1, layout.2, layout.0, 0);
    let entry = version_entry(b, res->0);
    let data_rva = le32(b, entry->0);
    let size = le32(b, entry->0 + 4);
    let data = section_offset(b, layout.1, layout.2, data_rva->0, 0);
    let sig = le32(b, data->0 + 40);
    let ms = le32(b, data->0 + 48);
    let ls = le32(b, data->0 + 52);
    if pe_layout(b) is Some && res is Some && entry is Some && data_rva is Some && size is Some && size->0 >= 56
        && data is Some && sig == Some(0xFEEF04BDint) && ms is Some && ls is Some {
        Some((ms->0, ls->0))
    } else {
        None
    }
}

/// A version is found only in a file that starts with "MZ" and has the PE
/// signature where its header says.
pub proof fn lemma_version_needs_pe_header(b: Seq<u8>)
    ensures
        file_version_numbers(b) is Some ==> b.len() >= 2 && b[0] == 0x4D && b[1] == 0x5A && pe_offset(b) is Some,
{
}

fn read16(b: &[u8], i: u64) -> (r: Option<u64>)
    ensures
        opt_int(r) == le16(b@, i as int),
        r matches Some(v) ==> v < 0x1_0000,
{
    let n = b.len() as u64;
    if i <= n && n - i >= 2 {
        let k = i as usize;
        Some(b[k] as u64 + 256 * (b[k + 1] as u64))
    } else {
        None
    }
}

fn read32(b: &[u8], i: u64) -> (r: Option<u64>)
    ensures
        opt_int(r) == le32(b@, i as int),
        r matches Some(v) ==> v < 0x1_0000_0000,
{
    let n = b.len() as u64;
    if i <= n && n - i >= 4 {
        let k = i as usize;
        Some(
            b[k] as u64 + 256 * (b[k + 1] as u64) + 65536 * (b[k + 2] as u64) + 16777216 * (b[k + 3] as u64),
        )
    } else {
        None
    }
}

fn find_pe_offset(b: &[u8]) -> (r: Option<u64>)
    ensures
        opt_int(r) == pe_offset(b@),
        r matches Some(p) ==> p < 0x1_0000_0000,
{
    let p = read32(b, 0x3C);
    if b.len() < 2 || b[0] != 0x4D || b[1] != 0x5A {
        return None;
    }
    match p {
        Some(p) => {
            let n = b.len() as u64;
            if p <= n && n - p >= 4 {
                let k = p as usize;
                if b[k] == 0x50 && b[k + 1] == 0x45 && b[k + 2] == 0 && b[k + 3] == 0 {
                    return Some(p);
                }
            }
            None
        },
        None => None,
    }
}

fn find_data_dirs(b: &[u8], opt: u64) -> (r: Option<u64>)
    requires
        opt < 0x2_0000_0000,
    ensures
        opt_int(r) == data_dirs(b@, opt as int),
        r matches Some(d) ==> d <= opt + 112,
{
    let magic = read16(b, opt);
    let pe32 = match magic {
        Some(m) => m == 0x10b,
        None => false,
    };
    let pe32_plus = match magic {
        Some(m) => m == 0x20b,
        None => false,
    };
    if !pe32 && !pe32_plus {
        return None;
    }
    let count = read32(b, if pe32 { opt + 92 } else { opt + 108 });
    match count {
        Some(c) => if c > 2 {
            Some(if pe32 { opt + 96 } else { opt + 112 })
        } else {
            None
        },
        None => None,
    }
}

fn find_layout(b: &[u8]) -> (r: Option<(u64, u64, u64)>)
    ensures
        match r {
            Some((rva, table, count)) => {
                &&& pe_layout(b@) == Some((rva as int, table as int, count as int))
                &&& rva < 0x1_0000_0000 && table < 0x2_0000_0000 && count < 0x1_0000
            },
            None => pe_layout(b@) is None,
        },
{
    let p = match find_pe_offset(b) {
        Some(p) => p,
        None => return None,
    };
    let count = match read16(b, p + 6) {
        Some(c) => c,
        None => return None,
    };
    let opt_size = match read16(b, p + 20) {
        Some(s) => s,
        None => return None,
    };
    let dirs = match find_data_dirs(b, p + 24) {
        Some(d) => d,
        None => return None,
    };
    let rva = match read32(b, dirs + 16) {
        Some(v) => v,
        None => return None,
    };
    if rva == 0 {
        return None;
    }
    Some((rva, p + 24 + opt_size, count))
}

fn find_section_offset(b: &[u8], table: u64, count: u64, rva: u64) -> (r: Option<u64>)
    requires
        table < 0x2_0000_0000,
        count < 0x1_0000,
        rva < 0x1_0000_0000,
    ensures
        opt_int(r) == section_offset(b@, table as int, count as int, rva as int, 0),
        r matches Some(v) ==> v < 0x2_0000_0000,
{
    let mut i: u64 = 0;
    while i < count
        invariant
            i <= count,
            table < 0x2_0000_0000,
            count < 0x1_0000,
            rva < 0x1_0000_0000,
            section_offset(b@, table as int, count as int, rva as int, 0) == section_offset(
                b@,
                table as int,
                count as int,
                rva as int,
                i as int,
            ),
        decreases count - i,
    {
        let h = table + 40 * i;
        let raw_size = read32(b, h + 16);
        let va = read32(b, h + 12);
        let ptr = read32(b, h + 20);
        match (raw_size, va, ptr) {
            (Some(s), Some(v), Some(p)) => {
                if v <= rva && rva < v + s {
                    return Some(rva - v + p);
                }
            },
            _ => {
                return None;
            },
        }
        i = i + 1;
    }
    None
}

fn find_id_entry(b: &[u8], dir: u64, id: u64) -> (r: Option<u64>)
    requires
        dir < 0x10_0000_0000,
    ensures
        opt_int(r) == find_id(b@, dir as int, id as int),
        r matches Some(v) ==> v < 0x1_0000_0000,
{
    let named = match read16(b, dir + 12) {
        Some(x) => x,
        None => return None,
    };
    let ids = match read16(b, dir + 14) {
        Some(x) => x,
        None => return None,
    };
    let end = named + ids;
    let mut i: u64 = named;
    while i < end
        invariant
            named <= i <= end,
            end < 0x2_0000,
            dir < 0x10_0000_0000,
            find_id(b@, dir as int, id as int) == id_entry(b@, dir as int, id as int, i as int, end as int),
        decreases end - i,
    {
        let e = dir + 16 + 8 * i;
        let name = read32(b, e);
        let target = read32(b, e + 4);
        match (name, target) {
            (Some(nm), Some(t)) => {
                if nm == id {
                    return Some(t);
                }
            },
            _ => {
                return None;
            },
        }
        i = i + 1;
    }
    None
}

fn find_first_entry(b: &[u8], dir: u64) -> (r: Option<u64>)
    requires
        dir < 0x10_0000_0000,
    ensures
        opt_int(r) == first_entry(b@, dir as int),
        r matches Some(v) ==> v < 0x1_0000_0000,
{
    let named = match read16(b, dir + 12) {
        Some(x) => x,
        None => return None,
    };
    let ids = match read16(b, dir + 14) {
        Some(x) => x,
        None => return None,
    };
    if named + ids == 0 {
        return None;
    }
    read32(b, dir + 20)
}

fn find_version_entry(b: &[u8], res: u64) -> (r: Option<u64>)
    requires
        res < 0x2_0000_0000,
    ensures
        opt_int(r) == version_entry(b@, res as int),
        r matches Some(v) ==> v < 0x4_0000_0000,
{
    let t = match find_id_entry(b, res, 16) {
        Some(t) => t,
        None => return None,
    };
    if t < 0x8000_0000 {
        return None;
    }
    let n = match find_first_entry(b, res + (t - 0x8000_0000)) {
        Some(n) => n,
        None => return None,
    };
    if n < 0x8000_0000 {
        return None;
    }
    let l = match find_first_entry(b, res + (n - 0x8000_0000)) {
        Some(l) => l,
        None => return None,
    };
    if l >= 0x8000_0000 {
        return None;
    }
    Some(res + l)
}

/// The two halves of the file version recorded in the version resource of the
/// executable whose bytes are `b`; none where it has none.
pub fn read_file_version_numbers(b: &[u8]) -> (r: Option<(u32, u32)>)
    ensures
        match r {
            Some((ms, ls)) => file_version_numbers(b@) == Some((ms as int, ls as int)),
            None => file_version_numbers(b@) is None,
        },
{
    let (rva, table, count) = match find_layout(b) {
        Some(l) => l,
        None => return None,
    };
    let res = match find_section_offset(b, table, count, rva) {
        Some(o) => o,
        None => return None,
    };
    let entry = match find_version_entry(b, res) {
        Some(e) => e,
        None => return None,
    };
    let data_rva = match read32(b, entry) {
        Some(v) => v,
        None => return None,
    };
    let size = match read32(b, entry + 4) {
        Some(v) => v,
        None => return None,
    };
    if size < 56 {
        return None;
    }
    let data = match find_section_offset(b, table, count, data_rva) {
        Some(o) => o,
        None => return None,
    };
    match read32(b, data + 40) {
        Some(sig) => if sig != 0xFEEF04BD {
            return None;
        },
        None => return None,
    }
    let ms = match read32(b, data + 48) {
        Some(v) => v,
        None => return None,
    };
    let ls = match read32(b, data + 52) {
        Some(v) => v,
        None => return None,
    };
    Some((ms as u32, ls as u32))
}

} // verus!
