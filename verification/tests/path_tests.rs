use release_manager::utils::path::{get_file_version, index_of_largest, is_exe_file_name};
use std::path::Path;

#[test]
fn exe_extension_like_path() {
    for name in ["a.exe", "a.b.exe", ".exe", "..", "exe", "a.EXE", "a.exe.bak", "a.", ".a.exe", "a..exe", "setup .exe"] {
        let expected = Path::new(name).extension().and_then(|s| s.to_str()) == Some("exe");
        assert_eq!(is_exe_file_name(name), expected, "{:?}", name);
    }
}

#[test]
fn largest_is_the_last_maximum() {
    assert_eq!(index_of_largest(&vec![]), None);
    assert_eq!(index_of_largest(&vec![5]), Some(0));
    assert_eq!(index_of_largest(&vec![1, 9, 3, 9, 2]), Some(3));
    assert_eq!(index_of_largest(&vec![0, 0, 0]), Some(2));
    let v = vec![4u64, 7, 7, 1];
    assert_eq!(index_of_largest(&v), v.iter().enumerate().max_by_key(|(_, s)| **s).map(|(i, _)| i));
}

fn put16(b: &mut [u8], at: usize, v: u16) {
    b[at..at + 2].copy_from_slice(&v.to_le_bytes());
}

fn put32(b: &mut [u8], at: usize, v: u32) {
    b[at..at + 4].copy_from_slice(&v.to_le_bytes());
}

/// A small PE32 file with one section holding a version resource whose fixed
/// part records the file version `ms`.`ls`.
fn pe_with_version(ms: u32, ls: u32) -> Vec<u8> {
    let mut b = vec![0u8; 0x400];
    b[0] = b'M';
    b[1] = b'Z';
    put32(&mut b, 0x3C, 0x40);
    b[0x40..0x44].copy_from_slice(b"PE\0\0");
    put16(&mut b, 0x46, 1);
    put16(&mut b, 0x54, 0xE0);
    put16(&mut b, 0x58, 0x10B);
    put32(&mut b, 0x58 + 92, 16);
    put32(&mut b, 0x58 + 96 + 16, 0x1000);
    put32(&mut b, 0x58 + 96 + 20, 0x100);
    let sec = 0x58 + 0xE0;
    put32(&mut b, sec + 8, 0x200);
    put32(&mut b, sec + 12, 0x1000);
    put32(&mut b, sec + 16, 0x200);
    put32(&mut b, sec + 20, 0x200);
    put16(&mut b, 0x20E, 1);
    put32(&mut b, 0x210, 16);
    put32(&mut b, 0x214, 0x8000_0018);
    put16(&mut b, 0x226, 1);
    put32(&mut b, 0x228, 1);
    put32(&mut b, 0x22C, 0x8000_0030);
    put16(&mut b, 0x23E, 1);
    put32(&mut b, 0x240, 0x409);
    put32(&mut b, 0x244, 0x48);
    put32(&mut b, 0x248, 0x1060);
    put32(&mut b, 0x24C, 0x5C);
    put16(&mut b, 0x260, 0x5C);
    put16(&mut b, 0x262, 0x34);
    put32(&mut b, 0x260 + 40, 0xFEEF_04BD);
    put32(&mut b, 0x260 + 48, ms);
    put32(&mut b, 0x260 + 52, ls);
    b
}

#[test]
fn file_version_from_version_resource() {
    assert_eq!(get_file_version(&pe_with_version(0x0001_0002, 0x0003_0004)), Some("1.2.3.4".to_string()));
    assert_eq!(get_file_version(&pe_with_version(0xFFFF_000A, 0x0000_0000)), Some("65535.10.0.0".to_string()));
}

#[test]
fn no_file_version() {
    assert_eq!(get_file_version(&[]), None);
    assert_eq!(get_file_version(b"MZ"), None);
    assert_eq!(get_file_version(b"#!/bin/sh\necho hi\n"), None);
    let mut bad_signature = pe_with_version(1, 2);
    put32(&mut bad_signature, 0x260 + 40, 0);
    assert_eq!(get_file_version(&bad_signature), None);
    let mut no_version_type = pe_with_version(1, 2);
    put32(&mut no_version_type, 0x210, 3);
    assert_eq!(get_file_version(&no_version_type), None);
    let mut no_resources = pe_with_version(1, 2);
    put32(&mut no_resources, 0x58 + 96 + 16, 0);
    assert_eq!(get_file_version(&no_resources), None);
    let truncated = pe_with_version(1, 2)[..0x280].to_vec();
    assert_eq!(get_file_version(&truncated), None);
}
