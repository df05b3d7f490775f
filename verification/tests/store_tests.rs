use release_manager::app::db::{decode_tags, encode_tags, row_to_entry, row_to_tag_group, StoredEntry};
use release_manager::app::model::{LinkedFolder, Timestamp};

fn ts(seconds: i64) -> Timestamp {
    Timestamp { seconds, nanos: 0, offset_seconds: 0 }
}

fn row(tags_json: &str, created: Option<Timestamp>) -> StoredEntry {
    StoredEntry {
        id: Some(7),
        name: "N".to_string(),
        alias: "A".to_string(),
        repo_url: "u".to_string(),
        current_version: "1".to_string(),
        latest_version: Some("2".to_string()),
        asset_name: "a.zip".to_string(),
        install_path: None,
        executable_path: Some("x.exe".to_string()),
        notes: "n".to_string(),
        tags_json: tags_json.to_string(),
        linked_folders: vec![LinkedFolder { path: "p".to_string(), alias: String::new() }],
        created_at: created,
        updated_at: Some(ts(3)),
    }
}

#[test]
fn tags_are_stored_as_json() {
    assert_eq!(encode_tags(&vec!["a".to_string(), "b \"c\"".to_string()]), r#"["a","b \"c\""]"#);
    assert_eq!(encode_tags(&vec![]), "[]");
    assert_eq!(decode_tags(r#"["x", "y"]"#), vec!["x", "y"]);
    assert_eq!(decode_tags("not json"), Vec::<String>::new());
    assert_eq!(decode_tags("[1, 2]"), Vec::<String>::new());
    let tags = vec!["工具".to_string(), "a,b".to_string()];
    assert_eq!(decode_tags(&encode_tags(&tags)), tags);
}

#[test]
fn rows_become_entries() {
    let e = row_to_entry(row(r#"["t"]"#, None), ts(100));
    assert_eq!(e.id, Some(7));
    assert_eq!(e.tags, vec!["t"]);
    assert_eq!(e.created_at.seconds, 100);
    assert_eq!(e.updated_at.seconds, 3);
    assert_eq!(e.linked_folders.len(), 1);
    assert_eq!(e.executable_path, Some("x.exe".to_string()));
    let e = row_to_entry(row("", Some(ts(1))), ts(100));
    assert!(e.tags.is_empty());
    assert_eq!(e.created_at.seconds, 1);
    let g = row_to_tag_group(Some(2), "G".to_string(), r#"["a"]"#);
    assert_eq!(g.id, Some(2));
    assert_eq!(g.tags, vec!["a"]);
    assert!(row_to_tag_group(None, "G".to_string(), "{}").tags.is_empty());
}

#[test]
fn tag_json_escapes_control_characters() {
    let tags = vec!["a\u{1}b".to_string(), "x\ny\tz".to_string(), "back\\slash".to_string(), "é\u{1f}".to_string()];
    assert_eq!(encode_tags(&tags), "[\"a\\u0001b\",\"x\\ny\\tz\",\"back\\\\slash\",\"é\\u001f\"]");
    assert_eq!(decode_tags(&encode_tags(&tags)), tags);
}
