use std::io::Write;
use xmind_md::archive::{entry_listing, find_content_json, normalize_zip_name, select_data_entry};
use xmind_md::convert::{convert_archive, convert_content, has_xmind_extension};
use xmind_md::error::ConvertError;
use xmind_md::json::parse_content_json;

fn zip_of(entries: &[(&str, &str)]) -> Vec<u8> {
    let mut w = zip::ZipWriter::new(std::io::Cursor::new(Vec::new()));
    let opts = zip::write::SimpleFileOptions::default().compression_method(zip::CompressionMethod::Stored);
    for (name, body) in entries {
        w.start_file(*name, opts).unwrap();
        w.write_all(body.as_bytes()).unwrap();
    }
    w.finish().unwrap().into_inner()
}

fn names(ns: &[&str]) -> Vec<String> {
    ns.iter().map(|s| s.to_string()).collect()
}

#[test]
fn no_data_entry_lists_entries() {
    let bytes = zip_of(&[("a.txt", "x"), ("dir/b.png", "y")]);
    match convert_archive(&bytes) {
        Err(ConvertError::DataEntryNotFound(l)) => assert_eq!(l, "a.txt, dir/b.png"),
        other => panic!("unexpected {:?}", other),
    }
}

#[test]
fn legacy_only_is_unsupported() {
    let bytes = zip_of(&[("content.xml", "<xmap-content/>")]);
    assert_eq!(convert_archive(&bytes), Err(ConvertError::UnsupportedLegacyFormat));
    let nested = zip_of(&[("x/content.xml", "<xmap-content/>")]);
    assert_eq!(convert_archive(&nested), Err(ConvertError::UnsupportedLegacyFormat));
}

#[test]
fn archive_converts_to_markdown() {
    let json = r#"[{"rootTopic":{"title":"Plan","children":{"attached":[{"title":"A","notes":{"plain":{"content":"<i>n</i>"}}}]}}}]"#;
    let bytes = zip_of(&[("content.xml", "old"), ("content.json", json)]);
    assert_eq!(convert_archive(&bytes), Ok("# Plan\n\n## A\n\n> n\n\n".to_string()));
}

#[test]
fn nested_data_entry_is_found() {
    let json = r#"{"rootTopic":{"title":"N"}}"#;
    let bytes = zip_of(&[("contents/content.json", json)]);
    assert_eq!(convert_archive(&bytes), Ok("# N\n".to_string()));
}

#[test]
fn bad_payload_in_archive_is_malformed() {
    let bytes = zip_of(&[("content.json", "not json")]);
    assert_eq!(convert_archive(&bytes), Err(ConvertError::MalformedPayload));
}

#[test]
fn corrupt_bytes_are_refused() {
    assert_eq!(convert_archive(b"definitely not a zip"), Err(ConvertError::CorruptArchive));
    assert_eq!(convert_archive(&[]), Err(ConvertError::CorruptArchive));
}

#[test]
fn normalizes_entry_names() {
    assert_eq!(normalize_zip_name("\\dir\\content.json/"), "dir/content.json");
    assert_eq!(normalize_zip_name("//content.json"), "content.json");
    assert_eq!(normalize_zip_name("///"), "");
}

#[test]
fn root_entry_is_preferred() {
    let ns = names(&["x/content.json", "content.json", "/content.json"]);
    assert_eq!(find_content_json(&ns), Some("content.json"));
    assert_eq!(select_data_entry(&ns), Ok(1));
    let nested = names(&["a.txt", "x/content.json", "y/content.json"]);
    assert_eq!(find_content_json(&nested), Some("x/content.json"));
    let none = names(&["mycontent.json", "content.json.bak"]);
    assert_eq!(find_content_json(&none), None);
}

#[test]
fn listing_truncates_after_twenty() {
    let many: Vec<String> = (0..25).map(|i| format!("f{}", i)).collect();
    let expected = (0..20).map(|i| format!("f{}", i)).collect::<Vec<_>>().join(", ") + " ...";
    assert_eq!(entry_listing(&many), expected);
    assert_eq!(entry_listing(&many[..20]), (0..20).map(|i| format!("f{}", i)).collect::<Vec<_>>().join(", "));
    assert_eq!(entry_listing(&[]), "");
}

#[test]
fn payload_shapes() {
    let a = parse_content_json(r#"[{"rootTopic":{"title":"A"}}, {}]"#).unwrap();
    assert_eq!(a.title.as_deref(), Some("A"));
    let o = parse_content_json(r#"{"rootTopic":{"title":"O","children":{"attached":[{},{"title":"k"}]}}}"#).unwrap();
    assert_eq!(o.children.unwrap().attached.len(), 2);
    assert_eq!(parse_content_json("[]").unwrap_err(), ConvertError::MalformedPayload);
    assert_eq!(parse_content_json("{").unwrap_err(), ConvertError::MalformedPayload);
    assert_eq!(parse_content_json(r#"{"sheet":1}"#).unwrap_err(), ConvertError::MalformedPayload);
    assert_eq!(parse_content_json(r#"[{"x":1}]"#).unwrap_err(), ConvertError::MalformedPayload);
    assert_eq!(parse_content_json(r#"{"rootTopic":3}"#).unwrap_err(), ConvertError::MalformedPayload);
}

#[test]
fn mistyped_fields_count_as_absent() {
    let t = parse_content_json(r#"{"rootTopic":{"title":5,"notes":"x","children":{"attached":3}}}"#).unwrap();
    assert!(t.title.is_none());
    assert!(t.notes.is_none());
    assert_eq!(t.children.unwrap().attached.len(), 0);
    assert_eq!(convert_content(r#"{"rootTopic":{"title":null}}"#), Ok("# \n".to_string()));
}

#[test]
fn extension_must_be_xmind() {
    assert!(has_xmind_extension("/home/u/map.xmind"));
    assert!(!has_xmind_extension("/home/u/map.zip"));
    assert!(!has_xmind_extension("/home/u/xmind"));
    assert!(!has_xmind_extension("map.XMIND"));
}

#[test]
fn first_array_element_is_read() {
    let t = parse_content_json(r#"[{"rootTopic":{"title":"A"}},{"rootTopic":{"title":"B"}}]"#).unwrap();
    assert_eq!(t.title.as_deref(), Some("A"));
    assert!(t.notes.is_none());
    assert!(t.children.is_none());
}

#[test]
fn empty_root_topic_reads_as_empty() {
    let t = parse_content_json(r#"{"rootTopic":{}}"#).unwrap();
    assert!(t.title.is_none() && t.notes.is_none() && t.children.is_none());
}

#[test]
fn attached_children_keep_order() {
    let t = parse_content_json(
        r#"{"rootTopic":{"children":{"attached":[{"title":"C1"},{"title":"C2"}],"detached":[{"title":"D"}]}}}"#,
    )
    .unwrap();
    let kids = t.children.unwrap().attached;
    assert_eq!(kids.len(), 2);
    assert_eq!(kids[0].title.as_deref(), Some("C1"));
    assert_eq!(kids[1].title.as_deref(), Some("C2"));
}

#[test]
fn non_object_child_is_malformed() {
    assert_eq!(
        parse_content_json(r#"{"rootTopic":{"children":{"attached":[{"title":"ok"}, "x"]}}}"#).unwrap_err(),
        ConvertError::MalformedPayload
    );
    assert_eq!(parse_content_json(r#"{"rootTopic":null}"#).unwrap_err(), ConvertError::MalformedPayload);
}

#[test]
fn plain_notes_are_read_from_json() {
    let t = parse_content_json(r#"{"rootTopic":{"notes":{"plain":{"content":"hi"},"html":{}}}}"#).unwrap();
    let plain = t.notes.unwrap().plain.unwrap();
    assert_eq!(plain.content.as_deref(), Some("hi"));
    assert_eq!(convert_content(r#"{"rootTopic":{"title":"T","notes":{"plain":{"content":"a\nb"}}}}"#), Ok("# T\n\n> a\n> b\n\n".to_string()));
}
