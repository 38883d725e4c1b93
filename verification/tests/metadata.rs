use aytest1::metadata::{extract, field_key_string, mapping, Metadata, MetadataEntry, RawField};

fn tiff_with_two_fields() -> Vec<u8> {
    let mut bytes: Vec<u8> = Vec::new();
    bytes.extend_from_slice(&[0x49, 0x49, 0x2a, 0x00, 0x08, 0x00, 0x00, 0x00]);
    bytes.extend_from_slice(&[0x02, 0x00]);
    bytes.extend_from_slice(&[0x00, 0x01, 0x03, 0x00, 0x01, 0x00, 0x00, 0x00, 0x11, 0x00, 0x00, 0x00]);
    bytes.extend_from_slice(&[0x0f, 0x01, 0x02, 0x00, 0x06, 0x00, 0x00, 0x00, 0x26, 0x00, 0x00, 0x00]);
    bytes.extend_from_slice(&[0x00, 0x00, 0x00, 0x00]);
    bytes.extend_from_slice(b"Canon\0");
    bytes
}

fn field(tag: &str, directory: u16, value: &str) -> RawField {
    RawField {
        tag: tag.to_string(),
        directory,
        value: value.to_string(),
    }
}

fn entry(key: &str, value: &str) -> MetadataEntry {
    MetadataEntry {
        key: key.to_string(),
        value: value.to_string(),
    }
}

#[test]
fn content_without_metadata_gives_empty_mapping() {
    for content in [&b"hello"[..], &b""[..], &[0xff, 0xd8, 0xff][..], &[0x49, 0x49, 0x2a, 0x00][..]] {
        let meta = extract(content);
        assert!(meta.is_empty());
        assert_eq!(meta.len(), 0);
        assert_eq!(meta.entries(), &Vec::<MetadataEntry>::new());
    }
}

#[test]
fn embedded_tags_are_filed_under_tag_and_directory() {
    let meta = extract(&tiff_with_two_fields());
    assert_eq!(meta.len(), 2);
    assert!(meta.contains_key("Make 0"));
    assert_eq!(meta.get("Make 0"), Some(&"\"Canon\"".to_string()));
    assert_eq!(meta.get("ImageWidth 0"), Some(&"17 pixels".to_string()));
    assert_eq!(meta.get("Make"), None);
    assert_eq!(meta.get("Make 1"), None);
    assert_eq!(
        meta.entries(),
        &vec![entry("ImageWidth 0", "17 pixels"), entry("Make 0", "\"Canon\"")]
    );
}

#[test]
fn truncated_container_gives_empty_mapping() {
    let mut bytes = tiff_with_two_fields();
    bytes.truncate(30);
    assert!(extract(&bytes).is_empty());
}

#[test]
fn keys_join_tag_and_directory_number() {
    assert_eq!(field_key_string("Make", 0), "Make 0");
    assert_eq!(field_key_string("XResolution", 1), "XResolution 1");
    assert_eq!(field_key_string("Tag(Tiff, 65000)", 65535), "Tag(Tiff, 65000) 65535");
    assert_eq!(field_key_string("", 12), " 12");
}

#[test]
fn later_field_replaces_earlier_one_with_same_key() {
    let fields = vec![
        field("Make", 0, "first"),
        field("Model", 0, "m"),
        field("Make", 1, "thumb"),
        field("Make", 0, "second"),
    ];
    let meta = mapping(&fields);
    assert_eq!(meta.len(), 3);
    assert_eq!(meta.get("Make 0"), Some(&"second".to_string()));
    assert_eq!(meta.get("Model 0"), Some(&"m".to_string()));
    assert_eq!(meta.get("Make 1"), Some(&"thumb".to_string()));
    assert_eq!(
        meta.entries(),
        &vec![entry("Make 0", "second"), entry("Model 0", "m"), entry("Make 1", "thumb")]
    );
}

#[test]
fn mapping_of_no_fields_is_empty() {
    assert!(mapping(&Vec::new()).is_empty());
}

#[test]
fn insert_adds_or_replaces() {
    let mut meta = Metadata::new();
    assert!(meta.is_empty());
    meta.insert("a".to_string(), "1".to_string());
    meta.insert("b".to_string(), "2".to_string());
    assert_eq!(meta.len(), 2);
    assert!(!meta.is_empty());
    meta.insert("a".to_string(), "3".to_string());
    assert_eq!(meta.len(), 2);
    assert_eq!(meta.get("a"), Some(&"3".to_string()));
    assert_eq!(meta.get("b"), Some(&"2".to_string()));
    assert_eq!(meta.get("c"), None);
    assert!(meta.contains_key("b"));
    assert!(!meta.contains_key("c"));
}
