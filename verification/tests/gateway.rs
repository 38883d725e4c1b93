use aytest1::fetch::{FetchCause, FetchError};
use aytest1::gateway::{
    download_reply, error_name, locate, order_reply, status_code, upload_reply, GatewayError,
};
use aytest1::session::SessionError;
use aytest1::store::{NameError, StorageRoot};
use std::collections::HashMap;

fn reply_json(bytes: u64, entries: &[(String, String)]) -> String {
    let mut meta = serde_json::Map::new();
    for (key, value) in entries {
        meta.insert(key.clone(), serde_json::Value::String(value.clone()));
    }
    let mut body = serde_json::Map::new();
    body.insert("bytes".to_string(), serde_json::Value::from(bytes));
    body.insert("meta".to_string(), serde_json::Value::Object(meta));
    serde_json::to_string(&serde_json::Value::Object(body)).unwrap()
}

#[test]
fn put_then_get_round_trip() {
    let root = StorageRoot::new("/tmp/gateway".to_string());
    let mut disk: HashMap<String, Vec<u8>> = HashMap::new();

    let content = b"hello".to_vec();
    let path = locate(&root, "a.txt").unwrap();
    assert_eq!(path, "/tmp/gateway/a.txt");
    disk.insert(path, content.clone());
    let reply = upload_reply(&content);
    assert_eq!(reply.bytes, 5);
    assert!(reply.meta.is_empty());
    let entries: Vec<(String, String)> = reply
        .meta
        .entries()
        .iter()
        .map(|e| (e.key.clone(), e.value.clone()))
        .collect();
    assert_eq!(reply_json(reply.bytes, &entries), "{\"bytes\":5,\"meta\":{}}");

    let path = locate(&root, "a.txt").unwrap();
    let body = download_reply(disk.get(&path).cloned()).unwrap();
    assert_eq!(body, b"hello".to_vec());
}

#[test]
fn round_trip_keeps_every_byte() {
    let root = StorageRoot::new("/srv/files/".to_string());
    let mut disk: HashMap<String, Vec<u8>> = HashMap::new();
    let content: Vec<u8> = (0..=255u8).collect();
    disk.insert(locate(&root, "blob.bin").unwrap(), content.clone());
    assert_eq!(upload_reply(&content).bytes, 256);
    let again = locate(&root, "blob.bin").unwrap();
    assert_eq!(again, "/srv/files/blob.bin");
    assert_eq!(download_reply(disk.get(&again).cloned()), Ok(content));
    let other = locate(&root, "never.bin").unwrap();
    assert_eq!(
        download_reply(disk.get(&other).cloned()),
        Err(GatewayError::NotFound)
    );
}

#[test]
fn second_upload_overwrites_first() {
    let root = StorageRoot::new("/r".to_string());
    let mut disk: HashMap<String, Vec<u8>> = HashMap::new();
    disk.insert(locate(&root, "n").unwrap(), b"one".to_vec());
    disk.insert(locate(&root, "m").unwrap(), b"other".to_vec());
    disk.insert(locate(&root, "n").unwrap(), b"two".to_vec());
    assert_eq!(
        download_reply(disk.get(&locate(&root, "n").unwrap()).cloned()),
        Ok(b"two".to_vec())
    );
    assert_eq!(
        download_reply(disk.get(&locate(&root, "m").unwrap()).cloned()),
        Ok(b"other".to_vec())
    );
}

#[test]
fn download_of_unknown_name_is_not_found() {
    let root = StorageRoot::new("/r".to_string());
    let disk: HashMap<String, Vec<u8>> = HashMap::new();
    let path = locate(&root, "missing.txt").unwrap();
    let reply = download_reply(disk.get(&path).cloned());
    assert_eq!(reply, Err(GatewayError::NotFound));
    assert_eq!(status_code(&GatewayError::NotFound), 404);
}

#[test]
fn refused_names_are_reported() {
    let root = StorageRoot::new("/r".to_string());
    assert_eq!(
        locate(&root, "../secret"),
        Err(GatewayError::InvalidName(NameError::Traversal))
    );
    assert_eq!(
        locate(&root, "/abs"),
        Err(GatewayError::InvalidName(NameError::Absolute))
    );
    assert_eq!(locate(&root, ""), Err(GatewayError::InvalidName(NameError::Empty)));
}

#[test]
fn upload_reply_counts_bytes_and_reads_metadata() {
    let mut tiff: Vec<u8> = Vec::new();
    tiff.extend_from_slice(&[0x4d, 0x4d, 0x00, 0x2a, 0x00, 0x00, 0x00, 0x08]);
    tiff.extend_from_slice(&[0x00, 0x01]);
    tiff.extend_from_slice(&[0x01, 0x01, 0x00, 0x03, 0x00, 0x00, 0x00, 0x01, 0x00, 0x09, 0x00, 0x00]);
    tiff.extend_from_slice(&[0x00, 0x00, 0x00, 0x00]);
    let reply = upload_reply(&tiff);
    assert_eq!(reply.bytes, 26);
    assert_eq!(reply.meta.len(), 1);
    assert_eq!(reply.meta.get("ImageLength 0"), Some(&"9 pixels".to_string()));
    let entries: Vec<(String, String)> = reply
        .meta
        .entries()
        .iter()
        .map(|e| (e.key.clone(), e.value.clone()))
        .collect();
    assert_eq!(
        reply_json(reply.bytes, &entries),
        "{\"bytes\":26,\"meta\":{\"ImageLength 0\":\"9 pixels\"}}"
    );
}

#[test]
fn only_missing_files_are_404() {
    assert_eq!(status_code(&GatewayError::NotFound), 404);
    assert_eq!(status_code(&GatewayError::InvalidName(NameError::Traversal)), 500);
    assert_eq!(status_code(&GatewayError::Exec(SessionError::AuthError)), 500);
    assert_eq!(status_code(&GatewayError::Exec(SessionError::TimeoutError)), 500);
}

#[test]
fn order_is_confirmed_in_words() {
    assert_eq!(
        order_reply("Chashu", 4),
        "Hello, Chashu! I've put in an order for 4 shoes"
    );
    assert_eq!(
        order_reply("", 65535),
        "Hello, ! I've put in an order for 65535 shoes"
    );
    assert_eq!(
        order_reply("Mary Millipede", 750),
        "Hello, Mary Millipede! I've put in an order for 750 shoes"
    );
}

#[test]
fn errors_are_reported_by_name() {
    assert_eq!(error_name(&GatewayError::NotFound), "NotFound");
    assert_eq!(error_name(&GatewayError::InvalidName(NameError::Empty)), "InvalidName");
    assert_eq!(
        error_name(&GatewayError::Fetch(FetchError {
            cause: FetchCause::ConnectionFailed
        })),
        "FetchError"
    );
    let exec = [
        (SessionError::ConnectError, "ConnectError"),
        (SessionError::HandshakeError, "HandshakeError"),
        (SessionError::AuthError, "AuthError"),
        (SessionError::ChannelError, "ChannelError"),
        (SessionError::ExecError, "ExecError"),
        (SessionError::TimeoutError, "TimeoutError"),
    ];
    for (error, name) in exec {
        assert_eq!(error_name(&GatewayError::Exec(error)), name);
    }
}
