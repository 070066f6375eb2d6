//! The storage-side helpers: transport encoding and local path mapping.

use tiny_dfs::error::TinyDfsError;
use tiny_dfs::storage::{
    base64_decode, base64_encode, check_read_length, global_to_local, io_failure_error,
    local_to_global,
};

#[test]
fn test_read_write() {
    // What a client writes is exactly what it reads back.
    let data = b"hello world!!!";
    let encoded = base64_encode(data);
    assert_eq!(encoded, "aGVsbG8gd29ybGQhISE=");
    let decoded = base64_decode(&encoded).expect("own encoding must decode");
    assert_eq!(decoded, data.to_vec());
}

#[test]
fn base64_known_values() {
    assert_eq!(base64_encode(b""), "");
    assert_eq!(base64_encode(b"hello"), "aGVsbG8=");
    assert_eq!(base64_encode(&[0, 1, 2, 3]), "AAECAw==");
    assert_eq!(base64_decode("aGVsbG8="), Some(b"hello".to_vec()));
    // Not base64 at all.
    assert_eq!(base64_decode("!!!"), None);
    // Wrong padding for the standard, padded alphabet.
    assert_eq!(base64_decode("aGVsbG8"), None);
}

#[test]
fn local_path_round_trip() {
    let local = global_to_local("/tmp/tiny-dfs", "/test111");
    assert_eq!(local, "/tmp/tiny-dfs/test111");
    assert_eq!(local_to_global("/tmp/tiny-dfs", &local), "/test111");
}

#[test]
fn read_length_validation() {
    assert_eq!(check_read_length(-1), Err(TinyDfsError::IndexOutOfBound));
    assert_eq!(check_read_length(0), Ok(0));
    assert_eq!(check_read_length(300), Ok(300));
}

#[test]
fn io_failure_classification() {
    assert_eq!(io_failure_error(true, false), TinyDfsError::IndexOutOfBound);
    assert_eq!(io_failure_error(false, true), TinyDfsError::IOInterrupted);
    assert_eq!(io_failure_error(false, false), TinyDfsError::FileNotFound);
}
