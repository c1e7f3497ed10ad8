//! Checks of the NPZ container: archive structure, entry contents, the
//! closed-state machine, and teardown without an explicit close.

use std::io::Read;
use npy_writer::element::F32Bits;
use npy_writer::npz::{NpzError, NpzWriter};
use npy_writer::writer::NumpyWriter;

fn read_entry(bytes: &[u8], name: &str) -> Vec<u8> {
    let cursor = std::io::Cursor::new(bytes.to_vec());
    let mut archive = zip::ZipArchive::new(cursor).unwrap();
    let mut file = archive.by_name(name).unwrap();
    let mut content = Vec::new();
    file.read_to_end(&mut content).unwrap();
    content
}

#[test]
fn npz_two_entries() {
    // Two named arrays — a scalar f32 and a string list — land in a valid
    // zip archive as exactly the entries a.npy and b.npy, each a complete
    // NPY payload identical to what the writer emits on its own.
    let mut npz = NpzWriter::new();
    npz.write("a", F32Bits { bits: 1.5f32.to_bits() }).unwrap();
    let strs: Vec<String> = vec!["x".to_string(), "yy".to_string()];
    npz.write("b", &strs).unwrap();
    let bytes = npz.close().unwrap();

    let cursor = std::io::Cursor::new(bytes.clone());
    let mut archive = zip::ZipArchive::new(cursor).unwrap();
    let mut names: Vec<String> = (0..archive.len())
        .map(|i| archive.by_index(i).unwrap().name().to_string())
        .collect();
    names.sort();
    assert_eq!(names, vec!["a.npy".to_string(), "b.npy".to_string()]);

    let mut expected_a: Vec<u8> = Vec::new();
    F32Bits { bits: 1.5f32.to_bits() }.write_npy(&mut expected_a);
    assert_eq!(read_entry(&bytes, "a.npy"), expected_a);

    let mut expected_b: Vec<u8> = Vec::new();
    (&strs).write_npy(&mut expected_b);
    assert_eq!(read_entry(&bytes, "b.npy"), expected_b);
}

#[test]
fn npz_write_after_close_fails() {
    let mut npz = NpzWriter::new();
    npz.write("first", 7u32).unwrap();
    let bytes = npz.close().unwrap();
    assert!(!bytes.is_empty());
    // The container is closed for good: further calls report it.
    assert_eq!(npz.write("late", 1u8), Err(NpzError::Closed));
    assert_eq!(npz.close(), Err(NpzError::Closed));
}

#[test]
fn npz_empty_archive() {
    let mut npz = NpzWriter::new();
    let bytes = npz.close().unwrap();
    let cursor = std::io::Cursor::new(bytes);
    let archive = zip::ZipArchive::new(cursor).unwrap();
    assert_eq!(archive.len(), 0);
}

#[test]
fn npz_teardown_without_close() {
    // Dropping a container that was never closed must not panic: the
    // archive writer it owns attempts finalization itself, discarding
    // any error.
    let mut npz = NpzWriter::new();
    npz.write("only", vec![1u16, 2, 3]).unwrap();
    drop(npz);
}
