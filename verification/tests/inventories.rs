//! Inventory decoding: the signature check, record parsing with the
//! placeholder and display conventions, and import into the external
//! mapping.

use std::io::Write;

use flate2::write::ZlibEncoder;
use flate2::Compression;

use snakedown::index::Index;
use snakedown::inventory::{
    decode_inventory, import_inventory, InventoryError, InventoryKind,
};

fn build_inventory(records: &str) -> Vec<u8> {
    let mut bytes = Vec::new();
    bytes.extend_from_slice(b"# Sphinx inventory version 2\n");
    bytes.extend_from_slice(b"# Project: testproj\n");
    bytes.extend_from_slice(b"# Version: 1.0\n");
    bytes.extend_from_slice(b"# The remainder of this file is compressed using zlib.\n");
    let mut enc = ZlibEncoder::new(Vec::new(), Compression::default());
    enc.write_all(records.as_bytes()).unwrap();
    bytes.extend_from_slice(&enc.finish().unwrap());
    bytes
}

#[test]
fn decode_round_trip() {
    let bytes = build_inventory(
        "numpy.fft py:module 1 reference/routines.fft.html#module-$ -\n\
         numpy.ndarray py:class 1 reference/generated/numpy.ndarray.html#$ the ndarray\n",
    );
    let entries = decode_inventory(&bytes).unwrap();
    assert_eq!(entries.len(), 2);
    assert_eq!(entries[0].name, "numpy.fft".to_string());
    assert_eq!(entries[0].kind, InventoryKind::PythonModule);
    assert_eq!(
        entries[0].location,
        "reference/routines.fft.html#module-numpy.fft".to_string()
    );
    assert_eq!(entries[0].display_name, "numpy.fft".to_string());
    assert_eq!(entries[1].kind, InventoryKind::PythonClass);
    assert_eq!(entries[1].display_name, "the ndarray".to_string());
    assert_eq!(
        entries[1].location,
        "reference/generated/numpy.ndarray.html#numpy.ndarray".to_string()
    );
}

#[test]
fn decode_rejects_missing_signature() {
    let bytes = b"# Something else version 2\n".to_vec();
    assert_eq!(
        decode_inventory(&bytes),
        Err(InventoryError::MissingSignature)
    );
}

#[test]
fn decode_rejects_garbage_block() {
    let mut bytes = Vec::new();
    bytes.extend_from_slice(b"# Sphinx inventory version 2\n# Project: x\n");
    bytes.extend_from_slice(b"this is not compressed data");
    assert_eq!(
        decode_inventory(&bytes),
        Err(InventoryError::CompressedBlock)
    );
}

#[test]
fn decode_rejects_malformed_record() {
    let bytes = build_inventory("only-two fields\n");
    assert_eq!(
        decode_inventory(&bytes),
        Err(InventoryError::MalformedRecord)
    );
}

#[test]
fn decode_classifies_foreign_and_label_kinds() {
    let bytes = build_inventory(
        "some_fn c:function 1 api.html#$ -\n\
         install std:label -1 install.html#$ Installation\n\
         guide std:doc -1 guide.html -\n",
    );
    let entries = decode_inventory(&bytes).unwrap();
    assert_eq!(entries[0].kind, InventoryKind::Foreign);
    assert_eq!(entries[1].kind, InventoryKind::Label);
    assert_eq!(entries[2].kind, InventoryKind::DocumentPage);
}

#[test]
fn import_filters_by_allow_list_and_joins_urls() {
    let bytes = build_inventory(
        "numpy.fft py:module 1 reference/routines.fft.html#module-$ -\n\
         some_fn c:function 1 api.html#$ -\n\
         install std:label -1 install.html#$ Installation\n",
    );
    let entries = decode_inventory(&bytes).unwrap();
    let mut idx = Index::new("pkg".to_string(), false, false).unwrap();
    import_inventory(&mut idx, "https://numpy.org/doc/stable", &entries);
    assert_eq!(idx.external_object_store.len(), 1);
    assert_eq!(
        idx.lookup_external("numpy.fft"),
        Some(&"https://numpy.org/doc/stable/reference/routines.fft.html#module-numpy.fft".to_string())
    );
    assert_eq!(idx.lookup_external("some_fn"), None);
    assert_eq!(idx.lookup_external("install"), None);
}

#[test]
fn import_later_entries_overwrite() {
    let bytes = build_inventory(
        "numpy.fft py:module 1 old.html -\n\
         numpy.fft py:module 1 new.html -\n",
    );
    let entries = decode_inventory(&bytes).unwrap();
    let mut idx = Index::new("pkg".to_string(), false, false).unwrap();
    import_inventory(&mut idx, "https://numpy.org/", &entries);
    assert_eq!(idx.external_object_store.len(), 1);
    assert_eq!(
        idx.lookup_external("numpy.fft"),
        Some(&"https://numpy.org/new.html".to_string())
    );
}

#[test]
fn decode_skips_empty_lines() {
    let bytes = build_inventory("\nnumpy.fft py:module 1 a.html -\n\n");
    let entries = decode_inventory(&bytes).unwrap();
    assert_eq!(entries.len(), 1);
}
