use gir::errors::GirError;
use gir::git_object::{
    object_decode, object_find, object_frame, object_from_tag, object_hash, object_id,
    object_read, object_write, GitBlob, GitCommit, GitObject, GitObjectTrait, GitTag, GitTree,
    ObjectType,
};
use gir::repository::GitRepository;

use flate2::write::GzEncoder;
use flate2::Compression;
use std::io::Write;

fn gzip(data: &[u8]) -> Vec<u8> {
    let mut encoder = GzEncoder::new(Vec::new(), Compression::default());
    encoder.write_all(data).unwrap();
    encoder.finish().unwrap()
}

const HELLO_ID: &str = "ce013625030ba8dba906f756967f9e9ca394464a";

#[test]
fn canonical_frame_of_hello_blob() {
    let obj = GitObject::Blob(GitBlob::new(b"hello\n".to_vec()));
    let frame = object_frame(&obj);
    assert_eq!(frame, b"blob 6\x00hello\n".to_vec());
}

#[test]
fn identifier_of_hello_blob_is_stable() {
    let obj = GitObject::Blob(GitBlob::new(b"hello\n".to_vec()));
    assert_eq!(object_id(&obj), HELLO_ID);
    assert_eq!(object_id(&obj), HELLO_ID);
}

#[test]
fn write_is_deterministic() {
    let obj = GitObject::Blob(GitBlob::new(b"hello\n".to_vec()));
    let (id1, z1) = object_write(&obj).unwrap();
    let (id2, z2) = object_write(&obj).unwrap();
    assert_eq!(id1, id2);
    assert_eq!(z1, z2);
    assert_eq!(id1, HELLO_ID);
}

#[test]
fn hash_only_mode_matches_write() {
    let (id_with_storage, _z) =
        object_write(&GitObject::Blob(GitBlob::new(b"hello\n".to_vec()))).unwrap();
    let id_without = object_hash(b"hello\n".to_vec(), "blob").unwrap();
    assert_eq!(id_with_storage, id_without);
}

#[test]
fn round_trip_all_kinds() {
    let payload = b"arbitrary payload \x00 with a NUL and spaces".to_vec();
    let objects = [
        GitObject::Commit(GitCommit::new(payload.clone())),
        GitObject::Tree(GitTree::new(payload.clone())),
        GitObject::Tag(GitTag::new(payload.clone())),
        GitObject::Blob(GitBlob::new(payload.clone())),
    ];
    for obj in objects.iter() {
        let (id, z) = object_write(obj).unwrap();
        let back = object_decode(&z, &id).unwrap();
        assert_eq!(back.fmt(), obj.fmt());
        assert_eq!(back.serialize(), payload);
    }
}

#[test]
fn round_trip_empty_payload() {
    let obj = GitObject::Blob(GitBlob::new(Vec::new()));
    let frame = object_frame(&obj);
    assert_eq!(frame, b"blob 0\x00".to_vec());
    let (id, z) = object_write(&obj).unwrap();
    let back = object_decode(&z, &id).unwrap();
    assert_eq!(back.serialize(), Vec::<u8>::new());
}

#[test]
fn corrupt_length_field_is_malformed() {
    // The payload is six bytes, but the stored frame claims seven.
    let stored = gzip(b"blob 7\x00hello\n");
    let err = object_decode(&stored, HELLO_ID).unwrap_err();
    match err {
        GirError::MalformedObject { identifier } => assert_eq!(identifier, HELLO_ID),
        other => panic!("expected MalformedObject, got {:?}", other),
    }
}

#[test]
fn corrupt_length_field_shorter_is_malformed() {
    let stored = gzip(b"blob 5\x00hello\n");
    assert!(matches!(
        object_decode(&stored, HELLO_ID),
        Err(GirError::MalformedObject { .. })
    ));
}

#[test]
fn missing_nul_is_malformed() {
    let stored = gzip(b"blob 6 hello\n");
    assert!(matches!(
        object_decode(&stored, HELLO_ID),
        Err(GirError::MalformedObject { .. })
    ));
}

#[test]
fn missing_space_is_malformed() {
    let stored = gzip(b"blob6\x00hello\n");
    assert!(matches!(
        object_decode(&stored, HELLO_ID),
        Err(GirError::MalformedObject { .. })
    ));
}

#[test]
fn non_numeric_length_is_malformed() {
    let stored = gzip(b"blob x\x00hello\n");
    assert!(matches!(
        object_decode(&stored, HELLO_ID),
        Err(GirError::MalformedObject { .. })
    ));
}

#[test]
fn unknown_stored_tag_is_reported() {
    let stored = gzip(b"widget 6\x00hello\n");
    let err = object_decode(&stored, HELLO_ID).unwrap_err();
    match err {
        GirError::UnknownObjectType { tag, identifier } => {
            assert_eq!(tag, "widget");
            assert_eq!(identifier.as_deref(), Some(HELLO_ID));
        }
        other => panic!("expected UnknownObjectType, got {:?}", other),
    }
}

#[test]
fn garbage_bytes_fail_decompression() {
    let stored = b"this is not a gzip stream".to_vec();
    assert!(matches!(
        object_decode(&stored, HELLO_ID),
        Err(GirError::Io { .. })
    ));
}

#[test]
fn unknown_tag_at_hashing_entry_point() {
    let err = object_hash(b"hello\n".to_vec(), "widget").unwrap_err();
    match err {
        GirError::UnknownObjectType { tag, identifier } => {
            assert_eq!(tag, "widget");
            assert_eq!(identifier, None);
        }
        other => panic!("expected UnknownObjectType, got {:?}", other),
    }
}

#[test]
fn object_from_tag_builds_each_kind() {
    for (tag, want) in [
        ("commit", "commit"),
        ("tree", "tree"),
        ("tag", "tag"),
        ("blob", "blob"),
    ] {
        let obj = object_from_tag(b"x".to_vec(), tag).unwrap();
        assert_eq!(obj.fmt(), want);
        assert_eq!(obj.serialize(), b"x".to_vec());
    }
    assert!(object_from_tag(b"x".to_vec(), "Blob").is_err());
    assert!(object_from_tag(b"x".to_vec(), "").is_err());
}

#[test]
fn object_find_is_a_passthrough() {
    let repo = GitRepository::new("wt".to_string(), true, false, None).unwrap();
    let found = object_find(&repo, HELLO_ID, Some("blob"), Some(true)).unwrap();
    assert_eq!(found, HELLO_ID);
}

#[test]
fn trait_accessors_expose_tag_and_payload() {
    let commit = GitCommit::new(b"c".to_vec());
    assert_eq!(commit.fmt(), "commit");
    assert_eq!(commit.serialize(), b"c".to_vec());
    assert_eq!(commit.deserialize(), b"c".to_vec());
    let blob = GitBlob::new(b"b".to_vec());
    assert_eq!(blob.fmt(), "blob");
    assert_eq!(blob.deserialize(), b"b".to_vec());
    let tree = GitTree::new(b"t".to_vec());
    assert_eq!(tree.fmt(), "tree");
    assert_eq!(tree.serialize(), b"t".to_vec());
    let tag = GitTag::new(b"g".to_vec());
    assert_eq!(tag.fmt(), "tag");
    assert_eq!(tag.serialize(), b"g".to_vec());
}

#[test]
fn object_type_tag_strings() {
    assert_eq!(ObjectType::Blob.tag_str(), "blob");
    assert_eq!(ObjectType::Commit.tag_str(), "commit");
    assert_eq!(ObjectType::Tag.tag_str(), "tag");
    assert_eq!(ObjectType::Tree.tag_str(), "tree");
}

#[test]
fn read_of_absent_object_is_not_an_error() {
    assert!(matches!(object_read(None, HELLO_ID), Ok(None)));
}

#[test]
fn read_of_present_object_decodes_it() {
    let obj = GitObject::Blob(GitBlob::new(b"hello\n".to_vec()));
    let (id, z) = object_write(&obj).unwrap();
    let back = object_read(Some(z), &id).unwrap().unwrap();
    assert_eq!(back.fmt(), "blob");
    assert_eq!(back.serialize(), b"hello\n".to_vec());
    assert!(matches!(
        object_read(Some(b"not gzip".to_vec()), &id),
        Err(GirError::Io { .. })
    ));
}

#[test]
fn compressed_frame_differs_from_plain_frame() {
    let obj = GitObject::Blob(GitBlob::new(b"hello\n".to_vec()));
    let frame = object_frame(&obj);
    let (_id, z) = object_write(&obj).unwrap();
    assert_ne!(frame, z);
}
