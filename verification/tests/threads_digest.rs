use just_notes::threads::digest::{fingerprint_bytes, tree_digest, trees_match, TreeFile};
use sha2::{Digest, Sha256};

fn file(path: &str, contents: &str) -> TreeFile {
    TreeFile { relative_path: path.as_bytes().to_vec(), contents: contents.as_bytes().to_vec() }
}

#[test]
fn each_part_is_framed_by_its_big_endian_length() {
    let bytes = fingerprint_bytes(&vec![file("a", "bc")]);
    let mut expected = vec![0, 0, 0, 0, 0, 0, 0, 1, b'a'];
    expected.extend_from_slice(&[0, 0, 0, 0, 0, 0, 0, 2, b'b', b'c']);
    assert_eq!(bytes, expected);
}

#[test]
fn the_fingerprint_is_the_sha256_of_the_framed_files() {
    let files = vec![file("thread.json", "{}"), file("transcript.jsonl", "line\n")];
    let digest = tree_digest(&files);
    assert_eq!(digest.len(), 32);
    assert_eq!(digest, Sha256::digest(fingerprint_bytes(&files)).to_vec());
    assert_ne!(digest, fingerprint_bytes(&files));
}

#[test]
fn moving_a_file_boundary_changes_the_fingerprint() {
    let left = vec![file("same/a", "bc")];
    let right = vec![file("same/ab", "c")];
    assert!(!trees_match(&left, &right));
    assert!(trees_match(&left, &vec![file("same/a", "bc")]));
}
