use gitty_backup_rs::codec::push_decimal;
use gitty_backup_rs::commits::create_commit;
use gitty_backup_rs::database::{FSDatabase, FSDatabaseConfig};
use gitty_backup_rs::model::{
    GittyAuthor, GittyBlobMetadata, GittyCommitRef, GittyHash, GittyTree, GittyTreeEntry, GittyTreeRef,
    Permissions, UtcTime, ZonedTime,
};
use gitty_backup_rs::serial::serialize_tree;
use gitty_backup_rs::viewer::commit_fname;

#[test]
fn hash_text_has_prefix_and_lowercase_digits() {
    let h = GittyHash { sha256: [0xab; 32] };
    let t = h.to_text();
    assert_eq!(t, format!("sha256:{}", "ab".repeat(32)));
}

#[test]
fn hash_text_round_trips() {
    let mut bytes = [0u8; 32];
    for (i, b) in bytes.iter_mut().enumerate() {
        *b = (i * 7 + 3) as u8;
    }
    let h = GittyHash { sha256: bytes };
    assert_eq!(GittyHash::parse(&h.to_text()), Some(h));
}

#[test]
fn hash_parse_accepts_upper_case_digits() {
    let text = format!("sha256:{}", "CD".repeat(32));
    assert_eq!(GittyHash::parse(&text), Some(GittyHash { sha256: [0xcd; 32] }));
}

#[test]
fn hash_parse_rejects_malformed_text() {
    let digits = "00".repeat(32);
    assert_eq!(GittyHash::parse(&format!("sha512:{}", digits)), None);
    assert_eq!(GittyHash::parse(&format!("sha25:{}", digits)), None);
    assert_eq!(GittyHash::parse(&format!("sha256:{}0", digits)), None);
    assert_eq!(GittyHash::parse(&format!("sha256:{}", &digits[1..])), None);
    assert_eq!(GittyHash::parse(&format!("sha256:{}zz", &digits[2..])), None);
    assert_eq!(GittyHash::parse(""), None);
}

#[test]
fn tree_hash_is_sha256_of_stored_form() {
    let db = FSDatabase::new(FSDatabaseConfig { root: String::from("/s"), object_prefix_length: 3 });
    let (r, w) = db.store_tree(&GittyTree { entries: vec![] });
    assert_eq!(w.contents, "{\"entries\":[]}");
    let expected = <sha2::Sha256 as sha2::Digest>::digest(b"{\"entries\":[]}");
    assert_eq!(r.hash.to_text(), format!("sha256:{}", hex::encode(expected)));
    assert_ne!(r.hash, GittyHash { sha256: [0; 32] });
}

#[test]
fn names_are_quoted_as_json() {
    let tree = GittyTree {
        entries: vec![GittyTreeEntry::Blob(GittyBlobMetadata {
            name: String::from("a\"b\\c\n"),
            modified: UtcTime::new(0, 0).unwrap(),
            permissions: Permissions::new(1, 2, 3),
            size: 0,
            is_symlink: false,
            hash: GittyHash { sha256: [0; 32] },
        })],
    };
    let text = serialize_tree(&tree);
    assert!(text.contains("\"name\":\"a\\\"b\\\\c\\n\""), "{}", text);
    let tree = GittyTree {
        entries: vec![GittyTreeEntry::Blob(GittyBlobMetadata {
            name: String::from("\u{1}\t\u{8}\u{c}\r/\u{7f}é"),
            modified: UtcTime::new(0, 0).unwrap(),
            permissions: Permissions::new(1, 2, 3),
            size: 0,
            is_symlink: false,
            hash: GittyHash { sha256: [0; 32] },
        })],
    };
    let text = serialize_tree(&tree);
    assert!(text.contains("\"name\":\"\\u0001\\t\\b\\f\\r/\u{7f}é\""), "{}", text);
}

#[test]
fn commit_names_are_rfc3339_seconds() {
    let author = GittyAuthor { name: String::from("n"), email: String::from("e") };
    let root = GittyTreeRef { hash: GittyHash { sha256: [0; 32] } };
    let r = GittyCommitRef { hash: GittyHash { sha256: [0x5a; 32] } };
    let c = create_commit(root, vec![], 0, author.clone(), ZonedTime::new(0, 0, 0).unwrap());
    assert_eq!(commit_fname(&r, &c), "1970-01-01T00:00:00Z-5a5a5a5a");
    let c = create_commit(root, vec![], 0, author.clone(), ZonedTime::new(1, 500_000_000, 3600).unwrap());
    assert_eq!(commit_fname(&r, &c), "1970-01-01T01:00:01+01:00-5a5a5a5a");
    let c = create_commit(root, vec![], 0, author, ZonedTime::new(1_600_000_000, 0, -7200).unwrap());
    assert_eq!(commit_fname(&r, &c), "2020-09-13T10:26:40-02:00-5a5a5a5a");
}

#[test]
fn decimal_forms() {
    let mut s = String::from("x=");
    push_decimal(&mut s, 0);
    assert_eq!(s, "x=0");
    let mut s = String::new();
    push_decimal(&mut s, 1234567890);
    assert_eq!(s, "1234567890");
    let mut s = String::new();
    push_decimal(&mut s, u64::MAX);
    assert_eq!(s, "18446744073709551615");
}

#[test]
fn time_ranges() {
    assert!(UtcTime::new(0, 999_999_999).is_some());
    assert!(UtcTime::new(0, 1_000_000_000).is_none());
    assert!(UtcTime::new(i64::MAX, 0).is_none());
    assert!(ZonedTime::new(0, 0, 86_399).is_some());
    assert!(ZonedTime::new(0, 0, 86_400).is_none());
}
