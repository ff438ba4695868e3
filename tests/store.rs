use gitty_backup_rs::commits::{
    commit_current_state_to_head, create_commit, walk_commits, write_commit,
};
use gitty_backup_rs::database::{FSDatabase, FSDatabaseConfig, ObjectWrite};
use gitty_backup_rs::model::{GittyBlobMetadata, GittyTreeEntry, GittyTreeMetadata, Permissions, UtcTime};
use gitty_backup_rs::model::{
    ErrorKind, GittyAuthor, GittyBlobRef, GittyCommit, GittyCommitRef, GittyError, GittyHash,
    GittyTree, GittyTreeRef, OwnedGittyObjectRef, ZonedTime,
};
use gitty_backup_rs::serial::{serialize_commit, serialize_commit_ref, serialize_tree};

use sha2::Digest;

fn sha256_digest(b: &[u8]) -> GittyHash {
    GittyHash { sha256: sha2::Sha256::digest(b).into() }
}

fn author() -> GittyAuthor {
    GittyAuthor { name: String::from("ann"), email: String::from("ann@host") }
}

fn at(secs: i64) -> ZonedTime {
    ZonedTime::new(secs, 0, 0).unwrap()
}

fn db() -> FSDatabase {
    FSDatabase::new(FSDatabaseConfig { root: String::from("/tmp/s"), object_prefix_length: 3 })
}

fn hash_of_text(s: &str) -> GittyHash {
    sha256_digest(s.as_bytes())
}

fn digits(h: &GittyHash) -> String {
    h.to_text()["sha256:".len()..].to_string()
}

#[test]
fn object_paths_shard_by_prefix() {
    let h = GittyHash { sha256: [0x12; 32] };
    let d = db();
    let all = "12".repeat(32);
    assert_eq!(
        d.object_path(&OwnedGittyObjectRef::Tree(GittyTreeRef { hash: h })),
        format!("/tmp/s/tree/{}/{}", &all[..3], &all[3..])
    );
    assert_eq!(
        d.object_path(&OwnedGittyObjectRef::Commit(GittyCommitRef { hash: h })),
        format!("/tmp/s/commit/{}/{}", &all[..3], &all[3..])
    );
    assert_eq!(
        d.load_blob(&GittyBlobRef { hash: h }),
        format!("/tmp/s/file/{}/{}", &all[..3], &all[3..])
    );
    assert_eq!(d.head_path(), "/tmp/s/HEAD");
    assert_eq!(d.temp_path(&[0xff; 32]), format!("/tmp/s/temp/temp-{}", "ff".repeat(32)));
}

#[test]
fn object_path_with_zero_and_full_prefix() {
    let h = GittyHash { sha256: [0x0a; 32] };
    let r = OwnedGittyObjectRef::Blob(GittyBlobRef { hash: h });
    let zero = FSDatabase::new(FSDatabaseConfig { root: String::from("r"), object_prefix_length: 0 });
    assert_eq!(zero.object_path(&r), format!("r/file//{}", "0a".repeat(32)));
    let full = FSDatabase::new(FSDatabaseConfig { root: String::from("r"), object_prefix_length: 64 });
    assert_eq!(full.object_path(&r), format!("r/file/{}/", "0a".repeat(32)));
}

#[test]
fn empty_tree_form_and_hash() {
    let (r, w) = db().store_tree(&GittyTree { entries: vec![] });
    assert_eq!(w.contents, "{\"entries\":[]}");
    assert_eq!(r.hash, hash_of_text("{\"entries\":[]}"));
    let d = digits(&r.hash);
    assert_eq!(w.path, format!("/tmp/s/tree/{}/{}", &d[..3], &d[3..]));
}

#[test]
fn commit_form_is_exact() {
    let root = GittyTreeRef { hash: GittyHash { sha256: [1; 32] } };
    let c = create_commit(root, vec![GittyHash { sha256: [2; 32] }], 4, author(), ZonedTime::new(60, 0, 3600).unwrap());
    let text = serialize_commit(&c);
    let expected = format!(
        "{{\"author\":{{\"name\":\"ann\",\"email\":\"ann@host\"}},\"committer\":{{\"name\":\"ann\",\"email\":\"ann@host\"}},\"author_time\":\"1970-01-01T01:01:00+01:00\",\"commit_time\":\"1970-01-01T01:01:00+01:00\",\"message\":\"automatic commit\",\"depth\":4,\"parents\":[\"sha256:{}\"],\"root\":\"sha256:{}\"}}",
        "02".repeat(32),
        "01".repeat(32)
    );
    assert_eq!(text, expected);
    let r = GittyCommitRef { hash: GittyHash { sha256: [3; 32] } };
    assert_eq!(serialize_commit_ref(&r), format!("{{\"hash\":\"sha256:{}\"}}", "03".repeat(32)));
}

/// Every planned object lies at the path its contents hash to.
fn assert_content_addressed(ws: &[ObjectWrite]) {
    for w in ws {
        if w.path.ends_with("/HEAD") {
            continue;
        }
        let d = digits(&hash_of_text(&w.contents));
        assert!(w.path.ends_with(&format!("/{}/{}", &d[..3], &d[3..])), "{}", w.path);
    }
}

#[test]
fn initialise_store_writes_root_commit() {
    let config = FSDatabaseConfig { root: String::from("/tmp/s"), object_prefix_length: 3 };
    let (d, ws) = FSDatabase::create(config, false, author(), at(1000)).unwrap();
    assert_eq!(ws.len(), 3);
    assert_eq!(ws[0].contents, "{\"entries\":[]}");
    let empty = hash_of_text("{\"entries\":[]}");
    assert!(ws[0].path.starts_with("/tmp/s/tree/"));
    assert!(ws[1].path.starts_with("/tmp/s/commit/"));
    assert!(ws[1].contents.contains("\"depth\":0"));
    assert!(ws[1].contents.contains("\"parents\":[]"));
    assert!(ws[1].contents.contains(&format!("\"root\":\"{}\"", empty.to_text())));
    assert_eq!(ws[2].path, "/tmp/s/HEAD");
    let commit_hash = hash_of_text(&ws[1].contents);
    assert_eq!(ws[2].contents, format!("{{\"hash\":\"{}\"}}", commit_hash.to_text()));
    assert_eq!(d.head_path(), "/tmp/s/HEAD");
    assert_content_addressed(&ws);
}

#[test]
fn create_refuses_existing_directory() {
    let config = FSDatabaseConfig { root: String::from("/tmp/s"), object_prefix_length: 3 };
    let e = FSDatabase::create(config, true, author(), at(0)).unwrap_err();
    assert_eq!(e.kind, ErrorKind::Config);
    assert_eq!(e.describe(), "Creation: /tmp/s already exists");
}

#[test]
fn create_or_open_cases() {
    let (_, ws) = FSDatabase::create_or_open(String::from("/s"), true, true, author(), at(0)).unwrap();
    assert!(ws.is_empty());
    let (d, ws) = FSDatabase::create_or_open(String::from("/s"), false, false, author(), at(0)).unwrap();
    assert_eq!(ws.len(), 3);
    assert_eq!(d.config().object_prefix_length, 3);
    let e = FSDatabase::create_or_open(String::from("/s"), false, true, author(), at(0)).unwrap_err();
    assert_eq!(e.kind, ErrorKind::Config);
}

#[test]
fn open_needs_head() {
    let config = FSDatabaseConfig { root: String::from("/s"), object_prefix_length: 3 };
    assert!(FSDatabase::open(config.clone(), true).is_some());
    assert!(FSDatabase::open(config, false).is_none());
}

#[test]
fn symlinks_store_their_target() {
    let (r, w) = db().store_symlink("../target/file");
    assert_eq!(r.hash, sha256_digest(b"../target/file"));
    assert_eq!(w.contents, "../target/file");
    assert_eq!(w.path, db().load_blob(&r));
    assert_content_addressed(&[w]);
}

fn root_commit() -> GittyCommit {
    let empty = GittyTreeRef { hash: hash_of_text("{\"entries\":[]}") };
    create_commit(empty, vec![], 0, author(), at(0))
}

#[test]
fn write_commit_extends_parent() {
    let d = db();
    let parent = root_commit();
    let (parent_ref, _) = d.store_commit(&parent);
    let root = GittyTreeRef { hash: GittyHash { sha256: [9; 32] } };
    let (cref, c, w) = write_commit(&d, root, parent_ref, &parent, author(), at(5)).unwrap();
    assert_eq!(c.depth, 1);
    assert_eq!(c.parents, vec![parent_ref.hash]);
    assert_eq!(c.root, root.hash);
    assert_eq!(c.message, "automatic commit");
    assert_eq!(w.contents, serialize_commit(&c));
    assert_eq!(cref.hash, hash_of_text(&w.contents));
}

#[test]
fn write_commit_refuses_deepest_parent() {
    let d = db();
    let mut parent = root_commit();
    parent.depth = u64::MAX;
    let parent_ref = GittyCommitRef { hash: GittyHash { sha256: [4; 32] } };
    let root = GittyTreeRef { hash: GittyHash { sha256: [9; 32] } };
    let e = write_commit(&d, root, parent_ref, &parent, author(), at(5)).unwrap_err();
    assert_eq!(e.kind, ErrorKind::Integrity);
}

#[test]
fn commit_to_head_writes_commit_then_head() {
    let d = db();
    let parent = root_commit();
    let (parent_ref, _) = d.store_commit(&parent);
    let root = GittyTreeRef { hash: GittyHash { sha256: [9; 32] } };
    let (cref, ws) = commit_current_state_to_head(&d, root, parent_ref, &parent, author(), at(7)).unwrap();
    assert_eq!(ws.len(), 2);
    assert_eq!(hash_of_text(&ws[0].contents), cref.hash);
    assert_eq!(ws[1].path, "/tmp/s/HEAD");
    assert_eq!(ws[1].contents, serialize_commit_ref(&cref));
    assert!(ws[0].contents.contains("\"depth\":1"));
    assert_content_addressed(&ws);
}

/// A history of `n` commits above the root, as (reference, commit) pairs, head last.
fn history(n: u64) -> Vec<(GittyCommitRef, GittyCommit)> {
    let d = db();
    let first = root_commit();
    let (first_ref, _) = d.store_commit(&first);
    let mut out = vec![(first_ref, first)];
    for i in 0..n {
        let (pref, parent) = out.last().unwrap().clone();
        let root = GittyTreeRef { hash: GittyHash { sha256: [i as u8; 32] } };
        let (cref, c, _) = write_commit(&d, root, pref, &parent, author(), at(10 + i as i64)).unwrap();
        out.push((cref, c));
    }
    out
}

fn load(h: &[(GittyCommitRef, GittyCommit)], r: &GittyCommitRef) -> Result<GittyCommit, GittyError> {
    for (cref, c) in h {
        if cref == r {
            return Ok(c.clone());
        }
    }
    Err(GittyError::new(ErrorKind::NotFound, String::from("DB error"), String::from("missing")))
}

#[test]
fn walker_reaches_root_in_depth_steps() {
    let h = history(3);
    let (head_ref, head) = h.last().unwrap().clone();
    assert_eq!(head.depth, 3);
    for (_, c) in &h[1..] {
        assert_eq!(c.parents.len(), 1);
        let p = load(&h, &GittyCommitRef { hash: c.parents[0] }).unwrap();
        assert_eq!(p.depth + 1, c.depth);
    }
    let mut w = walk_commits(head_ref);
    let mut seen = vec![];
    while let Some(current) = w.current() {
        match w.next(load(&h, &current)) {
            Some(Ok((r, c))) => seen.push((r, c.depth)),
            Some(Err(e)) => panic!("{}", e.describe()),
            None => break,
        }
    }
    assert_eq!(seen.len() as u64, head.depth);
    assert_eq!(seen[0].0, head_ref);
    assert_eq!(seen.iter().map(|s| s.1).collect::<Vec<_>>(), vec![3, 2, 1]);
    assert!(w.current().is_none());
}

#[test]
fn walker_reports_multiple_parents() {
    let h = history(1);
    let (r, mut c) = h.last().unwrap().clone();
    c.parents.push(c.parents[0]);
    let mut w = walk_commits(r);
    match w.next(Ok(c)) {
        Some(Err(e)) => assert_eq!(e.kind, ErrorKind::Integrity),
        _ => panic!("expected an error"),
    }
    assert!(w.current().is_none());
}

#[test]
fn walker_reports_load_failure() {
    let r = GittyCommitRef { hash: GittyHash { sha256: [5; 32] } };
    let mut w = walk_commits(r);
    let e = GittyError::new(ErrorKind::Io, String::from("DB error"), String::from("gone"));
    match w.next(Err(e)) {
        Some(Err(e)) => assert_eq!(e.kind, ErrorKind::Io),
        _ => panic!("expected an error"),
    }
    assert!(w.current().is_none());
}

#[test]
fn walker_from_root_yields_nothing() {
    let h = history(0);
    let (r, c) = h[0].clone();
    let mut w = walk_commits(r);
    assert!(w.next(Ok(c)).is_none());
}

#[test]
fn tree_form_is_exact() {
    let tree = GittyTree {
        entries: vec![
            GittyTreeEntry::Tree(GittyTreeMetadata {
                name: String::from("dir"),
                modified: UtcTime::new(0, 0).unwrap(),
                permissions: Permissions::new(0o40755, 1000, 100),
                hash: GittyHash { sha256: [0xaa; 32] },
            }),
            GittyTreeEntry::Blob(GittyBlobMetadata {
                name: String::from("a"),
                modified: UtcTime::new(86_400, 250_000_000).unwrap(),
                permissions: Permissions::new(0o100644, 0, 0),
                size: 5,
                is_symlink: false,
                hash: GittyHash { sha256: [0xbb; 32] },
            }),
        ],
    };
    let expected = format!(
        "{{\"entries\":[{{\"type\":\"tree\",\"name\":\"dir\",\"modified\":\"1970-01-01T00:00:00Z\",\"permissions\":{{\"kind\":\"unix\",\"mode\":16877,\"uid\":1000,\"gid\":100}},\"hash\":\"sha256:{}\"}},{{\"type\":\"blob\",\"name\":\"a\",\"modified\":\"1970-01-02T00:00:00.250Z\",\"permissions\":{{\"kind\":\"unix\",\"mode\":33188,\"uid\":0,\"gid\":0}},\"size\":5,\"is_symlink\":false,\"hash\":\"sha256:{}\"}}]}}",
        "aa".repeat(32),
        "bb".repeat(32)
    );
    assert_eq!(serialize_tree(&tree), expected);
}
