use gitty_backup_rs::commits::{create_commit, write_commit};
use gitty_backup_rs::database::{FSDatabase, FSDatabaseConfig};
use gitty_backup_rs::model::{
    ErrorKind, GittyAuthor, GittyBlobRef, GittyHash, GittyTreeRef, Permissions, UtcTime, ZonedTime,
};
use gitty_backup_rs::snapshot::{recursive_write_tree_to_db, walk_order, WalkEntry, WalkEntryKind};
use std::cmp::Ordering;

use sha2::Digest;

fn sha256_digest(b: &[u8]) -> GittyHash {
    GittyHash { sha256: sha2::Sha256::digest(b).into() }
}

fn db() -> FSDatabase {
    FSDatabase::new(FSDatabaseConfig { root: String::from("/tmp/s"), object_prefix_length: 3 })
}

fn entry(path: &[&str], kind: WalkEntryKind, size: u64, blob: GittyHash) -> WalkEntry {
    WalkEntry {
        path: path.iter().map(|p| p.to_string()).collect(),
        kind,
        modified: UtcTime::new(1_000, 0).unwrap(),
        permissions: Permissions::new(0o644, 1, 1),
        size,
        blob: GittyBlobRef { hash: blob },
    }
}

fn dir(path: &[&str]) -> WalkEntry {
    entry(path, WalkEntryKind::Directory, 0, GittyHash { sha256: [0; 32] })
}

fn file(path: &[&str], contents: &str) -> WalkEntry {
    entry(path, WalkEntryKind::File, contents.len() as u64, sha256_digest(contents.as_bytes()))
}

#[test]
fn empty_directory_gives_empty_tree() {
    let (root, ws) = recursive_write_tree_to_db(&db(), &vec![dir(&["src"])]).unwrap();
    assert_eq!(root.hash, sha256_digest(b"{\"entries\":[]}"));
    assert_eq!(ws.len(), 1);
    assert_eq!(ws[0].contents, "{\"entries\":[]}");
}

#[test]
fn directories_come_first_in_root_tree() {
    let events = vec![dir(&["src"]), dir(&["src", "dir"]), file(&["src", "dir", "b"], "x"), file(&["src", "a"], "y")];
    let (root, ws) = recursive_write_tree_to_db(&db(), &events).unwrap();
    assert_eq!(ws.len(), 2);
    let root_text = &ws[1].contents;
    assert_eq!(sha256_digest(root_text.as_bytes()), root.hash);
    let d = root_text.find("\"name\":\"dir\"").unwrap();
    let a = root_text.find("\"name\":\"a\"").unwrap();
    assert!(d < a);
    assert!(ws[0].contents.contains("\"name\":\"b\""));
    let sub = sha256_digest(ws[0].contents.as_bytes());
    assert!(root_text.contains(&sub.to_text()));
}

#[test]
fn walk_order_puts_directories_first() {
    assert_eq!(walk_order(true, "z", false, "a"), Ordering::Less);
    assert_eq!(walk_order(false, "a", true, "z"), Ordering::Greater);
    assert_eq!(walk_order(false, "a", false, "b"), Ordering::Less);
    assert_eq!(walk_order(true, "ab", true, "a"), Ordering::Greater);
    assert_eq!(walk_order(false, "B", false, "a"), Ordering::Less);
    assert_eq!(walk_order(false, "same", false, "same"), Ordering::Equal);
    let mut names = vec![(false, "b"), (true, "dir"), (false, "a"), (true, "c")];
    names.sort_by(|x, y| walk_order(x.0, x.1, y.0, y.1));
    assert_eq!(names, vec![(true, "c"), (true, "dir"), (false, "a"), (false, "b")]);
}

fn author() -> GittyAuthor {
    GittyAuthor { name: String::from("ann"), email: String::from("ann@host") }
}

#[test]
fn unchanged_directory_keeps_root_and_deepens() {
    let d = db();
    let events = vec![dir(&["src"]), file(&["src", "a.txt"], "hello")];
    let first_root = recursive_write_tree_to_db(&d, &events).unwrap().0;
    let base = create_commit(GittyTreeRef { hash: sha256_digest(b"{\"entries\":[]}") }, vec![], 0, author(), ZonedTime::new(0, 0, 0).unwrap());
    let (base_ref, _) = d.store_commit(&base);
    let (r1, c1, _) = write_commit(&d, first_root, base_ref, &base, author(), ZonedTime::new(1, 0, 0).unwrap()).unwrap();
    assert_eq!(c1.depth, 1);
    let second_root = recursive_write_tree_to_db(&d, &events).unwrap().0;
    let (_, c2, _) = write_commit(&d, second_root, r1, &c1, author(), ZonedTime::new(2, 0, 0).unwrap()).unwrap();
    assert_eq!(c2.depth, 2);
    assert_eq!(c2.root, c1.root);
}

#[test]
fn changed_file_changes_root_and_blob() {
    let d = db();
    let before = vec![dir(&["src"]), file(&["src", "a.txt"], "hello")];
    let after = vec![dir(&["src"]), file(&["src", "a.txt"], "HELLO")];
    let (r1, w1) = recursive_write_tree_to_db(&d, &before).unwrap();
    let (r2, w2) = recursive_write_tree_to_db(&d, &after).unwrap();
    assert_ne!(r1.hash, r2.hash);
    let b1 = sha256_digest(b"hello").to_text();
    let b2 = sha256_digest(b"HELLO").to_text();
    assert_ne!(b1, b2);
    assert!(w1[0].contents.contains(&b1));
    assert!(w2[0].contents.contains(&b2));
    assert!(w1[0].contents.contains("\"size\":5"));
}

#[test]
fn symlink_entries_are_flagged() {
    let events = vec![dir(&["src"]), entry(&["src", "l"], WalkEntryKind::Symlink, 3, GittyHash { sha256: [0; 32] })];
    let (_, ws) = recursive_write_tree_to_db(&db(), &events).unwrap();
    assert!(ws[0].contents.contains("\"is_symlink\":true"));
}

#[test]
fn out_of_place_entries_are_refused() {
    let d = db();
    let skip = vec![dir(&["src"]), file(&["src", "x", "y"], "z")];
    assert_eq!(recursive_write_tree_to_db(&d, &skip).unwrap_err().kind, ErrorKind::WalkOrder);
    let other_root = vec![dir(&["src"]), file(&["other", "y"], "z")];
    assert_eq!(recursive_write_tree_to_db(&d, &other_root).unwrap_err().kind, ErrorKind::WalkOrder);
    let file_root = vec![file(&["src"], "z")];
    assert_eq!(recursive_write_tree_to_db(&d, &file_root).unwrap_err().kind, ErrorKind::WalkOrder);
    assert_eq!(recursive_write_tree_to_db(&d, &vec![]).unwrap_err().kind, ErrorKind::WalkOrder);
}

#[test]
fn nested_directories_close_bottom_up() {
    let events = vec![
        dir(&["src"]),
        dir(&["src", "a"]),
        dir(&["src", "a", "b"]),
        file(&["src", "a", "b", "f"], "1"),
        dir(&["src", "c"]),
        file(&["src", "g"], "2"),
    ];
    let (root, ws) = recursive_write_tree_to_db(&db(), &events).unwrap();
    assert_eq!(ws.len(), 4);
    assert!(ws[0].contents.contains("\"name\":\"f\""));
    assert!(ws[1].contents.contains("\"name\":\"b\""));
    assert_eq!(ws[2].contents, "{\"entries\":[]}");
    assert_eq!(sha256_digest(ws[3].contents.as_bytes()), root.hash);
}
