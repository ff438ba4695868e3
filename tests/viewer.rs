use gitty_backup_rs::commits::create_commit;
use gitty_backup_rs::database::{FSDatabase, FSDatabaseConfig};
use gitty_backup_rs::model::{
    ErrorKind, GittyAuthor, GittyBlobMetadata, GittyBlobRef, GittyCommit, GittyCommitRef,
    GittyHash, GittyTree, GittyTreeEntry, GittyTreeMetadata, GittyTreeRef, Permissions, UtcTime,
    ZonedTime,
};
use gitty_backup_rs::viewer::{FileKind, GittyViewer, ROOT_INODE};

use sha2::Digest;

fn sha256_digest(b: &[u8]) -> GittyHash {
    GittyHash { sha256: sha2::Sha256::digest(b).into() }
}

fn blob(name: &str, contents: &str, symlink: bool) -> GittyTreeEntry {
    GittyTreeEntry::Blob(GittyBlobMetadata {
        name: name.to_string(),
        modified: UtcTime::new(500, 7).unwrap(),
        permissions: Permissions::new(0o100644, 1000, 100),
        size: contents.len() as u64,
        is_symlink: symlink,
        hash: sha256_digest(contents.as_bytes()),
    })
}

fn subdir(name: &str, hash: GittyHash) -> GittyTreeEntry {
    GittyTreeEntry::Tree(GittyTreeMetadata {
        name: name.to_string(),
        modified: UtcTime::new(400, 0).unwrap(),
        permissions: Permissions::new(0o40700, 1000, 100),
        hash,
    })
}

fn db() -> FSDatabase {
    FSDatabase::new(FSDatabaseConfig { root: String::from("/tmp/s"), object_prefix_length: 3 })
}

/// A commit whose root tree holds `dir/` (empty) and `a.txt` ("hello"),
/// with the trees, all at commit time `secs`.
fn snapshot(secs: i64) -> (GittyCommitRef, GittyCommit, Vec<(GittyTreeRef, GittyTree)>) {
    let d = db();
    let (empty_ref, _) = d.store_tree(&GittyTree { entries: vec![] });
    let root = GittyTree { entries: vec![subdir("dir", empty_ref.hash), blob("a.txt", "hello", false), blob("l", "", true)] };
    let (root_ref, _) = d.store_tree(&root);
    let author = GittyAuthor { name: String::from("ann"), email: String::from("ann@host") };
    let c = create_commit(root_ref, vec![GittyHash { sha256: [0; 32] }], 1, author, ZonedTime::new(secs, 123, 0).unwrap());
    let (cref, _) = d.store_commit(&c);
    (cref, c, vec![(empty_ref, GittyTree { entries: vec![] }), (root_ref, root)])
}

fn short(r: &GittyCommitRef) -> String {
    r.hash.to_text()["sha256:".len().."sha256:".len() + 8].to_string()
}

fn viewer() -> GittyViewer {
    GittyViewer::new(UtcTime::new(42, 0).unwrap())
}

#[test]
fn root_attributes() {
    let v = viewer();
    let a = v.getattr(ROOT_INODE, 7, 8).unwrap();
    assert_eq!(a.ino, ROOT_INODE);
    assert_eq!(a.kind, FileKind::Directory);
    assert_eq!(a.mode, 0o755);
    assert_eq!((a.uid, a.gid), (7, 8));
    assert_eq!(a.mtime, UtcTime::new(42, 0).unwrap());
    assert_eq!(v.getattr(99, 0, 0).unwrap_err(), ErrorKind::NotFound);
}

#[test]
fn root_lists_commits_and_lookup_finds_them() {
    let mut v = viewer();
    let (r2, c2, _) = snapshot(1_600_000_000);
    let (r1, c1, _) = snapshot(1_500_000_000);
    let list = v.readdir_root(&vec![(r2, c2.clone()), (r1, c1)], 0).unwrap();
    assert_eq!(list.len(), 2);
    assert_eq!(list[0].name, format!("2020-09-13T12:26:40Z-{}", short(&r2)));
    assert_eq!(list[1].name, format!("2017-07-14T02:40:00Z-{}", short(&r1)));
    assert_eq!((list[0].offset, list[1].offset), (1, 2));
    assert_eq!(list[0].kind, FileKind::Directory);
    assert_ne!(list[0].ino, list[1].ino);
    let a = v.lookup(ROOT_INODE, &list[0].name).unwrap();
    assert_eq!(a.ino, list[0].ino);
    assert_eq!(a.kind, FileKind::Directory);
    assert_eq!(a.mtime, UtcTime::new(1_600_000_000, 123).unwrap());
    assert_eq!(v.tree_of_dir(a.ino).unwrap().hash, c2.root);
    assert_eq!(v.lookup(ROOT_INODE, &String::from("nope")).unwrap_err(), ErrorKind::NotFound);
    let again = v.readdir_root(&vec![(r2, c2)], 0).unwrap();
    assert_eq!(again[0].ino, list[0].ino);
}

#[test]
fn root_listing_from_offset() {
    let mut v = viewer();
    let (r2, c2, _) = snapshot(20);
    let (r1, c1, _) = snapshot(10);
    let list = v.readdir_root(&vec![(r2, c2), (r1, c1)], 1).unwrap();
    assert_eq!(list.len(), 1);
    assert_eq!(list[0].offset, 2);
    assert_eq!(list[0].name, format!("1970-01-01T00:00:10Z-{}", short(&r1)));
    let none = v.readdir_root(&vec![], 5).unwrap();
    assert!(none.is_empty());
}

fn mounted() -> (GittyViewer, u64, Vec<(GittyTreeRef, GittyTree)>) {
    let mut v = viewer();
    let (r, c, trees) = snapshot(100);
    let list = v.readdir_root(&vec![(r, c)], 0).unwrap();
    let ino = list[0].ino;
    (v, ino, trees)
}

#[test]
fn reading_a_snapshot_file() {
    let (mut v, commit_ino, trees) = mounted();
    let t = v.tree_of_dir(commit_ino).unwrap();
    for (r, tree) in trees {
        v.cache_tree(r, tree);
    }
    assert!(v.has_tree(&t));
    let a = v.lookup(commit_ino, &String::from("a.txt")).unwrap();
    assert_eq!(a.size, 5);
    assert_eq!(a.kind, FileKind::RegularFile);
    assert_eq!((a.mode, a.uid, a.gid, a.nlink), (0o100644, 1000, 100, 1));
    assert_eq!(a.mtime, UtcTime::new(500, 7).unwrap());
    assert_eq!(v.getattr(a.ino, 0, 0).unwrap(), a);
    let blob = v.read_target(a.ino).unwrap();
    assert_eq!(blob, GittyBlobRef { hash: sha256_digest(b"hello") });
    let again = v.lookup(commit_ino, &String::from("a.txt")).unwrap();
    assert_eq!(again.ino, a.ino);
    let l = v.lookup(commit_ino, &String::from("l")).unwrap();
    assert_eq!(l.kind, FileKind::Symlink);
    assert_eq!(v.lookup(commit_ino, &String::from("missing")).unwrap_err(), ErrorKind::NotFound);
}

#[test]
fn read_target_errors() {
    let (mut v, commit_ino, trees) = mounted();
    for (r, tree) in trees {
        v.cache_tree(r, tree);
    }
    let d = v.lookup(commit_ino, &String::from("dir")).unwrap();
    assert_eq!(d.kind, FileKind::Directory);
    assert_eq!(d.size, 0);
    assert_eq!(v.read_target(d.ino).unwrap_err(), ErrorKind::IsDirectory);
    assert_eq!(v.read_target(commit_ino).unwrap_err(), ErrorKind::InvalidArgument);
    assert_eq!(v.read_target(ROOT_INODE).unwrap_err(), ErrorKind::IsDirectory);
    assert_eq!(v.read_target(1000).unwrap_err(), ErrorKind::NotFound);
    let a = v.lookup(commit_ino, &String::from("a.txt")).unwrap();
    assert_eq!(v.readdir(a.ino, 0).unwrap_err(), ErrorKind::InvalidArgument);
    assert_eq!(v.readdir(1000, 0).unwrap_err(), ErrorKind::NotFound);
    assert!(v.readdir(d.ino, 0).unwrap().is_empty());
}

#[test]
fn readdir_in_batches_lists_each_entry_once() {
    let (mut v, commit_ino, trees) = mounted();
    for (r, tree) in trees {
        v.cache_tree(r, tree);
    }
    let all = v.readdir(commit_ino, 0).unwrap();
    let names: Vec<&str> = all.iter().map(|e| e.name.as_str()).collect();
    assert_eq!(names, vec!["dir", "a.txt", "l"]);
    assert_eq!(all.iter().map(|e| e.offset).collect::<Vec<_>>(), vec![1, 2, 3]);
    assert_eq!(all.iter().map(|e| e.kind).collect::<Vec<_>>(), vec![FileKind::Directory, FileKind::RegularFile, FileKind::Symlink]);
    let first = v.readdir(commit_ino, 0).unwrap();
    let rest = v.readdir(commit_ino, first[1].offset).unwrap();
    let mut joined: Vec<(u64, String)> = first[..2].iter().map(|e| (e.ino, e.name.clone())).collect();
    joined.extend(rest.iter().map(|e| (e.ino, e.name.clone())));
    let whole: Vec<(u64, String)> = all.iter().map(|e| (e.ino, e.name.clone())).collect();
    assert_eq!(joined, whole);
    assert!(v.readdir(commit_ino, 3).unwrap().is_empty());
    assert!(v.readdir(commit_ino, 10).unwrap().is_empty());
}

#[test]
fn unloadable_tree_is_an_io_error() {
    let mut v = viewer();
    let (r2, c2, trees2) = snapshot(200);
    let (r1, c1, _) = snapshot(100);
    let list = v.readdir_root(&vec![(r2, c2), (r1, c1)], 0).unwrap();
    for (r, tree) in trees2 {
        v.cache_tree(r, tree);
    }
    assert_eq!(v.readdir(list[0].ino, 0).unwrap().len(), 3);
    let mut other = viewer();
    let (r3, c3, _) = snapshot(300);
    let l3 = other.readdir_root(&vec![(r3, c3)], 0).unwrap();
    assert_eq!(other.readdir(l3[0].ino, 0).unwrap_err(), ErrorKind::Io);
    assert_eq!(other.lookup(l3[0].ino, &String::from("a.txt")).unwrap_err(), ErrorKind::NotFound);
}

#[test]
fn same_content_under_two_names_gets_two_inodes() {
    let mut v = viewer();
    let d = db();
    let tree = GittyTree { entries: vec![blob("x", "same", false), blob("y", "same", false)] };
    let (tref, _) = d.store_tree(&tree);
    let author = GittyAuthor { name: String::from("ann"), email: String::from("ann@host") };
    let c = create_commit(tref, vec![], 1, author, ZonedTime::new(5, 0, 0).unwrap());
    let (cref, _) = d.store_commit(&c);
    let list = v.readdir_root(&vec![(cref, c)], 0).unwrap();
    v.cache_tree(tref, tree);
    let x = v.lookup(list[0].ino, &String::from("x")).unwrap();
    let y = v.lookup(list[0].ino, &String::from("y")).unwrap();
    assert_ne!(x.ino, y.ino);
    assert_eq!(v.read_target(x.ino).unwrap(), v.read_target(y.ino).unwrap());
}

#[test]
fn lookup_in_a_file_is_invalid() {
    let (mut v, commit_ino, trees) = mounted();
    for (r, tree) in trees {
        v.cache_tree(r, tree);
    }
    let a = v.lookup(commit_ino, &String::from("a.txt")).unwrap();
    assert_eq!(v.lookup(a.ino, &String::from("x")).unwrap_err(), ErrorKind::InvalidArgument);
    assert_eq!(v.lookup(1000, &String::from("x")).unwrap_err(), ErrorKind::NotFound);
}

#[test]
fn commits_of_the_same_second_get_their_own_names() {
    let mut v = viewer();
    let (r1, c1, _) = snapshot(77);
    let d = db();
    let author = GittyAuthor { name: String::from("bob"), email: String::from("bob@host") };
    let c2 = create_commit(GittyTreeRef { hash: c1.root }, vec![GittyHash { sha256: [1; 32] }], 2, author, ZonedTime::new(77, 999, 0).unwrap());
    let (r2, _) = d.store_commit(&c2);
    let list = v.readdir_root(&vec![(r2, c2), (r1, c1)], 0).unwrap();
    assert_ne!(list[0].name, list[1].name);
    assert!(list[0].name.starts_with("1970-01-01T00:01:17Z-"));
    let a = v.lookup(ROOT_INODE, &list[0].name).unwrap();
    let b = v.lookup(ROOT_INODE, &list[1].name).unwrap();
    assert_eq!((a.ino, b.ino), (list[0].ino, list[1].ino));
}

#[test]
fn failed_listing_keeps_other_inodes() {
    let mut v = viewer();
    let (r2, c2, trees2) = snapshot(200);
    let author = GittyAuthor { name: String::from("ann"), email: String::from("ann@host") };
    let lost = create_commit(GittyTreeRef { hash: GittyHash { sha256: [9; 32] } }, vec![], 1, author, ZonedTime::new(100, 0, 0).unwrap());
    let (lost_ref, _) = db().store_commit(&lost);
    let list = v.readdir_root(&vec![(r2, c2), (lost_ref, lost)], 0).unwrap();
    for (r, tree) in trees2 {
        v.cache_tree(r, tree);
    }
    let before = v.readdir(list[0].ino, 0).unwrap();
    assert_eq!(v.readdir(list[1].ino, 0).unwrap_err(), ErrorKind::Io);
    let after = v.readdir(list[0].ino, 0).unwrap();
    let inos = |l: &Vec<gitty_backup_rs::viewer::DirEntry>| l.iter().map(|e| e.ino).collect::<Vec<_>>();
    assert_eq!(inos(&before), inos(&after));
    assert_eq!(v.getattr(before[1].ino, 0, 0).unwrap().size, 5);
    assert_eq!(v.lookup(list[0].ino, &String::from("a.txt")).unwrap().ino, before[1].ino);
}
