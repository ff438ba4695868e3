//! The projection of the history onto a read-only directory hierarchy.
//! Inode 1 is the root, listing one directory per commit; inodes from 2 on
//! are handed out in order, each standing for a commit or for one named
//! child of one tree. The caller loads trees and commits from the store and
//! hands them in; the viewer keeps them and answers from them.
use vstd::prelude::*;
use crate::codec::{hex_encode, hex_text, lemma_hex_text, rfc3339_of, rfc3339_text};
use crate::model::{
    ErrorKind, GittyBlobRef, GittyCommit, GittyCommitRef, GittyHash, GittyTree, GittyTreeEntry,
    GittyTreeMetadata, GittyTreeRef, OwnedGittyObjectRef, Permissions, UtcTime,
};

verus! {

/// The inode of the mount's root directory.
pub const ROOT_INODE: u64 = 1;

/// What an inode stands for: a commit, or the child `child` that tree
/// `parent` names `name`. The same object under another name or another
/// parent is another inode, since its attributes come from the naming entry.
#[derive(Clone, Debug)]
pub enum InodeTarget {
    Commit(GittyCommitRef),
    Entry { parent: GittyTreeRef, name: String, child: OwnedGittyObjectRef },
}

/// The identity of an inode target, names compared by their characters.
pub enum InodeKey {
    Commit(GittyCommitRef),
    Entry(GittyTreeRef, Seq<char>, OwnedGittyObjectRef),
}

pub open spec fn key_of(t: InodeTarget) -> InodeKey {
    match t {
        InodeTarget::Commit(c) => InodeKey::Commit(c),
        InodeTarget::Entry { parent, name, child } => InodeKey::Entry(parent, name@, child),
    }
}

/// Kinds of file the projection shows.
#[derive(Clone, Copy, Debug, PartialEq, Eq, Hash)]
pub enum FileKind {
    Directory,
    RegularFile,
    Symlink,
}

/// Attributes of a projected file. Every time stamp of the file is `mtime`.
#[derive(Clone, Copy, Debug, PartialEq, Eq, Hash)]
pub struct FileAttr {
    pub ino: u64,
    pub mtime: UtcTime,
    pub size: u64,
    pub kind: FileKind,
    pub mode: u32,
    pub uid: u32,
    pub gid: u32,
    pub nlink: u32,
}

/// One listed directory entry; `offset` is where a listing resumes after it.
#[derive(Clone, Debug)]
pub struct DirEntry {
    pub ino: u64,
    pub offset: u64,
    pub kind: FileKind,
    pub name: String,
}

/// Whether two hashes are equal, byte for byte.
pub fn hash_eq(a: &GittyHash, b: &GittyHash) -> (r: bool)
    ensures
        r == (*a == *b),
{
    broadcast use vstd::array::group_array_axioms;

    let mut i: usize = 0;
    while i < 32
        invariant
            i <= 32,
            forall|j: int| 0 <= j < i ==> a.sha256[j] == b.sha256[j],
        decreases 32 - i,
    {
        if a.sha256[i] != b.sha256[i] {
            return false;
        }
        i = i + 1;
    }
    assert(a.sha256 =~= b.sha256);
    true
}

fn object_ref_eq(a: &OwnedGittyObjectRef, b: &OwnedGittyObjectRef) -> (r: bool)
    ensures
        r == (*a == *b),
{
    match (a, b) {
        (OwnedGittyObjectRef::Tree(x), OwnedGittyObjectRef::Tree(y)) => hash_eq(&x.hash, &y.hash),
        (OwnedGittyObjectRef::Blob(x), OwnedGittyObjectRef::Blob(y)) => hash_eq(&x.hash, &y.hash),
        (OwnedGittyObjectRef::Commit(x), OwnedGittyObjectRef::Commit(y)) => hash_eq(
            &x.hash,
            &y.hash,
        ),
        _ => false,
    }
}

fn target_matches(t: &InodeTarget, k: &InodeTarget) -> (r: bool)
    ensures
        r == (key_of(*t) == key_of(*k)),
{
    match (t, k) {
        (InodeTarget::Commit(a), InodeTarget::Commit(b)) => hash_eq(&a.hash, &b.hash),
        (
            InodeTarget::Entry { parent: p1, name: n1, child: c1 },
            InodeTarget::Entry { parent: p2, name: n2, child: c2 },
        ) => hash_eq(&p1.hash, &p2.hash) && *n1 == *n2 && object_ref_eq(c1, c2),
        _ => false,
    }
}

/// Position of the first entry of `tree` named `name`.
pub open spec fn entry_index(es: Seq<GittyTreeEntry>, name: Seq<char>) -> Option<int> {
    if exists|i: int| 0 <= i < es.len() && (#[trigger] es[i]).name_of() == name {
        Some(choose|i: int| 0 <= i < es.len() && (#[trigger] es[i]).name_of() == name && forall|j: int| 0 <= j < i ==> (#[trigger] es[j]).name_of() != name)
    } else {
        None
    }
}

proof fn lemma_entry_index(es: Seq<GittyTreeEntry>, name: Seq<char>, i: int)
    requires
        0 <= i < es.len(),
        es[i].name_of() == name,
        forall|j: int| 0 <= j < i ==> (#[trigger] es[j]).name_of() != name,
    ensures
        entry_index(es, name) == Some(i),
{
    let k = choose|k: int| 0 <= k < es.len() && (#[trigger] es[k]).name_of() == name && forall|j: int| 0 <= j < k ==> (#[trigger] es[j]).name_of() != name;
    if k < i {
        assert(es[k].name_of() != name);
    }
    if i < k {
        assert(es[i].name_of() != name);
    }
}

/// Finds the first entry of `tree` named `name` (exact comparison).
pub fn find_tree_entry(tree: &GittyTree, name: &String) -> (r: Option<usize>)
    ensures
        r matches Some(i) ==> entry_index(tree.entries@, name@) == Some(i as int) && i < tree.entries@.len()
            && tree.entries@[i as int].name_of() == name@,
        r is None <==> entry_index(tree.entries@, name@) is None,
{
    let mut i: usize = 0;
    while i < tree.entries.len()
        invariant
            i <= tree.entries@.len(),
            forall|j: int| 0 <= j < i ==> (#[trigger] tree.entries@[j]).name_of() != name@,
        decreases tree.entries@.len() - i,
    {
        if *tree.entries[i].name() == *name {
            proof {
                lemma_entry_index(tree.entries@, name@, i as int);
            }
            return Some(i);
        }
        i = i + 1;
    }
    None
}

/// The name under which commit `c` (stored as `r`) appears in the root
/// directory: its commit time, to the second, in RFC 3339 form, a dash and
/// the first eight digits of its hash, so that commits made within the same
/// second get different names.
pub open spec fn commit_name_of(r: GittyCommitRef, c: GittyCommit) -> Seq<char> {
    rfc3339_of(c.commit_time.secs, 0, c.commit_time.offset) + "-"@ + hex_text(r.hash@).subrange(0, 8)
}

/// The name of commit `commit` (stored as `commit_ref`) in the root directory.
pub fn commit_fname(commit_ref: &GittyCommitRef, commit: &GittyCommit) -> (r: String)
    requires
        commit.wf(),
    ensures
        r@ == commit_name_of(*commit_ref, *commit),
{
    let t = commit.commit_time.whole_seconds();
    let mut name = rfc3339_text(t.secs, t.nanos, t.offset);
    name.append("-");
    let digits = hex_encode(commit_ref.hash.sha256.as_slice());
    proof {
        lemma_hex_text(commit_ref.hash@);
    }
    name.append(digits.as_str().substring_char(0, 8));
    name
}

/// `new` is `old` after asking for the inode of target key `k`, which gave
/// `r`: the inode handed out before, else the next number (the table grows
/// by that one target), else, with the numbers used up, an i/o error.
pub open spec fn allocated(old: GittyViewer, new: GittyViewer, k: InodeKey, r: Result<u64, ErrorKind>) -> bool {
    &&& match old.inode_of_key(k) {
        Some(ino) => r == Ok::<u64, ErrorKind>(ino) && new.inodes_of() == old.inodes_of(),
        None => if old.inodes_of().len() + 3 < u64::MAX {
            &&& r == Ok::<u64, ErrorKind>((old.inodes_of().len() + 2) as u64)
            &&& new.inodes_of().len() == old.inodes_of().len() + 1
            &&& new.inodes_of().subrange(0, old.inodes_of().len() as int) == old.inodes_of()
        } else {
            r == Err::<u64, ErrorKind>(ErrorKind::Io) && new.inodes_of() == old.inodes_of()
        },
    }
    &&& r matches Ok(ino) ==> new.target_of(ino) matches Some(t) && key_of(t) == k
}

/// The directory entry that stands for `commit` in the root directory.
pub fn commit_entry(commit_ref: &GittyCommitRef, commit: &GittyCommit) -> (r: GittyTreeEntry)
    requires
        commit.wf(),
    ensures
        commit_entry_ok(*commit_ref, *commit, r),
{
    GittyTreeEntry::Tree(
        GittyTreeMetadata {
            hash: commit.root,
            name: commit_fname(commit_ref, commit),
            modified: commit.commit_time.to_utc(),
            permissions: Permissions::new(0o755, 0, 0),
        },
    )
}

/// The viewer's state: inode table and caches.
pub struct GittyViewer {
    inodes: Vec<InodeTarget>,
    commits: Vec<(GittyCommitRef, GittyCommit)>,
    root_map: Vec<(String, GittyCommitRef)>,
    trees: Vec<(GittyTreeRef, GittyTree)>,
    root_mtime: UtcTime,
}

/// Position of the first pair in `ps` whose key is `k`.
pub open spec fn first_with<K, V>(ps: Seq<(K, V)>, k: K) -> Option<int> {
    if exists|i: int| 0 <= i < ps.len() && (#[trigger] ps[i]).0 == k {
        Some(choose|i: int| 0 <= i < ps.len() && (#[trigger] ps[i]).0 == k && forall|j: int| 0 <= j < i ==> (#[trigger] ps[j]).0 != k)
    } else {
        None
    }
}

proof fn lemma_first_with<K, V>(ps: Seq<(K, V)>, k: K, i: int)
    requires
        0 <= i < ps.len(),
        ps[i].0 == k,
        forall|j: int| 0 <= j < i ==> (#[trigger] ps[j]).0 != k,
    ensures
        first_with(ps, k) == Some(i),
{
    let m = choose|m: int| 0 <= m < ps.len() && (#[trigger] ps[m]).0 == k && forall|j: int| 0 <= j < m ==> (#[trigger] ps[j]).0 != k;
    if m < i {
        assert(ps[m].0 != k);
    }
    if i < m {
        assert(ps[i].0 != k);
    }
}

impl GittyViewer {
    pub closed spec fn inodes_of(self) -> Seq<InodeTarget> {
        self.inodes@
    }

    pub closed spec fn commits_of(self) -> Seq<(GittyCommitRef, GittyCommit)> {
        self.commits@
    }

    pub closed spec fn root_map_of(self) -> Seq<(String, GittyCommitRef)> {
        self.root_map@
    }

    pub closed spec fn trees_of(self) -> Seq<(GittyTreeRef, GittyTree)> {
        self.trees@
    }

    pub closed spec fn root_mtime_of(self) -> UtcTime {
        self.root_mtime
    }

    /// Inode numbers fit, no two inodes stand for the same target, and the
    /// cached objects have time stamps in range.
    pub open spec fn wf(self) -> bool {
        &&& self.inodes_of().len() + 2 < u64::MAX
        &&& forall|i: int, j: int|
            0 <= i < j < self.inodes_of().len() ==> key_of(#[trigger] self.inodes_of()[i]) != key_of(
                #[trigger] self.inodes_of()[j],
            )
        &&& forall|i: int| 0 <= i < self.commits_of().len() ==> (#[trigger] self.commits_of()[i]).1.wf()
        &&& forall|i: int| 0 <= i < self.trees_of().len() ==> (#[trigger] self.trees_of()[i]).1.wf()
        &&& self.root_mtime_of().wf()
    }

    /// The inode standing for target key `k`, if one has been handed out.
    pub open spec fn inode_of_key(self, k: InodeKey) -> Option<u64> {
        if exists|i: int| 0 <= i < self.inodes_of().len() && key_of(#[trigger] self.inodes_of()[i]) == k {
            Some(((choose|i: int| 0 <= i < self.inodes_of().len() && key_of(#[trigger] self.inodes_of()[i]) == k) + 2) as u64)
        } else {
            None
        }
    }

    /// What inode `ino` stands for, if it has been handed out.
    pub open spec fn target_of(self, ino: u64) -> Option<InodeTarget> {
        if 2 <= ino && ino - 2 < self.inodes_of().len() {
            Some(self.inodes_of()[ino - 2])
        } else {
            None
        }
    }

    /// Everything but the inode table is unchanged.
    pub open spec fn same_caches(self, other: GittyViewer) -> bool {
        &&& self.commits_of() == other.commits_of()
        &&& self.root_map_of() == other.root_map_of()
        &&& self.trees_of() == other.trees_of()
        &&& self.root_mtime_of() == other.root_mtime_of()
    }

    /// A viewer with nothing loaded; the root reports `root_mtime`.
    pub fn new(root_mtime: UtcTime) -> (r: GittyViewer)
        requires
            root_mtime.wf(),
        ensures
            r.wf(),
            r.inodes_of().len() == 0,
            r.commits_of().len() == 0,
            r.root_map_of().len() == 0,
            r.trees_of().len() == 0,
            r.root_mtime_of() == root_mtime,
    {
        GittyViewer {
            inodes: Vec::new(),
            commits: Vec::new(),
            root_map: Vec::new(),
            trees: Vec::new(),
            root_mtime,
        }
    }

    /// The inode for `target`: the one handed out before, else a new one.
    /// Fails only when the inode numbers are used up.
    fn target_to_inode(&mut self, target: InodeTarget) -> (r: Result<u64, ErrorKind>)
        requires
            old(self).wf(),
        ensures
            final(self).wf(),
            final(self).same_caches(*old(self)),
            allocated(*old(self), *final(self), key_of(target), r),
            old(self).inode_of_key(key_of(target)) is None && r is Ok ==> final(self).inodes_of()
                == old(self).inodes_of().push(target),
    {
        let mut i: usize = 0;
        while i < self.inodes.len()
            invariant
                i <= self.inodes@.len(),
                self.wf(),
                *self == *old(self),
                forall|j: int| 0 <= j < i ==> key_of(#[trigger] self.inodes@[j]) != key_of(target),
            decreases self.inodes@.len() - i,
        {
            if target_matches(&self.inodes[i], &target) {
                proof {
                    let k = key_of(target);
                    let m = choose|m: int| 0 <= m < self.inodes_of().len() && key_of(#[trigger] self.inodes_of()[m]) == k;
                    if m != i {
                        if m < i {
                            assert(key_of(self.inodes@[m]) != k);
                        } else {
                            assert(key_of(self.inodes_of()[i as int]) != key_of(self.inodes_of()[m]));
                        }
                    }
                }
                return Ok(i as u64 + 2);
            }
            i = i + 1;
        }
        let n = self.inodes.len() as u64;
        if n >= u64::MAX - 3 {
            return Err(ErrorKind::Io);
        }
        let ghost before = self.inodes@;
        self.inodes.push(target);
        assert(self.inodes_of().subrange(0, before.len() as int) =~= before);
        assert(self.commits_of() == old(self).commits_of());
        assert(self.trees_of() == old(self).trees_of());
        proof {
            assert forall|a: int, b: int|
                0 <= a < b < self.inodes_of().len() implies key_of(#[trigger] self.inodes_of()[a]) != key_of(
                #[trigger] self.inodes_of()[b],
            ) by {
                assert(self.inodes_of()[a] == before[a]);
                if b < before.len() {
                    assert(self.inodes_of()[b] == before[b]);
                } else {
                    assert(self.inodes_of()[b] == target);
                    assert(key_of(before[a]) != key_of(target));
                }
            }
        }
        Ok(n + 2)
    }
}

/// Attributes that entry `e` gives inode `ino`.
pub open spec fn attr_of(e: GittyTreeEntry, ino: u64) -> FileAttr {
    match e {
        GittyTreeEntry::Tree(t) => FileAttr {
            ino,
            mtime: t.modified,
            size: 0,
            kind: FileKind::Directory,
            mode: t.permissions.mode,
            uid: t.permissions.uid,
            gid: t.permissions.gid,
            nlink: 1,
        },
        GittyTreeEntry::Blob(b) => FileAttr {
            ino,
            mtime: b.modified,
            size: b.size,
            kind: if b.is_symlink {
                FileKind::Symlink
            } else {
                FileKind::RegularFile
            },
            mode: b.permissions.mode,
            uid: b.permissions.uid,
            gid: b.permissions.gid,
            nlink: 1,
        },
    }
}

pub open spec fn kind_of_entry(e: GittyTreeEntry) -> FileKind {
    attr_of(e, 0).kind
}

/// `e` is the directory entry that stands for commit `c`: named by its
/// commit time to the second, modified then, mode 0o755 owned by root, and
/// listing the commit's root tree.
pub open spec fn commit_entry_ok(r: GittyCommitRef, c: GittyCommit, e: GittyTreeEntry) -> bool {
    &&& e is Tree
    &&& e->Tree_0.name@ == commit_name_of(r, c)
    &&& e->Tree_0.modified == (UtcTime { secs: c.commit_time.secs, nanos: c.commit_time.nanos })
    &&& e->Tree_0.permissions.kind@ == "unix"@
    &&& e->Tree_0.permissions.mode == 0o755
    &&& e->Tree_0.permissions.uid == 0
    &&& e->Tree_0.permissions.gid == 0
    &&& e->Tree_0.hash == c.root
    &&& e.wf()
}

/// The inode number a lookup gave, or its error.
pub open spec fn ino_result(r: Result<FileAttr, ErrorKind>) -> Result<u64, ErrorKind> {
    match r {
        Ok(a) => Ok(a.ino),
        Err(k) => Err(k),
    }
}

/// Attributes of the directory that stands for commit `c` as inode `ino`.
pub open spec fn commit_attr(c: GittyCommit, ino: u64) -> FileAttr {
    FileAttr {
        ino,
        mtime: UtcTime { secs: c.commit_time.secs, nanos: c.commit_time.nanos },
        size: 0,
        kind: FileKind::Directory,
        mode: 0o755,
        uid: 0,
        gid: 0,
        nlink: 1,
    }
}

/// Attributes of the mount's root, as seen by user `uid` of group `gid`.
pub open spec fn root_attr(mtime: UtcTime, uid: u32, gid: u32) -> FileAttr {
    FileAttr {
        ino: ROOT_INODE,
        mtime,
        size: 0,
        kind: FileKind::Directory,
        mode: 0o755,
        uid,
        gid,
        nlink: 1,
    }
}

/// Position of the first name-to-commit pair named `name`.
pub open spec fn name_index(ps: Seq<(String, GittyCommitRef)>, name: Seq<char>) -> Option<int> {
    if exists|i: int| 0 <= i < ps.len() && (#[trigger] ps[i]).0@ == name {
        Some(choose|i: int| 0 <= i < ps.len() && (#[trigger] ps[i]).0@ == name && forall|j: int| 0 <= j < i ==> (#[trigger] ps[j]).0@ != name)
    } else {
        None
    }
}

proof fn lemma_name_index(ps: Seq<(String, GittyCommitRef)>, name: Seq<char>, i: int)
    requires
        0 <= i < ps.len(),
        ps[i].0@ == name,
        forall|j: int| 0 <= j < i ==> (#[trigger] ps[j]).0@ != name,
    ensures
        name_index(ps, name) == Some(i),
{
    let m = choose|m: int| 0 <= m < ps.len() && (#[trigger] ps[m]).0@ == name && forall|j: int| 0 <= j < m ==> (#[trigger] ps[j]).0@ != name;
    if m < i {
        assert(ps[m].0@ != name);
    }
    if i < m {
        assert(ps[i].0@ != name);
    }
}

impl GittyViewer {
    /// The cached tree `r`.
    pub open spec fn tree_lookup(self, r: GittyTreeRef) -> Option<GittyTree> {
        match first_with(self.trees_of(), r) {
            Some(i) => Some(self.trees_of()[i].1),
            None => None,
        }
    }

    /// The cached commit `c`.
    pub open spec fn commit_lookup(self, c: GittyCommitRef) -> Option<GittyCommit> {
        match first_with(self.commits_of(), c) {
            Some(i) => Some(self.commits_of()[i].1),
            None => None,
        }
    }

    /// The commit the root directory lists under `name`.
    pub open spec fn root_lookup(self, name: Seq<char>) -> Option<GittyCommitRef> {
        match name_index(self.root_map_of(), name) {
            Some(i) => Some(self.root_map_of()[i].1),
            None => None,
        }
    }

    /// The tree that directory inode `ino` lists: not-found for an unknown
    /// inode or an uncached commit, invalid-argument for a file.
    pub open spec fn dir_of(self, ino: u64) -> Result<GittyTreeRef, ErrorKind> {
        match self.target_of(ino) {
            None => Err(ErrorKind::NotFound),
            Some(InodeTarget::Entry { child, .. }) => match child {
                OwnedGittyObjectRef::Tree(t) => Ok(t),
                _ => Err(ErrorKind::InvalidArgument),
            },
            Some(InodeTarget::Commit(c)) => match self.commit_lookup(c) {
                Some(commit) => Ok(GittyTreeRef { hash: commit.root }),
                None => Err(ErrorKind::NotFound),
            },
        }
    }

    /// `r` is what inode `ino` resolves to: the naming entry, looked up in
    /// the cached parent tree, or the entry that stands for a cached commit.
    pub open spec fn resolves(self, ino: u64, r: Option<GittyTreeEntry>) -> bool {
        match self.target_of(ino) {
            None => r is None,
            Some(InodeTarget::Entry { parent, name, .. }) => match self.tree_lookup(parent) {
                None => r is None,
                Some(tree) => match entry_index(tree.entries@, name@) {
                    None => r is None,
                    Some(i) => r == Some(tree.entries@[i]),
                },
            },
            Some(InodeTarget::Commit(c)) => match self.commit_lookup(c) {
                None => r is None,
                Some(commit) => r matches Some(e) && commit_entry_ok(c, commit, e),
            },
        }
    }

    /// Whether tree `r` is cached.
    pub fn has_tree(&self, r: &GittyTreeRef) -> (b: bool)
        ensures
            b == self.tree_lookup(*r) is Some,
    {
        self.tree_index(r).is_some()
    }

    fn tree_index(&self, r: &GittyTreeRef) -> (k: Option<usize>)
        ensures
            k matches Some(i) ==> first_with(self.trees_of(), *r) == Some(i as int) && i < self.trees_of().len(),
            k is None <==> first_with(self.trees_of(), *r) is None,
    {
        let mut i: usize = 0;
        while i < self.trees.len()
            invariant
                i <= self.trees@.len(),
                forall|j: int| 0 <= j < i ==> (#[trigger] self.trees@[j]).0 != *r,
            decreases self.trees@.len() - i,
        {
            if hash_eq(&self.trees[i].0.hash, &r.hash) {
                proof {
                    lemma_first_with(self.trees_of(), *r, i as int);
                }
                return Some(i);
            }
            i = i + 1;
        }
        None
    }

    fn commit_index(&self, c: &GittyCommitRef) -> (k: Option<usize>)
        ensures
            k matches Some(i) ==> first_with(self.commits_of(), *c) == Some(i as int) && i < self.commits_of().len(),
            k is None <==> first_with(self.commits_of(), *c) is None,
    {
        let mut i: usize = 0;
        while i < self.commits.len()
            invariant
                i <= self.commits@.len(),
                forall|j: int| 0 <= j < i ==> (#[trigger] self.commits@[j]).0 != *c,
            decreases self.commits@.len() - i,
        {
            if hash_eq(&self.commits[i].0.hash, &c.hash) {
                proof {
                    lemma_first_with(self.commits_of(), *c, i as int);
                }
                return Some(i);
            }
            i = i + 1;
        }
        None
    }

    /// The cached tree `r`.
    pub fn get_tree(&self, r: &GittyTreeRef) -> (t: Option<&GittyTree>)
        ensures
            t matches Some(t) ==> self.tree_lookup(*r) == Some(*t),
            t is None <==> self.tree_lookup(*r) is None,
    {
        match self.tree_index(r) {
            Some(i) => Some(&self.trees[i].1),
            None => None,
        }
    }

    /// Keeps tree `r`, loaded by the caller, unless it is cached already.
    pub fn cache_tree(&mut self, r: GittyTreeRef, tree: GittyTree)
        requires
            old(self).wf(),
            tree.wf(),
        ensures
            final(self).wf(),
            final(self).inodes_of() == old(self).inodes_of(),
            final(self).commits_of() == old(self).commits_of(),
            final(self).root_map_of() == old(self).root_map_of(),
            final(self).root_mtime_of() == old(self).root_mtime_of(),
            old(self).tree_lookup(r) is Some ==> final(self).trees_of() == old(self).trees_of(),
            old(self).tree_lookup(r) is None ==> final(self).trees_of() == old(self).trees_of().push((r, tree)),
            final(self).tree_lookup(r) is Some,
    {
        if self.tree_index(&r).is_none() {
            let ghost before = self.trees@;
            self.trees.push((r, tree));
            assert(self.commits_of() == old(self).commits_of());
            assert(self.inodes_of() == old(self).inodes_of());
            proof {
                assert(forall|j: int| 0 <= j < before.len() ==> (#[trigger] self.trees@[j]) == before[j]);
                lemma_first_with(self.trees_of(), r, before.len() as int);
                assert forall|i: int| 0 <= i < self.trees_of().len() implies (#[trigger] self.trees_of()[i]).1.wf() by {
                    if i < before.len() {
                        assert(self.trees_of()[i] == before[i]);
                    }
                }
            }
        }
    }

    /// The tree that directory inode `ino` lists, for the caller to load.
    pub fn tree_of_dir(&self, ino: u64) -> (r: Result<GittyTreeRef, ErrorKind>)
        requires
            self.wf(),
        ensures
            r == self.dir_of(ino),
    {
        if ino < 2 || ino - 2 >= self.inodes.len() as u64 {
            return Err(ErrorKind::NotFound);
        }
        match &self.inodes[(ino - 2) as usize] {
            InodeTarget::Entry { child, .. } => match child {
                OwnedGittyObjectRef::Tree(t) => Ok(*t),
                _ => Err(ErrorKind::InvalidArgument),
            },
            InodeTarget::Commit(c) => match self.commit_index(c) {
                Some(i) => Ok(GittyTreeRef { hash: self.commits[i].1.root }),
                None => Err(ErrorKind::NotFound),
            },
        }
    }
}

impl GittyViewer {
    /// The inode for child `entry` of tree `tree_ref`.
    pub fn tree_entry_to_inode(&mut self, tree_ref: &GittyTreeRef, entry: &GittyTreeEntry) -> (r: Result<u64, ErrorKind>)
        requires
            old(self).wf(),
        ensures
            final(self).wf(),
            final(self).same_caches(*old(self)),
            allocated(*old(self), *final(self), InodeKey::Entry(*tree_ref, entry.name_of(), entry.target_of()), r),
    {
        let target = InodeTarget::Entry { parent: *tree_ref, name: entry.name().clone(), child: entry.target() };
        self.target_to_inode(target)
    }

    fn cache_commit(&mut self, commit_ref: GittyCommitRef, commit: GittyCommit)
        requires
            old(self).wf(),
            commit.wf(),
        ensures
            final(self).wf(),
            final(self).inodes_of() == old(self).inodes_of(),
            final(self).trees_of() == old(self).trees_of(),
            final(self).root_map_of() == old(self).root_map_of(),
            final(self).root_mtime_of() == old(self).root_mtime_of(),
            old(self).commit_lookup(commit_ref) is None ==> final(self).commits_of()
                == old(self).commits_of().push((commit_ref, commit)),
            old(self).commit_lookup(commit_ref) is Some ==> final(self).commits_of()
                == old(self).commits_of(),
            final(self).commit_lookup(commit_ref) is Some,
            forall|c: GittyCommitRef| #[trigger] old(self).commit_lookup(c) is Some ==> final(self).commit_lookup(c) == old(self).commit_lookup(c),
    {
        if self.commit_index(&commit_ref).is_none() {
            let ghost cs = self.commits@;
            self.commits.push((commit_ref, commit));
            proof {
                assert(forall|j: int| 0 <= j < cs.len() ==> (#[trigger] self.commits_of()[j]) == cs[j]);
                assert(forall|j: int| 0 <= j < cs.len() ==> (#[trigger] cs[j]).0 != commit_ref);
                lemma_first_with(self.commits_of(), commit_ref, cs.len() as int);
                assert(self.commits_of() == cs.push((commit_ref, commit)));
                lemma_commit_lookups_kept(*old(self), *self, (commit_ref, commit));
                assert forall|i: int| 0 <= i < self.commits_of().len() implies (#[trigger] self.commits_of()[i]).1.wf() by {
                    if i < cs.len() {
                        assert(self.commits_of()[i] == cs[i]);
                    }
                }
            }
            assert(self.inodes_of() == old(self).inodes_of());
            assert(self.trees_of() == old(self).trees_of());
        }
    }

    /// The inode for commit `commit_ref`; the commit is cached unless it
    /// was already.
    pub fn commit_to_inode(&mut self, commit_ref: GittyCommitRef, commit: GittyCommit) -> (r: Result<u64, ErrorKind>)
        requires
            old(self).wf(),
            commit.wf(),
        ensures
            final(self).wf(),
            allocated(*old(self), *final(self), InodeKey::Commit(commit_ref), r),
            final(self).trees_of() == old(self).trees_of(),
            final(self).root_map_of() == old(self).root_map_of(),
            final(self).root_mtime_of() == old(self).root_mtime_of(),
            old(self).commit_lookup(commit_ref) is None ==> final(self).commits_of()
                == old(self).commits_of().push((commit_ref, commit)),
            old(self).commit_lookup(commit_ref) is Some ==> final(self).commits_of()
                == old(self).commits_of(),
            final(self).commit_lookup(commit_ref) is Some,
            forall|c: GittyCommitRef| #[trigger] old(self).commit_lookup(c) is Some ==> final(self).commit_lookup(c) == old(self).commit_lookup(c),
    {
        self.cache_commit(commit_ref, commit);
        let ghost mid = *self;
        assert(mid.inode_of_key(InodeKey::Commit(commit_ref)) == old(self).inode_of_key(InodeKey::Commit(commit_ref)));
        self.target_to_inode(InodeTarget::Commit(commit_ref))
    }

    /// What inode `ino` resolves to, from the cached trees and commits.
    pub fn inode_to_tree(&self, ino: u64) -> (r: Option<GittyTreeEntry>)
        requires
            self.wf(),
        ensures
            self.resolves(ino, r),
    {
        if ino < 2 || ino - 2 >= self.inodes.len() as u64 {
            return None;
        }
        match &self.inodes[(ino - 2) as usize] {
            InodeTarget::Entry { parent, name, .. } => match self.tree_index(parent) {
                None => None,
                Some(i) => {
                    let tree = &self.trees[i].1;
                    match find_tree_entry(tree, name) {
                        Some(j) => Some(tree.entries[j].copy()),
                        None => None,
                    }
                },
            },
            InodeTarget::Commit(c) => match self.commit_index(c) {
                None => None,
                Some(i) => {
                    assert(self.commits@[i as int].1.wf());
                    Some(commit_entry(c, &self.commits[i].1))
                },
            },
        }
    }

    /// Attributes that `entry` gives inode `ino`.
    pub fn entry_to_attr(entry: &GittyTreeEntry, ino: u64) -> (r: FileAttr)
        ensures
            r == attr_of(*entry, ino),
    {
        match entry {
            GittyTreeEntry::Tree(t) => FileAttr {
                ino,
                mtime: t.modified,
                size: 0,
                kind: FileKind::Directory,
                mode: t.permissions.mode,
                uid: t.permissions.uid,
                gid: t.permissions.gid,
                nlink: 1,
            },
            GittyTreeEntry::Blob(b) => FileAttr {
                ino,
                mtime: b.modified,
                size: b.size,
                kind: if b.is_symlink {
                    FileKind::Symlink
                } else {
                    FileKind::RegularFile
                },
                mode: b.permissions.mode,
                uid: b.permissions.uid,
                gid: b.permissions.gid,
                nlink: 1,
            },
        }
    }

    /// Attributes of inode `ino`, asked for by user `uid` of group `gid`
    /// (the root directory reports them as its owner).
    pub fn getattr(&self, ino: u64, uid: u32, gid: u32) -> (r: Result<FileAttr, ErrorKind>)
        requires
            self.wf(),
        ensures
            ino == ROOT_INODE ==> r == Ok::<FileAttr, ErrorKind>(root_attr(self.root_mtime_of(), uid, gid)),
            ino != ROOT_INODE ==> (r is Ok <==> !self.resolves(ino, None)),
            ino != ROOT_INODE && r is Ok ==> exists|e: GittyTreeEntry|
                self.resolves(ino, Some(e)) && r == Ok::<FileAttr, ErrorKind>(attr_of(e, ino)),
            r is Err ==> r == Err::<FileAttr, ErrorKind>(ErrorKind::NotFound),
    {
        if ino == ROOT_INODE {
            return Ok(FileAttr {
                ino: ROOT_INODE,
                mtime: self.root_mtime,
                size: 0,
                kind: FileKind::Directory,
                mode: 0o755,
                uid,
                gid,
                nlink: 1,
            });
        }
        match self.inode_to_tree(ino) {
            Some(e) => Ok(GittyViewer::entry_to_attr(&e, ino)),
            None => Err(ErrorKind::NotFound),
        }
    }

    /// Which blob inode `ino` shows, for the caller to read: is-directory for
    /// the root and directories, invalid-argument for a commit, not-found for
    /// an unknown inode.
    pub fn read_target(&self, ino: u64) -> (r: Result<GittyBlobRef, ErrorKind>)
        requires
            self.wf(),
        ensures
            ino == ROOT_INODE ==> r == Err::<GittyBlobRef, ErrorKind>(ErrorKind::IsDirectory),
            ino != ROOT_INODE ==> r == match self.target_of(ino) {
                None => Err(ErrorKind::NotFound),
                Some(InodeTarget::Commit(_)) => Err(ErrorKind::InvalidArgument),
                Some(InodeTarget::Entry { child, .. }) => match child {
                    OwnedGittyObjectRef::Blob(b) => Ok(b),
                    OwnedGittyObjectRef::Tree(_) => Err(ErrorKind::IsDirectory),
                    OwnedGittyObjectRef::Commit(_) => Err(ErrorKind::InvalidArgument),
                },
            },
    {
        if ino == ROOT_INODE {
            return Err(ErrorKind::IsDirectory);
        }
        if ino < 2 || ino - 2 >= self.inodes.len() as u64 {
            return Err(ErrorKind::NotFound);
        }
        match &self.inodes[(ino - 2) as usize] {
            InodeTarget::Commit(_) => Err(ErrorKind::InvalidArgument),
            InodeTarget::Entry { child, .. } => match child {
                OwnedGittyObjectRef::Blob(b) => Ok(*b),
                OwnedGittyObjectRef::Tree(_) => Err(ErrorKind::IsDirectory),
                OwnedGittyObjectRef::Commit(_) => Err(ErrorKind::InvalidArgument),
            },
        }
    }
}

/// `list` is the listing of the entries `es` of tree `t` from position
/// `offset` on, as inodes of `v`: each entry once, in order, each with the
/// offset that resumes after it.
pub open spec fn listing_ok(v: GittyViewer, t: GittyTreeRef, es: Seq<GittyTreeEntry>, offset: u64, list: Seq<DirEntry>) -> bool {
    &&& list.len() == if offset < es.len() { es.len() - offset } else { 0 }
    &&& forall|j: int| 0 <= j < list.len() ==> {
        let e = es[offset + j];
        &&& (#[trigger] list[j]).offset == offset + j + 1
        &&& list[j].name@ == e.name_of()
        &&& list[j].kind == kind_of_entry(e)
        &&& v.target_of(list[j].ino) matches Some(tg) && key_of(tg) == InodeKey::Entry(t, e.name_of(), e.target_of())
    }
}

/// Entry `e` of the root of `v` stands for commit `c`: its inode stands for
/// it, its name is known to the root and the commit is cached.
pub open spec fn root_entry_ok(v: GittyViewer, c: (GittyCommitRef, GittyCommit), e: DirEntry) -> bool {
    &&& v.target_of(e.ino) matches Some(tg) && key_of(tg) == InodeKey::Commit(c.0)
    &&& v.root_lookup(e.name@) is Some
    &&& v.commit_lookup(c.0) is Some
}

/// `list` names the commits `cs` from position `offset` on, in order, one
/// directory each, each with the offset that resumes after it.
pub open spec fn root_shape(cs: Seq<(GittyCommitRef, GittyCommit)>, offset: u64, list: Seq<DirEntry>) -> bool {
    &&& list.len() == if offset < cs.len() { cs.len() - offset } else { 0 }
    &&& forall|j: int| 0 <= j < list.len() ==> {
        &&& (#[trigger] list[j]).offset == offset + j + 1
        &&& list[j].name@ == commit_name_of(cs[offset + j].0, cs[offset + j].1)
        &&& list[j].kind == FileKind::Directory
    }
}

/// No entry after position `j` of `list` has the same name.
pub open spec fn last_of_name(list: Seq<DirEntry>, j: int) -> bool {
    forall|k: int| j < k < list.len() ==> (#[trigger] list[k]).name@ != list[j].name@
}

/// `list` lists the commits `cs` (newest first) from position `offset` on,
/// as inodes of `v`: one directory per commit, named after it. Looking a
/// listed name up in the root gives its commit (of two commits that share a
/// name, the later listed).
pub open spec fn root_listing_ok(v: GittyViewer, cs: Seq<(GittyCommitRef, GittyCommit)>, offset: u64, list: Seq<DirEntry>) -> bool {
    &&& root_shape(cs, offset, list)
    &&& forall|j: int| 0 <= j < list.len() ==> root_entry_ok(v, cs[offset + j], #[trigger] list[j])
    &&& forall|j: int| 0 <= j < list.len() && last_of_name(list, j) ==> v.root_lookup((#[trigger] list[j]).name@) == Some(cs[offset + j].0)
}

impl GittyViewer {
    /// Looks up `name` in directory `parent`. In the root, `name` must have
    /// been listed by `readdir_root`; elsewhere the directory's tree must be
    /// cached. Fails invalid-argument when `parent` is a file, not-found when
    /// anything is missing.
    pub fn lookup(&mut self, parent: u64, name: &String) -> (r: Result<FileAttr, ErrorKind>)
        requires
            old(self).wf(),
        ensures
            final(self).wf(),
            forall|x: u64| #[trigger] old(self).target_of(x) is Some ==> final(self).target_of(x) == old(self).target_of(x),
            final(self).trees_of() == old(self).trees_of(),
            final(self).root_map_of() == old(self).root_map_of(),
            final(self).root_mtime_of() == old(self).root_mtime_of(),
            parent == ROOT_INODE ==> match old(self).root_lookup(name@) {
                None => r == Err::<FileAttr, ErrorKind>(ErrorKind::NotFound) && final(self).inodes_of() == old(self).inodes_of(),
                Some(cref) => match old(self).commit_lookup(cref) {
                    None => r == Err::<FileAttr, ErrorKind>(ErrorKind::NotFound) && final(self).inodes_of() == old(self).inodes_of(),
                    Some(commit) => {
                        &&& allocated(*old(self), *final(self), InodeKey::Commit(cref), ino_result(r))
                        &&& r matches Ok(at) ==> at == commit_attr(commit, at.ino)
                    },
                },
            },
            parent != ROOT_INODE ==> match old(self).dir_of(parent) {
                Err(k) => r == Err::<FileAttr, ErrorKind>(k) && final(self).inodes_of() == old(self).inodes_of(),
                Ok(t) => match old(self).tree_lookup(t) {
                    None => r == Err::<FileAttr, ErrorKind>(ErrorKind::NotFound) && final(self).inodes_of() == old(self).inodes_of(),
                    Some(tree) => match entry_index(tree.entries@, name@) {
                        None => r == Err::<FileAttr, ErrorKind>(ErrorKind::NotFound) && final(self).inodes_of() == old(self).inodes_of(),
                        Some(i) => {
                            &&& allocated(*old(self), *final(self), InodeKey::Entry(t, name@, tree.entries@[i].target_of()), ino_result(r))
                            &&& r matches Ok(at) ==> at == attr_of(tree.entries@[i], at.ino)
                        },
                    },
                },
            },
    {
        if parent == ROOT_INODE {
            self.lookup_root(name)
        } else {
            self.lookup_in_dir(parent, name)
        }
    }

    fn lookup_root(&mut self, name: &String) -> (r: Result<FileAttr, ErrorKind>)
        requires
            old(self).wf(),
        ensures
            final(self).wf(),
            forall|x: u64| #[trigger] old(self).target_of(x) is Some ==> final(self).target_of(x) == old(self).target_of(x),
            final(self).trees_of() == old(self).trees_of(),
            final(self).root_map_of() == old(self).root_map_of(),
            final(self).root_mtime_of() == old(self).root_mtime_of(),
            match old(self).root_lookup(name@) {
                None => r == Err::<FileAttr, ErrorKind>(ErrorKind::NotFound) && final(self).inodes_of() == old(self).inodes_of(),
                Some(cref) => match old(self).commit_lookup(cref) {
                    None => r == Err::<FileAttr, ErrorKind>(ErrorKind::NotFound) && final(self).inodes_of() == old(self).inodes_of(),
                    Some(commit) => {
                        &&& allocated(*old(self), *final(self), InodeKey::Commit(cref), ino_result(r))
                        &&& r matches Ok(at) ==> at == commit_attr(commit, at.ino)
                    },
                },
            },
    {
        let cref = match self.root_index(name) {
            Some(i) => self.root_map[i].1,
            None => return Err(ErrorKind::NotFound),
        };
        let commit = match self.commit_index(&cref) {
            Some(i) => {
                assert(self.commits@[i as int].1.wf());
                self.commits[i].1.copy()
            },
            None => return Err(ErrorKind::NotFound),
        };
        let entry = commit_entry(&cref, &commit);
        let ghost before = *self;
        let a = self.commit_to_inode(cref, commit);
        proof {
            lemma_allocated_keeps(before, *self, InodeKey::Commit(cref), a);
        }
        match a {
            Ok(ino) => Ok(GittyViewer::entry_to_attr(&entry, ino)),
            Err(k) => Err(k),
        }
    }

    fn lookup_in_dir(&mut self, parent: u64, name: &String) -> (r: Result<FileAttr, ErrorKind>)
        requires
            old(self).wf(),
        ensures
            final(self).wf(),
            forall|x: u64| #[trigger] old(self).target_of(x) is Some ==> final(self).target_of(x) == old(self).target_of(x),
            final(self).trees_of() == old(self).trees_of(),
            final(self).root_map_of() == old(self).root_map_of(),
            final(self).root_mtime_of() == old(self).root_mtime_of(),
            match old(self).dir_of(parent) {
                Err(k) => r == Err::<FileAttr, ErrorKind>(k) && final(self).inodes_of() == old(self).inodes_of(),
                Ok(t) => match old(self).tree_lookup(t) {
                    None => r == Err::<FileAttr, ErrorKind>(ErrorKind::NotFound) && final(self).inodes_of() == old(self).inodes_of(),
                    Some(tree) => match entry_index(tree.entries@, name@) {
                        None => r == Err::<FileAttr, ErrorKind>(ErrorKind::NotFound) && final(self).inodes_of() == old(self).inodes_of(),
                        Some(i) => {
                            &&& allocated(*old(self), *final(self), InodeKey::Entry(t, name@, tree.entries@[i].target_of()), ino_result(r))
                            &&& r matches Ok(at) ==> at == attr_of(tree.entries@[i], at.ino)
                        },
                    },
                },
            },
    {
        let tree_ref = match self.tree_of_dir(parent) {
            Ok(t) => t,
            Err(k) => return Err(k),
        };
        let entry = match self.tree_index(&tree_ref) {
            None => return Err(ErrorKind::NotFound),
            Some(i) => {
                let tree = &self.trees[i].1;
                match find_tree_entry(tree, name) {
                    Some(j) => {
                        assert(tree.entries@[j as int].name_of() == name@);
                        tree.entries[j].copy()
                    },
                    None => return Err(ErrorKind::NotFound),
                }
            },
        };
        assert(entry.name_of() == name@);
        let ghost before = *self;
        let a = self.tree_entry_to_inode(&tree_ref, &entry);
        proof {
            lemma_allocated_keeps(before, *self, InodeKey::Entry(tree_ref, entry.name_of(), entry.target_of()), a);
        }
        match a {
            Ok(ino) => Ok(GittyViewer::entry_to_attr(&entry, ino)),
            Err(k) => Err(k),
        }
    }

    fn root_index(&self, name: &String) -> (k: Option<usize>)
        ensures
            k matches Some(i) ==> name_index(self.root_map_of(), name@) == Some(i as int) && i < self.root_map_of().len()
                && self.root_map_of()[i as int].0@ == name@
                && forall|j: int| 0 <= j < i ==> (#[trigger] self.root_map_of()[j]).0@ != name@,
            k is None <==> name_index(self.root_map_of(), name@) is None,
            k is None ==> forall|j: int| 0 <= j < self.root_map_of().len() ==> (#[trigger] self.root_map_of()[j]).0@ != name@,
    {
        let mut i: usize = 0;
        while i < self.root_map.len()
            invariant
                i <= self.root_map@.len(),
                forall|j: int| 0 <= j < i ==> (#[trigger] self.root_map@[j]).0@ != name@,
            decreases self.root_map@.len() - i,
        {
            if self.root_map[i].0 == *name {
                proof {
                    lemma_name_index(self.root_map_of(), name@, i as int);
                }
                return Some(i);
            }
            i = i + 1;
        }
        None
    }
}

/// A listing read in batches, each resuming at the offset the previous batch
/// ended with, yields every entry from the first offset on exactly once, in
/// order: the first `k` entries of one batch followed by the next batch are
/// the listing of the whole remainder.
pub proof fn lemma_readdir_batches(
    v1: GittyViewer,
    v2: GittyViewer,
    t: GittyTreeRef,
    es: Seq<GittyTreeEntry>,
    offset: u64,
    k: int,
    first: Seq<DirEntry>,
    second: Seq<DirEntry>,
)
    requires
        listing_ok(v1, t, es, offset, first),
        0 < k <= first.len(),
        listing_ok(v2, t, es, first[k - 1].offset, second),
    ensures
        ({
            let all = first.subrange(0, k) + second;
            &&& all.len() == es.len() - offset
            &&& forall|j: int| 0 <= j < all.len() ==> {
                &&& (#[trigger] all[j]).offset == offset + j + 1
                &&& all[j].name@ == es[offset + j].name_of()
                &&& all[j].kind == kind_of_entry(es[offset + j])
            }
        }),
{
    let all = first.subrange(0, k) + second;
    let m = first[k - 1].offset;
    assert(m == offset + k);
    assert forall|j: int| 0 <= j < all.len() implies {
        &&& (#[trigger] all[j]).offset == offset + j + 1
        &&& all[j].name@ == es[offset + j].name_of()
        &&& all[j].kind == kind_of_entry(es[offset + j])
    } by {
        if j < k {
            assert(all[j] == first[j]);
        } else {
            assert(all[j] == second[j - k]);
        }
    }
}

/// An inode that stands for child `name` of a cached tree shows that child's
/// entry: its attributes (size, mode, owner, group, modification time) are
/// those recorded in the tree, and reading it reads the blob the entry names.
pub proof fn lemma_projected_entry(v: GittyViewer, ino: u64, t: GittyTreeRef, name: Seq<char>, child: OwnedGittyObjectRef)
    requires
        v.target_of(ino) matches Some(tg) && key_of(tg) == InodeKey::Entry(t, name, child),
        v.tree_lookup(t) is Some,
        entry_index(v.tree_lookup(t)->0.entries@, name) is Some,
    ensures
        ({
            let e = v.tree_lookup(t)->0.entries@[entry_index(v.tree_lookup(t)->0.entries@, name)->0];
            &&& v.resolves(ino, Some(e))
            &&& attr_of(e, ino).size == (match e {
                GittyTreeEntry::Tree(_) => 0u64,
                GittyTreeEntry::Blob(b) => b.size,
            })
            &&& attr_of(e, ino).mtime == e.modified_of()
            &&& (e matches GittyTreeEntry::Blob(b) ==> attr_of(e, ino).mode == b.permissions.mode
                && attr_of(e, ino).uid == b.permissions.uid && attr_of(e, ino).gid == b.permissions.gid)
        }),
{
}

/// The root listing read in batches, each resuming at the offset the
/// previous batch ended with, lists every commit from the first offset on
/// exactly once, in order, named after it.
pub proof fn lemma_root_readdir_batches(
    cs: Seq<(GittyCommitRef, GittyCommit)>,
    offset: u64,
    k: int,
    first: Seq<DirEntry>,
    second: Seq<DirEntry>,
)
    requires
        root_shape(cs, offset, first),
        0 < k <= first.len(),
        root_shape(cs, first[k - 1].offset, second),
    ensures
        ({
            let all = first.subrange(0, k) + second;
            &&& all.len() == cs.len() - offset
            &&& forall|j: int| 0 <= j < all.len() ==> {
                &&& (#[trigger] all[j]).offset == offset + j + 1
                &&& all[j].name@ == commit_name_of(cs[offset + j].0, cs[offset + j].1)
                &&& all[j].kind == FileKind::Directory
            }
        }),
{
    let all = first.subrange(0, k) + second;
    assert forall|j: int| 0 <= j < all.len() implies {
        &&& (#[trigger] all[j]).offset == offset + j + 1
        &&& all[j].name@ == commit_name_of(cs[offset + j].0, cs[offset + j].1)
        &&& all[j].kind == FileKind::Directory
    } by {
        if j < k {
            assert(all[j] == first[j]);
        } else {
            assert(all[j] == second[j - k]);
        }
    }
}

proof fn lemma_first_with_props<K, V>(ps: Seq<(K, V)>, k: K)
    ensures
        first_with(ps, k) matches Some(i) ==> 0 <= i < ps.len() && ps[i].0 == k && forall|j: int| 0 <= j < i ==> (#[trigger] ps[j]).0 != k,
        first_with(ps, k) is None ==> forall|j: int| 0 <= j < ps.len() ==> (#[trigger] ps[j]).0 != k,
    decreases ps.len(),
{
    if ps.len() > 0 {
        let p = ps.drop_last();
        lemma_first_with_props(p, k);
        match first_with(p, k) {
            Some(i) => {
                assert(forall|j: int| 0 <= j < i ==> (#[trigger] ps[j]) == p[j]);
                lemma_first_with(ps, k, i);
            },
            None => {
                assert(forall|j: int| 0 <= j < p.len() ==> (#[trigger] ps[j]) == p[j]);
                if ps.last().0 == k {
                    lemma_first_with(ps, k, ps.len() - 1);
                }
            },
        }
    }
}

proof fn lemma_name_index_props(ps: Seq<(String, GittyCommitRef)>, n: Seq<char>)
    ensures
        name_index(ps, n) matches Some(i) ==> 0 <= i < ps.len() && ps[i].0@ == n && forall|j: int| 0 <= j < i ==> (#[trigger] ps[j]).0@ != n,
        name_index(ps, n) is None ==> forall|j: int| 0 <= j < ps.len() ==> (#[trigger] ps[j]).0@ != n,
    decreases ps.len(),
{
    if ps.len() > 0 {
        let p = ps.drop_last();
        lemma_name_index_props(p, n);
        match name_index(p, n) {
            Some(i) => {
                assert(forall|j: int| 0 <= j < i ==> (#[trigger] ps[j]) == p[j]);
                lemma_name_index(ps, n, i);
            },
            None => {
                assert(forall|j: int| 0 <= j < p.len() ==> (#[trigger] ps[j]) == p[j]);
                if ps.last().0@ == n {
                    lemma_name_index(ps, n, ps.len() - 1);
                }
            },
        }
    }
}

/// Adding a pair at the end keeps what every key looked up before.
proof fn lemma_first_with_push<K, V>(ps: Seq<(K, V)>, x: (K, V), k: K)
    requires
        first_with(ps, k) is Some,
    ensures
        first_with(ps.push(x), k) == first_with(ps, k),
{
    lemma_first_with_props(ps, k);
    let i = first_with(ps, k)->0;
    assert(forall|j: int| 0 <= j < ps.len() ==> (#[trigger] ps.push(x)[j]) == ps[j]);
    lemma_first_with(ps.push(x), k, i);
}

proof fn lemma_commit_lookups_kept(v: GittyViewer, w: GittyViewer, x: (GittyCommitRef, GittyCommit))
    requires
        w.commits_of() == v.commits_of().push(x),
    ensures
        forall|c: GittyCommitRef| #[trigger] v.commit_lookup(c) is Some ==> w.commit_lookup(c) == v.commit_lookup(c),
{
    assert forall|c: GittyCommitRef| #[trigger] v.commit_lookup(c) is Some implies w.commit_lookup(c) == v.commit_lookup(c) by {
        lemma_first_with_push(v.commits_of(), x, c);
        let i = first_with(v.commits_of(), c)->0;
        lemma_first_with_props(v.commits_of(), c);
        assert(w.commits_of()[i] == v.commits_of()[i]);
    }
}

/// Changing the root map without touching name `n` keeps what `n` looks up.
proof fn lemma_name_index_same(ps: Seq<(String, GittyCommitRef)>, qs: Seq<(String, GittyCommitRef)>, n: Seq<char>)
    requires
        ps.len() <= qs.len(),
        forall|i: int| 0 <= i < ps.len() ==> (#[trigger] qs[i]).0@ == ps[i].0@,
        forall|i: int| 0 <= i < ps.len() && ps[i].0@ == n ==> (#[trigger] qs[i]).1 == ps[i].1,
        forall|i: int| ps.len() <= i < qs.len() ==> (#[trigger] qs[i]).0@ != n,
    ensures
        name_index(ps, n) matches Some(k) ==> name_index(qs, n) == Some(k) && qs[k].1 == ps[k].1,
        name_index(ps, n) is None ==> name_index(qs, n) is None,
{
    lemma_name_index_props(ps, n);
    lemma_name_index_props(qs, n);
    match name_index(ps, n) {
        Some(k) => {
            assert(forall|j: int| 0 <= j < k ==> (#[trigger] qs[j]).0@ != n) by {
                assert(forall|j: int| 0 <= j < k ==> qs[j].0@ == ps[j].0@);
            }
            lemma_name_index(qs, n, k);
        },
        None => {
            if name_index(qs, n) is Some {
                let k = name_index(qs, n)->0;
                if k < ps.len() {
                    assert(qs[k].0@ == ps[k].0@);
                }
            }
        },
    }
}

/// Handing out an inode leaves every inode handed out before as it was.
proof fn lemma_allocated_keeps(before: GittyViewer, after: GittyViewer, k: InodeKey, a: Result<u64, ErrorKind>)
    requires
        allocated(before, after, k, a),
    ensures
        after.inodes_of().len() <= before.inodes_of().len() + 1,
        forall|ino: u64| #[trigger] before.target_of(ino) is Some ==> after.target_of(ino) == before.target_of(ino),
{
    assert forall|ino: u64| #[trigger] before.target_of(ino) is Some implies after.target_of(ino) == before.target_of(ino) by {
        if after.inodes_of() != before.inodes_of() {
            let n = before.inodes_of().len() as int;
            assert(after.inodes_of().subrange(0, n)[ino - 2] == after.inodes_of()[ino - 2]);
        }
    }
}

/// Naming `name` keeps every name the root map held.
proof fn lemma_names_kept(ps: Seq<(String, GittyCommitRef)>, qs: Seq<(String, GittyCommitRef)>, n: Seq<char>)
    requires
        ps.len() <= qs.len(),
        forall|i: int| 0 <= i < ps.len() ==> (#[trigger] qs[i]).0@ == ps[i].0@,
        name_index(ps, n) is Some,
    ensures
        name_index(qs, n) is Some,
{
    let i = choose|i: int| 0 <= i < ps.len() && (#[trigger] ps[i]).0@ == n;
    assert(qs[i].0@ == n);
}

impl GittyViewer {
    /// Makes the root list commit `commit_ref` under `name`, replacing the
    /// commit listed under that name before.
    fn root_map_insert(&mut self, name: String, commit_ref: GittyCommitRef)
        requires
            old(self).wf(),
        ensures
            final(self).wf(),
            final(self).inodes_of() == old(self).inodes_of(),
            final(self).commits_of() == old(self).commits_of(),
            final(self).trees_of() == old(self).trees_of(),
            final(self).root_mtime_of() == old(self).root_mtime_of(),
            final(self).root_lookup(name@) == Some(commit_ref),
            old(self).root_map_of().len() <= final(self).root_map_of().len(),
            forall|i: int| 0 <= i < old(self).root_map_of().len() ==> (#[trigger] final(self).root_map_of()[i]).0@ == old(self).root_map_of()[i].0@,
            forall|m: Seq<char>| m != name@ ==> #[trigger] final(self).root_lookup(m) == old(self).root_lookup(m),
    {
        let ghost n = name@;
        match self.root_index(&name) {
            Some(i) => {
                let ghost ps = self.root_map@;
                self.root_map[i] = (name, commit_ref);
                proof {
                    assert(forall|j: int| 0 <= j < ps.len() && j != i ==> (#[trigger] self.root_map_of()[j]) == ps[j]);
                    lemma_name_index(self.root_map_of(), n, i as int);
                    assert forall|m: Seq<char>| m != n implies #[trigger] self.root_lookup(m) == old(self).root_lookup(m) by {
                        lemma_name_index_same(ps, self.root_map_of(), m);
                    }
                }
            },
            None => {
                let ghost ps = self.root_map@;
                self.root_map.push((name, commit_ref));
                proof {
                    assert(forall|j: int| 0 <= j < ps.len() ==> (#[trigger] self.root_map_of()[j]) == ps[j]);
                    lemma_name_index(self.root_map_of(), n, ps.len() as int);
                    assert forall|m: Seq<char>| m != n implies #[trigger] self.root_lookup(m) == old(self).root_lookup(m) by {
                        lemma_name_index_same(ps, self.root_map_of(), m);
                    }
                }
            },
        }
        assert(self.inodes_of() == old(self).inodes_of());
        assert(self.commits_of() == old(self).commits_of());
        assert(self.trees_of() == old(self).trees_of());
    }

    /// Lists directory inode `ino` from position `offset` on: each entry of
    /// its tree once, with the inode standing for it. Fails as `dir_of` says,
    /// or with an i/o error when the tree is not cached (it could not be
    /// loaded) or inode numbers run out. The root is listed by
    /// `readdir_root`; here it is an unknown inode. Inodes handed out
    /// before keep what they stand for, whatever the outcome.
    pub fn readdir(&mut self, ino: u64, offset: u64) -> (r: Result<Vec<DirEntry>, ErrorKind>)
        requires
            old(self).wf(),
        ensures
            final(self).wf(),
            final(self).same_caches(*old(self)),
            forall|x: u64| #[trigger] old(self).target_of(x) is Some ==> final(self).target_of(x) == old(self).target_of(x),
            old(self).dir_of(ino) matches Err(k) ==> r == Err::<Vec<DirEntry>, ErrorKind>(k),
            old(self).dir_of(ino) matches Ok(t) ==> match old(self).tree_lookup(t) {
                None => r == Err::<Vec<DirEntry>, ErrorKind>(ErrorKind::Io),
                Some(tree) => {
                    &&& old(self).inodes_of().len() + tree.entries@.len() + 3 < u64::MAX ==> r is Ok
                    &&& r matches Err(k) ==> k == ErrorKind::Io
                    &&& r matches Ok(list) ==> listing_ok(*final(self), t, tree.entries@, offset, list@)
                },
            },
    {
        let t = match self.tree_of_dir(ino) {
            Ok(t) => t,
            Err(k) => return Err(k),
        };
        let tree = match self.get_tree(&t) {
            Some(tr) => tr.copy(),
            None => return Err(ErrorKind::Io),
        };
        let ghost es = tree.entries@;
        let mut list: Vec<DirEntry> = Vec::new();
        if offset >= tree.entries.len() as u64 {
            return Ok(list);
        }
        let mut i: usize = offset as usize;
        while i < tree.entries.len()
            invariant
                self.wf(),
                self.same_caches(*old(self)),
                forall|x: u64| #[trigger] old(self).target_of(x) is Some ==> self.target_of(x) == old(self).target_of(x),
                tree.entries@ == es,
                old(self).dir_of(ino) == Ok::<GittyTreeRef, ErrorKind>(t),
                old(self).tree_lookup(t) matches Some(tr) && tr.entries@ == es,
                offset <= i <= es.len(),
                list@.len() == i - offset,
                self.inodes_of().len() <= old(self).inodes_of().len() + (i - offset),
                forall|j: int| 0 <= j < list@.len() ==> {
                    let e = es[offset + j];
                    &&& (#[trigger] list@[j]).offset == offset + j + 1
                    &&& list@[j].name@ == e.name_of()
                    &&& list@[j].kind == kind_of_entry(e)
                    &&& self.target_of(list@[j].ino) matches Some(tg) && key_of(tg) == InodeKey::Entry(t, e.name_of(), e.target_of())
                },
            decreases es.len() - i,
        {
            let ghost before = *self;
            let a = self.tree_entry_to_inode(&t, &tree.entries[i]);
            proof {
                lemma_allocated_keeps(before, *self, InodeKey::Entry(t, es[i as int].name_of(), es[i as int].target_of()), a);
            }
            let n = match a {
                Ok(n) => n,
                Err(k) => return Err(k),
            };
            let kind = match &tree.entries[i] {
                GittyTreeEntry::Tree(_) => FileKind::Directory,
                GittyTreeEntry::Blob(b) => if b.is_symlink {
                    FileKind::Symlink
                } else {
                    FileKind::RegularFile
                },
            };
            let ghost old_list = list@;
            list.push(DirEntry { ino: n, offset: i as u64 + 1, kind, name: tree.entries[i].name().clone() });
            assert forall|j: int| 0 <= j < list@.len() implies {
                let e = es[offset + j];
                &&& (#[trigger] list@[j]).offset == offset + j + 1
                &&& list@[j].name@ == e.name_of()
                &&& list@[j].kind == kind_of_entry(e)
                &&& self.target_of(list@[j].ino) matches Some(tg) && key_of(tg) == InodeKey::Entry(t, e.name_of(), e.target_of())
            } by {
                if j < old_list.len() {
                    assert(list@[j] == old_list[j]);
                    assert(before.target_of(old_list[j].ino) is Some);
                }
            }
            i = i + 1;
        }
        Ok(list)
    }

    /// Lists the root from position `offset` on: one directory per commit of
    /// `commits` (the history from the head, newest first, as a walker gave
    /// it), named by commit time. The names are remembered for `lookup`.
    #[verifier::rlimit(60)]
    pub fn readdir_root(&mut self, commits: &Vec<(GittyCommitRef, GittyCommit)>, offset: u64) -> (r: Result<Vec<DirEntry>, ErrorKind>)
        requires
            old(self).wf(),
            forall|i: int| 0 <= i < commits@.len() ==> (#[trigger] commits@[i]).1.wf(),
        ensures
            final(self).wf(),
            final(self).trees_of() == old(self).trees_of(),
            final(self).root_mtime_of() == old(self).root_mtime_of(),
            forall|x: u64| #[trigger] old(self).target_of(x) is Some ==> final(self).target_of(x) == old(self).target_of(x),
            old(self).inodes_of().len() + commits@.len() + 3 < u64::MAX ==> r is Ok,
            r matches Err(k) ==> k == ErrorKind::Io,
            r matches Ok(list) ==> root_listing_ok(*final(self), commits@, offset, list@),
    {
        let ghost cs = commits@;
        let mut list: Vec<DirEntry> = Vec::new();
        if offset >= commits.len() as u64 {
            return Ok(list);
        }
        let mut i: usize = offset as usize;
        while i < commits.len()
            invariant
                self.wf(),
                self.trees_of() == old(self).trees_of(),
                self.root_mtime_of() == old(self).root_mtime_of(),
                forall|x: u64| #[trigger] old(self).target_of(x) is Some ==> self.target_of(x) == old(self).target_of(x),
                commits@ == cs,
                forall|k: int| 0 <= k < cs.len() ==> (#[trigger] cs[k]).1.wf(),
                offset <= i <= cs.len(),
                list@.len() == i - offset,
                self.inodes_of().len() <= old(self).inodes_of().len() + (i - offset),
                forall|j: int| 0 <= j < list@.len() ==> {
                    &&& (#[trigger] list@[j]).offset == offset + j + 1
                    &&& list@[j].name@ == commit_name_of(cs[offset + j].0, cs[offset + j].1)
                    &&& list@[j].kind == FileKind::Directory
                },
                forall|j: int| 0 <= j < list@.len() ==> root_entry_ok(*self, cs[offset + j], #[trigger] list@[j]),
                forall|j: int| 0 <= j < list@.len() && last_of_name(list@, j) ==> self.root_lookup((#[trigger] list@[j]).name@) == Some(cs[offset + j].0),
            decreases cs.len() - i,
        {
            let commit_ref = commits[i].0;
            assert(cs[i as int].1.wf());
            let fname = commit_fname(&commit_ref, &commits[i].1);
            let ghost before_map = *self;
            self.root_map_insert(fname.clone(), commit_ref);
            let ghost before = *self;
            let a = self.commit_to_inode(commit_ref, commits[i].1.copy());
            proof {
                lemma_allocated_keeps(before, *self, InodeKey::Commit(commit_ref), a);
            }
            let n = match a {
                Ok(n) => n,
                Err(k) => return Err(k),
            };
            let ghost old_list = list@;
            list.push(DirEntry { ino: n, offset: i as u64 + 1, kind: FileKind::Directory, name: fname });
            proof {
                assert(self.root_map_of() == before.root_map_of());
                assert forall|j: int| 0 <= j < list@.len() implies {
                    &&& (#[trigger] list@[j]).offset == offset + j + 1
                    &&& list@[j].name@ == commit_name_of(cs[offset + j].0, cs[offset + j].1)
                    &&& list@[j].kind == FileKind::Directory
                } by {
                    if j < old_list.len() {
                        assert(list@[j] == old_list[j]);
                    }
                }
                assert forall|j: int| 0 <= j < list@.len() implies root_entry_ok(*self, cs[offset + j], #[trigger] list@[j]) by {
                    if j < old_list.len() {
                        assert(list@[j] == old_list[j]);
                        assert(root_entry_ok(before_map, cs[offset + j], old_list[j]));
                        assert(before_map.target_of(old_list[j].ino) is Some);
                        lemma_names_kept(before_map.root_map_of(), self.root_map_of(), old_list[j].name@);
                        assert(before.commit_lookup(cs[offset + j].0) is Some);
                    }
                }
                assert forall|j: int| 0 <= j < list@.len() && last_of_name(list@, j) implies self.root_lookup((#[trigger] list@[j]).name@) == Some(cs[offset + j].0) by {
                    if j < old_list.len() {
                        assert(list@[j] == old_list[j]);
                        assert(list@[list@.len() - 1].name@ != list@[j].name@);
                        assert forall|k: int| j < k < old_list.len() implies (#[trigger] old_list[k]).name@ != old_list[j].name@ by {
                            assert(list@[k] == old_list[k]);
                        }
                        assert(last_of_name(old_list, j));
                        assert(before.root_lookup(old_list[j].name@) == before_map.root_lookup(old_list[j].name@));
                    }
                }
            }
            i = i + 1;
        }
        Ok(list)
    }
}

} // verus!
