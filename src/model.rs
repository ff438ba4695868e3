use vstd::prelude::*;

verus! {

/// A SHA-256 digest, the identity of every stored object.
#[derive(Clone, Copy, Debug, PartialEq, Eq, Hash)]
pub struct GittyHash {
    pub sha256: [u8; 32],
}

impl View for GittyHash {
    type V = Seq<u8>;

    open spec fn view(&self) -> Seq<u8> {
        self.sha256@
    }
}

/// The hash whose bytes are `s` (when `s` has 32 bytes).
pub open spec fn hash_from(s: Seq<u8>) -> GittyHash {
    GittyHash { sha256: choose|a: [u8; 32]| a@ == s }
}

/// A hash is determined by its bytes.
pub proof fn lemma_hash_from(h: GittyHash)
    ensures
        hash_from(h@) == h,
{
    broadcast use vstd::array::group_array_axioms;

    let a = choose|a: [u8; 32]| a@ == h@;
    assert(a@ == h.sha256@);
    assert forall|i: int| 0 <= i < 32 implies a[i] == h.sha256[i] by {
        assert(a@[i] == h.sha256@[i]);
    }
    assert(a =~= h.sha256);
}

/// Reference to a stored tree.
#[derive(Clone, Copy, Debug, PartialEq, Eq, Hash)]
pub struct GittyTreeRef {
    pub hash: GittyHash,
}

/// Reference to a stored blob.
#[derive(Clone, Copy, Debug, PartialEq, Eq, Hash)]
pub struct GittyBlobRef {
    pub hash: GittyHash,
}

/// Reference to a stored commit.
#[derive(Clone, Copy, Debug, PartialEq, Eq, Hash)]
pub struct GittyCommitRef {
    pub hash: GittyHash,
}

/// The three families of stored objects; each has its own directory.
#[derive(Clone, Copy, Debug, PartialEq, Eq, Hash)]
pub enum ObjectKind {
    Blob,
    Tree,
    Commit,
}

/// A reference to any stored object.
#[derive(Clone, Copy, Debug, PartialEq, Eq, Hash)]
pub enum OwnedGittyObjectRef {
    Tree(GittyTreeRef),
    Blob(GittyBlobRef),
    Commit(GittyCommitRef),
}

impl OwnedGittyObjectRef {
    pub open spec fn kind_of(self) -> ObjectKind {
        match self {
            OwnedGittyObjectRef::Tree(_) => ObjectKind::Tree,
            OwnedGittyObjectRef::Blob(_) => ObjectKind::Blob,
            OwnedGittyObjectRef::Commit(_) => ObjectKind::Commit,
        }
    }

    pub open spec fn hash_of(self) -> GittyHash {
        match self {
            OwnedGittyObjectRef::Tree(t) => t.hash,
            OwnedGittyObjectRef::Blob(b) => b.hash,
            OwnedGittyObjectRef::Commit(c) => c.hash,
        }
    }

    /// The kind of object referred to.
    pub fn kind(&self) -> (r: ObjectKind)
        ensures
            r == self.kind_of(),
    {
        match self {
            OwnedGittyObjectRef::Tree(_) => ObjectKind::Tree,
            OwnedGittyObjectRef::Blob(_) => ObjectKind::Blob,
            OwnedGittyObjectRef::Commit(_) => ObjectKind::Commit,
        }
    }

    /// The hash of the object referred to.
    pub fn hash(&self) -> (r: GittyHash)
        ensures
            r == self.hash_of(),
    {
        match self {
            OwnedGittyObjectRef::Tree(t) => t.hash,
            OwnedGittyObjectRef::Blob(b) => b.hash,
            OwnedGittyObjectRef::Commit(c) => c.hash,
        }
    }
}

/// Largest magnitude of a timestamp, in seconds from the epoch, that the
/// store records (about 250 000 years either way).
pub const MAX_TIMESTAMP_SECS: i64 = 8_000_000_000_000;

/// An instant in UTC: seconds since the epoch and the sub-second nanoseconds.
#[derive(Clone, Copy, Debug, PartialEq, Eq, Hash)]
pub struct UtcTime {
    pub secs: i64,
    pub nanos: u32,
}

/// An instant with the fixed offset (seconds east of UTC) it was taken in.
#[derive(Clone, Copy, Debug, PartialEq, Eq, Hash)]
pub struct ZonedTime {
    pub secs: i64,
    pub nanos: u32,
    pub offset: i32,
}

pub open spec fn instant_in_range(secs: i64, nanos: u32, offset: i32) -> bool {
    &&& -MAX_TIMESTAMP_SECS <= secs <= MAX_TIMESTAMP_SECS
    &&& nanos < 1_000_000_000
    &&& -86_400 < offset < 86_400
}

impl UtcTime {
    pub open spec fn wf(self) -> bool {
        instant_in_range(self.secs, self.nanos, 0)
    }

    /// The instant, or `None` when it lies outside the recorded range.
    pub fn new(secs: i64, nanos: u32) -> (r: Option<UtcTime>)
        ensures
            r is Some <==> instant_in_range(secs, nanos, 0),
            r matches Some(t) ==> t.secs == secs && t.nanos == nanos && t.wf(),
    {
        if -MAX_TIMESTAMP_SECS <= secs && secs <= MAX_TIMESTAMP_SECS && nanos < 1_000_000_000 {
            Some(UtcTime { secs, nanos })
        } else {
            None
        }
    }
}

impl ZonedTime {
    pub open spec fn wf(self) -> bool {
        instant_in_range(self.secs, self.nanos, self.offset)
    }

    /// The instant, or `None` when it or the offset lies outside the recorded range.
    pub fn new(secs: i64, nanos: u32, offset: i32) -> (r: Option<ZonedTime>)
        ensures
            r is Some <==> instant_in_range(secs, nanos, offset),
            r matches Some(t) ==> t.secs == secs && t.nanos == nanos && t.offset == offset
                && t.wf(),
    {
        if -MAX_TIMESTAMP_SECS <= secs && secs <= MAX_TIMESTAMP_SECS && nanos < 1_000_000_000
            && -86_400 < offset && offset < 86_400 {
            Some(ZonedTime { secs, nanos, offset })
        } else {
            None
        }
    }

    /// The same instant in UTC.
    pub fn to_utc(&self) -> (r: UtcTime)
        requires
            self.wf(),
        ensures
            r.secs == self.secs,
            r.nanos == self.nanos,
            r.wf(),
    {
        UtcTime { secs: self.secs, nanos: self.nanos }
    }

    /// The instant truncated to whole seconds.
    pub fn whole_seconds(&self) -> (r: ZonedTime)
        requires
            self.wf(),
        ensures
            r.secs == self.secs,
            r.nanos == 0,
            r.offset == self.offset,
            r.wf(),
    {
        ZonedTime { secs: self.secs, nanos: 0, offset: self.offset }
    }
}

/// Ownership and mode bits recorded for an entry.
#[derive(Clone, Debug)]
pub struct Permissions {
    pub kind: String,
    pub mode: u32,
    pub uid: u32,
    pub gid: u32,
}

impl Permissions {
    /// Unix permissions with the given mode, owner and group.
    pub fn new(mode: u32, uid: u32, gid: u32) -> (r: Permissions)
        ensures
            r.kind@ == "unix"@,
            r.mode == mode,
            r.uid == uid,
            r.gid == gid,
    {
        Permissions { kind: String::from_str("unix"), mode, uid, gid }
    }

    /// A field-by-field copy.
    pub fn copy(&self) -> (r: Permissions)
        ensures
            r == *self,
    {
        Permissions { kind: self.kind.clone(), mode: self.mode, uid: self.uid, gid: self.gid }
    }
}

/// A directory entry of a tree.
#[derive(Clone, Debug)]
pub struct GittyTreeMetadata {
    pub name: String,
    pub modified: UtcTime,
    pub permissions: Permissions,
    pub hash: GittyHash,
}

/// A file (or symlink) entry of a tree.
#[derive(Clone, Debug)]
pub struct GittyBlobMetadata {
    pub name: String,
    pub modified: UtcTime,
    pub permissions: Permissions,
    pub size: u64,
    pub is_symlink: bool,
    pub hash: GittyHash,
}

/// One named child of a tree.
#[derive(Clone, Debug)]
pub enum GittyTreeEntry {
    Tree(GittyTreeMetadata),
    Blob(GittyBlobMetadata),
}

impl GittyTreeEntry {
    pub open spec fn name_of(self) -> Seq<char> {
        match self {
            GittyTreeEntry::Tree(t) => t.name@,
            GittyTreeEntry::Blob(b) => b.name@,
        }
    }

    pub open spec fn modified_of(self) -> UtcTime {
        match self {
            GittyTreeEntry::Tree(t) => t.modified,
            GittyTreeEntry::Blob(b) => b.modified,
        }
    }

    pub open spec fn wf(self) -> bool {
        self.modified_of().wf()
    }

    /// The object this entry names, as a reference of the right kind.
    pub open spec fn target_of(self) -> OwnedGittyObjectRef {
        match self {
            GittyTreeEntry::Tree(t) => OwnedGittyObjectRef::Tree(GittyTreeRef { hash: t.hash }),
            GittyTreeEntry::Blob(b) => OwnedGittyObjectRef::Blob(GittyBlobRef { hash: b.hash }),
        }
    }

    /// The entry's name.
    pub fn name(&self) -> (r: &String)
        ensures
            r@ == self.name_of(),
    {
        match self {
            GittyTreeEntry::Tree(t) => &t.name,
            GittyTreeEntry::Blob(b) => &b.name,
        }
    }

    /// The object this entry names.
    pub fn target(&self) -> (r: OwnedGittyObjectRef)
        ensures
            r == self.target_of(),
    {
        match self {
            GittyTreeEntry::Tree(t) => OwnedGittyObjectRef::Tree(GittyTreeRef { hash: t.hash }),
            GittyTreeEntry::Blob(b) => OwnedGittyObjectRef::Blob(GittyBlobRef { hash: b.hash }),
        }
    }

    /// A field-by-field copy.
    pub fn copy(&self) -> (r: GittyTreeEntry)
        ensures
            r == *self,
    {
        match self {
            GittyTreeEntry::Tree(t) => GittyTreeEntry::Tree(
                GittyTreeMetadata {
                    name: t.name.clone(),
                    modified: t.modified,
                    permissions: t.permissions.copy(),
                    hash: t.hash,
                },
            ),
            GittyTreeEntry::Blob(b) => GittyTreeEntry::Blob(
                GittyBlobMetadata {
                    name: b.name.clone(),
                    modified: b.modified,
                    permissions: b.permissions.copy(),
                    size: b.size,
                    is_symlink: b.is_symlink,
                    hash: b.hash,
                },
            ),
        }
    }
}

/// An ordered list of named children.
#[derive(Clone, Debug)]
pub struct GittyTree {
    pub entries: Vec<GittyTreeEntry>,
}

impl GittyTree {
    pub open spec fn wf(self) -> bool {
        forall|i: int| 0 <= i < self.entries@.len() ==> #[trigger] self.entries@[i].wf()
    }

    /// A copy of the tree, entry by entry.
    pub fn copy(&self) -> (r: GittyTree)
        ensures
            r.entries@ == self.entries@,
    {
        let mut entries: Vec<GittyTreeEntry> = Vec::new();
        let mut i: usize = 0;
        while i < self.entries.len()
            invariant
                i <= self.entries@.len(),
                entries@ == self.entries@.subrange(0, i as int),
            decreases self.entries@.len() - i,
        {
            entries.push(self.entries[i].copy());
            i = i + 1;
        }
        assert(entries@ =~= self.entries@);
        GittyTree { entries }
    }
}

/// Name and e-mail address of an author or committer.
#[derive(Clone, Debug)]
pub struct GittyAuthor {
    pub name: String,
    pub email: String,
}

impl GittyAuthor {
    /// A field-by-field copy.
    pub fn copy(&self) -> (r: GittyAuthor)
        ensures
            r == *self,
    {
        GittyAuthor { name: self.name.clone(), email: self.email.clone() }
    }
}

/// A snapshot: the root tree plus its place in the linear history.
#[derive(Clone, Debug)]
pub struct GittyCommit {
    pub author: GittyAuthor,
    pub committer: GittyAuthor,
    pub author_time: ZonedTime,
    pub commit_time: ZonedTime,
    pub message: String,
    pub depth: u64,
    pub parents: Vec<GittyHash>,
    pub root: GittyHash,
}

impl GittyCommit {
    pub open spec fn wf(self) -> bool {
        self.author_time.wf() && self.commit_time.wf()
    }

    /// A field-by-field copy.
    pub fn copy(&self) -> (r: GittyCommit)
        ensures
            r.author == self.author,
            r.committer == self.committer,
            r.author_time == self.author_time,
            r.commit_time == self.commit_time,
            r.message == self.message,
            r.depth == self.depth,
            r.parents@ == self.parents@,
            r.root == self.root,
    {
        let mut parents: Vec<GittyHash> = Vec::new();
        let mut i: usize = 0;
        while i < self.parents.len()
            invariant
                i <= self.parents@.len(),
                parents@ == self.parents@.subrange(0, i as int),
            decreases self.parents@.len() - i,
        {
            parents.push(self.parents[i]);
            i = i + 1;
        }
        assert(parents@ =~= self.parents@);
        GittyCommit {
            author: self.author.copy(),
            committer: self.committer.copy(),
            author_time: self.author_time,
            commit_time: self.commit_time,
            message: self.message.clone(),
            depth: self.depth,
            parents,
            root: self.root,
        }
    }
}

/// The kinds of failure the library reports.
#[derive(Clone, Copy, Debug, PartialEq, Eq, Hash)]
pub enum ErrorKind {
    NotFound,
    IsDirectory,
    InvalidArgument,
    Io,
    Integrity,
    Config,
    /// The directory walk surfaced entries in an order the snapshot cannot follow.
    WalkOrder,
}

/// An error with its kind and a contextual prefix.
#[derive(Clone, Debug)]
pub struct GittyError {
    pub kind: ErrorKind,
    pub prefix: String,
    pub message: String,
}

impl GittyError {
    pub fn new(kind: ErrorKind, prefix: String, message: String) -> (r: GittyError)
        ensures
            r.kind == kind,
            r.prefix == prefix,
            r.message == message,
    {
        GittyError { kind, prefix, message }
    }

    /// `prefix: message`, the text shown to a user.
    pub fn describe(&self) -> (r: String)
        ensures
            r@ == self.prefix@ + ": "@ + self.message@,
    {
        let mut r = self.prefix.clone();
        r.append(": ");
        r.append(self.message.as_str());
        r
    }
}

} // verus!
