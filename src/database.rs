//! The on-disk layout of the object store. The store decides what is written
//! where; the caller performs the writes in the order they are handed out.
use vstd::prelude::*;
use crate::codec::{hex_encode, hex_text, lemma_hex_digit, lemma_hex_text, sha256_digest, sha256_of};
use crate::model::{
    ErrorKind, GittyAuthor, GittyBlobRef, GittyCommit, GittyCommitRef, GittyError, GittyTree,
    GittyTreeEntry, GittyTreeRef, ObjectKind, OwnedGittyObjectRef, ZonedTime,
};
use crate::serial::{commit_json, commit_ref_json, serialize_commit, serialize_commit_ref,
    serialize_tree, tree_json};
use vstd::utf8::encode_utf8;
use crate::commits::create_commit;

verus! {

/// Number of hash digits that name the sharding directory by default.
pub const DEFAULT_PREFIX_LENGTH: usize = 3;

/// Where a store lives and how its objects are sharded.
#[derive(Clone, Debug)]
pub struct FSDatabaseConfig {
    pub root: String,
    pub object_prefix_length: usize,
}

impl FSDatabaseConfig {
    pub open spec fn wf(self) -> bool {
        self.object_prefix_length <= 64
    }
}

/// A store rooted at a directory.
#[derive(Clone, Debug)]
pub struct FSDatabase {
    config: FSDatabaseConfig,
}

/// A file that the store asks to have written: its path and its contents.
#[derive(Clone, Debug)]
pub struct ObjectWrite {
    pub path: String,
    pub contents: String,
}

/// The directory under the root that holds objects of a kind.
pub open spec fn kind_dir(k: ObjectKind) -> Seq<char> {
    match k {
        ObjectKind::Blob => "file"@,
        ObjectKind::Tree => "tree"@,
        ObjectKind::Commit => "commit"@,
    }
}

/// `<root>/<kind>/<first p digits of the hash>/<remaining digits>`.
pub open spec fn object_path_of(root: Seq<char>, p: nat, k: ObjectKind, h: Seq<u8>) -> Seq<char> {
    root + "/"@ + kind_dir(k) + "/"@ + hex_text(h).subrange(0, p as int) + "/"@ + hex_text(
        h,
    ).subrange(p as int, hex_text(h).len() as int)
}

/// The hash of a tree with these entries: SHA-256 of its stored form.
pub open spec fn tree_hash_of(es: Seq<GittyTreeEntry>) -> Seq<u8> {
    sha256_of(encode_utf8(tree_json(es)))
}

/// The hash of a commit: SHA-256 of its stored form.
pub open spec fn commit_hash_of(c: GittyCommit) -> Seq<u8> {
    sha256_of(encode_utf8(commit_json(c)))
}

/// The path of an object names its hash: two hashes kept at the same path
/// are equal. Since a store writes an object's stored form at the path of
/// the SHA-256 of that form, what lies at a hash's path hashes to it.
pub proof fn lemma_object_path_injective(root: Seq<char>, p: nat, k: ObjectKind, h1: Seq<u8>, h2: Seq<u8>)
    requires
        p <= 64,
        h1.len() == 32,
        h2.len() == 32,
        object_path_of(root, p, k, h1) == object_path_of(root, p, k, h2),
    ensures
        h1 == h2,
{
    reveal_strlit("/");
    lemma_hex_text(h1);
    lemma_hex_text(h2);
    let t1 = hex_text(h1);
    let t2 = hex_text(h2);
    let a = root + "/"@ + kind_dir(k) + "/"@;
    let x1 = object_path_of(root, p, k, h1);
    let x2 = object_path_of(root, p, k, h2);
    assert(x1 =~= a + t1.subrange(0, p as int) + "/"@ + t1.subrange(p as int, 64));
    assert(x2 =~= a + t2.subrange(0, p as int) + "/"@ + t2.subrange(p as int, 64));
    assert forall|j: int| 0 <= j < 64 implies t1[j] == t2[j] by {
        if j < p {
            assert(x1[a.len() + j] == t1[j]);
            assert(x2[a.len() + j] == t2[j]);
        } else {
            assert(x1[a.len() + j + 1] == t1[j]);
            assert(x2[a.len() + j + 1] == t2[j]);
        }
    }
    assert forall|i: int| 0 <= i < 32 implies h1[i] == h2[i] by {
        lemma_hex_digit(h1[i] as int / 16);
        lemma_hex_digit(h1[i] as int % 16);
        lemma_hex_digit(h2[i] as int / 16);
        lemma_hex_digit(h2[i] as int % 16);
        assert(t1[2 * i] == t2[2 * i]);
        assert(t1[2 * i + 1] == t2[2 * i + 1]);
        assert(h1[i] as int == (h1[i] as int / 16) * 16 + h1[i] as int % 16);
        assert(h2[i] as int == (h2[i] as int / 16) * 16 + h2[i] as int % 16);
    }
    assert(h1 =~= h2);
}

impl FSDatabase {
    pub closed spec fn root_of(self) -> Seq<char> {
        self.config.root@
    }

    pub closed spec fn prefix_of(self) -> nat {
        self.config.object_prefix_length as nat
    }

    pub open spec fn wf(self) -> bool {
        self.prefix_of() <= 64
    }

    /// A store with this configuration; nothing is read or written.
    pub fn new(config: FSDatabaseConfig) -> (r: FSDatabase)
        requires
            config.wf(),
        ensures
            r.root_of() == config.root@,
            r.prefix_of() == config.object_prefix_length,
            r.wf(),
    {
        FSDatabase { config }
    }

    /// The store's configuration.
    pub fn config(&self) -> (r: &FSDatabaseConfig)
        ensures
            r.root@ == self.root_of(),
            r.object_prefix_length == self.prefix_of(),
    {
        &self.config
    }

    /// Path of the file that holds the head reference.
    pub fn head_path(&self) -> (r: String)
        ensures
            r@ == self.root_of() + "/HEAD"@,
    {
        let mut p = self.config.root.clone();
        p.append("/HEAD");
        p
    }

    /// Path at which an object is kept.
    pub fn object_path(&self, object_ref: &OwnedGittyObjectRef) -> (r: String)
        requires
            self.wf(),
        ensures
            r@ == object_path_of(
                self.root_of(),
                self.prefix_of(),
                object_ref.kind_of(),
                object_ref.hash_of()@,
            ),
    {
        let hash = object_ref.hash();
        let mut p = self.config.root.clone();
        p.append("/");
        match object_ref.kind() {
            ObjectKind::Blob => p.append("file"),
            ObjectKind::Tree => p.append("tree"),
            ObjectKind::Commit => p.append("commit"),
        }
        p.append("/");
        let digits = hex_encode(hash.sha256.as_slice());
        proof {
            crate::codec::lemma_hex_text(hash@);
        }
        let n = self.config.object_prefix_length;
        p.append(digits.as_str().substring_char(0, n));
        p.append("/");
        p.append(digits.as_str().substring_char(n, 64));
        let ghost k = object_ref.kind_of();
        assert(p@ =~= object_path_of(self.root_of(), self.prefix_of(), k, hash@));
        p
    }

    /// Path of a blob, for the caller to open and read.
    pub fn load_blob(&self, blob_ref: &GittyBlobRef) -> (r: String)
        requires
            self.wf(),
        ensures
            r@ == object_path_of(self.root_of(), self.prefix_of(), ObjectKind::Blob, blob_ref.hash@),
    {
        self.object_path(&OwnedGittyObjectRef::Blob(*blob_ref))
    }

    /// Path of the scratch file that a blob is copied into before it is
    /// renamed to its place; `random` makes the name unique.
    pub fn temp_path(&self, random: &[u8; 32]) -> (r: String)
        ensures
            r@ == self.root_of() + "/temp/temp-"@ + hex_text(random@),
    {
        let mut p = self.config.root.clone();
        p.append("/temp/temp-");
        let digits = hex_encode(random.as_slice());
        p.append(digits.as_str());
        p
    }

    /// Stores a symlink as a blob holding its target path: hashes the
    /// target's UTF-8 bytes and says where the blob goes.
    pub fn store_symlink(&self, target: &str) -> (r: (GittyBlobRef, ObjectWrite))
        requires
            self.wf(),
        ensures
            r.0.hash@ == sha256_of(encode_utf8(target@)),
            r.1.contents@ == target@,
            r.1.path@ == object_path_of(self.root_of(), self.prefix_of(), ObjectKind::Blob, r.0.hash@),
    {
        let hash = sha256_digest(target.as_bytes());
        let blob_ref = GittyBlobRef { hash };
        let path = self.load_blob(&blob_ref);
        (blob_ref, ObjectWrite { path, contents: target.to_string() })
    }

    /// Hashes a tree and says where its stored form goes.
    pub fn store_tree(&self, tree: &GittyTree) -> (r: (GittyTreeRef, ObjectWrite))
        requires
            self.wf(),
            tree.wf(),
        ensures
            r.0.hash@ == tree_hash_of(tree.entries@),
            r.1.contents@ == tree_json(tree.entries@),
            r.1.path@ == object_path_of(
                self.root_of(),
                self.prefix_of(),
                ObjectKind::Tree,
                r.0.hash@,
            ),
    {
        let serialized = serialize_tree(tree);
        let hash = sha256_digest(serialized.as_str().as_bytes());
        let tree_ref = GittyTreeRef { hash };
        let path = self.object_path(&OwnedGittyObjectRef::Tree(tree_ref));
        (tree_ref, ObjectWrite { path, contents: serialized })
    }

    /// Hashes a commit and says where its stored form goes.
    pub fn store_commit(&self, commit: &GittyCommit) -> (r: (GittyCommitRef, ObjectWrite))
        requires
            self.wf(),
            commit.wf(),
        ensures
            r.0.hash@ == commit_hash_of(*commit),
            r.1.contents@ == commit_json(*commit),
            r.1.path@ == object_path_of(
                self.root_of(),
                self.prefix_of(),
                ObjectKind::Commit,
                r.0.hash@,
            ),
    {
        let serialized = serialize_commit(commit);
        let hash = sha256_digest(serialized.as_str().as_bytes());
        let commit_ref = GittyCommitRef { hash };
        let path = self.object_path(&OwnedGittyObjectRef::Commit(commit_ref));
        (commit_ref, ObjectWrite { path, contents: serialized })
    }

    /// The write that moves the head to `commit_ref`.
    pub fn update_head_commit(&self, commit_ref: &GittyCommitRef) -> (r: ObjectWrite)
        ensures
            r.path@ == self.root_of() + "/HEAD"@,
            r.contents@ == commit_ref_json(*commit_ref),
    {
        ObjectWrite { path: self.head_path(), contents: serialize_commit_ref(commit_ref) }
    }
}

/// What a store holds when it is made: the empty tree, the depth-0 root
/// commit of it, and `HEAD` naming that commit, written in that order.
pub open spec fn initial_writes(db: FSDatabase, ws: Seq<ObjectWrite>, author: GittyAuthor, time: ZonedTime) -> bool {
    &&& ws.len() == 3
    &&& ws[0].contents@ == tree_json(Seq::empty())
    &&& ws[0].path@ == object_path_of(db.root_of(), db.prefix_of(), ObjectKind::Tree, tree_hash_of(Seq::empty()))
    &&& exists|c: GittyCommit, cref: GittyCommitRef| {
        &&& c.depth == 0
        &&& c.parents@.len() == 0
        &&& c.root@ == tree_hash_of(Seq::empty())
        &&& c.author == author
        &&& c.commit_time == time
        &&& cref.hash@ == commit_hash_of(c)
        &&& ws[1].contents@ == commit_json(c)
        &&& ws[1].path@ == object_path_of(db.root_of(), db.prefix_of(), ObjectKind::Commit, cref.hash@)
        &&& ws[2].contents@ == commit_ref_json(cref)
    }
    &&& ws[2].path@ == db.root_of() + "/HEAD"@
}

impl FSDatabase {
    /// The store at `config`, when its `HEAD` file exists.
    pub fn open(config: FSDatabaseConfig, head_exists: bool) -> (r: Option<FSDatabase>)
        requires
            config.wf(),
        ensures
            r is Some <==> head_exists,
            r matches Some(db) ==> db.root_of() == config.root@ && db.prefix_of()
                == config.object_prefix_length && db.wf(),
    {
        let db = FSDatabase { config };
        if head_exists {
            Some(db)
        } else {
            None
        }
    }

    /// A new store at `config`, which must not exist yet, and the writes that
    /// set it up.
    pub fn create(config: FSDatabaseConfig, root_exists: bool, author: GittyAuthor, time: ZonedTime) -> (r: Result<(FSDatabase, Vec<ObjectWrite>), GittyError>)
        requires
            config.wf(),
            time.wf(),
        ensures
            r is Ok <==> !root_exists,
            r matches Ok((db, ws)) ==> {
                &&& db.root_of() == config.root@
                &&& db.prefix_of() == config.object_prefix_length
                &&& db.wf()
                &&& initial_writes(db, ws@, author, time)
            },
            r matches Err(e) ==> e.kind == ErrorKind::Config,
    {
        if root_exists {
            let mut message = config.root.clone();
            message.append(" already exists");
            return Err(GittyError::new(ErrorKind::Config, String::from_str("Creation"), message));
        }
        let db = FSDatabase { config };
        let empty = GittyTree { entries: Vec::new() };
        let (empty_ref, tree_write) = db.store_tree(&empty);
        let first = create_commit(empty_ref, Vec::new(), 0, author, time);
        let (commit_ref, commit_write) = db.store_commit(&first);
        let head_write = db.update_head_commit(&commit_ref);
        let mut writes: Vec<ObjectWrite> = Vec::new();
        writes.push(tree_write);
        writes.push(commit_write);
        writes.push(head_write);
        assert(empty.entries@ =~= Seq::<GittyTreeEntry>::empty());
        assert(initial_writes(db, writes@, author, time));
        Ok((db, writes))
    }

    /// The store at `root` with the default sharding: opened when its `HEAD`
    /// exists, made when `root` does not exist, refused otherwise.
    pub fn create_or_open(root: String, head_exists: bool, root_exists: bool, author: GittyAuthor, time: ZonedTime) -> (r: Result<(FSDatabase, Vec<ObjectWrite>), GittyError>)
        requires
            time.wf(),
        ensures
            r is Ok <==> (head_exists || !root_exists),
            r matches Ok((db, ws)) ==> {
                &&& db.root_of() == root@
                &&& db.prefix_of() == DEFAULT_PREFIX_LENGTH
                &&& db.wf()
                &&& head_exists ==> ws@.len() == 0
                &&& !head_exists ==> initial_writes(db, ws@, author, time)
            },
            r matches Err(e) ==> e.kind == ErrorKind::Config,
    {
        let config = FSDatabaseConfig { root, object_prefix_length: DEFAULT_PREFIX_LENGTH };
        if head_exists {
            let db = FSDatabase { config };
            Ok((db, Vec::new()))
        } else {
            FSDatabase::create(config, root_exists, author, time)
        }
    }
}

} // verus!
