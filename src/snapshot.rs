//! Turning a directory walk into a tree graph. The walk surfaces each entry
//! after its parent directory, siblings in order; a stack of open
//! directories collects entries, and a directory's tree is stored when the
//! walk leaves it, so trees are stored bottom-up.
use vstd::prelude::*;
use crate::database::{object_path_of, tree_hash_of, FSDatabase, ObjectWrite};
use crate::model::{
    hash_from, lemma_hash_from, ErrorKind, GittyBlobMetadata, GittyBlobRef, GittyError,
    GittyTree, GittyTreeEntry, GittyTreeMetadata, GittyTreeRef, ObjectKind, Permissions, UtcTime,
};
use crate::serial::tree_json;
use core::cmp::Ordering;
use vstd::utf8::encode_utf8;

verus! {

/// What a walked entry is.
#[derive(Clone, Copy, Debug, PartialEq, Eq, Hash)]
pub enum WalkEntryKind {
    Directory,
    File,
    Symlink,
}

/// One entry surfaced by the directory walk. `path` runs from the name of the
/// snapshot's root directory down to the entry itself; `size` and `blob`
/// (the stored contents) matter for files and symlinks only.
#[derive(Clone, Debug)]
pub struct WalkEntry {
    pub path: Vec<String>,
    pub kind: WalkEntryKind,
    pub modified: UtcTime,
    pub permissions: Permissions,
    pub size: u64,
    pub blob: GittyBlobRef,
}

impl WalkEntry {
    pub open spec fn wf(self) -> bool {
        self.modified.wf()
    }
}

/// An open directory: its own metadata and the entries gathered so far.
pub struct FrameModel {
    pub name: String,
    pub modified: UtcTime,
    pub permissions: Permissions,
    pub entries: Seq<GittyTreeEntry>,
}

/// The open directories, outermost first, and the trees stored so far.
pub struct WalkState {
    pub frames: Seq<FrameModel>,
    pub trees: Seq<Seq<GittyTreeEntry>>,
}

/// The entry that names the tree of a closed directory.
pub open spec fn closed_entry(f: FrameModel) -> GittyTreeEntry {
    GittyTreeEntry::Tree(
        GittyTreeMetadata {
            name: f.name,
            modified: f.modified,
            permissions: f.permissions,
            hash: hash_from(tree_hash_of(f.entries)),
        },
    )
}

pub open spec fn add_to_top(frames: Seq<FrameModel>, e: GittyTreeEntry) -> Seq<FrameModel> {
    let p = frames.last();
    frames.update(
        frames.len() - 1,
        FrameModel {
            name: p.name,
            modified: p.modified,
            permissions: p.permissions,
            entries: p.entries.push(e),
        },
    )
}

/// Stores the innermost directory and records it in its parent.
pub open spec fn close_top(s: WalkState) -> WalkState {
    let top = s.frames.last();
    WalkState {
        frames: add_to_top(s.frames.drop_last(), closed_entry(top)),
        trees: s.trees.push(top.entries),
    }
}

/// Closes directories until `i` remain open (never the outermost).
pub open spec fn ascend_to(s: WalkState, i: nat) -> WalkState
    decreases s.frames.len(),
{
    if 1 <= i && i < s.frames.len() {
        ascend_to(close_top(s), i)
    } else {
        s
    }
}

/// How many open directories, from the outermost, match the start of `path`.
pub open spec fn common_len(frames: Seq<FrameModel>, path: Seq<String>, i: nat) -> nat
    decreases frames.len() - i,
{
    if i >= frames.len() {
        frames.len()
    } else if i >= path.len() || frames[i as int].name@ != path[i as int]@ {
        i
    } else {
        common_len(frames, path, i + 1)
    }
}

pub open spec fn blob_entry(e: WalkEntry) -> GittyTreeEntry {
    GittyTreeEntry::Blob(
        GittyBlobMetadata {
            name: e.path@.last(),
            modified: e.modified,
            permissions: e.permissions,
            size: e.size,
            is_symlink: e.kind == WalkEntryKind::Symlink,
            hash: e.blob.hash,
        },
    )
}

/// One walk event: leave the directories the entry is not in, then open it
/// (a directory) or record it (a file or symlink). `None` when the entry
/// does not sit directly inside the innermost remaining directory.
pub open spec fn walk_step(s: WalkState, e: WalkEntry) -> Option<WalkState> {
    let i = common_len(s.frames, e.path@, 0);
    if i == 0 && s.frames.len() > 0 {
        None
    } else {
        let s1 = ascend_to(s, i);
        if e.path@.len() != s1.frames.len() + 1 {
            None
        } else if e.kind == WalkEntryKind::Directory {
            Some(
                WalkState {
                    frames: s1.frames.push(
                        FrameModel {
                            name: e.path@.last(),
                            modified: e.modified,
                            permissions: e.permissions,
                            entries: Seq::empty(),
                        },
                    ),
                    trees: s1.trees,
                },
            )
        } else if s1.frames.len() == 0 {
            None
        } else {
            Some(WalkState { frames: add_to_top(s1.frames, blob_entry(e)), trees: s1.trees })
        }
    }
}

pub open spec fn walk_run(events: Seq<WalkEntry>) -> Option<WalkState>
    decreases events.len(),
{
    if events.len() == 0 {
        Some(WalkState { frames: Seq::empty(), trees: Seq::empty() })
    } else {
        match walk_run(events.drop_last()) {
            None => None,
            Some(s) => walk_step(s, events.last()),
        }
    }
}

/// The state once the walk is over and every directory but the root is
/// closed; `None` when the walk went wrong or surfaced nothing.
pub open spec fn walk_finished(events: Seq<WalkEntry>) -> Option<WalkState> {
    match walk_run(events) {
        None => None,
        Some(s) => if s.frames.len() == 0 {
            None
        } else {
            Some(ascend_to(s, 1))
        },
    }
}

/// `ws` are the writes that store `trees`, in order.
pub open spec fn writes_for(db: FSDatabase, ws: Seq<ObjectWrite>, trees: Seq<Seq<GittyTreeEntry>>) -> bool {
    &&& ws.len() == trees.len()
    &&& forall|j: int|
        0 <= j < ws.len() ==> {
            &&& (#[trigger] ws[j]).contents@ == tree_json(trees[j])
            &&& ws[j].path@ == object_path_of(
                db.root_of(),
                db.prefix_of(),
                ObjectKind::Tree,
                tree_hash_of(trees[j]),
            )
        }
}

pub open spec fn entries_wf(es: Seq<GittyTreeEntry>) -> bool {
    forall|k: int| 0 <= k < es.len() ==> (#[trigger] es[k]).wf()
}

pub open spec fn frames_wf(fs: Seq<FrameModel>) -> bool {
    forall|j: int| 0 <= j < fs.len() ==> (#[trigger] fs[j]).modified.wf() && entries_wf(fs[j].entries)
}

struct StackPart {
    name: String,
    modified: UtcTime,
    permissions: Permissions,
    entries: Vec<GittyTreeEntry>,
}

impl StackPart {
    spec fn model(self) -> FrameModel {
        FrameModel {
            name: self.name,
            modified: self.modified,
            permissions: self.permissions,
            entries: self.entries@,
        }
    }
}

spec fn stack_model(parts: Seq<StackPart>) -> Seq<FrameModel> {
    Seq::new(parts.len(), |j: int| parts[j].model())
}

/// Stores the tree of a closed directory; returns the entry naming it and the write.
fn create_tree_entry(db: &FSDatabase, part: StackPart) -> (r: (GittyTreeMetadata, ObjectWrite))
    requires
        db.wf(),
        part.modified.wf(),
        entries_wf(part.entries@),
    ensures
        GittyTreeEntry::Tree(r.0) == closed_entry(part.model()),
        r.0.hash@ == tree_hash_of(part.entries@),
        r.1.contents@ == tree_json(part.entries@),
        r.1.path@ == object_path_of(
            db.root_of(),
            db.prefix_of(),
            ObjectKind::Tree,
            tree_hash_of(part.entries@),
        ),
{
    let StackPart { name, modified, permissions, entries } = part;
    let tree = GittyTree { entries };
    let (tree_ref, write) = db.store_tree(&tree);
    proof {
        lemma_hash_from(tree_ref.hash);
    }
    (GittyTreeMetadata { name, modified, permissions, hash: tree_ref.hash }, write)
}

struct PathStack {
    parts: Vec<StackPart>,
    writes: Vec<ObjectWrite>,
    trees: Ghost<Seq<Seq<GittyTreeEntry>>>,
}

impl PathStack {
    spec fn model(self) -> WalkState {
        WalkState { frames: stack_model(self.parts@), trees: self.trees@ }
    }

    spec fn inv(self, db: FSDatabase) -> bool {
        &&& writes_for(db, self.writes@, self.trees@)
        &&& frames_wf(self.model().frames)
    }

    /// Adds an entry to the innermost open directory.
    fn push_to_top(&mut self, e: GittyTreeEntry)
        requires
            old(self).parts@.len() > 0,
            e.wf(),
            frames_wf(old(self).model().frames),
        ensures
            final(self).model().frames == add_to_top(old(self).model().frames, e),
            final(self).model().trees == old(self).model().trees,
            final(self).writes@ == old(self).writes@,
            frames_wf(final(self).model().frames),
    {
        let ghost before = self.model().frames;
        let mut top = self.parts.pop().unwrap();
        top.entries.push(e);
        self.parts.push(top);
        assert(self.model().frames =~= add_to_top(before, e));
        assert(entries_wf(self.model().frames.last().entries)) by {
            assert(before.last().entries.push(e) == self.model().frames.last().entries);
            assert(entries_wf(before.last().entries));
        }
        assert forall|j: int| 0 <= j < self.model().frames.len() implies (#[trigger] self.model().frames[j]).modified.wf()
            && entries_wf(self.model().frames[j].entries) by {
            if j < before.len() - 1 {
                assert(self.model().frames[j] == before[j]);
            }
        }
    }

    /// Closes directories until `i` remain open.
    fn ascend_path_stack(&mut self, db: &FSDatabase, i: usize)
        requires
            db.wf(),
            1 <= i,
            old(self).inv(*db),
        ensures
            final(self).inv(*db),
            final(self).model() == ascend_to(old(self).model(), i as nat),
    {
        while self.parts.len() > i
            invariant
                db.wf(),
                1 <= i,
                self.inv(*db),
                ascend_to(self.model(), i as nat) == ascend_to(old(self).model(), i as nat),
            decreases self.parts@.len(),
        {
            let ghost before = self.model();
            let part = self.parts.pop().unwrap();
            let ghost pm = part.model();
            assert(pm == before.frames.last());
            let (meta, write) = create_tree_entry(db, part);
            self.writes.push(write);
            self.trees = Ghost(self.trees@.push(pm.entries));
            assert(self.model().frames =~= before.frames.drop_last());
            self.push_to_top(GittyTreeEntry::Tree(meta));
            assert(self.model().frames =~= close_top(before).frames);
            assert(self.model() == close_top(before));
            assert(writes_for(*db, self.writes@, self.trees@)) by {
                assert forall|j: int| 0 <= j < self.writes@.len() implies {
                    &&& (#[trigger] self.writes@[j]).contents@ == tree_json(self.trees@[j])
                    &&& self.writes@[j].path@ == object_path_of(
                        db.root_of(),
                        db.prefix_of(),
                        ObjectKind::Tree,
                        tree_hash_of(self.trees@[j]),
                    )
                } by {
                    if j < before.trees.len() {
                        assert(self.trees@[j] == before.trees[j]);
                    }
                }
            }
        }
    }

    /// Takes in one walked entry.
    fn dirent_to_gitty_tree_entry(&mut self, db: &FSDatabase, e: &WalkEntry) -> (r: Result<(), GittyError>)
        requires
            db.wf(),
            e.wf(),
            old(self).inv(*db),
        ensures
            match walk_step(old(self).model(), *e) {
                None => r is Err,
                Some(s) => r is Ok && final(self).model() == s && final(self).inv(*db),
            },
            r matches Err(err) ==> err.kind == ErrorKind::WalkOrder,
    {
        let ghost s0 = self.model();
        let mut i: usize = 0;
        while i < self.parts.len() && i < e.path.len() && self.parts[i].name == e.path[i]
            invariant
                i <= self.parts@.len(),
                self.model() == s0,
                common_len(s0.frames, e.path@, 0) == common_len(s0.frames, e.path@, i as nat),
            decreases self.parts@.len() - i,
        {
            i = i + 1;
        }
        if i == 0 && self.parts.len() > 0 {
            return Err(walk_error());
        }
        if i > 0 {
            self.ascend_path_stack(db, i);
        }
        if e.path.len() == 0 || e.path.len() - 1 != self.parts.len() {
            return Err(walk_error());
        }
        let name = e.path[e.path.len() - 1].clone();
        match e.kind {
            WalkEntryKind::Directory => {
                let ghost before = self.model().frames;
                let part = StackPart {
                    name,
                    modified: e.modified,
                    permissions: e.permissions.copy(),
                    entries: Vec::new(),
                };
                self.parts.push(part);
                assert(self.model().frames[before.len() as int].entries =~= Seq::<GittyTreeEntry>::empty());
                assert(self.model().frames =~= before.push(self.model().frames[before.len() as int]));
                assert forall|j: int| 0 <= j < self.model().frames.len() implies (#[trigger] self.model().frames[j]).modified.wf()
                    && entries_wf(self.model().frames[j].entries) by {
                    if j < before.len() {
                        assert(self.model().frames[j] == before[j]);
                    }
                }
                Ok(())
            },
            _ => {
                if self.parts.len() == 0 {
                    return Err(walk_error());
                }
                let entry = GittyTreeEntry::Blob(
                    GittyBlobMetadata {
                        name,
                        modified: e.modified,
                        permissions: e.permissions.copy(),
                        size: e.size,
                        is_symlink: matches!(e.kind, WalkEntryKind::Symlink),
                        hash: e.blob.hash,
                    },
                );
                self.push_to_top(entry);
                Ok(())
            },
        }
    }
}

proof fn lemma_ascend_len(s: WalkState, i: nat)
    requires
        1 <= i <= s.frames.len(),
    ensures
        ascend_to(s, i).frames.len() == i,
    decreases s.frames.len(),
{
    if i < s.frames.len() {
        lemma_ascend_len(close_top(s), i);
    }
}

proof fn lemma_run_fails_on(events: Seq<WalkEntry>, k: nat)
    requires
        k <= events.len(),
        walk_run(events.subrange(0, k as int)) is None,
    ensures
        walk_run(events) is None,
    decreases events.len() - k,
{
    if k < events.len() {
        let next = events.subrange(0, k + 1 as int);
        assert(next.drop_last() =~= events.subrange(0, k as int));
        lemma_run_fails_on(events, (k + 1) as nat);
    } else {
        assert(events.subrange(0, k as int) =~= events);
    }
}

/// Builds and stores the trees of a walked directory. Returns the root
/// tree and the writes of every tree, bottom-up, the root's last. Fails
/// when the walk surfaced nothing or an entry out of place.
pub fn recursive_write_tree_to_db(db: &FSDatabase, events: &Vec<WalkEntry>) -> (r: Result<
    (GittyTreeRef, Vec<ObjectWrite>),
    GittyError,
>)
    requires
        db.wf(),
        forall|k: int| 0 <= k < events@.len() ==> (#[trigger] events@[k]).wf(),
    ensures
        r is Ok <==> walk_finished(events@) is Some,
        r matches Ok((root, ws)) ==> {
            let s = walk_finished(events@)->0;
            &&& s.frames.len() == 1
            &&& root.hash@ == tree_hash_of(s.frames[0].entries)
            &&& writes_for(*db, ws@, s.trees.push(s.frames[0].entries))
        },
        r matches Err(e) ==> e.kind == ErrorKind::WalkOrder,
{
    let mut stack = PathStack { parts: Vec::new(), writes: Vec::new(), trees: Ghost(Seq::empty()) };
    assert(stack.model().frames =~= Seq::<FrameModel>::empty());
    let mut k: usize = 0;
    assert(events@.subrange(0, 0) =~= Seq::<WalkEntry>::empty());
    while k < events.len()
        invariant
            db.wf(),
            k <= events@.len(),
            forall|j: int| 0 <= j < events@.len() ==> (#[trigger] events@[j]).wf(),
            stack.inv(*db),
            walk_run(events@.subrange(0, k as int)) == Some(stack.model()),
        decreases events@.len() - k,
    {
        let ghost prefix = events@.subrange(0, k + 1);
        assert(prefix.drop_last() =~= events@.subrange(0, k as int));
        match stack.dirent_to_gitty_tree_entry(db, &events[k]) {
            Ok(()) => {},
            Err(e) => {
                proof {
                    lemma_run_fails_on(events@, (k + 1) as nat);
                }
                return Err(e);
            },
        }
        k = k + 1;
    }
    assert(events@.subrange(0, k as int) =~= events@);
    if stack.parts.len() == 0 {
        return Err(
            GittyError::new(
                ErrorKind::WalkOrder,
                String::from_str("error while walking"),
                String::from_str("the walk surfaced no root directory"),
            ),
        );
    }
    proof {
        lemma_ascend_len(stack.model(), 1);
    }
    stack.ascend_path_stack(db, 1);
    let ghost fin = stack.model();
    let root_part = stack.parts.pop().unwrap();
    assert(root_part.model() == fin.frames[0]);
    let (meta, write) = create_tree_entry(db, root_part);
    stack.writes.push(write);
    let ghost trees = fin.trees.push(fin.frames[0].entries);
    assert(writes_for(*db, stack.writes@, trees)) by {
        assert forall|j: int| 0 <= j < stack.writes@.len() implies {
            &&& (#[trigger] stack.writes@[j]).contents@ == tree_json(trees[j])
            &&& stack.writes@[j].path@ == object_path_of(
                db.root_of(),
                db.prefix_of(),
                ObjectKind::Tree,
                tree_hash_of(trees[j]),
            )
        } by {
            if j < fin.trees.len() {
                assert(trees[j] == fin.trees[j]);
            }
        }
    }
    Ok((GittyTreeRef { hash: meta.hash }, stack.writes))
}

fn walk_error() -> (r: GittyError)
    ensures
        r.kind == ErrorKind::WalkOrder,
{
    GittyError::new(
        ErrorKind::WalkOrder,
        String::from_str("error while walking"),
        String::from_str("entry does not lie directly inside the current directory"),
    )
}

/// Byte-wise lexicographic order of `a` and `b` from position `i` on.
pub open spec fn bytes_cmp_from(a: Seq<u8>, b: Seq<u8>, i: nat) -> Ordering
    decreases a.len() - i,
{
    if i >= a.len() {
        if i >= b.len() {
            Ordering::Equal
        } else {
            Ordering::Less
        }
    } else if i >= b.len() {
        Ordering::Greater
    } else if a[i as int] < b[i as int] {
        Ordering::Less
    } else if a[i as int] > b[i as int] {
        Ordering::Greater
    } else {
        bytes_cmp_from(a, b, i + 1)
    }
}

/// The order in which the walk surfaces siblings: directories first, then
/// by the raw bytes of the name.
pub fn walk_order(a_is_dir: bool, a_name: &str, b_is_dir: bool, b_name: &str) -> (r: Ordering)
    ensures
        r == if a_is_dir && !b_is_dir {
            Ordering::Less
        } else if !a_is_dir && b_is_dir {
            Ordering::Greater
        } else {
            bytes_cmp_from(encode_utf8(a_name@), encode_utf8(b_name@), 0)
        },
{
    if a_is_dir && !b_is_dir {
        return Ordering::Less;
    }
    if !a_is_dir && b_is_dir {
        return Ordering::Greater;
    }
    let a = a_name.as_bytes();
    let b = b_name.as_bytes();
    let mut i: usize = 0;
    while i < a.len() && i < b.len() && a[i] == b[i]
        invariant
            i <= a@.len(),
            i <= b@.len(),
            a@ == encode_utf8(a_name@),
            b@ == encode_utf8(b_name@),
            bytes_cmp_from(a@, b@, 0) == bytes_cmp_from(a@, b@, i as nat),
        decreases a@.len() - i,
    {
        i = i + 1;
    }
    if i >= a.len() {
        if i >= b.len() {
            Ordering::Equal
        } else {
            Ordering::Less
        }
    } else if i >= b.len() {
        Ordering::Greater
    } else if a[i] < b[i] {
        Ordering::Less
    } else {
        Ordering::Greater
    }
}

/// The hash of the root tree that a finished walk yields.
pub open spec fn snapshot_root(events: Seq<WalkEntry>) -> Seq<u8> {
    tree_hash_of(walk_finished(events)->0.frames[0].entries)
}

/// A walk of an empty directory (the root alone) yields the empty tree as
/// root, the same tree a new store's first commit points at.
pub proof fn lemma_empty_directory_snapshot(e: WalkEntry)
    requires
        e.kind == WalkEntryKind::Directory,
        e.path@.len() == 1,
    ensures
        walk_finished(seq![e]) is Some,
        walk_finished(seq![e])->0.frames.len() == 1,
        walk_finished(seq![e])->0.frames[0].entries == Seq::<GittyTreeEntry>::empty(),
        walk_finished(seq![e])->0.trees == Seq::<Seq<GittyTreeEntry>>::empty(),
        snapshot_root(seq![e]) == tree_hash_of(Seq::empty()),
{
    let events = seq![e];
    assert(events.drop_last() =~= Seq::<WalkEntry>::empty());
    let s0 = WalkState { frames: Seq::empty(), trees: Seq::empty() };
    assert(common_len(s0.frames, e.path@, 0) == 0);
    assert(ascend_to(s0, 0) == s0);
    assert(walk_run(events.drop_last()) == Some(s0));
    assert(events.last() == e);
    assert(walk_run(events) == walk_step(s0, e));
    let s1 = walk_run(events)->0;
    assert(s1.frames.len() == 1);
    assert(ascend_to(s1, 1) == s1);
}

/// Walking an unchanged directory again gives the same root tree, so the
/// next commit, made one deeper than the previous one, records the same root.
pub proof fn lemma_unchanged_walk_same_root(
    events: Seq<WalkEntry>,
    first: GittyTreeRef,
    second: GittyTreeRef,
    previous: crate::model::GittyCommit,
    next: crate::model::GittyCommit,
)
    requires
        walk_finished(events) is Some,
        first.hash@ == snapshot_root(events),
        second.hash@ == snapshot_root(events),
        previous.root == first.hash,
        next.root == second.hash,
        next.depth == previous.depth + 1,
    ensures
        next.root == previous.root,
        next.depth == previous.depth + 1,
{
    lemma_hash_from(first.hash);
    lemma_hash_from(second.hash);
}

} // verus!
