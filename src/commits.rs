//! Commits: making them, appending them to the history, and walking the
//! history back from a starting point.
use vstd::prelude::*;
use crate::database::{commit_hash_of, FSDatabase, ObjectWrite, object_path_of};
use crate::model::{
    ErrorKind, GittyAuthor, GittyCommit, GittyCommitRef, GittyError, GittyHash, GittyTreeRef,
    ObjectKind, ZonedTime,
};
use crate::serial::{commit_json, commit_ref_json};

verus! {

/// The message every automatic snapshot carries.
pub open spec fn commit_message() -> Seq<char> {
    "automatic commit"@
}

/// A commit of `root`, made by `author` at `time`, with these parents and depth.
pub fn create_commit(
    root: GittyTreeRef,
    parents: Vec<GittyHash>,
    depth: u64,
    author: GittyAuthor,
    time: ZonedTime,
) -> (r: GittyCommit)
    requires
        time.wf(),
    ensures
        r.author == author,
        r.committer == author,
        r.author_time == time,
        r.commit_time == time,
        r.message@ == commit_message(),
        r.depth == depth,
        r.parents@ == parents@,
        r.root == root.hash,
        r.wf(),
{
    GittyCommit {
        committer: author.copy(),
        author,
        parents,
        message: String::from_str("automatic commit"),
        depth,
        commit_time: time,
        author_time: time,
        root: root.hash,
    }
}

/// A commit of `root` whose single parent is `parent_ref` (whose stored
/// commit is `parent`), one deeper than it, and the write that stores it.
/// Fails when the parent is at the largest depth.
pub fn write_commit(
    db: &FSDatabase,
    root: GittyTreeRef,
    parent_ref: GittyCommitRef,
    parent: &GittyCommit,
    author: GittyAuthor,
    time: ZonedTime,
) -> (r: Result<(GittyCommitRef, GittyCommit, ObjectWrite), GittyError>)
    requires
        db.wf(),
        time.wf(),
    ensures
        r is Ok <==> parent.depth < u64::MAX,
        r matches Ok((cref, c, w)) ==> {
            &&& c.depth == parent.depth + 1
            &&& c.parents@ == seq![parent_ref.hash]
            &&& c.root == root.hash
            &&& c.author == author
            &&& c.commit_time == time
            &&& c.message@ == commit_message()
            &&& cref.hash@ == commit_hash_of(c)
            &&& w.contents@ == commit_json(c)
            &&& w.path@ == object_path_of(db.root_of(), db.prefix_of(), ObjectKind::Commit, cref.hash@)
        },
        r matches Err(e) ==> e.kind == ErrorKind::Integrity,
{
    if parent.depth == u64::MAX {
        return Err(
            GittyError::new(
                ErrorKind::Integrity,
                String::from_str("Commit"),
                String::from_str("history is too deep"),
            ),
        );
    }
    let mut parents: Vec<GittyHash> = Vec::new();
    parents.push(parent_ref.hash);
    assert(parents@ =~= seq![parent_ref.hash]);
    let commit = create_commit(root, parents, parent.depth + 1, author, time);
    let (commit_ref, write) = db.store_commit(&commit);
    Ok((commit_ref, commit, write))
}

/// Appends a commit of `root` to the history whose head is `head_ref` (with
/// stored commit `head`). Returns the new head and the writes, in order: the
/// commit object, then `HEAD`.
pub fn commit_current_state_to_head(
    db: &FSDatabase,
    root: GittyTreeRef,
    head_ref: GittyCommitRef,
    head: &GittyCommit,
    author: GittyAuthor,
    time: ZonedTime,
) -> (r: Result<(GittyCommitRef, Vec<ObjectWrite>), GittyError>)
    requires
        db.wf(),
        time.wf(),
    ensures
        r is Ok <==> head.depth < u64::MAX,
        r matches Ok((cref, ws)) ==> {
            &&& ws@.len() == 2
            &&& exists|c: GittyCommit| {
                &&& c.depth == head.depth + 1
                &&& c.parents@ == seq![head_ref.hash]
                &&& c.root == root.hash
                &&& c.author == author
                &&& c.commit_time == time
                &&& cref.hash@ == commit_hash_of(c)
                &&& ws@[0].contents@ == commit_json(c)
            }
            &&& ws@[0].path@ == object_path_of(
                db.root_of(),
                db.prefix_of(),
                ObjectKind::Commit,
                cref.hash@,
            )
            &&& ws@[1].path@ == db.root_of() + "/HEAD"@
            &&& ws@[1].contents@ == commit_ref_json(cref)
        },
        r matches Err(e) ==> e.kind == ErrorKind::Integrity,
{
    match write_commit(db, root, head_ref, head, author, time) {
        Ok((commit_ref, commit, write)) => {
            let mut writes: Vec<ObjectWrite> = Vec::new();
            writes.push(write);
            writes.push(db.update_head_commit(&commit_ref));
            assert(commit.depth == head.depth + 1);
            Ok((commit_ref, writes))
        },
        Err(e) => Err(e),
    }
}

/// Walks the history from a commit towards the root, newest first. The
/// caller loads the commit that `current` names and hands it to `next`.
#[derive(Clone, Debug)]
pub struct CommitWalker {
    current: GittyCommitRef,
    finished: bool,
}

/// A walker that starts at `start`.
pub fn walk_commits(start: GittyCommitRef) -> (r: CommitWalker)
    ensures
        r.current_of() == start,
        !r.finished_of(),
{
    CommitWalker { current: start, finished: false }
}

impl CommitWalker {
    pub closed spec fn current_of(self) -> GittyCommitRef {
        self.current
    }

    pub closed spec fn finished_of(self) -> bool {
        self.finished
    }

    /// The commit to load next, or `None` once the walk has ended.
    pub fn current(&self) -> (r: Option<GittyCommitRef>)
        ensures
            r is None <==> self.finished_of(),
            r matches Some(c) ==> c == self.current_of(),
    {
        if self.finished {
            None
        } else {
            Some(self.current)
        }
    }

    /// One step of the walk, given what loading `current` gave. The root
    /// commit (depth 0) ends the walk without being yielded; a failed load or
    /// a commit without exactly one parent is reported and ends it too.
    pub fn next(&mut self, loaded: Result<GittyCommit, GittyError>) -> (r: Option<
        Result<(GittyCommitRef, GittyCommit), GittyError>,
    >)
        requires
            !old(self).finished_of(),
        ensures
            match loaded {
                Err(e) => r == Some(Err::<(GittyCommitRef, GittyCommit), GittyError>(e))
                    && final(self).finished_of(),
                Ok(c) => if c.depth == 0 {
                    r is None && final(self).finished_of()
                } else if c.parents@.len() != 1 {
                    r matches Some(Err(e)) && e.kind == ErrorKind::Integrity
                        && final(self).finished_of()
                } else {
                    r == Some(Ok::<(GittyCommitRef, GittyCommit), GittyError>((old(self).current_of(), c)))
                        && final(self).current_of() == (GittyCommitRef { hash: c.parents@[0] })
                        && !final(self).finished_of()
                },
            },
    {
        match loaded {
            Err(e) => {
                self.finished = true;
                Some(Err(e))
            },
            Ok(commit) => {
                if commit.depth == 0 {
                    self.finished = true;
                    None
                } else if commit.parents.len() != 1 {
                    self.finished = true;
                    Some(
                        Err(
                            GittyError::new(
                                ErrorKind::Integrity,
                                String::from_str("CommitWalker"),
                                String::from_str("multiple parents not supported"),
                            ),
                        ),
                    )
                } else {
                    let commit_ref = self.current;
                    self.current = GittyCommitRef { hash: commit.parents[0] };
                    Some(Ok((commit_ref, commit)))
                }
            },
        }
    }
}

/// The history held in a store, as a map from commit hash to commit, is
/// linear: each commit of positive depth has exactly one parent, which is
/// stored and exactly one less deep.
pub open spec fn linear_history(store: Map<Seq<u8>, GittyCommit>) -> bool {
    forall|h: Seq<u8>|
        #![trigger store[h]]
        store.contains_key(h) && store[h].depth > 0 ==> {
            &&& store[h].parents@.len() == 1
            &&& store.contains_key(store[h].parents@[0]@)
            &&& store[store[h].parents@[0]@].depth + 1 == store[h].depth
        }
}

/// The commit reached from `h` by following the first parent `k` times.
pub open spec fn ancestor(store: Map<Seq<u8>, GittyCommit>, h: Seq<u8>, k: nat) -> Seq<u8>
    decreases k,
{
    if k == 0 {
        h
    } else {
        store[ancestor(store, h, (k - 1) as nat)].parents@[0]@
    }
}

/// A commit that is stored with depth 0, or with one stored parent exactly
/// one less deep, keeps the history linear when added.
pub proof fn lemma_append_keeps_history(
    store: Map<Seq<u8>, GittyCommit>,
    h: Seq<u8>,
    c: GittyCommit,
)
    requires
        linear_history(store),
        !store.contains_key(h) || store[h] == c,
        c.depth == 0 || {
            &&& c.parents@.len() == 1
            &&& store.contains_key(c.parents@[0]@)
            &&& store[c.parents@[0]@].depth + 1 == c.depth
        },
    ensures
        linear_history(store.insert(h, c)),
{
    let s2 = store.insert(h, c);
    assert forall|g: Seq<u8>| #[trigger] s2.contains_key(g) && s2[g].depth > 0 implies {
        &&& s2[g].parents@.len() == 1
        &&& s2.contains_key(s2[g].parents@[0]@)
        &&& s2[s2[g].parents@[0]@].depth + 1 == s2[g].depth
    } by {
        if g == h {
            let p = c.parents@[0]@;
            if p == h {
                assert(store[h] == c);
            }
        } else {
            assert(store[g] == s2[g]);
            let p = store[g].parents@[0]@;
            if p == h {
                assert(store[h] == c);
            }
        }
    }
}

proof fn lemma_ancestor_depth(store: Map<Seq<u8>, GittyCommit>, head: Seq<u8>, k: nat)
    requires
        linear_history(store),
        store.contains_key(head),
        k <= store[head].depth,
    ensures
        store.contains_key(ancestor(store, head, k)),
        store[ancestor(store, head, k)].depth + k == store[head].depth,
    decreases k,
{
    if k > 0 {
        lemma_ancestor_depth(store, head, (k - 1) as nat);
        let a = ancestor(store, head, (k - 1) as nat);
        assert(store[a].depth > 0);
    }
}

/// In a linear history, following parents from `head` passes through
/// commits of depth `head.depth`, `head.depth - 1`, ... and reaches a depth-0
/// commit after exactly `head.depth` steps; a walker yields each commit
/// before that one and ends there.
pub proof fn lemma_walk_reaches_root(store: Map<Seq<u8>, GittyCommit>, head: Seq<u8>)
    requires
        linear_history(store),
        store.contains_key(head),
    ensures
        forall|k: nat|
            k <= store[head].depth ==> store.contains_key(#[trigger] ancestor(store, head, k))
                && store[ancestor(store, head, k)].depth == store[head].depth - k,
        forall|k: nat|
            k < store[head].depth ==> store[#[trigger] ancestor(store, head, k)].parents@.len() == 1,
        store[ancestor(store, head, store[head].depth as nat)].depth == 0,
{
    assert forall|k: nat| k <= store[head].depth implies store.contains_key(
        #[trigger] ancestor(store, head, k),
    ) && store[ancestor(store, head, k)].depth == store[head].depth - k by {
        lemma_ancestor_depth(store, head, k);
    }
    assert forall|k: nat| k < store[head].depth implies store[#[trigger] ancestor(
        store,
        head,
        k,
    )].parents@.len() == 1 by {
        lemma_ancestor_depth(store, head, k);
    }
    lemma_ancestor_depth(store, head, store[head].depth as nat);
}

/// What a walker started at `h` yields when each commit it asks for is
/// loaded from `store` (a missing one fails the load), over at most `fuel`
/// steps: `None` when it reports an error, else the hashes it yields,
/// newest first. Each step is the one `CommitWalker::next` takes.
pub open spec fn walk_from_store(store: Map<Seq<u8>, GittyCommit>, h: Seq<u8>, fuel: nat) -> Option<Seq<Seq<u8>>>
    decreases fuel,
{
    if fuel == 0 || !store.contains_key(h) {
        None
    } else if store[h].depth == 0 {
        Some(Seq::empty())
    } else if store[h].parents@.len() != 1 {
        None
    } else {
        match walk_from_store(store, store[h].parents@[0]@, (fuel - 1) as nat) {
            None => None,
            Some(rest) => Some(seq![h] + rest),
        }
    }
}

/// In a linear history, a walker from `head` yields exactly `head.depth`
/// commits, starting with `head`, each the parent of the one before, with
/// depths `head.depth` down to 1, and then ends without an error.
pub proof fn lemma_walker_yields_depth(store: Map<Seq<u8>, GittyCommit>, head: Seq<u8>)
    requires
        linear_history(store),
        store.contains_key(head),
    ensures
        ({
            let r = walk_from_store(store, head, store[head].depth as nat + 1);
            &&& r is Some
            &&& r->0.len() == store[head].depth
            &&& forall|k: int| 0 <= k < r->0.len() ==> store.contains_key(#[trigger] r->0[k])
                && store[r->0[k]].depth == store[head].depth - k
            &&& r->0.len() > 0 ==> r->0[0] == head
            &&& forall|k: int| 0 <= k < r->0.len() - 1 ==> #[trigger] r->0[k + 1] == store[r->0[k]].parents@[0]@
        }),
    decreases store[head].depth,
{
    let d = store[head].depth;
    if d > 0 {
        let p = store[head].parents@[0]@;
        lemma_walker_yields_depth(store, p);
        assert(store[p].depth as nat + 1 == d as nat);
        let rest = walk_from_store(store, p, d as nat)->0;
        let r = walk_from_store(store, head, d as nat + 1);
        assert(r == Some(seq![head] + rest));
        let s = seq![head] + rest;
        assert forall|k: int| 0 <= k < s.len() implies store.contains_key(#[trigger] s[k])
            && store[s[k]].depth == d - k by {
            if k > 0 {
                assert(s[k] == rest[k - 1]);
            }
        }
        assert forall|k: int| 0 <= k < s.len() - 1 implies #[trigger] s[k + 1] == store[s[k]].parents@[0]@ by {
            assert(s[k + 1] == rest[k]);
            if k > 0 {
                assert(s[k] == rest[k - 1]);
            }
        }
    }
}

} // verus!
