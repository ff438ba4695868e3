//! The stored form of trees, commits and commit references: compact JSON
//! with named fields, tree entries tagged by `type`.
use vstd::prelude::*;
use crate::codec::{
    dec_text, hash_text, json_quote, json_quoted, push_decimal, rfc3339_of, rfc3339_text,
};
use crate::model::{
    GittyAuthor, GittyBlobMetadata, GittyCommit, GittyCommitRef, GittyHash, GittyTree, GittyTreeEntry, GittyTreeMetadata, Permissions,
    UtcTime, ZonedTime,
};

verus! {

pub open spec fn quoted(t: Seq<char>) -> Seq<char> {
    "\""@ + t + "\""@
}

pub open spec fn utc_json(t: UtcTime) -> Seq<char> {
    quoted(rfc3339_of(t.secs, t.nanos, 0))
}

pub open spec fn zoned_json(t: ZonedTime) -> Seq<char> {
    quoted(rfc3339_of(t.secs, t.nanos, t.offset))
}

pub open spec fn hash_json(h: GittyHash) -> Seq<char> {
    quoted(hash_text(h@))
}

pub open spec fn bool_json(b: bool) -> Seq<char> {
    if b {
        "true"@
    } else {
        "false"@
    }
}

pub open spec fn permissions_json(p: Permissions) -> Seq<char> {
    "{\"kind\":"@ + json_quoted(p.kind@) + ",\"mode\":"@ + dec_text(p.mode as nat) + ",\"uid\":"@
        + dec_text(p.uid as nat) + ",\"gid\":"@ + dec_text(p.gid as nat) + "}"@
}

pub open spec fn entry_json(e: GittyTreeEntry) -> Seq<char> {
    match e {
        GittyTreeEntry::Tree(t) => "{\"type\":\"tree\",\"name\":"@ + json_quoted(t.name@)
            + ",\"modified\":"@ + utc_json(t.modified) + ",\"permissions\":"@ + permissions_json(
            t.permissions,
        ) + ",\"hash\":"@ + hash_json(t.hash) + "}"@,
        GittyTreeEntry::Blob(b) => "{\"type\":\"blob\",\"name\":"@ + json_quoted(b.name@)
            + ",\"modified\":"@ + utc_json(b.modified) + ",\"permissions\":"@ + permissions_json(
            b.permissions,
        ) + ",\"size\":"@ + dec_text(b.size as nat) + ",\"is_symlink\":"@ + bool_json(b.is_symlink)
            + ",\"hash\":"@ + hash_json(b.hash) + "}"@,
    }
}

/// The entries' forms separated by commas.
pub open spec fn entries_json(es: Seq<GittyTreeEntry>) -> Seq<char>
    decreases es.len(),
{
    if es.len() == 0 {
        Seq::empty()
    } else if es.len() == 1 {
        entry_json(es[0])
    } else {
        entries_json(es.drop_last()) + ","@ + entry_json(es.last())
    }
}

/// The hashes' forms separated by commas.
pub open spec fn hashes_json(hs: Seq<GittyHash>) -> Seq<char>
    decreases hs.len(),
{
    if hs.len() == 0 {
        Seq::empty()
    } else if hs.len() == 1 {
        hash_json(hs[0])
    } else {
        hashes_json(hs.drop_last()) + ","@ + hash_json(hs.last())
    }
}

/// The stored form of a tree with these entries.
pub open spec fn tree_json(es: Seq<GittyTreeEntry>) -> Seq<char> {
    "{\"entries\":["@ + entries_json(es) + "]}"@
}

pub open spec fn author_json(a: GittyAuthor) -> Seq<char> {
    "{\"name\":"@ + json_quoted(a.name@) + ",\"email\":"@ + json_quoted(a.email@) + "}"@
}

/// The stored form of a commit.
pub open spec fn commit_json(c: GittyCommit) -> Seq<char> {
    "{\"author\":"@ + author_json(c.author) + ",\"committer\":"@ + author_json(c.committer)
        + ",\"author_time\":"@ + zoned_json(c.author_time) + ",\"commit_time\":"@ + zoned_json(
        c.commit_time,
    ) + ",\"message\":"@ + json_quoted(c.message@) + ",\"depth\":"@ + dec_text(c.depth as nat)
        + ",\"parents\":["@ + hashes_json(c.parents@) + "],\"root\":"@ + hash_json(c.root) + "}"@
}

/// The stored form of a commit reference, as kept in `HEAD`.
pub open spec fn commit_ref_json(r: GittyCommitRef) -> Seq<char> {
    "{\"hash\":"@ + hash_json(r.hash) + "}"@
}

fn push_quoted(s: &mut String, t: &String)
    ensures
        final(s)@ == old(s)@ + quoted(t@),
{
    s.append("\"");
    s.append(t.as_str());
    s.append("\"");
}

fn push_hash(s: &mut String, h: &GittyHash)
    ensures
        final(s)@ == old(s)@ + hash_json(*h),
{
    let t = h.to_text();
    push_quoted(s, &t);
}

fn push_utc(s: &mut String, t: UtcTime)
    requires
        t.wf(),
    ensures
        final(s)@ == old(s)@ + utc_json(t),
{
    let text = rfc3339_text(t.secs, t.nanos, 0);
    push_quoted(s, &text);
}

fn push_zoned(s: &mut String, t: ZonedTime)
    requires
        t.wf(),
    ensures
        final(s)@ == old(s)@ + zoned_json(t),
{
    let text = rfc3339_text(t.secs, t.nanos, t.offset);
    push_quoted(s, &text);
}

fn push_json_string(s: &mut String, t: &String)
    ensures
        final(s)@ == old(s)@ + json_quoted(t@),
{
    let q = json_quote(t.as_str());
    s.append(q.as_str());
}

fn push_permissions(s: &mut String, p: &Permissions)
    ensures
        final(s)@ == old(s)@ + permissions_json(*p),
{
    let ghost start = s@;
    s.append("{\"kind\":");
    push_json_string(s, &p.kind);
    s.append(",\"mode\":");
    push_decimal(s, p.mode as u64);
    s.append(",\"uid\":");
    push_decimal(s, p.uid as u64);
    s.append(",\"gid\":");
    push_decimal(s, p.gid as u64);
    s.append("}");
    assert(s@ =~= start + permissions_json(*p));
}

fn push_tree_entry(s: &mut String, t: &GittyTreeMetadata)
    requires
        t.modified.wf(),
    ensures
        final(s)@ == old(s)@ + entry_json(GittyTreeEntry::Tree(*t)),
{
    let ghost start = s@;
    s.append("{\"type\":\"tree\",\"name\":");
    push_json_string(s, &t.name);
    s.append(",\"modified\":");
    push_utc(s, t.modified);
    s.append(",\"permissions\":");
    push_permissions(s, &t.permissions);
    s.append(",\"hash\":");
    push_hash(s, &t.hash);
    s.append("}");
    assert(s@ =~= start + entry_json(GittyTreeEntry::Tree(*t)));
}

fn push_blob_entry(s: &mut String, b: &GittyBlobMetadata)
    requires
        b.modified.wf(),
    ensures
        final(s)@ == old(s)@ + entry_json(GittyTreeEntry::Blob(*b)),
{
    let ghost start = s@;
    s.append("{\"type\":\"blob\",\"name\":");
    push_json_string(s, &b.name);
    s.append(",\"modified\":");
    push_utc(s, b.modified);
    s.append(",\"permissions\":");
    push_permissions(s, &b.permissions);
    s.append(",\"size\":");
    push_decimal(s, b.size);
    s.append(",\"is_symlink\":");
    let ghost mid = s@;
    if b.is_symlink {
        s.append("true");
    } else {
        s.append("false");
    }
    assert(s@ == mid + bool_json(b.is_symlink));
    s.append(",\"hash\":");
    push_hash(s, &b.hash);
    s.append("}");
    assert(s@ =~= start + entry_json(GittyTreeEntry::Blob(*b)));
}

fn push_entry(s: &mut String, e: &GittyTreeEntry)
    requires
        e.wf(),
    ensures
        final(s)@ == old(s)@ + entry_json(*e),
{
    match e {
        GittyTreeEntry::Tree(t) => push_tree_entry(s, t),
        GittyTreeEntry::Blob(b) => push_blob_entry(s, b),
    }
}

/// The stored form of a tree.
pub fn serialize_tree(tree: &GittyTree) -> (r: String)
    requires
        tree.wf(),
    ensures
        r@ == tree_json(tree.entries@),
{
    let mut s = String::from_str("{\"entries\":[");
    let ghost start = s@;
    let mut i: usize = 0;
    while i < tree.entries.len()
        invariant
            i <= tree.entries@.len(),
            tree.wf(),
            s@ == start + entries_json(tree.entries@.subrange(0, i as int)),
        decreases tree.entries@.len() - i,
    {
        let ghost before = s@;
        if i > 0 {
            s.append(",");
        }
        push_entry(&mut s, &tree.entries[i]);
        proof {
            let es = tree.entries@.subrange(0, i + 1);
            assert(es.drop_last() =~= tree.entries@.subrange(0, i as int));
            if i == 0 {
                assert(before =~= start);
                assert(s@ =~= start + entries_json(es));
            } else {
                assert(s@ =~= start + entries_json(es));
            }
        }
        i = i + 1;
    }
    s.append("]}");
    assert(tree.entries@.subrange(0, i as int) =~= tree.entries@);
    assert(s@ =~= tree_json(tree.entries@));
    s
}

fn push_author(s: &mut String, a: &GittyAuthor)
    ensures
        final(s)@ == old(s)@ + author_json(*a),
{
    let ghost start = s@;
    s.append("{\"name\":");
    push_json_string(s, &a.name);
    s.append(",\"email\":");
    push_json_string(s, &a.email);
    s.append("}");
    assert(s@ =~= start + author_json(*a));
}

fn push_hashes(s: &mut String, hs: &Vec<GittyHash>)
    ensures
        final(s)@ == old(s)@ + hashes_json(hs@),
{
    let ghost start = s@;
    let mut i: usize = 0;
    while i < hs.len()
        invariant
            i <= hs@.len(),
            s@ == start + hashes_json(hs@.subrange(0, i as int)),
        decreases hs@.len() - i,
    {
        let ghost before = s@;
        if i > 0 {
            s.append(",");
        }
        push_hash(s, &hs[i]);
        proof {
            let part = hs@.subrange(0, i + 1);
            assert(part.drop_last() =~= hs@.subrange(0, i as int));
            if i == 0 {
                assert(before =~= start);
            }
            assert(s@ =~= start + hashes_json(part));
        }
        i = i + 1;
    }
    assert(hs@.subrange(0, i as int) =~= hs@);
}

/// The stored form of a commit.
pub fn serialize_commit(c: &GittyCommit) -> (r: String)
    requires
        c.wf(),
    ensures
        r@ == commit_json(*c),
{
    let mut s = String::from_str("{\"author\":");
    push_author(&mut s, &c.author);
    s.append(",\"committer\":");
    push_author(&mut s, &c.committer);
    s.append(",\"author_time\":");
    push_zoned(&mut s, c.author_time);
    s.append(",\"commit_time\":");
    push_zoned(&mut s, c.commit_time);
    s.append(",\"message\":");
    push_json_string(&mut s, &c.message);
    s.append(",\"depth\":");
    push_decimal(&mut s, c.depth);
    s.append(",\"parents\":[");
    push_hashes(&mut s, &c.parents);
    s.append("],\"root\":");
    push_hash(&mut s, &c.root);
    s.append("}");
    assert(s@ =~= commit_json(*c));
    s
}

/// The stored form of a commit reference.
pub fn serialize_commit_ref(r: &GittyCommitRef) -> (t: String)
    ensures
        t@ == commit_ref_json(*r),
{
    let mut s = String::from_str("{\"hash\":");
    push_hash(&mut s, &r.hash);
    s.append("}");
    assert(s@ =~= commit_ref_json(*r));
    s
}

} // verus!
