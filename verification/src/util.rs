//! What the helpers around the system calls compute: the directories that a
//! clone of a path is made of, and the flags of a file descriptor.

use crate::ops::{views, Op, OpView};
use crate::path::{
    ancestors, is_absolute, lemma_last_slash, parent, path_ancestors, path_rebase, rebase,
};
use vstd::prelude::*;

verus! {

/// The flag of a file descriptor that closes it at `exec`, as `fcntl` reads
/// it with `F_GETFD` and sets it with `F_SETFD`.
pub const FD_CLOEXEC: i32 = 1;

/// The permission bits of a file mode, with the set-ID and sticky bits.
pub const MODE_MASK: u32 = 0o7777;

/// The flags of a file descriptor with the close-on-exec flag set or
/// cleared, and the other flags as they are.
pub open spec fn with_cloexec(flags: i32, on: bool) -> i32 {
    if on {
        flags | FD_CLOEXEC
    } else {
        flags & !FD_CLOEXEC
    }
}

/// The flags to set on a file descriptor that has the flags `flags`, so that
/// it is closed at `exec` exactly if `on` holds. No other flag changes.
pub fn cloexec_flags(flags: i32, on: bool) -> (r: i32)
    ensures
        r == with_cloexec(flags, on),
        (r & FD_CLOEXEC != 0) == on,
        r & !FD_CLOEXEC == flags & !FD_CLOEXEC,
{
    assert(((flags | 1i32) & 1i32 != 0) && ((flags | 1i32) & !1i32 == flags & !1i32))
        by (bit_vector);
    assert(((flags & !1i32) & 1i32 == 0) && ((flags & !1i32) & !1i32 == flags & !1i32))
        by (bit_vector);
    if on {
        flags | FD_CLOEXEC
    } else {
        flags & !FD_CLOEXEC
    }
}

/// A directory of the source of a clone, and its place below the target.
pub type ClonePair = (Seq<char>, Seq<char>);

/// The directories that a clone of `src` below `target` is made of: `src`
/// and every directory above it, from the root down, each with the place
/// that it has below `target`.
pub open spec fn clone_pairs(src: Seq<char>, target: Seq<char>) -> Seq<ClonePair> {
    ancestors(src).map_values(|dir: Seq<char>| (dir, rebase(target, dir).unwrap()))
}

/// What creates `place` as a copy of a source that is a directory or not,
/// with the mode `mode` and the owner `uid` and `gid`: the directory or an
/// empty file is made, then its permission bits and its owner are set.
pub open spec fn clone_ops(place: Seq<char>, is_dir: bool, mode: u32, uid: u32, gid: u32) -> Seq<
    OpView,
> {
    seq![
        if is_dir {
            OpView::Mkdir { path: place }
        } else {
            OpView::Touch { path: place }
        },
        OpView::Chmod { path: place, mode: mode & MODE_MASK },
        OpView::Chown { path: place, uid, gid },
    ]
}

/// The parent of an absolute path is absolute.
pub proof fn lemma_parent_absolute(p: Seq<char>)
    requires
        is_absolute(p),
    ensures
        parent(p) matches Some(q) ==> is_absolute(q),
{
    lemma_last_slash(p, p.len() as int);
}

/// Every directory above an absolute path is absolute.
pub proof fn lemma_ancestors_absolute(p: Seq<char>)
    requires
        is_absolute(p),
    ensures
        forall|i: int| 0 <= i < ancestors(p).len() ==> is_absolute(#[trigger] ancestors(p)[i]),
    decreases p.len(),
{
    lemma_parent_absolute(p);
    match parent(p) {
        Some(q) => {
            if q.len() < p.len() {
                lemma_ancestors_absolute(q);
                assert forall|i: int| 0 <= i < ancestors(p).len() implies is_absolute(
                    #[trigger] ancestors(p)[i],
                ) by {
                    if i < ancestors(q).len() {
                        assert(ancestors(p)[i] == ancestors(q)[i]);
                    }
                }
            }
        },
        None => {},
    }
}

/// The directories that a clone of `src` below `target` is made of, from
/// the root down. The caller creates each place that does not exist yet,
/// with [`clone_step`].
pub fn clone_targets(src: &str, target: &str) -> (r: Vec<(String, String)>)
    requires
        is_absolute(src@),
        is_absolute(target@),
    ensures
        r@.map_values(|p: (String, String)| (p.0@, p.1@)) == clone_pairs(src@, target@),
{
    proof {
        lemma_ancestors_absolute(src@);
    }
    let dirs = path_ancestors(src);
    let ghost want = clone_pairs(src@, target@);
    let mut out: Vec<(String, String)> = Vec::new();
    let mut i: usize = 0;
    while i < dirs.len()
        invariant
            i <= dirs@.len(),
            dirs@.len() == ancestors(src@).len(),
            forall|k: int| 0 <= k < dirs@.len() ==> (#[trigger] dirs@[k])@ == ancestors(src@)[k],
            forall|k: int|
                0 <= k < ancestors(src@).len() ==> is_absolute(#[trigger] ancestors(src@)[k]),
            want == clone_pairs(src@, target@),
            out@.map_values(|p: (String, String)| (p.0@, p.1@)) == want.take(i as int),
        decreases dirs@.len() - i,
    {
        let ghost before = out@.map_values(|p: (String, String)| (p.0@, p.1@));
        assert(is_absolute(ancestors(src@)[i as int]));
        let place = match path_rebase(target, dirs[i].as_str()) {
            Some(place) => place,
            None => String::new(),
        };
        let pair = (dirs[i].clone(), place);
        assert((pair.0@, pair.1@) == want[i as int]);
        out.push(pair);
        assert(out@.map_values(|p: (String, String)| (p.0@, p.1@)) =~= before.push(
            want[i as int],
        ));
        assert(want.take(i + 1) =~= before.push(want[i as int]));
        i = i + 1;
    }
    assert(want.take(i as int) =~= want);
    out
}

/// What creates `place` as a copy of a source that is a directory or not,
/// with the mode `mode` and the owner `uid` and `gid`.
pub fn clone_step(place: &str, is_dir: bool, mode: u32, uid: u32, gid: u32) -> (r: Vec<Op>)
    ensures
        views(r@) == clone_ops(place@, is_dir, mode, uid, gid),
{
    let mut out: Vec<Op> = Vec::new();
    if is_dir {
        out.push(Op::Mkdir { path: String::from_str(place) });
    } else {
        out.push(Op::Touch { path: String::from_str(place) });
    }
    out.push(Op::Chmod { path: String::from_str(place), mode: mode & MODE_MASK });
    out.push(Op::Chown { path: String::from_str(place), uid, gid });
    assert(views(out@) =~= clone_ops(place@, is_dir, mode, uid, gid));
    out
}

} // verus!
