//! The operations on the file-system tree that a container's setup is made
//! of, and what the failure of one means.
//!
//! The library plans operations; the program that links it asks
//! [`Op::check`] whether an operation can be handed to the kernel, performs
//! it, one system call each, and hands the outcome to [`Op::settle`].

use crate::err::{Error, ErrorView, IoError};
use crate::path::{contains_nul, has_nul};
use crate::text::{hex, push_hex};
use vstd::prelude::*;

verus! {

/// One operation on the file-system tree.
#[derive(Debug)]
pub enum Op {
    /// `mount(src, target, fstype, flags, data)`.
    Mount { src: String, target: String, fstype: String, flags: u64, data: String },
    /// The same call, where a refusal for want of permission is put up with.
    MaybeMount { src: String, target: String, fstype: String, flags: u64, data: String },
    /// `umount2(path, MNT_DETACH)`.
    UmountLazy { path: String },
    /// The same call, where a path that is no mount point is put up with.
    MaybeUmountLazy { path: String },
    /// Create the directory `path`; its parent exists.
    Mkdir { path: String },
    /// Create the directory `path` and the missing ones above it.
    Mkdirs { path: String },
    /// Remove the empty directory `path`.
    Rmdir { path: String },
    /// Create the empty file `path`.
    Touch { path: String },
    /// Set the permission bits of `path` to `mode`.
    Chmod { path: String, mode: u32 },
    /// Give `path` to the user `uid` and the group `gid`.
    Chown { path: String, uid: u32, gid: u32 },
    /// Make `path` the working directory.
    Chdir { path: String },
    /// `pivot_root(new_root, old_root)`.
    PivotRoot { new_root: String, old_root: String },
    /// Below `target`, create what is missing of the directories of `src`,
    /// with the owner and mode that each has in `src`.
    CloneDirs { src: String, target: String },
}

/// An [`Op`] with its strings as sequences of characters.
pub enum OpView {
    Mount { src: Seq<char>, target: Seq<char>, fstype: Seq<char>, flags: u64, data: Seq<char> },
    MaybeMount {
        src: Seq<char>,
        target: Seq<char>,
        fstype: Seq<char>,
        flags: u64,
        data: Seq<char>,
    },
    UmountLazy { path: Seq<char> },
    MaybeUmountLazy { path: Seq<char> },
    Mkdir { path: Seq<char> },
    Mkdirs { path: Seq<char> },
    Rmdir { path: Seq<char> },
    Touch { path: Seq<char> },
    Chmod { path: Seq<char>, mode: u32 },
    Chown { path: Seq<char>, uid: u32, gid: u32 },
    Chdir { path: Seq<char> },
    PivotRoot { new_root: Seq<char>, old_root: Seq<char> },
    CloneDirs { src: Seq<char>, target: Seq<char> },
}

impl View for Op {
    type V = OpView;

    open spec fn view(&self) -> OpView {
        match self {
            Op::Mount { src, target, fstype, flags, data } => OpView::Mount {
                src: src@,
                target: target@,
                fstype: fstype@,
                flags: *flags,
                data: data@,
            },
            Op::MaybeMount { src, target, fstype, flags, data } => OpView::MaybeMount {
                src: src@,
                target: target@,
                fstype: fstype@,
                flags: *flags,
                data: data@,
            },
            Op::UmountLazy { path } => OpView::UmountLazy { path: path@ },
            Op::MaybeUmountLazy { path } => OpView::MaybeUmountLazy { path: path@ },
            Op::Mkdir { path } => OpView::Mkdir { path: path@ },
            Op::Mkdirs { path } => OpView::Mkdirs { path: path@ },
            Op::Rmdir { path } => OpView::Rmdir { path: path@ },
            Op::Touch { path } => OpView::Touch { path: path@ },
            Op::Chmod { path, mode } => OpView::Chmod { path: path@, mode: *mode },
            Op::Chown { path, uid, gid } => OpView::Chown { path: path@, uid: *uid, gid: *gid },
            Op::Chdir { path } => OpView::Chdir { path: path@ },
            Op::PivotRoot { new_root, old_root } => OpView::PivotRoot {
                new_root: new_root@,
                old_root: old_root@,
            },
            Op::CloneDirs { src, target } => OpView::CloneDirs { src: src@, target: target@ },
        }
    }
}

/// The operations of a list, each by its view.
pub open spec fn views(ops: Seq<Op>) -> Seq<OpView> {
    ops.map_values(|op: Op| op@)
}

/// How a failed `mount` is named in its error.
pub open spec fn mount_label(src: Seq<char>, target: Seq<char>, fstype: Seq<char>, flags: u64) -> Seq<
    char,
> {
    "mount src="@ + src + " target="@ + target + " fs="@ + fstype + " flags=0x"@ + hex(flags as nat)
        + " data="@
}

impl OpView {
    /// The mount of `fstype` from `src` at `target`, without data for the
    /// file system.
    pub open spec fn mount(src: Seq<char>, target: Seq<char>, fstype: Seq<char>, flags: u64) -> OpView {
        OpView::Mount { src, target, fstype, flags, data: ""@ }
    }

    /// The same mount, where a refusal for want of permission is put up
    /// with.
    pub open spec fn maybe_mount(
        src: Seq<char>,
        target: Seq<char>,
        fstype: Seq<char>,
        flags: u64,
    ) -> OpView {
        OpView::MaybeMount { src, target, fstype, flags, data: ""@ }
    }

    /// Whether one of the strings of the operation holds a NUL, so that it
    /// cannot be handed to the kernel.
    pub open spec fn holds_nul(self) -> bool {
        match self {
            OpView::Mount { src, target, fstype, data, .. } => has_nul(src) || has_nul(target)
                || has_nul(fstype) || has_nul(data),
            OpView::MaybeMount { src, target, fstype, data, .. } => has_nul(src) || has_nul(
                target,
            ) || has_nul(fstype) || has_nul(data),
            OpView::UmountLazy { path } => has_nul(path),
            OpView::MaybeUmountLazy { path } => has_nul(path),
            OpView::Mkdir { path } => has_nul(path),
            OpView::Mkdirs { path } => has_nul(path),
            OpView::Rmdir { path } => has_nul(path),
            OpView::Touch { path } => has_nul(path),
            OpView::Chmod { path, .. } => has_nul(path),
            OpView::Chown { path, .. } => has_nul(path),
            OpView::Chdir { path } => has_nul(path),
            OpView::PivotRoot { new_root, old_root } => has_nul(new_root) || has_nul(old_root),
            OpView::CloneDirs { src, target } => has_nul(src) || has_nul(target),
        }
    }

    /// Whether the operation can be handed to the kernel: an operation with
    /// a NUL in one of its strings is refused, and no system call is made
    /// for it.
    pub open spec fn check(self) -> Result<(), ErrorView> {
        if self.holds_nul() {
            Err(ErrorView::BadStr)
        } else {
            Ok(())
        }
    }

    /// Whether the failure `io` of this operation is put up with: an
    /// invalid argument where a path may be no mount point, a refusal for
    /// want of permission where a mount may be out of the caller's reach.
    pub open spec fn forgives(self, io: IoError) -> bool {
        match self {
            OpView::MaybeUmountLazy { .. } => io.invalid_argument(),
            OpView::MaybeMount { .. } => io.permission_denied(),
            _ => false,
        }
    }

    /// The error that the failure `io` of this operation is reported as.
    pub open spec fn failure(self, io: IoError) -> ErrorView {
        match self {
            OpView::Mount { src, target, fstype, flags, .. } => ErrorView::OS {
                op: mount_label(src, target, fstype, flags),
                io,
            },
            OpView::MaybeMount { src, target, fstype, flags, .. } => ErrorView::OS {
                op: mount_label(src, target, fstype, flags),
                io,
            },
            OpView::UmountLazy { path } => ErrorView::File { op: "umount2"@, name: path, io },
            OpView::MaybeUmountLazy { path } => ErrorView::File { op: "umount2"@, name: path, io },
            OpView::Mkdir { path } => ErrorView::File { op: "mkdir"@, name: path, io },
            OpView::Mkdirs { path } => ErrorView::File { op: "mkdirs"@, name: path, io },
            OpView::Rmdir { path } => ErrorView::File { op: "rmdir"@, name: path, io },
            OpView::Touch { path } => ErrorView::File { op: "write"@, name: path, io },
            OpView::Chmod { path, .. } => ErrorView::File { op: "chmod"@, name: path, io },
            OpView::Chown { path, .. } => ErrorView::File { op: "chown"@, name: path, io },
            OpView::Chdir { path } => ErrorView::File { op: "chdir"@, name: path, io },
            OpView::PivotRoot { new_root, .. } => ErrorView::File {
                op: "pivot_root"@,
                name: new_root,
                io,
            },
            OpView::CloneDirs { src, .. } => ErrorView::File { op: "clonedirs"@, name: src, io },
        }
    }

    /// What the outcome of this operation means: done, left undone with a
    /// failure that is put up with, or an error that ends the setup. An
    /// operation that cannot be handed to the kernel is an error whatever
    /// the outcome is said to be.
    pub open spec fn settle(self, outcome: Option<IoError>) -> Result<bool, ErrorView> {
        if self.holds_nul() {
            Err(ErrorView::BadStr)
        } else {
            match outcome {
                None => Ok(true),
                Some(io) => if self.forgives(io) {
                    Ok(false)
                } else {
                    Err(self.failure(io))
                },
            }
        }
    }
}

/// How a failed `mount` is named in its error.
fn label_mount(src: &str, target: &str, fstype: &str, flags: u64) -> (r: String)
    ensures
        r@ == mount_label(src@, target@, fstype@, flags),
{
    let mut out = String::from_str("mount src=");
    out.append(src);
    out.append(" target=");
    out.append(target);
    out.append(" fs=");
    out.append(fstype);
    out.append(" flags=0x");
    push_hex(&mut out, flags);
    out.append(" data=");
    assert(out@ =~= mount_label(src@, target@, fstype@, flags));
    out
}

impl Op {
    /// The mount of `fstype` from `src` at `target`, without data for the
    /// file system.
    pub fn mount(src: &str, target: &str, fstype: &str, flags: u64) -> (r: Op)
        ensures
            r@ == OpView::mount(src@, target@, fstype@, flags),
    {
        Op::mount_with_data(src, target, fstype, flags, "")
    }

    /// The mount of `fstype` from `src` at `target`, with `data` for the
    /// file system.
    pub fn mount_with_data(src: &str, target: &str, fstype: &str, flags: u64, data: &str) -> (r:
        Op)
        ensures
            r@ == (OpView::Mount {
                src: src@,
                target: target@,
                fstype: fstype@,
                flags,
                data: data@,
            }),
    {
        Op::Mount {
            src: String::from_str(src),
            target: String::from_str(target),
            fstype: String::from_str(fstype),
            flags,
            data: String::from_str(data),
        }
    }

    /// The same mount as [`Op::mount`], where a refusal for want of
    /// permission is put up with.
    pub fn maybe_mount(src: &str, target: &str, fstype: &str, flags: u64) -> (r: Op)
        ensures
            r@ == OpView::maybe_mount(src@, target@, fstype@, flags),
    {
        Op::MaybeMount {
            src: String::from_str(src),
            target: String::from_str(target),
            fstype: String::from_str(fstype),
            flags,
            data: String::from_str(""),
        }
    }

    /// Whether one of the strings of the operation holds a NUL.
    fn any_nul(&self) -> (r: bool)
        ensures
            r == self@.holds_nul(),
    {
        match self {
            Op::Mount { src, target, fstype, data, .. } => contains_nul(src.as_str())
                || contains_nul(target.as_str()) || contains_nul(fstype.as_str()) || contains_nul(
                data.as_str(),
            ),
            Op::MaybeMount { src, target, fstype, data, .. } => contains_nul(src.as_str())
                || contains_nul(target.as_str()) || contains_nul(fstype.as_str()) || contains_nul(
                data.as_str(),
            ),
            Op::UmountLazy { path } => contains_nul(path.as_str()),
            Op::MaybeUmountLazy { path } => contains_nul(path.as_str()),
            Op::Mkdir { path } => contains_nul(path.as_str()),
            Op::Mkdirs { path } => contains_nul(path.as_str()),
            Op::Rmdir { path } => contains_nul(path.as_str()),
            Op::Touch { path } => contains_nul(path.as_str()),
            Op::Chmod { path, .. } => contains_nul(path.as_str()),
            Op::Chown { path, .. } => contains_nul(path.as_str()),
            Op::Chdir { path } => contains_nul(path.as_str()),
            Op::PivotRoot { new_root, old_root } => contains_nul(new_root.as_str())
                || contains_nul(old_root.as_str()),
            Op::CloneDirs { src, target } => contains_nul(src.as_str()) || contains_nul(
                target.as_str(),
            ),
        }
    }

    /// Whether the operation can be handed to the kernel. `Error::BadStr`
    /// exactly where one of its strings holds a NUL; then no system call
    /// is made for it.
    pub fn check(&self) -> (r: Result<(), Error>)
        ensures
            match r {
                Ok(_) => self@.check() == Ok::<(), ErrorView>(()),
                Err(e) => self@.check() == Err::<(), ErrorView>(e@),
            },
    {
        if self.any_nul() {
            Err(Error::BadStr)
        } else {
            Ok(())
        }
    }

    /// The error that the failure `io` of this operation is reported as.
    pub fn failure(&self, io: IoError) -> (r: Error)
        ensures
            r@ == self@.failure(io),
    {
        match self {
            Op::Mount { src, target, fstype, flags, .. } => {
                let label = label_mount(src.as_str(), target.as_str(), fstype.as_str(), *flags);
                Error::os(label.as_str(), io)
            },
            Op::MaybeMount { src, target, fstype, flags, .. } => {
                let label = label_mount(src.as_str(), target.as_str(), fstype.as_str(), *flags);
                Error::os(label.as_str(), io)
            },
            Op::UmountLazy { path } => Error::file("umount2", path.as_str(), io),
            Op::MaybeUmountLazy { path } => Error::file("umount2", path.as_str(), io),
            Op::Mkdir { path } => Error::file("mkdir", path.as_str(), io),
            Op::Mkdirs { path } => Error::file("mkdirs", path.as_str(), io),
            Op::Rmdir { path } => Error::file("rmdir", path.as_str(), io),
            Op::Touch { path } => Error::file("write", path.as_str(), io),
            Op::Chmod { path, .. } => Error::file("chmod", path.as_str(), io),
            Op::Chown { path, .. } => Error::file("chown", path.as_str(), io),
            Op::Chdir { path } => Error::file("chdir", path.as_str(), io),
            Op::PivotRoot { new_root, .. } => Error::file("pivot_root", new_root.as_str(), io),
            Op::CloneDirs { src, .. } => Error::file("clonedirs", src.as_str(), io),
        }
    }

    /// What the outcome of this operation means. `outcome` is `None` where
    /// the call succeeded, else its cause of failure. `Ok(true)`: done.
    /// `Ok(false)`: not done, and the setup goes on. `Err`: the setup ends.
    /// An operation with a NUL in one of its strings is `Error::BadStr`
    /// whatever the outcome is said to be.
    pub fn settle(&self, outcome: Option<IoError>) -> (r: Result<bool, Error>)
        ensures
            match r {
                Ok(done) => self@.settle(outcome) == Ok::<bool, ErrorView>(done),
                Err(e) => self@.settle(outcome) == Err::<bool, ErrorView>(e@),
            },
    {
        if self.any_nul() {
            return Err(Error::BadStr);
        }
        match outcome {
            None => Ok(true),
            Some(io) => {
                let forgiven = match self {
                    Op::MaybeUmountLazy { .. } => io.is_invalid_argument(),
                    Op::MaybeMount { .. } => io.is_permission_denied(),
                    _ => false,
                };
                if forgiven {
                    Ok(false)
                } else {
                    Err(self.failure(io))
                }
            },
        }
    }
}

} // verus!
