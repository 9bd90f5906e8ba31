//! The sandbox that hides the home directories: the tree that holds the
//! caller's home is covered by an empty file system, in which only the
//! working directory shows.

use crate::container::{CLONE_NEWCGROUP, CLONE_NEWNS, CLONE_NEWPID, CLONE_NEWUSER};
use crate::fs::{MS_BIND, MS_MOVE, MS_REC, MS_SLAVE};
use crate::isolate::NOOPT;
use crate::ops::{views, Op, OpView};
use crate::path::{
    is_absolute, is_under, join, parent, path_is_absolute, path_is_under, path_join, path_parent,
    path_strip_prefix, strip_prefix,
};
use crate::proc::texts;
use crate::text::same_text;
use vstd::prelude::*;

verus! {

/// Why the sandbox is not set up.
#[derive(Clone, Copy, Debug, PartialEq, Eq, Structural)]
pub enum Refusal {
    /// The home directory is not given as an absolute path.
    HomeNotAbsolute,
    /// The working directory lies in `/tmp`, which the sandbox replaces.
    UnderTmp,
}

impl Refusal {
    /// What the user is told.
    pub open spec fn text(self) -> Seq<char> {
        match self {
            Refusal::HomeNotAbsolute => "$HOME must be an absolute path"@,
            Refusal::UnderTmp => "Can't run under /tmp"@,
        }
    }

    /// What the user is told.
    pub fn message(&self) -> (r: &'static str)
        ensures
            r@ == self.text(),
    {
        match self {
            Refusal::HomeNotAbsolute => "$HOME must be an absolute path",
            Refusal::UnderTmp => "Can't run under /tmp",
        }
    }
}

/// The tree that is hidden: the directory that holds the home directory,
/// or the home directory itself where that is the root.
pub open spec fn hidden_root(home: Seq<char>) -> Seq<char> {
    match parent(home) {
        Some(above) => if above == "/"@ {
            home
        } else {
            above
        },
        None => home,
    }
}

/// What shows in the empty tree. A working directory in the hidden tree is
/// bound at the same place of the new one, which is built at `/tmp`; for
/// another working directory an empty home directory is made.
pub open spec fn shown_ops(home: Seq<char>, cwd: Seq<char>) -> Seq<OpView> {
    match strip_prefix(cwd, hidden_root(home)) {
        Some(below) => seq![
            OpView::Mkdirs { path: join("/tmp"@, below) },
            OpView::mount(cwd, join("/tmp"@, below), ""@, MS_BIND),
        ],
        None => seq![OpView::Mkdirs { path: home }],
    }
}

/// The operations of the setup: the mount tree takes events and passes none
/// on; `proc` and the control groups are mounted anew; an empty tree is
/// built at `/tmp` and moved over the hidden tree; `/tmp` and `/var/tmp` get
/// empty file systems; the working directory is entered again.
pub open spec fn hide_ops(home: Seq<char>, cwd: Seq<char>) -> Seq<OpView> {
    seq![
        OpView::mount(""@, "/"@, ""@, MS_REC | MS_SLAVE),
        OpView::Mkdirs { path: "/proc"@ },
        OpView::mount("none"@, "/proc"@, "proc"@, NOOPT),
        OpView::Mkdirs { path: "/sys/fs/cgroup"@ },
        OpView::mount("none"@, "/sys/fs/cgroup"@, "tmpfs"@, NOOPT),
        OpView::Mkdirs { path: "/sys/fs/cgroup/unified"@ },
        OpView::mount("none"@, "/sys/fs/cgroup/unified"@, "cgroup2"@, NOOPT),
        OpView::mount("none"@, "/tmp"@, "tmpfs"@, NOOPT),
    ] + shown_ops(home, cwd) + seq![
        OpView::mount("/tmp"@, hidden_root(home), ""@, MS_MOVE),
        OpView::mount("none"@, "/tmp"@, "tmpfs"@, NOOPT),
        OpView::Mkdirs { path: "/var/tmp"@ },
        OpView::mount("none"@, "/var/tmp"@, "tmpfs"@, NOOPT),
        OpView::Chdir { path: cwd },
    ]
}

/// The setup for the home directory `home` and the working directory
/// `cwd`, both in canonical form, or why there is none.
pub open spec fn hide_plan(home: Seq<char>, cwd: Seq<char>) -> Result<Seq<OpView>, Refusal> {
    if !is_absolute(home) {
        Err(Refusal::HomeNotAbsolute)
    } else if is_under(cwd, "/tmp"@) {
        Err(Refusal::UnderTmp)
    } else {
        Ok(hide_ops(home, cwd))
    }
}

/// The namespaces that the sandbox enters, with a user namespace where the
/// caller needs one.
pub open spec fn hide_flags(isuser: bool) -> i32 {
    if isuser {
        CLONE_NEWNS | CLONE_NEWPID | CLONE_NEWCGROUP | CLONE_NEWUSER
    } else {
        CLONE_NEWNS | CLONE_NEWPID | CLONE_NEWCGROUP
    }
}

/// The policy of the sandbox that hides the home directories.
#[derive(Debug)]
pub struct HideHome {
    /// Whether the caller lacks `CAP_SYS_ADMIN`, so that the sandbox needs a
    /// user namespace of its own.
    pub isuser: bool,
    /// The command and its arguments.
    pub args: Vec<String>,
}

impl HideHome {
    /// The policy that runs `cmd` with the arguments `args`, for a caller
    /// without privileges.
    pub fn new(cmd: &str, args: &Vec<String>) -> (r: HideHome)
        ensures
            r.isuser,
            texts(r.args@) == seq![cmd@] + texts(args@),
    {
        let mut all: Vec<String> = Vec::new();
        all.push(String::from_str(cmd));
        let mut i: usize = 0;
        assert(texts(all@) =~= seq![cmd@] + texts(args@).take(0));
        while i < args.len()
            invariant
                i <= args@.len(),
                texts(all@) == seq![cmd@] + texts(args@).take(i as int),
            decreases args@.len() - i,
        {
            let ghost before = texts(all@);
            all.push(args[i].clone());
            assert(texts(all@) =~= before.push(args@[i as int]@));
            assert(texts(args@).take(i + 1) =~= texts(args@).take(i as int).push(
                args@[i as int]@,
            ));
            i = i + 1;
        }
        assert(texts(args@).take(i as int) =~= texts(args@));
        HideHome { isuser: true, args: all }
    }

    /// The namespaces to enter.
    pub fn unshare_flags(&self) -> (r: i32)
        ensures
            r == hide_flags(self.isuser),
    {
        if self.isuser {
            CLONE_NEWNS | CLONE_NEWPID | CLONE_NEWCGROUP | CLONE_NEWUSER
        } else {
            CLONE_NEWNS | CLONE_NEWPID | CLONE_NEWCGROUP
        }
    }

    /// The operations that hide the home directories, for the home
    /// directory `home` and the working directory `cwd`, both in canonical
    /// form; or why the sandbox is not set up.
    pub fn setup_priv(&self, home: &str, cwd: &str) -> (r: Result<Vec<Op>, Refusal>)
        ensures
            match r {
                Ok(ops) => hide_plan(home@, cwd@) == Ok::<Seq<OpView>, Refusal>(views(ops@)),
                Err(why) => hide_plan(home@, cwd@) == Err::<Seq<OpView>, Refusal>(why),
            },
    {
        if !path_is_absolute(home) {
            return Err(Refusal::HomeNotAbsolute);
        }
        if path_is_under(cwd, "/tmp") {
            return Err(Refusal::UnderTmp);
        }
        let root = match path_parent(home) {
            Some(above) => {
                if same_text(above.as_str(), "/") {
                    String::from_str(home)
                } else {
                    above
                }
            },
            None => String::from_str(home),
        };
        assert(root@ == hidden_root(home@));
        let mut out: Vec<Op> = Vec::new();
        out.push(Op::mount("", "/", "", MS_REC | MS_SLAVE));
        out.push(Op::Mkdirs { path: String::from_str("/proc") });
        out.push(Op::mount("none", "/proc", "proc", NOOPT));
        out.push(Op::Mkdirs { path: String::from_str("/sys/fs/cgroup") });
        out.push(Op::mount("none", "/sys/fs/cgroup", "tmpfs", NOOPT));
        out.push(Op::Mkdirs { path: String::from_str("/sys/fs/cgroup/unified") });
        out.push(Op::mount("none", "/sys/fs/cgroup/unified", "cgroup2", NOOPT));
        out.push(Op::mount("none", "/tmp", "tmpfs", NOOPT));
        match path_strip_prefix(cwd, root.as_str()) {
            Some(below) => {
                let twd = path_join("/tmp", below.as_str());
                out.push(Op::Mkdirs { path: twd.clone() });
                out.push(Op::mount(cwd, twd.as_str(), "", MS_BIND));
            },
            None => {
                out.push(Op::Mkdirs { path: String::from_str(home) });
            },
        }
        out.push(Op::mount("/tmp", root.as_str(), "", MS_MOVE));
        out.push(Op::mount("none", "/tmp", "tmpfs", NOOPT));
        out.push(Op::Mkdirs { path: String::from_str("/var/tmp") });
        out.push(Op::mount("none", "/var/tmp", "tmpfs", NOOPT));
        out.push(Op::Chdir { path: String::from_str(cwd) });
        assert(views(out@) =~= hide_ops(home@, cwd@));
        Ok(out)
    }
}

} // verus!
