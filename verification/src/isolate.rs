//! The general sandbox: a staged copy of the file-system tree in which only
//! chosen directories can be written, entered with `pivot_root`.
//!
//! The tree is built in a conversation. [`Isolate::step`] takes what the
//! caller reports of the last request and answers with the next one, so that
//! the order of the mounts, and what each depends on, is decided here.

use crate::container::{
    CLONE_NEWCGROUP, CLONE_NEWIPC, CLONE_NEWNET, CLONE_NEWNS, CLONE_NEWPID, CLONE_NEWUSER,
};
use crate::err::{Error, ErrorView};
use crate::fs::{
    Mounts, MountInfoView, MS_BIND, MS_NODEV, MS_NOEXEC, MS_NOSUID, MS_PRIVATE, MS_RDONLY,
    MS_REC, MS_RELATIME, MS_REMOUNT,
};
use crate::ops::{views, Op, OpView};
use crate::path::{is_absolute, is_under, join, path_is_absolute, path_is_under, path_join, path_rebase, rebase};
use crate::proc::{env_lines, environ, first_nul, pairs, texts, Exec, ExecView};
use crate::text::{same_text, text_starts_with};
use vstd::prelude::*;

verus! {

/// The options of the mounts that the sandbox adds: no devices, no set-user-ID
/// programs, no execution.
pub const NOOPT: u64 = MS_NODEV | MS_NOEXEC | MS_NOSUID | MS_RELATIME;

/// The options of the temporary directories that the sandbox adds: as
/// [`NOOPT`], but programs may be executed.
pub const TMPOPT: u64 = MS_NODEV | MS_NOSUID | MS_RELATIME;

/// What the sandbox makes of a directory.
#[derive(Clone, Copy, Debug, PartialEq, Eq, Structural)]
pub enum MountType {
    /// The directory is visible and cannot be written.
    ReadOnly,
    /// The directory is visible and can be written.
    Writable,
    /// An empty temporary file system takes the directory's place.
    Tmp,
}

/// One entry of the mount plan.
#[derive(Debug)]
pub struct PlanItem {
    pub kind: MountType,
    pub path: String,
}

/// A [`PlanItem`] with its path as a sequence of characters.
pub struct PlanItemView {
    pub kind: MountType,
    pub path: Seq<char>,
}

impl View for PlanItem {
    type V = PlanItemView;

    open spec fn view(&self) -> PlanItemView {
        PlanItemView { kind: self.kind, path: self.path@ }
    }
}

impl PlanItem {
    /// The entry that makes `kind` of the directory `path`.
    pub fn new(kind: MountType, path: &str) -> (r: PlanItem)
        ensures
            r@ == (PlanItemView { kind, path: path@ }),
    {
        PlanItem { kind, path: String::from_str(path) }
    }
}

/// The entries of a plan, each by its view.
pub open spec fn plan_view(plan: Seq<PlanItem>) -> Seq<PlanItemView> {
    plan.map_values(|item: PlanItem| item@)
}

/// Whether an entry of `s` is for `path`.
pub open spec fn occurs(s: Seq<PlanItemView>, path: Seq<char>) -> bool {
    exists|j: int| 0 <= j < s.len() && (#[trigger] s[j]).path == path
}

/// The plan without the entries that a later entry for the same path
/// overrides. The entries that stay keep their order.
pub open spec fn dedup(s: Seq<PlanItemView>) -> Seq<PlanItemView>
    decreases s.len(),
{
    if s.len() == 0 {
        Seq::empty()
    } else if occurs(s.skip(1), s[0].path) {
        dedup(s.skip(1))
    } else {
        seq![s[0]] + dedup(s.skip(1))
    }
}

/// The plan that is made of the working directory and of what was asked
/// for: the working directory comes first, as writable, and of two entries
/// for one path the later counts.
pub open spec fn make_plan(cwd: Seq<char>, requested: Seq<PlanItemView>) -> Seq<PlanItemView> {
    dedup(seq![PlanItemView { kind: MountType::Writable, path: cwd }] + requested)
}

/// The plan without its entries for `path`.
pub open spec fn without(s: Seq<PlanItemView>, path: Seq<char>) -> Seq<PlanItemView>
    decreases s.len(),
{
    if s.len() == 0 {
        Seq::empty()
    } else if s[0].path == path {
        without(s.skip(1), path)
    } else {
        seq![s[0]] + without(s.skip(1), path)
    }
}

/// Whether no two entries are for the same path.
pub open spec fn no_path_twice(s: Seq<PlanItemView>) -> bool {
    forall|i: int, j: int| 0 <= i < j < s.len() ==> (#[trigger] s[i]).path != (#[trigger] s[j]).path
}

/// The plan without doubles holds a path only if the plan does, and holds
/// none twice.
proof fn lemma_dedup_distinct(s: Seq<PlanItemView>)
    ensures
        no_path_twice(dedup(s)),
        forall|q: Seq<char>| !occurs(s, q) ==> !occurs(dedup(s), q),
    decreases s.len(),
{
    if s.len() > 0 {
        let t = s.skip(1);
        let d = dedup(s);
        let dt = dedup(t);
        lemma_dedup_distinct(t);
        assert forall|q: Seq<char>| !occurs(s, q) implies !occurs(d, q) by {
            if occurs(d, q) {
                let j = choose|j: int| 0 <= j < d.len() && (#[trigger] d[j]).path == q;
                if !occurs(t, s[0].path) && j == 0 {
                    assert(s[0].path == q);
                } else {
                    let k = if occurs(t, s[0].path) { j } else { j - 1 };
                    assert(dt[k].path == q);
                    assert(occurs(dt, q));
                    assert(occurs(t, q));
                    let m = choose|m: int| 0 <= m < t.len() && (#[trigger] t[m]).path == q;
                    assert(s[m + 1].path == q);
                }
            }
        }
        if !occurs(t, s[0].path) {
            assert forall|i: int, j: int| 0 <= i < j < d.len() implies (#[trigger] d[i]).path != (
            #[trigger] d[j]).path by {
                if i == 0 {
                    assert(dt[j - 1].path == d[j].path);
                    if d[j].path == s[0].path {
                        assert(occurs(dt, s[0].path));
                    }
                } else {
                    assert(dt[i - 1].path != dt[j - 1].path);
                }
            }
        }
    }
}

/// Of two entries for one path the later wins, and the others keep their
/// order: no path is twice in the plan without doubles, and the plan
/// without doubles of a plan with one more entry is made by taking out
/// the entries for the path of the new one and putting the new one at the
/// end.
pub proof fn lemma_dedup_last_wins(s: Seq<PlanItemView>, x: PlanItemView)
    ensures
        no_path_twice(dedup(s)),
        no_path_twice(dedup(s.push(x))),
        dedup(s.push(x)) == without(dedup(s), x.path).push(x),
    decreases s.len(),
{
    lemma_dedup_distinct(s);
    lemma_dedup_distinct(s.push(x));
    if s.len() == 0 {
        let none = Seq::<PlanItemView>::empty();
        assert(s.push(x).skip(1) =~= none);
        assert(dedup(none) =~= none);
        assert(!occurs(none, x.path));
        assert(dedup(s.push(x)) =~= seq![x]);
        assert(dedup(s) =~= none);
        assert(without(none, x.path) =~= none);
        assert(without(dedup(s), x.path).push(x) =~= seq![x]);
    } else {
        let t = s.skip(1);
        let h = s[0];
        lemma_dedup_last_wins(t, x);
        assert(s.push(x).skip(1) =~= t.push(x));
        assert(occurs(t.push(x), h.path) == (occurs(t, h.path) || h.path == x.path)) by {
            if occurs(t, h.path) {
                let m = choose|m: int| 0 <= m < t.len() && (#[trigger] t[m]).path == h.path;
                assert(t.push(x)[m].path == h.path);
            }
            if h.path == x.path {
                assert(t.push(x)[t.len() as int].path == h.path);
            }
            if occurs(t.push(x), h.path) {
                let m = choose|m: int|
                    0 <= m < t.push(x).len() && (#[trigger] t.push(x)[m]).path == h.path;
                if m < t.len() {
                    assert(t[m].path == h.path);
                }
            }
        }
        let dt = dedup(t);
        if occurs(t, h.path) {
            assert(dedup(s) == dt);
        } else {
            assert(dedup(s) == seq![h] + dt);
            assert((seq![h] + dt).skip(1) =~= dt);
            if h.path == x.path {
                assert(without(seq![h] + dt, x.path) == without(dt, x.path));
            } else {
                assert(without(seq![h] + dt, x.path) == seq![h] + without(dt, x.path));
                assert(dedup(s.push(x)) =~= without(dedup(s), x.path).push(x));
            }
        }
    }
}

/// The plan that is made of the working directory `cwd` and of what was
/// asked for.
pub fn plan_for(cwd: &str, requested: Vec<PlanItem>) -> (r: Vec<PlanItem>)
    ensures
        plan_view(r@) == make_plan(cwd@, plan_view(requested@)),
{
    let mut all: Vec<PlanItem> = Vec::new();
    all.push(PlanItem::new(MountType::Writable, cwd));
    let mut rest = requested;
    let ghost tail = plan_view(rest@);
    all.append(&mut rest);
    assert(plan_view(all@) =~= seq![PlanItemView { kind: MountType::Writable, path: cwd@ }]
        + tail);
    dedup_plan(all)
}

/// Removes from a plan the entries that a later entry for the same path
/// overrides.
pub fn dedup_plan(plan: Vec<PlanItem>) -> (r: Vec<PlanItem>)
    ensures
        plan_view(r@) == dedup(plan_view(plan@)),
{
    let ghost s = plan_view(plan@);
    let mut out: Vec<PlanItem> = Vec::new();
    let mut i: usize = 0;
    assert(s.skip(0) =~= s);
    while i < plan.len()
        invariant
            i <= plan@.len(),
            s == plan_view(plan@),
            dedup(s) == plan_view(out@) + dedup(s.skip(i as int)),
        decreases plan@.len() - i,
    {
        let ghost rest = s.skip(i as int);
        let mut later = false;
        let mut j: usize = i + 1;
        while j < plan.len() && !later
            invariant
                i < j <= plan@.len(),
                s == plan_view(plan@),
                rest == s.skip(i as int),
                later ==> occurs(rest.skip(1), rest[0].path),
                !later ==> forall|k: int|
                    0 <= k < j - i - 1 ==> (#[trigger] rest.skip(1)[k]).path != rest[0].path,
            decreases plan@.len() - j + (if later { 0int } else { 1int }),
        {
            if plan[j].path == plan[i].path {
                assert(rest.skip(1)[j - i - 1].path == rest[0].path);
                later = true;
            } else {
                j = j + 1;
            }
        }
        assert(rest.skip(1) =~= s.skip(i + 1));
        if !later {
            let item = PlanItem { kind: plan[i].kind, path: plan[i].path.clone() };
            assert(item@ == rest[0]);
            assert(plan_view(out@.push(item)) =~= plan_view(out@).push(item@));
            assert(plan_view(out@).push(rest[0]) + dedup(s.skip(i + 1)) =~= plan_view(out@) + (
            seq![rest[0]] + dedup(s.skip(i + 1))));
            out.push(item);
        }
        i = i + 1;
    }
    assert(plan_view(out@) + dedup(s.skip(plan@.len() as int)) =~= plan_view(out@));
    out
}

/// The staged root below the staging directory `tdir`.
pub open spec fn staged_root(tdir: Seq<char>) -> Seq<char> {
    join(tdir, "root"@)
}

/// `/proc` in the staged root.
pub open spec fn staged_proc(root: Seq<char>) -> Seq<char> {
    join(root, "proc"@)
}

/// `/tmp` in the staged root.
pub open spec fn staged_tmp(root: Seq<char>) -> Seq<char> {
    join(root, "tmp"@)
}

/// `/dev/shm` in the staged root.
pub open spec fn staged_shm(root: Seq<char>) -> Seq<char> {
    join(join(root, "dev"@), "shm"@)
}

/// `/var/tmp` in the staged root.
pub open spec fn staged_var_tmp(root: Seq<char>) -> Seq<char> {
    join(join(root, "var"@), "tmp"@)
}

/// The place in the staged root at which the old root is parked.
pub open spec fn staged_old_root(root: Seq<char>) -> Seq<char> {
    join(staged_tmp(root), "oldroot"@)
}

/// What comes first: the mount tree is made private, a fresh `proc` is
/// mounted, the whole tree is bound below the staged root, and what would
/// show the outer `/proc` and temporary files there is detached.
pub open spec fn prepare_ops(tdir: Seq<char>) -> Seq<OpView> {
    let root = staged_root(tdir);
    seq![
        OpView::mount(""@, "/"@, ""@, MS_REC | MS_PRIVATE),
        OpView::mount("proc"@, "/proc"@, "proc"@, NOOPT),
        OpView::Mkdir { path: root },
        OpView::mount("/"@, root, ""@, MS_BIND | MS_REC),
        OpView::UmountLazy { path: staged_proc(root) },
        OpView::MaybeUmountLazy { path: staged_shm(root) },
        OpView::MaybeUmountLazy { path: staged_tmp(root) },
        OpView::MaybeUmountLazy { path: staged_var_tmp(root) },
    ]
}

/// Whether a mount of this type is detached where the caller is no root.
pub open spec fn is_control_fs(fstype: Seq<char>) -> bool {
    fstype == "cgroup"@ || fstype == "cgroup2"@ || fstype == "debugfs"@
}

/// Whether a mount is one to make read-only: it is not read-only yet, and
/// it is a device below `/dev/` or a file system in memory.
pub open spec fn is_hardened(m: MountInfoView) -> bool {
    &&& m.options & MS_RDONLY == 0
    &&& ("/dev/"@.is_prefix_of(m.source) || m.fstype == "tmpfs"@ || m.fstype == "ramfs"@)
}

/// The flags that remount read-only a mount with the options `options`.
pub open spec fn readonly_flags(options: u64) -> u64 {
    options | MS_REMOUNT | MS_RDONLY | MS_BIND
}

/// What is done to one mount of the staged tree. A mount outside `root` is
/// left alone. Where the caller is no root (`isuser`), control-group and
/// debug file systems are detached, and a refusal to remount is put up with.
pub open spec fn harden_one(isuser: bool, root: Seq<char>, m: MountInfoView) -> Seq<OpView> {
    if !is_under(m.mount_point, root) {
        Seq::empty()
    } else {
        let detach = if isuser && is_control_fs(m.fstype) {
            seq![OpView::UmountLazy { path: m.mount_point }]
        } else {
            Seq::empty()
        };
        let remount = if !is_hardened(m) {
            Seq::empty()
        } else if isuser {
            seq![OpView::maybe_mount(""@, m.mount_point, ""@, readonly_flags(m.options))]
        } else {
            seq![OpView::mount(""@, m.mount_point, ""@, readonly_flags(m.options))]
        };
        detach + remount
    }
}

/// What is done to the mounts `entries`, one after the other.
pub open spec fn harden_ops(isuser: bool, root: Seq<char>, entries: Seq<MountInfoView>) -> Seq<
    OpView,
>
    decreases entries.len(),
{
    if entries.len() == 0 {
        Seq::empty()
    } else {
        harden_ops(isuser, root, entries.drop_last()) + harden_one(isuser, root, entries.last())
    }
}

/// The fresh mounts of the staged root: `proc`, and empty temporary file
/// systems at `/tmp`, `/dev/shm` and `/var/tmp`.
pub open spec fn overlay_ops(root: Seq<char>) -> Seq<OpView> {
    seq![
        OpView::mount("none"@, staged_proc(root), "proc"@, NOOPT),
        OpView::mount("none"@, staged_tmp(root), "tmpfs"@, TMPOPT),
        OpView::mount("none"@, staged_shm(root), "tmpfs"@, NOOPT),
        OpView::mount("none"@, staged_var_tmp(root), "tmpfs"@, TMPOPT),
    ]
}

/// The place of a directory of the plan in the staged root.
pub open spec fn target_of(root: Seq<char>, path: Seq<char>) -> Seq<char> {
    rebase(root, path).unwrap()
}

/// The bind mount that shows `path` in the staged root.
pub open spec fn bind_op(root: Seq<char>, path: Seq<char>) -> OpView {
    OpView::mount(path, target_of(root, path), ""@, MS_BIND)
}

/// The mount that makes read-only the bind mount of `path`, which has the
/// options `options`.
pub open spec fn readonly_op(root: Seq<char>, path: Seq<char>, options: u64) -> OpView {
    OpView::mount(""@, target_of(root, path), ""@, readonly_flags(options))
}

/// What makes `path` writable in the staged root. Where its place exists,
/// the directory is bound there. Where it is missing and `path` lies in
/// `/tmp`, whose staged copy is empty, the directories are made first. Else
/// nothing is done.
pub open spec fn writable_ops(root: Seq<char>, path: Seq<char>, exists: bool) -> Seq<OpView> {
    if exists {
        seq![bind_op(root, path)]
    } else if is_under(path, "/tmp"@) {
        seq![OpView::CloneDirs { src: path, target: root }, bind_op(root, path)]
    } else {
        Seq::empty()
    }
}

/// The temporary file systems of the plan, in the plan's order.
pub open spec fn tmp_ops(root: Seq<char>, plan: Seq<PlanItemView>) -> Seq<OpView>
    decreases plan.len(),
{
    if plan.len() == 0 {
        Seq::empty()
    } else if plan.last().kind == MountType::Tmp {
        tmp_ops(root, plan.drop_last()).push(
            OpView::mount(""@, target_of(root, plan.last().path), "tmpfs"@, MS_NODEV | MS_NOSUID),
        )
    } else {
        tmp_ops(root, plan.drop_last())
    }
}

/// What comes last: the old root is parked below the staged `/tmp`, the
/// outer `/proc` is detached, the staged root becomes the root, and the old
/// root is detached and its directory removed.
pub open spec fn pivot_ops(root: Seq<char>) -> Seq<OpView> {
    seq![
        OpView::Mkdir { path: staged_old_root(root) },
        OpView::UmountLazy { path: "/proc"@ },
        OpView::Chdir { path: root },
        OpView::PivotRoot { new_root: "."@, old_root: "tmp/oldroot"@ },
        OpView::Chdir { path: "/"@ },
        OpView::UmountLazy { path: "/tmp/oldroot"@ },
        OpView::Rmdir { path: "/tmp/oldroot"@ },
    ]
}

/// The namespaces that the sandbox enters: mounts, process IDs, control
/// groups and inter-process communication always, the network unless it is
/// allowed, users where the caller needs a user namespace.
pub open spec fn isolate_flags(isuser: bool, allownet: bool) -> i32 {
    let base = CLONE_NEWNS | CLONE_NEWPID | CLONE_NEWCGROUP | CLONE_NEWIPC;
    let net = if allownet {
        base
    } else {
        base | CLONE_NEWNET
    };
    if isuser {
        net | CLONE_NEWUSER
    } else {
        net
    }
}

/// The variables of the caller and, after them, the one that tells the
/// command that it runs in the sandbox.
pub open spec fn marked(vars: Seq<(Seq<char>, Seq<char>)>) -> Seq<(Seq<char>, Seq<char>)> {
    vars.push(("VIRTUAL_ENV"@, "isolated"@))
}

/// Whether every entry of the plan has an absolute path.
pub open spec fn plan_is_absolute(plan: Seq<PlanItemView>) -> bool {
    forall|i: int| 0 <= i < plan.len() ==> is_absolute((#[trigger] plan[i]).path)
}

/// How far the tree has been built: what was asked of the caller last.
#[derive(Clone, Copy, Debug, PartialEq, Eq, Structural)]
pub enum Phase {
    /// Nothing was asked yet.
    Start,
    /// The network of the new namespace is being set up.
    Network,
    /// The operations that stage the root are running.
    Staging,
    /// The mounts of the staged tree are being read.
    Reading,
    /// Operations are running, and the entries of the plan before this index
    /// are dealt with.
    Binding(usize),
    /// The bind mount of the read-only entry with this index is being made.
    Bound(usize),
    /// The options of the bind mount of the entry with this index are being
    /// looked up.
    Checking(usize),
    /// The place of the writable entry with this index is being probed.
    Probing(usize),
    /// The temporary file systems of the plan are being mounted.
    Overlaying,
    /// The root is being switched.
    Pivoting,
    /// The tree is built.
    Done,
}

/// What the caller is asked to do next.
#[derive(Debug)]
pub enum Request {
    /// Bring the loopback interface up and add the dummy bridge.
    Network,
    /// Perform the operations in order; end the setup at the first that
    /// [`Op::settle`] does not let pass.
    Run(Vec<Op>),
    /// Read the mounts of this process.
    ReadMounts,
    /// Say whether the path exists.
    Probe(String),
    /// Read the mounts of this process again and say which options the mount
    /// has that covers the path.
    Lookup(String),
    /// Nothing: the tree is built.
    Finished,
}

/// A [`Request`] with its strings and operations by their views.
pub enum RequestView {
    Network,
    Run(Seq<OpView>),
    ReadMounts,
    Probe(Seq<char>),
    Lookup(Seq<char>),
    Finished,
}

impl View for Request {
    type V = RequestView;

    open spec fn view(&self) -> RequestView {
        match self {
            Request::Network => RequestView::Network,
            Request::Run(ops) => RequestView::Run(views(ops@)),
            Request::ReadMounts => RequestView::ReadMounts,
            Request::Probe(path) => RequestView::Probe(path@),
            Request::Lookup(path) => RequestView::Lookup(path@),
            Request::Finished => RequestView::Finished,
        }
    }
}

/// What the caller reports of the last request.
#[derive(Debug)]
pub enum Reply {
    /// Nothing yet: the conversation starts.
    Begin,
    /// The network is set up, or the operations were performed.
    Done,
    /// The mounts of this process.
    Mounts(Mounts),
    /// Whether the path exists.
    Exists(bool),
    /// The options of the mount that covers the path.
    Options(u64),
}

/// A [`Reply`] with the mounts as the sequence of its entries.
pub enum ReplyView {
    Begin,
    Done,
    Mounts(Seq<MountInfoView>),
    Exists(bool),
    Options(u64),
}

impl View for Reply {
    type V = ReplyView;

    open spec fn view(&self) -> ReplyView {
        match self {
            Reply::Begin => ReplyView::Begin,
            Reply::Done => ReplyView::Done,
            Reply::Mounts(m) => ReplyView::Mounts(m.entries()),
            Reply::Exists(b) => ReplyView::Exists(*b),
            Reply::Options(o) => ReplyView::Options(*o),
        }
    }
}

/// The policy of the general sandbox.
#[derive(Debug)]
pub struct Isolate {
    /// Whether the caller lacks `CAP_SYS_ADMIN`, so that the sandbox needs a
    /// user namespace of its own.
    pub isuser: bool,
    /// Whether the command keeps the network of the caller.
    pub allownet: bool,
    /// The command and its arguments.
    pub args: Vec<String>,
    /// The staging directory.
    pub tdir: String,
    /// The mount plan.
    pub mounts: Vec<PlanItem>,
    /// The working directory of the command.
    pub cwd: String,
}

impl Isolate {
    /// The mount plan, each entry by its view.
    pub open spec fn plan(&self) -> Seq<PlanItemView> {
        plan_view(self.mounts@)
    }

    /// The staged root.
    pub open spec fn root(&self) -> Seq<char> {
        staged_root(self.tdir@)
    }

    /// What the policy needs to hold: every path of the plan is absolute.
    pub open spec fn wf(&self) -> bool {
        plan_is_absolute(self.plan())
    }

    /// What is asked once the entries of the plan before index `i` are dealt
    /// with. Entries for temporary file systems are passed over: they come
    /// when all binds are made, so that they lie on top.
    pub open spec fn dispatch(&self, i: int) -> (Phase, RequestView)
        decreases self.plan().len() - i,
    {
        if i < 0 || i >= self.plan().len() {
            (Phase::Overlaying, RequestView::Run(tmp_ops(self.root(), self.plan())))
        } else {
            let item = self.plan()[i];
            match item.kind {
                MountType::Tmp => self.dispatch(i + 1),
                MountType::ReadOnly => (
                    Phase::Bound(i as usize),
                    RequestView::Run(seq![bind_op(self.root(), item.path)]),
                ),
                MountType::Writable => (
                    Phase::Probing(i as usize),
                    RequestView::Probe(target_of(self.root(), item.path)),
                ),
            }
        }
    }

    /// The next phase and request, given the phase and what the caller
    /// reports of its request. `None` where the report does not answer the
    /// request of the phase.
    pub open spec fn next(&self, phase: Phase, reply: ReplyView) -> Option<(Phase, RequestView)> {
        let staging = (Phase::Staging, RequestView::Run(prepare_ops(self.tdir@)));
        match (phase, reply) {
            (Phase::Start, ReplyView::Begin) => if self.allownet {
                Some(staging)
            } else {
                Some((Phase::Network, RequestView::Network))
            },
            (Phase::Network, ReplyView::Done) => Some(staging),
            (Phase::Staging, ReplyView::Done) => Some((Phase::Reading, RequestView::ReadMounts)),
            (Phase::Reading, ReplyView::Mounts(entries)) => Some(
                (
                    Phase::Binding(0),
                    RequestView::Run(
                        harden_ops(self.isuser, self.root(), entries) + overlay_ops(self.root()),
                    ),
                ),
            ),
            (Phase::Binding(i), ReplyView::Done) => Some(self.dispatch(i as int)),
            (Phase::Bound(i), ReplyView::Done) => if i < self.plan().len() {
                Some(
                    (
                        Phase::Checking(i),
                        RequestView::Lookup(target_of(self.root(), self.plan()[i as int].path)),
                    ),
                )
            } else {
                None
            },
            (Phase::Checking(i), ReplyView::Options(options)) => if i < self.plan().len() {
                Some(
                    (
                        Phase::Binding((i + 1) as usize),
                        RequestView::Run(
                            seq![readonly_op(self.root(), self.plan()[i as int].path, options)],
                        ),
                    ),
                )
            } else {
                None
            },
            (Phase::Probing(i), ReplyView::Exists(exists)) => if i < self.plan().len() {
                Some(
                    (
                        Phase::Binding((i + 1) as usize),
                        RequestView::Run(
                            writable_ops(self.root(), self.plan()[i as int].path, exists),
                        ),
                    ),
                )
            } else {
                None
            },
            (Phase::Overlaying, ReplyView::Done) => Some(
                (Phase::Pivoting, RequestView::Run(pivot_ops(self.root()))),
            ),
            (Phase::Pivoting, ReplyView::Done) => Some((Phase::Done, RequestView::Finished)),
            _ => None,
        }
    }
}

/// Appending an operation to a list appends its view to the list's views.
proof fn lemma_views_push(ops: Seq<Op>, op: Op)
    ensures
        views(ops.push(op)) == views(ops).push(op@),
{
    assert(views(ops.push(op)) =~= views(ops).push(op@));
}

/// Appends to `out` what is done to the mount `m` of the staged tree.
fn harden_mount(out: &mut Vec<Op>, isuser: bool, root: &str, m: &crate::fs::MountInfo)
    ensures
        views(final(out)@) == views(old(out)@) + harden_one(isuser, root@, m@),
{
    let mp = m.mount_point.as_str();
    if !path_is_under(mp, root) {
        assert(views(out@) =~= views(old(out)@) + harden_one(isuser, root@, m@));
        return ;
    }
    let fstype = m.fstype.as_str();
    if isuser && (same_text(fstype, "cgroup") || same_text(fstype, "cgroup2") || same_text(
        fstype,
        "debugfs",
    )) {
        proof {
            lemma_views_push(out@, Op::UmountLazy { path: m.mount_point });
        }
        out.push(Op::UmountLazy { path: m.mount_point.clone() });
    }
    let hardened = !m.has_option(MS_RDONLY) && (text_starts_with(m.source.as_str(), "/dev/")
        || same_text(fstype, "tmpfs") || same_text(fstype, "ramfs"));
    if hardened {
        let flags: u64 = m.options | MS_REMOUNT | MS_RDONLY | MS_BIND;
        let op = if isuser {
            Op::maybe_mount("", mp, "", flags)
        } else {
            Op::mount("", mp, "", flags)
        };
        proof {
            lemma_views_push(out@, op);
        }
        out.push(op);
    }
    assert(views(out@) =~= views(old(out)@) + harden_one(isuser, root@, m@));
}

impl Isolate {
    /// Whether every path of the plan is absolute.
    pub fn is_wf(&self) -> (r: bool)
        ensures
            r == self.wf(),
    {
        let mut i: usize = 0;
        while i < self.mounts.len()
            invariant
                i <= self.mounts@.len(),
                forall|j: int| 0 <= j < i ==> is_absolute((#[trigger] self.plan()[j]).path),
            decreases self.mounts@.len() - i,
        {
            if !path_is_absolute(self.mounts[i].path.as_str()) {
                assert(!is_absolute(self.plan()[i as int].path));
                return false;
            }
            i = i + 1;
        }
        true
    }

    /// The namespaces to enter.
    pub fn unshare_flags(&self) -> (r: i32)
        ensures
            r == isolate_flags(self.isuser, self.allownet),
    {
        let mut flags: i32 = CLONE_NEWNS | CLONE_NEWPID | CLONE_NEWCGROUP | CLONE_NEWIPC;
        if !self.allownet {
            flags = flags | CLONE_NEWNET;
        }
        if self.isuser {
            flags = flags | CLONE_NEWUSER;
        }
        flags
    }

    /// The command to run in the sandbox: the program `args[0]` with all
    /// of `args` as its arguments, and with the variables `vars` of the
    /// caller and `VIRTUAL_ENV=isolated` as its environment.
    /// `Error::BadStr` where one of the strings holds a NUL.
    pub fn command(&self, vars: &Vec<(String, String)>) -> (r: Result<Exec, Error>)
        requires
            self.args@.len() > 0,
        ensures
            match r {
                Ok(exec) => {
                    &&& first_nul(texts(self.args@), 0) == self.args@.len()
                    &&& first_nul(env_lines(marked(pairs(vars@))), 0) == vars@.len() + 1
                    &&& exec@ == (ExecView {
                        cmd: self.args@[0]@,
                        args: texts(self.args@),
                        env: environ(marked(pairs(vars@))),
                    })
                },
                Err(e) => {
                    &&& e@ == ErrorView::BadStr
                    &&& first_nul(texts(self.args@), 0) < self.args@.len() || first_nul(
                        env_lines(marked(pairs(vars@))),
                        0,
                    ) < vars@.len() + 1
                },
            },
    {
        let mut all: Vec<(String, String)> = Vec::new();
        let mut i: usize = 0;
        assert(pairs(all@) =~= pairs(vars@).take(0));
        while i < vars.len()
            invariant
                i <= vars@.len(),
                pairs(all@) == pairs(vars@).take(i as int),
            decreases vars@.len() - i,
        {
            let ghost before = pairs(all@);
            let pair = (vars[i].0.clone(), vars[i].1.clone());
            all.push(pair);
            assert(pairs(all@) =~= before.push(pairs(vars@)[i as int]));
            assert(pairs(vars@).take(i + 1) =~= before.push(pairs(vars@)[i as int]));
            i = i + 1;
        }
        assert(pairs(vars@).take(i as int) =~= pairs(vars@));
        all.push((String::from_str("VIRTUAL_ENV"), String::from_str("isolated")));
        assert(pairs(all@) =~= marked(pairs(vars@)));
        Exec::for_args(&self.args, &all)
    }

    /// The staged root.
    pub fn new_root(&self) -> (r: String)
        ensures
            r@ == self.root(),
    {
        path_join(self.tdir.as_str(), "root")
    }

    /// The place of the entry with index `i` in the staged root.
    fn target(&self, root: &str, i: usize) -> (r: String)
        requires
            self.wf(),
            i < self.plan().len(),
        ensures
            r@ == target_of(root@, self.plan()[i as int].path),
    {
        assert(is_absolute(self.plan()[i as int].path));
        match path_rebase(root, self.mounts[i].path.as_str()) {
            Some(t) => t,
            None => String::new(),
        }
    }

    /// The operations that stage the root.
    pub fn prepare(&self) -> (r: Vec<Op>)
        ensures
            views(r@) == prepare_ops(self.tdir@),
    {
        let root = self.new_root();
        let dev = path_join(root.as_str(), "dev");
        let var = path_join(root.as_str(), "var");
        let mut out: Vec<Op> = Vec::new();
        out.push(Op::mount("", "/", "", MS_REC | MS_PRIVATE));
        out.push(Op::mount("proc", "/proc", "proc", NOOPT));
        out.push(Op::Mkdir { path: root.clone() });
        out.push(Op::mount("/", root.as_str(), "", MS_BIND | MS_REC));
        out.push(Op::UmountLazy { path: path_join(root.as_str(), "proc") });
        out.push(Op::MaybeUmountLazy { path: path_join(dev.as_str(), "shm") });
        out.push(Op::MaybeUmountLazy { path: path_join(root.as_str(), "tmp") });
        out.push(Op::MaybeUmountLazy { path: path_join(var.as_str(), "tmp") });
        assert(views(out@) =~= prepare_ops(self.tdir@));
        out
    }

    /// What makes the mounts of the staged tree safe, followed by the fresh
    /// mounts of the staged root.
    pub fn harden(&self, mounts: &Mounts) -> (r: Vec<Op>)
        ensures
            views(r@) == harden_ops(self.isuser, self.root(), mounts.entries()) + overlay_ops(
                self.root(),
            ),
    {
        let root = self.new_root();
        let ghost entries = mounts.entries();
        let mut out: Vec<Op> = Vec::new();
        let mut i: usize = 0;
        assert(views(out@) =~= harden_ops(self.isuser, root@, entries.take(0)));
        while i < mounts.len()
            invariant
                i <= entries.len(),
                entries == mounts.entries(),
                root@ == self.root(),
                views(out@) == harden_ops(self.isuser, root@, entries.take(i as int)),
            decreases entries.len() - i,
        {
            assert(entries.take(i + 1).drop_last() =~= entries.take(i as int));
            harden_mount(&mut out, self.isuser, root.as_str(), mounts.at(i));
            i = i + 1;
        }
        assert(entries.take(i as int) =~= entries);
        let ghost hardened = out@;
        let dev = path_join(root.as_str(), "dev");
        let var = path_join(root.as_str(), "var");
        out.push(Op::mount("none", path_join(root.as_str(), "proc").as_str(), "proc", NOOPT));
        out.push(Op::mount("none", path_join(root.as_str(), "tmp").as_str(), "tmpfs", TMPOPT));
        out.push(Op::mount("none", path_join(dev.as_str(), "shm").as_str(), "tmpfs", NOOPT));
        out.push(Op::mount("none", path_join(var.as_str(), "tmp").as_str(), "tmpfs", TMPOPT));
        assert(views(out@) =~= views(hardened) + overlay_ops(self.root()));
        out
    }

    /// The temporary file systems of the plan.
    pub fn overlay(&self) -> (r: Vec<Op>)
        requires
            self.wf(),
        ensures
            views(r@) == tmp_ops(self.root(), self.plan()),
    {
        let root = self.new_root();
        let mut out: Vec<Op> = Vec::new();
        let mut i: usize = 0;
        assert(views(out@) =~= tmp_ops(root@, self.plan().take(0)));
        while i < self.mounts.len()
            invariant
                self.wf(),
                i <= self.plan().len(),
                root@ == self.root(),
                views(out@) == tmp_ops(root@, self.plan().take(i as int)),
            decreases self.plan().len() - i,
        {
            assert(self.plan().take(i + 1).drop_last() =~= self.plan().take(i as int));
            match self.mounts[i].kind {
                MountType::Tmp => {
                    let target = self.target(root.as_str(), i);
                    let op = Op::mount("", target.as_str(), "tmpfs", MS_NODEV | MS_NOSUID);
                    proof {
                        lemma_views_push(out@, op);
                    }
                    out.push(op);
                },
                _ => {},
            }
            i = i + 1;
        }
        assert(self.plan().take(i as int) =~= self.plan());
        out
    }

    /// The operations that switch the root.
    pub fn pivot(&self) -> (r: Vec<Op>)
        ensures
            views(r@) == pivot_ops(self.root()),
    {
        let root = self.new_root();
        let tmp = path_join(root.as_str(), "tmp");
        let mut out: Vec<Op> = Vec::new();
        out.push(Op::Mkdir { path: path_join(tmp.as_str(), "oldroot") });
        out.push(Op::UmountLazy { path: String::from_str("/proc") });
        out.push(Op::Chdir { path: root });
        out.push(
            Op::PivotRoot {
                new_root: String::from_str("."),
                old_root: String::from_str("tmp/oldroot"),
            },
        );
        out.push(Op::Chdir { path: String::from_str("/") });
        out.push(Op::UmountLazy { path: String::from_str("/tmp/oldroot") });
        out.push(Op::Rmdir { path: String::from_str("/tmp/oldroot") });
        assert(views(out@) =~= pivot_ops(self.root()));
        out
    }

    /// The bind mount that shows the entry with index `i` in the staged root.
    fn bind(&self, root: &str, i: usize) -> (r: Op)
        requires
            self.wf(),
            i < self.plan().len(),
        ensures
            r@ == bind_op(root@, self.plan()[i as int].path),
    {
        let target = self.target(root, i);
        Op::mount(self.mounts[i].path.as_str(), target.as_str(), "", MS_BIND)
    }

    /// What makes the entry with index `i` writable, given whether its place
    /// in the staged root exists.
    fn writable(&self, i: usize, exists: bool) -> (r: Vec<Op>)
        requires
            self.wf(),
            i < self.plan().len(),
        ensures
            views(r@) == writable_ops(self.root(), self.plan()[i as int].path, exists),
    {
        let root = self.new_root();
        let path = self.mounts[i].path.as_str();
        let mut out: Vec<Op> = Vec::new();
        if exists {
            out.push(self.bind(root.as_str(), i));
        } else if path_is_under(path, "/tmp") {
            out.push(Op::CloneDirs { src: String::from_str(path), target: root.clone() });
            out.push(self.bind(root.as_str(), i));
        }
        assert(views(out@) =~= writable_ops(self.root(), self.plan()[i as int].path, exists));
        out
    }

    /// What is asked once the entries of the plan before index `i` are dealt
    /// with.
    fn proceed(&self, i: usize) -> (r: (Phase, Request))
        requires
            self.wf(),
        ensures
            r.0 == self.dispatch(i as int).0,
            r.1@ == self.dispatch(i as int).1,
    {
        let mut k: usize = i;
        while k < self.mounts.len() && self.mounts[k].kind == MountType::Tmp
            invariant
                self.dispatch(i as int) == self.dispatch(k as int),
            decreases self.plan().len() - k,
        {
            k = k + 1;
        }
        if k >= self.mounts.len() {
            return (Phase::Overlaying, Request::Run(self.overlay()));
        }
        let root = self.new_root();
        match self.mounts[k].kind {
            MountType::ReadOnly => {
                let mut ops: Vec<Op> = Vec::new();
                ops.push(self.bind(root.as_str(), k));
                assert(views(ops@) =~= seq![bind_op(self.root(), self.plan()[k as int].path)]);
                (Phase::Bound(k), Request::Run(ops))
            },
            _ => (Phase::Probing(k), Request::Probe(self.target(root.as_str(), k))),
        }
    }

    /// The next phase and request. `phase` is the phase that the last call
    /// returned (`Phase::Start` for the first), and `reply` is what came of
    /// the request that it returned with it (`Reply::Begin` for the first).
    /// `None` where the reply does not answer that request.
    pub fn step(&self, phase: Phase, reply: &Reply) -> (r: Option<(Phase, Request)>)
        requires
            self.wf(),
        ensures
            r.is_some() == self.next(phase, reply@).is_some(),
            r matches Some(pq) ==> pq.0 == self.next(phase, reply@).unwrap().0 && pq.1@
                == self.next(phase, reply@).unwrap().1,
    {
        match (phase, reply) {
            (Phase::Start, Reply::Begin) => {
                if self.allownet {
                    Some((Phase::Staging, Request::Run(self.prepare())))
                } else {
                    Some((Phase::Network, Request::Network))
                }
            },
            (Phase::Network, Reply::Done) => Some((Phase::Staging, Request::Run(self.prepare()))),
            (Phase::Staging, Reply::Done) => Some((Phase::Reading, Request::ReadMounts)),
            (Phase::Reading, Reply::Mounts(mounts)) => Some(
                (Phase::Binding(0), Request::Run(self.harden(mounts))),
            ),
            (Phase::Binding(i), Reply::Done) => Some(self.proceed(i)),
            (Phase::Bound(i), Reply::Done) => {
                if i < self.mounts.len() {
                    let root = self.new_root();
                    Some((Phase::Checking(i), Request::Lookup(self.target(root.as_str(), i))))
                } else {
                    None
                }
            },
            (Phase::Checking(i), Reply::Options(options)) => {
                if i < self.mounts.len() {
                    let root = self.new_root();
                    let target = self.target(root.as_str(), i);
                    let mut ops: Vec<Op> = Vec::new();
                    ops.push(
                        Op::mount(
                            "",
                            target.as_str(),
                            "",
                            *options | MS_REMOUNT | MS_RDONLY | MS_BIND,
                        ),
                    );
                    assert(views(ops@) =~= seq![
                        readonly_op(self.root(), self.plan()[i as int].path, *options),
                    ]);
                    Some((Phase::Binding(i + 1), Request::Run(ops)))
                } else {
                    None
                }
            },
            (Phase::Probing(i), Reply::Exists(exists)) => {
                if i < self.mounts.len() {
                    Some((Phase::Binding(i + 1), Request::Run(self.writable(i, *exists))))
                } else {
                    None
                }
            },
            (Phase::Overlaying, Reply::Done) => Some(
                (Phase::Pivoting, Request::Run(self.pivot())),
            ),
            (Phase::Pivoting, Reply::Done) => Some((Phase::Done, Request::Finished)),
            _ => None,
        }
    }
}

/// How far a phase is on the way from `Phase::Start` to `Phase::Done`, for a
/// plan of `len` entries.
pub open spec fn progress(phase: Phase, len: nat) -> int {
    match phase {
        Phase::Start => 0,
        Phase::Network => 1,
        Phase::Staging => 2,
        Phase::Reading => 3,
        Phase::Binding(i) => 4 + 3 * i,
        Phase::Bound(i) => 5 + 3 * i,
        Phase::Probing(i) => 5 + 3 * i,
        Phase::Checking(i) => 6 + 3 * i,
        Phase::Overlaying => 5 + 3 * (len as int),
        Phase::Pivoting => 6 + 3 * (len as int),
        Phase::Done => 7 + 3 * (len as int),
    }
}

/// Whether a phase is one of a plan of `len` entries.
pub open spec fn in_plan(phase: Phase, len: nat) -> bool {
    match phase {
        Phase::Binding(i) => i <= len,
        Phase::Bound(i) => i < len,
        Phase::Probing(i) => i < len,
        Phase::Checking(i) => i < len,
        _ => true,
    }
}

impl Isolate {
    /// What is asked once the entries before `i` are dealt with lies
    /// further on than `Phase::Binding(i)`.
    proof fn lemma_dispatch_advances(&self, i: int)
        requires
            0 <= i <= self.plan().len() <= usize::MAX,
        ensures
            in_plan(self.dispatch(i).0, self.plan().len()),
            progress(self.dispatch(i).0, self.plan().len()) > 4 + 3 * i,
        decreases self.plan().len() - i,
    {
        if i < self.plan().len() && self.plan()[i].kind == MountType::Tmp {
            self.lemma_dispatch_advances(i + 1);
        }
    }

    /// The conversation moves on and ends: every step leads to a phase that
    /// lies further on, and `Phase::Done` is the last. So the temporary file
    /// systems, which are mounted in `Phase::Overlaying`, come after every
    /// bind mount, and the root is switched after all of them.
    pub proof fn lemma_step_advances(&self, phase: Phase, reply: ReplyView)
        requires
            self.plan().len() <= usize::MAX,
            in_plan(phase, self.plan().len()),
            self.next(phase, reply) is Some,
        ensures
            in_plan(self.next(phase, reply).unwrap().0, self.plan().len()),
            progress(phase, self.plan().len()) < progress(
                self.next(phase, reply).unwrap().0,
                self.plan().len(),
            ) <= progress(Phase::Done, self.plan().len()),
    {
        match phase {
            Phase::Binding(i) => {
                self.lemma_dispatch_advances(i as int);
            },
            _ => {},
        }
    }
}

} // verus!
