//! The life of a container: three processes and five hooks.
//!
//! The caller of `runc` (the parent) forks a child, which enters the new
//! namespaces and forks a grandchild, the first process of the container.
//! Parent and child meet at a pair of sockets: the child says that it has
//! unshared, the parent maps the child's IDs and lets it go on.
//!
//! Each process asks [`advance`] what to do next, performs that, and comes
//! back with what happened. [`lemma_hooks_in_order`] shows that the hooks
//! run in one order whatever happens.

use crate::capability::{Cap, CAP_SETGID, CAP_SETUID};
use crate::err::{Error, ErrorView};
use crate::text::{decimal, push_decimal, push_signed, signed_decimal};
use vstd::prelude::*;

verus! {

/// A mount namespace of its own.
pub const CLONE_NEWNS: i32 = 0x0002_0000;

/// A control-group namespace of its own.
pub const CLONE_NEWCGROUP: i32 = 0x0200_0000;

/// An inter-process communication namespace of its own.
pub const CLONE_NEWIPC: i32 = 0x0800_0000;

/// A user namespace of its own.
pub const CLONE_NEWUSER: i32 = 0x1000_0000;

/// A process-ID namespace of its own.
pub const CLONE_NEWPID: i32 = 0x2000_0000;

/// A network namespace of its own.
pub const CLONE_NEWNET: i32 = 0x4000_0000;

/// The byte that says "go on" at the socket pair.
pub const GO: u8 = 0x2e;

/// The byte by which the child says that it could not unshare.
pub const STOP: u8 = 0x58;

/// The points at which the policy of a container is asked.
#[derive(Clone, Copy, Debug, PartialEq, Eq, Structural)]
pub enum Hook {
    /// In the parent, before the child is forked.
    AtStart,
    /// In the child: enter the new namespaces.
    Unshare,
    /// In the parent: map the IDs of the child.
    SetIdMap,
    /// In the grandchild, with all capabilities.
    SetupPriv,
    /// In the grandchild, without capabilities: run the command.
    Setup,
}

/// What a process is told to do.
#[derive(Clone, Copy, Debug, PartialEq, Eq, Structural)]
pub enum Action {
    /// Call the hook.
    Call(Hook),
    /// Make the socket pair and fork the child, which starts at
    /// `Stage::ChildStart`.
    ForkChild,
    /// Fork the grandchild, which starts at `Stage::GrandchildStart`.
    ForkGrandchild,
    /// Read one byte from the socket.
    Receive,
    /// Write the byte to the socket.
    Send(u8),
    /// Set the effective group and user to the real ones, then clear all
    /// capability masks.
    DropPrivileges,
    /// Set the effective group and user to the real ones, then make every
    /// permitted capability effective.
    Activate,
    /// Clear all capability masks.
    ClearCaps,
    /// Wait until the process that was forked exits.
    Park,
    /// Leave `runc` with this exit code of the container.
    Return(i32),
    /// Leave `runc` with the error that was met.
    Fail,
    /// Exit from the process with the code `code`; with `hint`, first tell
    /// the user how unprivileged user namespaces are enabled.
    Exit { code: i32, hint: bool },
}

/// What happened to the action of a process.
#[derive(Clone, Copy, Debug, PartialEq, Eq, Structural)]
pub enum Event {
    /// Nothing yet: the process starts.
    Start,
    /// The action was performed.
    Done,
    /// The action failed; `denied` where the cause was a refusal for want
    /// of permission.
    Failed { denied: bool },
    /// This byte was read.
    Byte(u8),
    /// The other end of the socket was closed before a byte came.
    Closed,
    /// The process that was parked exited with this code.
    Exited(i32),
}

/// What a process is waiting for.
#[derive(Clone, Copy, Debug, PartialEq, Eq, Structural)]
pub enum Stage {
    /// The parent has not begun.
    ParentStart,
    /// The parent runs the hook `AtStart`.
    AtStart,
    /// The parent forks the child.
    ForkingChild,
    /// The parent reads what the child says.
    AwaitingChild,
    /// The parent runs the hook `SetIdMap`.
    MappingIds,
    /// The parent tells the child to go on.
    ReleasingChild,
    /// The parent gives up its privileges.
    ParentDropping,
    /// The parent waits for the child to exit.
    ParkingChild,
    /// The child has not begun.
    ChildStart,
    /// The child runs the hook `Unshare`.
    Unsharing,
    /// The child tells the parent that it has unshared.
    Announcing,
    /// The child tells the parent that it could not unshare.
    Refusing,
    /// The child reads whether it may go on.
    AwaitingParent,
    /// The child forks the grandchild.
    ForkingGrandchild,
    /// The child gives up its privileges.
    ChildDropping,
    /// The child waits for the grandchild to exit.
    ParkingGrandchild,
    /// The grandchild has not begun.
    GrandchildStart,
    /// The grandchild takes up its capabilities.
    Activating,
    /// The grandchild runs the hook `SetupPriv`.
    SettingUpPriv,
    /// The grandchild gives up its capabilities.
    Clearing,
    /// The grandchild runs the hook `Setup`.
    SettingUp,
    /// The process has returned or exited.
    Finished,
}

/// The exit of a process of the container that cannot go on.
pub open spec fn abort() -> (Stage, Action) {
    (Stage::Finished, Action::Exit { code: 1, hint: false })
}

/// What the parent does next.
pub open spec fn parent_next(stage: Stage, event: Event) -> Option<(Stage, Action)> {
    match (stage, event) {
        (Stage::ParentStart, Event::Start) => Some((Stage::AtStart, Action::Call(Hook::AtStart))),
        (Stage::AtStart, Event::Done) => Some((Stage::ForkingChild, Action::ForkChild)),
        (Stage::ForkingChild, Event::Done) => Some((Stage::AwaitingChild, Action::Receive)),
        (Stage::AwaitingChild, Event::Byte(b)) => if b == GO {
            Some((Stage::MappingIds, Action::Call(Hook::SetIdMap)))
        } else {
            Some((Stage::ParentDropping, Action::DropPrivileges))
        },
        (Stage::AwaitingChild, Event::Closed) => Some(
            (Stage::ParentDropping, Action::DropPrivileges),
        ),
        (Stage::MappingIds, Event::Done) => Some((Stage::ReleasingChild, Action::Send(GO))),
        (Stage::ReleasingChild, Event::Done) => Some(
            (Stage::ParentDropping, Action::DropPrivileges),
        ),
        (Stage::ParentDropping, Event::Done) => Some((Stage::ParkingChild, Action::Park)),
        (Stage::ParkingChild, Event::Exited(code)) => Some((Stage::Finished, Action::Return(code))),
        (Stage::AtStart, Event::Failed { .. })
        | (Stage::ForkingChild, Event::Failed { .. })
        | (Stage::AwaitingChild, Event::Failed { .. })
        | (Stage::MappingIds, Event::Failed { .. })
        | (Stage::ReleasingChild, Event::Failed { .. })
        | (Stage::ParentDropping, Event::Failed { .. })
        | (Stage::ParkingChild, Event::Failed { .. }) => Some((Stage::Finished, Action::Fail)),
        _ => None,
    }
}

/// What the child does next.
pub open spec fn child_next(stage: Stage, event: Event) -> Option<(Stage, Action)> {
    match (stage, event) {
        (Stage::ChildStart, Event::Start) => Some((Stage::Unsharing, Action::Call(Hook::Unshare))),
        (Stage::Unsharing, Event::Done) => Some((Stage::Announcing, Action::Send(GO))),
        (Stage::Unsharing, Event::Failed { denied }) => if denied {
            Some((Stage::Finished, Action::Exit { code: 1, hint: true }))
        } else {
            Some((Stage::Refusing, Action::Send(STOP)))
        },
        (Stage::Refusing, Event::Done) => Some(abort()),
        (Stage::Announcing, Event::Done) => Some((Stage::AwaitingParent, Action::Receive)),
        (Stage::AwaitingParent, Event::Byte(_)) => Some(
            (Stage::ForkingGrandchild, Action::ForkGrandchild),
        ),
        (Stage::AwaitingParent, Event::Closed) => Some(abort()),
        (Stage::ForkingGrandchild, Event::Done) => Some(
            (Stage::ChildDropping, Action::DropPrivileges),
        ),
        (Stage::ChildDropping, Event::Done) => Some((Stage::ParkingGrandchild, Action::Park)),
        (Stage::ParkingGrandchild, Event::Exited(code)) => Some(
            (Stage::Finished, Action::Exit { code, hint: false }),
        ),
        (Stage::Refusing, Event::Failed { .. })
        | (Stage::Announcing, Event::Failed { .. })
        | (Stage::AwaitingParent, Event::Failed { .. })
        | (Stage::ForkingGrandchild, Event::Failed { .. })
        | (Stage::ChildDropping, Event::Failed { .. })
        | (Stage::ParkingGrandchild, Event::Failed { .. }) => Some(abort()),
        _ => None,
    }
}

/// What the grandchild does next.
pub open spec fn grandchild_next(stage: Stage, event: Event) -> Option<(Stage, Action)> {
    match (stage, event) {
        (Stage::GrandchildStart, Event::Start) => Some((Stage::Activating, Action::Activate)),
        (Stage::Activating, Event::Done) => Some(
            (Stage::SettingUpPriv, Action::Call(Hook::SetupPriv)),
        ),
        (Stage::SettingUpPriv, Event::Done) => Some((Stage::Clearing, Action::ClearCaps)),
        (Stage::Clearing, Event::Done) => Some((Stage::SettingUp, Action::Call(Hook::Setup))),
        (Stage::SettingUp, Event::Done) => Some(
            (Stage::Finished, Action::Exit { code: 0, hint: false }),
        ),
        (Stage::Activating, Event::Failed { .. })
        | (Stage::SettingUpPriv, Event::Failed { .. })
        | (Stage::Clearing, Event::Failed { .. })
        | (Stage::SettingUp, Event::Failed { .. }) => Some(abort()),
        _ => None,
    }
}

/// What a process does next: the stage to go to and the action to perform.
/// `None` where the event cannot follow the action of the stage.
pub open spec fn next(stage: Stage, event: Event) -> Option<(Stage, Action)> {
    if parent_next(stage, event) is Some {
        parent_next(stage, event)
    } else if child_next(stage, event) is Some {
        child_next(stage, event)
    } else {
        grandchild_next(stage, event)
    }
}

/// What the parent does next.
fn advance_parent(stage: Stage, event: Event) -> (r: Option<(Stage, Action)>)
    ensures
        r == parent_next(stage, event),
{
    match (stage, event) {
        (Stage::ParentStart, Event::Start) => Some((Stage::AtStart, Action::Call(Hook::AtStart))),
        (Stage::AtStart, Event::Done) => Some((Stage::ForkingChild, Action::ForkChild)),
        (Stage::ForkingChild, Event::Done) => Some((Stage::AwaitingChild, Action::Receive)),
        (Stage::AwaitingChild, Event::Byte(b)) => {
            if b == GO {
                Some((Stage::MappingIds, Action::Call(Hook::SetIdMap)))
            } else {
                Some((Stage::ParentDropping, Action::DropPrivileges))
            }
        },
        (Stage::AwaitingChild, Event::Closed) => Some(
            (Stage::ParentDropping, Action::DropPrivileges),
        ),
        (Stage::MappingIds, Event::Done) => Some((Stage::ReleasingChild, Action::Send(GO))),
        (Stage::ReleasingChild, Event::Done) => Some(
            (Stage::ParentDropping, Action::DropPrivileges),
        ),
        (Stage::ParentDropping, Event::Done) => Some((Stage::ParkingChild, Action::Park)),
        (Stage::ParkingChild, Event::Exited(code)) => Some((Stage::Finished, Action::Return(code))),
        (Stage::AtStart, Event::Failed { .. })
        | (Stage::ForkingChild, Event::Failed { .. })
        | (Stage::AwaitingChild, Event::Failed { .. })
        | (Stage::MappingIds, Event::Failed { .. })
        | (Stage::ReleasingChild, Event::Failed { .. })
        | (Stage::ParentDropping, Event::Failed { .. })
        | (Stage::ParkingChild, Event::Failed { .. }) => Some((Stage::Finished, Action::Fail)),
        _ => None,
    }
}

/// What the child does next.
fn advance_child(stage: Stage, event: Event) -> (r: Option<(Stage, Action)>)
    ensures
        r == child_next(stage, event),
{
    let stop = Some((Stage::Finished, Action::Exit { code: 1, hint: false }));
    match (stage, event) {
        (Stage::ChildStart, Event::Start) => Some((Stage::Unsharing, Action::Call(Hook::Unshare))),
        (Stage::Unsharing, Event::Done) => Some((Stage::Announcing, Action::Send(GO))),
        (Stage::Unsharing, Event::Failed { denied }) => {
            if denied {
                Some((Stage::Finished, Action::Exit { code: 1, hint: true }))
            } else {
                Some((Stage::Refusing, Action::Send(STOP)))
            }
        },
        (Stage::Refusing, Event::Done) => stop,
        (Stage::Announcing, Event::Done) => Some((Stage::AwaitingParent, Action::Receive)),
        (Stage::AwaitingParent, Event::Byte(_)) => Some(
            (Stage::ForkingGrandchild, Action::ForkGrandchild),
        ),
        (Stage::AwaitingParent, Event::Closed) => stop,
        (Stage::ForkingGrandchild, Event::Done) => Some(
            (Stage::ChildDropping, Action::DropPrivileges),
        ),
        (Stage::ChildDropping, Event::Done) => Some((Stage::ParkingGrandchild, Action::Park)),
        (Stage::ParkingGrandchild, Event::Exited(code)) => Some(
            (Stage::Finished, Action::Exit { code, hint: false }),
        ),
        (Stage::Refusing, Event::Failed { .. })
        | (Stage::Announcing, Event::Failed { .. })
        | (Stage::AwaitingParent, Event::Failed { .. })
        | (Stage::ForkingGrandchild, Event::Failed { .. })
        | (Stage::ChildDropping, Event::Failed { .. })
        | (Stage::ParkingGrandchild, Event::Failed { .. }) => stop,
        _ => None,
    }
}

/// What the grandchild does next.
fn advance_grandchild(stage: Stage, event: Event) -> (r: Option<(Stage, Action)>)
    ensures
        r == grandchild_next(stage, event),
{
    let stop = Some((Stage::Finished, Action::Exit { code: 1, hint: false }));
    match (stage, event) {
        (Stage::GrandchildStart, Event::Start) => Some((Stage::Activating, Action::Activate)),
        (Stage::Activating, Event::Done) => Some(
            (Stage::SettingUpPriv, Action::Call(Hook::SetupPriv)),
        ),
        (Stage::SettingUpPriv, Event::Done) => Some((Stage::Clearing, Action::ClearCaps)),
        (Stage::Clearing, Event::Done) => Some((Stage::SettingUp, Action::Call(Hook::Setup))),
        (Stage::SettingUp, Event::Done) => Some(
            (Stage::Finished, Action::Exit { code: 0, hint: false }),
        ),
        (Stage::Activating, Event::Failed { .. })
        | (Stage::SettingUpPriv, Event::Failed { .. })
        | (Stage::Clearing, Event::Failed { .. })
        | (Stage::SettingUp, Event::Failed { .. }) => stop,
        _ => None,
    }
}

/// What a process does next, given the stage that it is at and what
/// happened to the action of that stage. The parent starts at
/// `Stage::ParentStart`, the child at `Stage::ChildStart` and the grandchild
/// at `Stage::GrandchildStart`, each with `Event::Start`.
pub fn advance(stage: Stage, event: Event) -> (r: Option<(Stage, Action)>)
    ensures
        r == next(stage, event),
{
    match advance_parent(stage, event) {
        Some(r) => Some(r),
        None => match advance_child(stage, event) {
            Some(r) => Some(r),
            None => advance_grandchild(stage, event),
        },
    }
}

/// One of the three processes.
#[derive(Clone, Copy, Debug, PartialEq, Eq, Structural)]
pub enum Who {
    Parent,
    Child,
    Grandchild,
}

/// The three processes together: where each stands, what is under way
/// between parent and child, and the hooks that were called so far.
pub struct World {
    /// The stage of the parent.
    pub parent: Stage,
    /// The stage of the child, once it is forked.
    pub child: Option<Stage>,
    /// The stage of the grandchild, once it is forked.
    pub grandchild: Option<Stage>,
    /// The bytes that the child has written and the parent has not read.
    pub up: Seq<u8>,
    /// The bytes that the parent has written and the child has not read.
    pub down: Seq<u8>,
    /// The hooks that were called, in the order of the calls.
    pub calls: Seq<Hook>,
}

/// The order of the hooks.
pub open spec fn hook_order() -> Seq<Hook> {
    seq![Hook::AtStart, Hook::Unshare, Hook::SetIdMap, Hook::SetupPriv, Hook::Setup]
}

impl World {
    /// The world in which `runc` is entered: the parent alone, nothing
    /// written, no hook called.
    pub open spec fn initial() -> World {
        World {
            parent: Stage::ParentStart,
            child: None,
            grandchild: None,
            up: Seq::empty(),
            down: Seq::empty(),
            calls: Seq::empty(),
        }
    }

    /// The stage of a process, if the process exists.
    pub open spec fn stage(self, who: Who) -> Option<Stage> {
        match who {
            Who::Parent => Some(self.parent),
            Who::Child => self.child,
            Who::Grandchild => self.grandchild,
        }
    }

    /// The bytes that wait to be read by a process.
    pub open spec fn inbox(self, who: Who) -> Seq<u8> {
        match who {
            Who::Parent => self.up,
            Who::Child => self.down,
            Who::Grandchild => Seq::empty(),
        }
    }

    /// The world in which `who` has read the first byte that waited for it.
    pub open spec fn read_by(self, who: Who) -> World {
        match who {
            Who::Parent => World { up: self.up.drop_first(), ..self },
            Who::Child => World { down: self.down.drop_first(), ..self },
            Who::Grandchild => self,
        }
    }

    /// The world in which `who` is at `stage`.
    pub open spec fn moved(self, who: Who, stage: Stage) -> World {
        match who {
            Who::Parent => World { parent: stage, ..self },
            Who::Child => World { child: Some(stage), ..self },
            Who::Grandchild => World { grandchild: Some(stage), ..self },
        }
    }

    /// The world in which `who` has performed `action`: a called hook is
    /// noted, a forked process stands at its start, a byte sent waits at the
    /// other end.
    pub open spec fn performed(self, who: Who, action: Action) -> World {
        match action {
            Action::Call(hook) => World { calls: self.calls.push(hook), ..self },
            Action::ForkChild => World { child: Some(Stage::ChildStart), ..self },
            Action::ForkGrandchild => World { grandchild: Some(Stage::GrandchildStart), ..self },
            Action::Send(byte) => match who {
                Who::Parent => World { down: self.down.push(byte), ..self },
                Who::Child => World { up: self.up.push(byte), ..self },
                Who::Grandchild => self,
            },
            _ => self,
        }
    }

    /// The world after the process `who` has met `event`, asked [`next`] and
    /// performed what it was told. `None` where the process does not exist,
    /// where the event cannot follow its action, and where the event is a
    /// byte that is not the first of those that wait for the process.
    pub open spec fn step(self, who: Who, event: Event) -> Option<World> {
        match self.stage(who) {
            None => None,
            Some(stage) => match next(stage, event) {
                None => None,
                Some((to, action)) => match event {
                    Event::Byte(byte) => if self.inbox(who).len() > 0 && self.inbox(who)[0]
                        == byte {
                        Some(self.read_by(who).moved(who, to).performed(who, action))
                    } else {
                        None
                    },
                    _ => Some(self.moved(who, to).performed(who, action)),
                },
            },
        }
    }

    /// The world after the steps `steps`, taken one after the other from
    /// the initial world. `None` where one of them cannot be taken.
    pub open spec fn run(steps: Seq<(Who, Event)>) -> Option<World>
        decreases steps.len(),
    {
        if steps.len() == 0 {
            Some(World::initial())
        } else {
            match World::run(steps.drop_last()) {
                Some(w) => w.step(steps.last().0, steps.last().1),
                None => None,
            }
        }
    }

    /// Whether the parent is at a stage of its own.
    pub open spec fn parent_ok(self) -> bool {
        let n = self.calls.len();
        match self.parent {
            Stage::ParentStart => n == 0 && self.child is None,
            Stage::AtStart => n == 1 && self.child is None,
            Stage::ForkingChild | Stage::AwaitingChild => {
                &&& self.child is Some
                &&& n <= 2
                &&& self.grandchild is None
                &&& self.down.len() == 0
            },
            Stage::MappingIds => {
                &&& self.child is Some
                &&& n == 3
                &&& self.grandchild is None
                &&& self.down.len() == 0
            },
            Stage::ReleasingChild => self.child is Some && n >= 3,
            Stage::ParentDropping | Stage::ParkingChild | Stage::Finished => true,
            _ => false,
        }
    }

    /// Whether the child, if there is one, is at a stage of its own.
    pub open spec fn child_ok(self) -> bool {
        let n = self.calls.len();
        match self.child {
            None => {
                &&& n <= 1
                &&& self.grandchild is None
                &&& self.up.len() == 0
                &&& self.down.len() == 0
            },
            Some(Stage::ChildStart) => {
                &&& n == 1
                &&& self.grandchild is None
                &&& self.up.len() == 0
                &&& self.down.len() == 0
            },
            Some(Stage::Unsharing) => {
                &&& n == 2
                &&& self.grandchild is None
                &&& self.up.len() == 0
                &&& self.down.len() == 0
            },
            Some(Stage::Announcing) | Some(Stage::Refusing) | Some(Stage::AwaitingParent) => {
                &&& 2 <= n <= 3
                &&& self.grandchild is None
            },
            Some(Stage::ForkingGrandchild)
            | Some(Stage::ChildDropping)
            | Some(Stage::ParkingGrandchild) => n >= 3 && self.grandchild is Some,
            Some(Stage::Finished) => n >= 2,
            _ => false,
        }
    }

    /// Whether the grandchild, if there is one, is at a stage of its own.
    pub open spec fn grandchild_ok(self) -> bool {
        let n = self.calls.len();
        match self.grandchild {
            None => n <= 3,
            Some(stage) => {
                &&& self.down.len() == 0
                &&& self.child is Some
                &&& self.child != Some(Stage::AwaitingParent)
                &&& match stage {
                    Stage::GrandchildStart | Stage::Activating => n == 3,
                    Stage::SettingUpPriv | Stage::Clearing => n == 4,
                    Stage::SettingUp => n == 5,
                    Stage::Finished => 3 <= n <= 5,
                    _ => false,
                }
            },
        }
    }

    /// What holds of every world that can be reached.
    pub open spec fn inv(self) -> bool {
        &&& self.calls.len() <= 5
        &&& self.calls == hook_order().take(self.calls.len() as int)
        &&& self.down.len() <= 1
        &&& self.down.len() == 1 ==> self.calls.len() == 3 && self.grandchild is None
        &&& self.parent_ok()
        &&& self.child_ok()
        &&& self.grandchild_ok()
    }
}

/// A step from a world in which the invariant holds leads to one in which
/// it holds.
pub proof fn lemma_step_keeps_inv(w: World, who: Who, event: Event)
    requires
        w.inv(),
        w.step(who, event) is Some,
    ensures
        w.step(who, event).unwrap().inv(),
{
    let after = w.step(who, event).unwrap();
    let n = w.calls.len() as int;
    if n < 5 {
        assert(hook_order().take(n + 1) =~= hook_order().take(n).push(hook_order()[n]));
    }
    assert(after.calls == hook_order().take(after.calls.len() as int));
}

/// The hooks run in the order `AtStart`, `Unshare`, `SetIdMap`,
/// `SetupPriv`, `Setup`: whatever the three processes meet, and in whatever
/// order they take their steps, the hooks that were called so far are the
/// first of that list, each once.
pub proof fn lemma_hooks_in_order(steps: Seq<(Who, Event)>)
    ensures
        World::run(steps) matches Some(w) ==> w.inv() && w.calls.is_prefix_of(hook_order()),
    decreases steps.len(),
{
    if steps.len() == 0 {
        assert(World::initial().calls =~= hook_order().take(0));
    } else {
        lemma_hooks_in_order(steps.drop_last());
        match World::run(steps.drop_last()) {
            Some(w) => {
                if w.step(steps.last().0, steps.last().1) is Some {
                    lemma_step_keeps_inv(w, steps.last().0, steps.last().1);
                }
            },
            None => {},
        }
    }
}

/// One range of an ID map: `count` IDs from `start` on in the namespace of
/// the caller stand for the IDs from `end` on in the namespace of the
/// container. The fields are `(start, end, count)`.
pub type IdRange = (u32, u32, u32);

/// The index, from `from` on, of the first range that starts at `start` or
/// above, or the number of ranges where none does.
pub open spec fn rank(s: Seq<IdRange>, start: u32, from: int) -> int
    decreases s.len() - from,
{
    if from >= s.len() || s[from].0 >= start {
        from
    } else {
        rank(s, start, from + 1)
    }
}

/// The ranges with `range` among them: in the place of the range with the
/// same start where there is one, else before the first range that starts
/// above it.
pub open spec fn put_range(s: Seq<IdRange>, range: IdRange) -> Seq<IdRange> {
    let r = rank(s, range.0, 0);
    if 0 <= r < s.len() && s[r].0 == range.0 {
        s.update(r, range)
    } else {
        s.take(r).push(range) + s.skip(r)
    }
}

/// Whether the ranges are in the order of their starts, none twice.
pub open spec fn sorted(s: Seq<IdRange>) -> bool {
    forall|i: int, j: int| 0 <= i < j < s.len() ==> (#[trigger] s[i]).0 < (#[trigger] s[j]).0
}

/// The three numbers of a range, as the helper programs take them.
pub open spec fn range_args(range: IdRange) -> Seq<Seq<char>> {
    seq![decimal(range.0 as nat), decimal(range.1 as nat), decimal(range.2 as nat)]
}

/// The numbers of all ranges, one range after the other.
pub open spec fn ranges_args(s: Seq<IdRange>) -> Seq<Seq<char>>
    decreases s.len(),
{
    if s.len() == 0 {
        Seq::empty()
    } else {
        ranges_args(s.drop_last()) + range_args(s.last())
    }
}

/// The line of a range in a map file: its three numbers with a space
/// between them, and a line feed.
pub open spec fn range_line(range: IdRange) -> Seq<char> {
    decimal(range.0 as nat) + " "@ + decimal(range.1 as nat) + " "@ + decimal(range.2 as nat)
        + "\n"@
}

/// The map file of the ranges: one line for each, and nothing after the
/// last.
pub open spec fn ranges_file(s: Seq<IdRange>) -> Seq<char>
    decreases s.len(),
{
    if s.len() == 0 {
        Seq::empty()
    } else {
        ranges_file(s.drop_last()) + range_line(s.last())
    }
}

/// Where a start ranks among the ranges: after the ranges that start
/// below it, and at or before the first that does not.
pub proof fn lemma_rank(s: Seq<IdRange>, start: u32, from: int)
    requires
        0 <= from <= s.len(),
    ensures
        from <= rank(s, start, from) <= s.len(),
        rank(s, start, from) < s.len() ==> s[rank(s, start, from)].0 >= start,
        forall|j: int| from <= j < rank(s, start, from) ==> s[j].0 < start,
    decreases s.len() - from,
{
    if from < s.len() && s[from].0 < start {
        lemma_rank(s, start, from + 1);
    }
}

/// Ranges in order stay in order when a range is put among them, and the
/// range is then one of them.
pub proof fn lemma_put_range_sorted(s: Seq<IdRange>, range: IdRange)
    requires
        sorted(s),
    ensures
        sorted(put_range(s, range)),
        put_range(s, range).contains(range),
{
    lemma_rank(s, range.0, 0);
    let r = rank(s, range.0, 0);
    let t = put_range(s, range);
    assert(t[r] == range);
    assert forall|i: int, j: int| 0 <= i < j < t.len() implies (#[trigger] t[i]).0 < (
    #[trigger] t[j]).0 by {
        if r < s.len() && s[r].0 == range.0 {
            assert(s[i].0 < s[j].0);
        } else {
            let i0 = if i < r { i } else { i - 1 };
            let j0 = if j < r { j } else { j - 1 };
            if i != r && j != r {
                assert(s[i0].0 < s[j0].0);
            } else if i == r {
                assert(t[j] == s[j0]);
                if j0 > r {
                    assert(s[r].0 < s[j0].0);
                }
            } else {
                assert(t[i] == s[i0]);
            }
        }
    }
}

/// What is to be done so that a map takes effect.
#[derive(Debug)]
pub enum IdMapAction {
    /// Write `data` to the file `path`.
    WriteFile { path: String, data: String },
    /// Run the program `cmd` with the arguments `args`.
    RunHelper { cmd: String, args: Vec<String> },
}

/// An [`IdMapAction`] with its strings as sequences of characters.
pub enum IdMapActionView {
    WriteFile { path: Seq<char>, data: Seq<char> },
    RunHelper { cmd: Seq<char>, args: Seq<Seq<char>> },
}

impl View for IdMapAction {
    type V = IdMapActionView;

    open spec fn view(&self) -> IdMapActionView {
        match self {
            IdMapAction::WriteFile { path, data } => IdMapActionView::WriteFile {
                path: path@,
                data: data@,
            },
            IdMapAction::RunHelper { cmd, args } => IdMapActionView::RunHelper {
                cmd: cmd@,
                args: args@.map_values(|s: String| s@),
            },
        }
    }
}

/// The user or group IDs of a new user namespace, as ranges of the IDs of
/// the caller's namespace.
#[derive(Debug)]
pub struct IdMap {
    pid: i32,
    isuid: bool,
    map: Vec<IdRange>,
}

/// What an [`IdMap`] holds.
pub struct IdMapView {
    /// The process whose namespace is mapped.
    pub pid: i32,
    /// Whether user IDs are mapped; else group IDs.
    pub isuid: bool,
    /// The ranges, in the order of their starts.
    pub ranges: Seq<IdRange>,
}

impl IdMapView {
    /// The file of the kernel that holds the map.
    pub open spec fn file_path(self) -> Seq<char> {
        "/proc/"@ + signed_decimal(self.pid as int) + (if self.isuid {
            "/uid_map"@
        } else {
            "/gid_map"@
        })
    }

    /// Whether the caller with the capabilities `caps` may write the map
    /// file itself: it holds `CAP_SETUID` for user IDs, `CAP_SETGID` for
    /// group IDs.
    pub open spec fn direct(self, caps: Cap) -> bool {
        if self.isuid {
            caps.holds(CAP_SETUID)
        } else {
            caps.holds(CAP_SETGID)
        }
    }

    /// What is to be done so that the map takes effect: the caller writes
    /// the file where it may, else it runs `newuidmap` or `newgidmap` with
    /// the process ID and the numbers of the ranges.
    pub open spec fn action(self, caps: Cap) -> IdMapActionView {
        if self.direct(caps) {
            IdMapActionView::WriteFile { path: self.file_path(), data: ranges_file(self.ranges) }
        } else {
            IdMapActionView::RunHelper {
                cmd: if self.isuid {
                    "newuidmap"@
                } else {
                    "newgidmap"@
                },
                args: seq![signed_decimal(self.pid as int)] + ranges_args(self.ranges),
            }
        }
    }
}

impl View for IdMap {
    type V = IdMapView;

    closed spec fn view(&self) -> IdMapView {
        IdMapView { pid: self.pid, isuid: self.isuid, ranges: self.map@ }
    }
}

impl IdMap {
    /// The ranges are in the order of their starts, none twice.
    #[verifier::type_invariant]
    spec fn in_order(self) -> bool {
        sorted(self.map@)
    }

    /// An empty map of user IDs for the process `pid`.
    pub fn new_uid(pid: i32) -> (r: IdMap)
        ensures
            r@ == (IdMapView { pid, isuid: true, ranges: Seq::empty() }),
    {
        IdMap { pid, isuid: true, map: Vec::new() }
    }

    /// An empty map of group IDs for the process `pid`.
    pub fn new_gid(pid: i32) -> (r: IdMap)
        ensures
            r@ == (IdMapView { pid, isuid: false, ranges: Seq::empty() }),
    {
        IdMap { pid, isuid: false, map: Vec::new() }
    }

    /// Maps the IDs `start` to `start + count` of the caller's namespace to
    /// the IDs from `end` on in the new namespace. A range that starts at
    /// `start` already is replaced; the ranges stay in the order of their
    /// starts.
    pub fn add(&mut self, start: u32, end: u32, count: u32) -> (ret: &mut Self)
        ensures
            ret@ == (IdMapView {
                ranges: put_range(old(self)@.ranges, (start, end, count)),
                ..old(self)@
            }),
            sorted(ret@.ranges),
            *final(self) == *final(ret),
    {
        proof {
            use_type_invariant(&*self);
            lemma_rank(self.map@, start, 0);
            lemma_put_range_sorted(self.map@, (start, end, count));
        }
        let ghost before = self.map@;
        let ghost want = put_range(before, (start, end, count));
        let mut out: Vec<IdRange> = Vec::new();
        let mut r: usize = 0;
        while r < self.map.len() && self.map[r].0 < start
            invariant
                r <= self.map@.len(),
                self.map@ == before,
                rank(before, start, 0) == rank(before, start, r as int),
                out@ == before.take(r as int),
            decreases self.map@.len() - r,
        {
            out.push(self.map[r]);
            assert(out@ =~= before.take(r + 1));
            r = r + 1;
        }
        out.push((start, end, count));
        let mut i: usize = if r < self.map.len() && self.map[r].0 == start {
            r + 1
        } else {
            r
        };
        let ghost d = want.len() - before.len();
        assert(out@ =~= want.take(r + 1));
        assert forall|k: int| i <= k < before.len() implies before[k] == #[trigger] want[k + d] by {
            if d == 1 {
                assert(before.skip(r as int)[k - r] == before[k]);
            }
        }
        while i < self.map.len()
            invariant
                i <= self.map@.len(),
                self.map@ == before,
                want.len() == before.len() + d,
                out@ == want.take(i + d),
                i + d >= 0,
                forall|k: int| i <= k < before.len() ==> before[k] == #[trigger] want[k + d],
            decreases self.map@.len() - i,
        {
            out.push(self.map[i]);
            assert(before[i as int] == want[i + d]);
            assert(out@ =~= want.take(i + 1 + d));
            i = i + 1;
        }
        assert(out@ =~= want);
        self.map = out;
        self
    }

    /// The numbers of the ranges, as the helper programs take them, in the
    /// order of the starts of the ranges.
    pub fn map_args(&self) -> (r: Vec<String>)
        ensures
            r@.map_values(|s: String| s@) == ranges_args(self@.ranges),
            sorted(self@.ranges),
    {
        proof {
            use_type_invariant(self);
        }
        let mut out: Vec<String> = Vec::new();
        let mut i: usize = 0;
        assert(out@.map_values(|s: String| s@) =~= ranges_args(self.map@.take(0)));
        while i < self.map.len()
            invariant
                i <= self.map@.len(),
                out@.map_values(|s: String| s@) == ranges_args(self.map@.take(i as int)),
            decreases self.map@.len() - i,
        {
            let range = self.map[i];
            let ghost before = out@.map_values(|s: String| s@);
            let mut a = String::new();
            push_decimal(&mut a, range.0 as u64);
            let mut b = String::new();
            push_decimal(&mut b, range.1 as u64);
            let mut c = String::new();
            push_decimal(&mut c, range.2 as u64);
            assert(a@ =~= decimal(range.0 as nat));
            assert(b@ =~= decimal(range.1 as nat));
            assert(c@ =~= decimal(range.2 as nat));
            out.push(a);
            out.push(b);
            out.push(c);
            assert(out@.map_values(|s: String| s@) =~= before + range_args(range));
            assert(self.map@.take(i + 1).drop_last() =~= self.map@.take(i as int));
            i = i + 1;
        }
        assert(self.map@.take(i as int) =~= self.map@);
        out
    }

    /// The map as it is written to the map file: one line for each range,
    /// in the order of the starts of the ranges.
    pub fn map_file(&self) -> (r: String)
        ensures
            r@ == ranges_file(self@.ranges),
            sorted(self@.ranges),
    {
        proof {
            use_type_invariant(self);
        }
        let mut out = String::new();
        let mut i: usize = 0;
        assert(out@ =~= ranges_file(self.map@.take(0)));
        while i < self.map.len()
            invariant
                i <= self.map@.len(),
                out@ == ranges_file(self.map@.take(i as int)),
            decreases self.map@.len() - i,
        {
            let range = self.map[i];
            let ghost before = out@;
            push_decimal(&mut out, range.0 as u64);
            out.append(" ");
            push_decimal(&mut out, range.1 as u64);
            out.append(" ");
            push_decimal(&mut out, range.2 as u64);
            out.append("\n");
            assert(out@ =~= before + range_line(range));
            assert(self.map@.take(i + 1).drop_last() =~= self.map@.take(i as int));
            i = i + 1;
        }
        assert(self.map@.take(i as int) =~= self.map@);
        out
    }

    /// What is to be done so that the map takes effect, for a caller with
    /// the capabilities `caps`.
    pub fn write(&self, caps: &Cap) -> (r: IdMapAction)
        ensures
            r@ == self@.action(*caps),
    {
        let direct = if self.isuid {
            caps.effective(CAP_SETUID)
        } else {
            caps.effective(CAP_SETGID)
        };
        if direct {
            let mut path = String::from_str("/proc/");
            push_signed(&mut path, self.pid);
            if self.isuid {
                path.append("/uid_map");
            } else {
                path.append("/gid_map");
            }
            assert(path@ =~= self@.file_path());
            IdMapAction::WriteFile { path, data: self.map_file() }
        } else {
            let mut pid = String::new();
            push_signed(&mut pid, self.pid);
            assert(pid@ =~= signed_decimal(self.pid as int));
            let mut args: Vec<String> = Vec::new();
            args.push(pid);
            let mut rest = self.map_args();
            let ghost tail = rest@.map_values(|s: String| s@);
            args.append(&mut rest);
            assert(args@.map_values(|s: String| s@) =~= seq![signed_decimal(self.pid as int)]
                + tail);
            let cmd = if self.isuid {
                String::from_str("newuidmap")
            } else {
                String::from_str("newgidmap")
            };
            IdMapAction::RunHelper { cmd, args }
        }
    }

    /// What the end of the helper program means. `code` is its exit code,
    /// or `None` where a signal ended it. Anything but the exit code 0 is
    /// `Error::UIDMap`.
    pub fn helper_outcome(code: Option<i32>) -> (r: Result<(), Error>)
        ensures
            match r {
                Ok(_) => code == Some(0i32),
                Err(e) => code != Some(0i32) && e@ == ErrorView::UIDMap,
            },
    {
        match code {
            Some(0) => Ok(()),
            _ => Err(Error::UIDMap),
        }
    }
}

/// The ID maps of a container in which the user `uid` and the group `gid`
/// of the caller, and no others, are themselves: for a policy with a user
/// namespace (`isuser`) one map of user IDs and one of group IDs, each with
/// one range of one ID; else none.
pub open spec fn own_ids(isuser: bool, pid: i32, uid: u32, gid: u32) -> Seq<IdMapView> {
    if isuser {
        seq![
            IdMapView { pid, isuid: true, ranges: seq![(uid, uid, 1u32)] },
            IdMapView { pid, isuid: false, ranges: seq![(gid, gid, 1u32)] },
        ]
    } else {
        Seq::empty()
    }
}

/// The ID maps to write for the child `pid` of a caller with the user ID
/// `uid` and the group ID `gid`.
pub fn id_maps(isuser: bool, pid: i32, uid: u32, gid: u32) -> (r: Vec<IdMap>)
    ensures
        r@.map_values(|m: IdMap| m@) == own_ids(isuser, pid, uid, gid),
{
    let mut out: Vec<IdMap> = Vec::new();
    if isuser {
        let mut users = IdMap::new_uid(pid);
        users.add(uid, uid, 1);
        assert(users@.ranges =~= seq![(uid, uid, 1u32)]);
        let mut groups = IdMap::new_gid(pid);
        groups.add(gid, gid, 1);
        assert(groups@.ranges =~= seq![(gid, gid, 1u32)]);
        out.push(users);
        out.push(groups);
    }
    assert(out@.map_values(|m: IdMap| m@) =~= own_ids(isuser, pid, uid, gid));
    out
}

} // verus!
