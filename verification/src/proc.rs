//! A child process under management: signals for it, and the wait for its
//! exit.
//!
//! The wait is a conversation. [`Proc::park`] takes what the caller met
//! (the result of a `waitpid`, a signal that arrived) and answers with what
//! to do next, so that the rule of the wait is decided here: a child that
//! has exited is reaped however signals are merged, the first two
//! interrupts are handed on as they came, and from the third on the child
//! is killed.

use crate::err::{Error, ErrorView};
use crate::path::{contains_nul, has_nul};
use crate::text::{push_signed, same_text, signed_decimal};
use vstd::prelude::*;

verus! {

/// Interrupt from the keyboard.
pub const SIGINT: i32 = 2;

/// Quit from the keyboard.
pub const SIGQUIT: i32 = 3;

/// Kill; it cannot be caught.
pub const SIGKILL: i32 = 9;

/// Request to terminate.
pub const SIGTERM: i32 = 15;

/// A child has stopped or exited.
pub const SIGCHLD: i32 = 17;

/// The exit status that a wait status holds. Calls `libc::WEXITSTATUS`,
/// which takes bits 8 to 15 of the status.
#[verifier::external_body]
fn exit_status(status: i32) -> (r: i32)
    ensures
        r == (status >> 8) & 0xff,
{
    libc::WEXITSTATUS(status)
}

/// The exit status that a wait status holds: its bits 8 to 15.
pub open spec fn status_code(status: i32) -> i32 {
    (status >> 8) & 0xff
}

/// What `waitpid` with `WNOHANG` found.
#[derive(Clone, Copy, Debug, PartialEq, Eq, Structural)]
pub enum TryWait {
    /// The process runs.
    Busy,
    /// The process with this ID has exited with this status.
    Done(i32, i32),
}

/// How a failed `waitpid` is named in its error.
pub open spec fn wait_label(pid: i32) -> Seq<char> {
    "waitpid("@ + signed_decimal(pid as int) + ")"@
}

/// How a failed `kill` is named in its error.
pub open spec fn signal_label(pid: i32, sig: i32) -> Seq<char> {
    "Unable to signal "@ + signed_decimal(pid as int) + " with "@ + signed_decimal(sig as int)
}

/// What a call of `waitpid(pid, &status, WNOHANG)` means that returned `ret`
/// and left `status`: -1 is a failure, which is reported with the cause
/// that the system call left; 0 says that the process runs; any other value
/// is the ID of the process that has exited.
pub fn trywaitpid(pid: i32, ret: i32, status: i32) -> (r: Result<TryWait, Error>)
    ensures
        match r {
            Ok(found) => ret != -1 && found == (if ret == 0 {
                TryWait::Busy
            } else {
                TryWait::Done(ret, status_code(status))
            }),
            Err(e) => ret == -1 && (e@ matches ErrorView::OS { op, .. } && op == wait_label(pid)),
        },
{
    if ret == -1 {
        let mut label = String::from_str("waitpid(");
        push_signed(&mut label, pid);
        label.append(")");
        assert(label@ =~= wait_label(pid));
        Err(Error::last_os_error(label.as_str()))
    } else if ret == 0 {
        Ok(TryWait::Busy)
    } else {
        Ok(TryWait::Done(ret, exit_status(status)))
    }
}

/// A signal to send: `kill(pid, sig)`.
#[derive(Clone, Copy, Debug, PartialEq, Eq, Structural)]
pub struct Signal {
    pub pid: i32,
    pub sig: i32,
}

/// What the caller of [`Proc::park`] met.
#[derive(Clone, Copy, Debug, PartialEq, Eq, Structural)]
pub enum ParkEvent {
    /// Nothing yet: the wait begins.
    Begin,
    /// The handlers are installed.
    Watching,
    /// What `waitpid` found.
    Polled(TryWait),
    /// The signal with this number arrived.
    Caught(i32),
    /// The signal was sent.
    Sent,
}

/// What the caller of [`Proc::park`] does next.
#[derive(Clone, Copy, Debug, PartialEq, Eq, Structural)]
pub enum ParkAction {
    /// Return this exit code.
    Return(i32),
    /// Install handlers for `SIGTERM`, `SIGINT`, `SIGQUIT` and `SIGCHLD`.
    Watch,
    /// Call `waitpid` with `WNOHANG`.
    Poll,
    /// Block until a signal arrives.
    Listen,
    /// Send the signal.
    Forward(Signal),
}

/// A managed child process.
#[derive(Debug)]
pub struct Proc {
    pid: i32,
    done: bool,
    code: i32,
    interrupts: u8,
}

/// What is known of a managed process.
pub struct ProcView {
    /// The process ID.
    pub pid: i32,
    /// Whether the process is known to have exited.
    pub done: bool,
    /// The exit code, once the process has exited.
    pub code: i32,
    /// How many interrupts were met in the wait, up to three.
    pub interrupts: nat,
}

impl ProcView {
    /// The signal that is sent for an interrupt `sig`: the same for the
    /// first two interrupts, `SIGKILL` from the third on.
    pub open spec fn escalate(self, sig: i32) -> i32 {
        if self.interrupts < 2 {
            sig
        } else {
            SIGKILL
        }
    }

    /// The handle after an interrupt is counted.
    pub open spec fn interrupted(self) -> ProcView {
        ProcView {
            interrupts: if self.interrupts < 3 {
                self.interrupts + 1
            } else {
                self.interrupts
            },
            ..self
        }
    }

    /// The handle and the next action, given what the caller met. A process
    /// that has exited gives its exit code whatever is met. Else: the wait
    /// begins with the handlers; the process is polled once they are
    /// installed, after `SIGCHLD` and after a signal was handed on; a
    /// running process means to wait for a signal; a process that has
    /// exited is noted with its status; any signal but `SIGCHLD` is an
    /// interrupt.
    pub open spec fn park(self, event: ParkEvent) -> (ProcView, ParkAction) {
        if self.done {
            (self, ParkAction::Return(self.code))
        } else {
            match event {
                ParkEvent::Begin => (ProcView { interrupts: 0, ..self }, ParkAction::Watch),
                ParkEvent::Watching => (self, ParkAction::Poll),
                ParkEvent::Polled(TryWait::Busy) => (self, ParkAction::Listen),
                ParkEvent::Polled(TryWait::Done(_, status)) => (
                    ProcView { done: true, code: status, ..self },
                    ParkAction::Return(status),
                ),
                ParkEvent::Caught(sig) => if sig == SIGCHLD {
                    (self, ParkAction::Poll)
                } else {
                    (
                        self.interrupted(),
                        ParkAction::Forward(Signal { pid: self.pid, sig: self.escalate(sig) }),
                    )
                },
                ParkEvent::Sent => (self, ParkAction::Poll),
            }
        }
    }

    /// How the handle reads in a log line.
    pub open spec fn text(self) -> Seq<char> {
        if self.done {
            "PID "@ + signed_decimal(self.pid as int) + " Exit with "@ + signed_decimal(
                self.code as int,
            )
        } else {
            "PID "@ + signed_decimal(self.pid as int)
        }
    }

    /// The signal that `kill(pid, sig)` is called for, if any: none for a
    /// process that has exited.
    pub open spec fn signal(self, sig: i32) -> Option<Signal> {
        if self.done {
            None
        } else {
            Some(Signal { pid: self.pid, sig })
        }
    }
}

impl View for Proc {
    type V = ProcView;

    closed spec fn view(&self) -> ProcView {
        ProcView {
            pid: self.pid,
            done: self.done,
            code: self.code,
            interrupts: self.interrupts as nat,
        }
    }
}

impl Proc {
    /// Takes the running process `pid` under management.
    pub fn manage(pid: i32) -> (r: Proc)
        requires
            pid > 0,
        ensures
            r@ == (ProcView { pid, done: false, code: -1i32, interrupts: 0 }),
    {
        Proc { pid, done: false, code: -1, interrupts: 0 }
    }

    /// The process ID.
    pub fn id(&self) -> (r: i32)
        ensures
            r == self@.pid,
    {
        self.pid
    }

    /// How the handle reads in a log line.
    pub fn describe(&self) -> (r: String)
        ensures
            r@ == self@.text(),
    {
        let mut out = String::from_str("PID ");
        push_signed(&mut out, self.pid);
        if self.done {
            out.append(" Exit with ");
            push_signed(&mut out, self.code);
        }
        assert(out@ =~= self@.text());
        out
    }

    /// The signal to send so that the process gets `sig`: none once it has
    /// exited.
    pub fn signal(&self, sig: i32) -> (r: Option<Signal>)
        ensures
            r == self@.signal(sig),
    {
        if !self.done {
            Some(Signal { pid: self.pid, sig })
        } else {
            None
        }
    }

    /// The signal to send so that the process is killed. A handle that is
    /// given up sends it too.
    pub fn kill(&self) -> (r: Option<Signal>)
        ensures
            r == self@.signal(SIGKILL),
    {
        self.signal(SIGKILL)
    }

    /// The error for a signal that could not be sent, with the cause that
    /// the system call left.
    pub fn signal_failed(signal: Signal) -> (r: Error)
        ensures
            r@ matches ErrorView::OS { op, .. } && op == signal_label(signal.pid, signal.sig),
    {
        let mut label = String::from_str("Unable to signal ");
        push_signed(&mut label, signal.pid);
        label.append(" with ");
        push_signed(&mut label, signal.sig);
        assert(label@ =~= signal_label(signal.pid, signal.sig));
        Error::last_os_error(label.as_str())
    }

    /// One step of the wait for the process to exit: takes what the caller
    /// met and says what to do next. The wait starts with
    /// `ParkEvent::Begin` and ends with `ParkAction::Return`.
    pub fn park(&mut self, event: ParkEvent) -> (r: ParkAction)
        ensures
            final(self)@ == old(self)@.park(event).0,
            r == old(self)@.park(event).1,
    {
        if self.done {
            return ParkAction::Return(self.code);
        }
        match event {
            ParkEvent::Begin => {
                self.interrupts = 0;
                ParkAction::Watch
            },
            ParkEvent::Watching => ParkAction::Poll,
            ParkEvent::Polled(TryWait::Busy) => ParkAction::Listen,
            ParkEvent::Polled(TryWait::Done(_, status)) => {
                self.done = true;
                self.code = status;
                ParkAction::Return(status)
            },
            ParkEvent::Caught(sig) => {
                if sig == SIGCHLD {
                    ParkAction::Poll
                } else {
                    let num: i32 = if self.interrupts < 2 {
                        sig
                    } else {
                        SIGKILL
                    };
                    if self.interrupts < 3 {
                        self.interrupts = self.interrupts + 1;
                    }
                    ParkAction::Forward(Signal { pid: self.pid, sig: num })
                }
            },
            ParkEvent::Sent => ParkAction::Poll,
        }
    }
}

/// The signals that a wait listens for.
pub fn park_signals() -> (r: [i32; 4])
    ensures
        r@ == seq![SIGTERM, SIGINT, SIGQUIT, SIGCHLD],
{
    let r = [SIGTERM, SIGINT, SIGQUIT, SIGCHLD];
    assert(r@ =~= seq![SIGTERM, SIGINT, SIGQUIT, SIGCHLD]);
    r
}

/// The handle after the events `events`, met one after the other.
pub open spec fn park_all(proc: ProcView, events: Seq<ParkEvent>) -> ProcView
    decreases events.len(),
{
    if events.len() == 0 {
        proc
    } else {
        park_all(proc, events.drop_last()).park(events.last()).0
    }
}

/// Once a wait has returned the exit code `code`, every later wait returns
/// `code` at its first step, whatever was met in between: without handlers,
/// without a poll, and with the handle unchanged.
pub proof fn lemma_park_idempotent(
    proc: ProcView,
    event: ParkEvent,
    code: i32,
    later: Seq<ParkEvent>,
)
    requires
        !proc.done,
        proc.park(event).1 == ParkAction::Return(code),
    ensures
        park_all(proc.park(event).0, later) == proc.park(event).0,
        park_all(proc.park(event).0, later).park(ParkEvent::Begin) == (
            proc.park(event).0,
            ParkAction::Return(code),
        ),
    decreases later.len(),
{
    if later.len() > 0 {
        lemma_park_idempotent(proc, event, code, later.drop_last());
    }
}

/// The third interrupt of a wait, and every one after it, kills the
/// process: whatever the signals are, once at least two interrupts are
/// counted the next one is answered with `SIGKILL`.
pub proof fn lemma_third_interrupt_kills(proc: ProcView, sig: i32)
    requires
        !proc.done,
        proc.interrupts >= 2,
        sig != SIGCHLD,
    ensures
        proc.park(ParkEvent::Caught(sig)).1 == ParkAction::Forward(
            Signal { pid: proc.pid, sig: SIGKILL },
        ),
        proc.park(ParkEvent::Caught(sig)).0.interrupts >= 2,
{
}

/// One variable of an environment: its name, and the entry that the new
/// program gets for it.
pub type EnvEntry = (Seq<char>, Seq<char>);

/// The index, from `from` on, of the first variable with the name `name`,
/// or the number of variables where none has it.
pub open spec fn env_position(env: Seq<EnvEntry>, name: Seq<char>, from: int) -> int
    decreases env.len() - from,
{
    if from >= env.len() || env[from].0 == name {
        from
    } else {
        env_position(env, name, from + 1)
    }
}

/// The environment with `entry` for the variable `name`: in the place of
/// the entry that the variable had, else at the end.
pub open spec fn env_put(env: Seq<EnvEntry>, name: Seq<char>, entry: Seq<char>) -> Seq<EnvEntry> {
    let i = env_position(env, name, 0);
    if 0 <= i < env.len() {
        env.update(i, (name, entry))
    } else {
        env.push((name, entry))
    }
}

/// The environment without the variable `name`.
pub open spec fn env_without(env: Seq<EnvEntry>, name: Seq<char>) -> Seq<EnvEntry> {
    let i = env_position(env, name, 0);
    if 0 <= i < env.len() {
        env.remove(i)
    } else {
        env
    }
}

/// Whether no two variables have the same name.
pub open spec fn env_distinct(env: Seq<EnvEntry>) -> bool {
    forall|i: int, j: int| 0 <= i < j < env.len() ==> (#[trigger] env[i]).0 != (#[trigger] env[j]).0
}

/// The entry `NAME=value` of a variable.
pub open spec fn env_line(name: Seq<char>, value: Seq<char>) -> Seq<char> {
    name + "="@ + value
}

/// The environment that is made of the variables `vars`, each with its
/// name and value: every variable has the entry `NAME=value`, and of two
/// with one name the later counts.
pub open spec fn environ(vars: Seq<EnvEntry>) -> Seq<EnvEntry>
    decreases vars.len(),
{
    if vars.len() == 0 {
        Seq::empty()
    } else {
        env_put(
            environ(vars.drop_last()),
            vars.last().0,
            env_line(vars.last().0, vars.last().1),
        )
    }
}

/// The index, from `from` on, of the first string that holds a NUL, or the
/// number of strings where none does.
pub open spec fn first_nul(s: Seq<Seq<char>>, from: int) -> int
    decreases s.len() - from,
{
    if from >= s.len() || has_nul(s[from]) {
        from
    } else {
        first_nul(s, from + 1)
    }
}

/// The strings of a list, each as a sequence of characters.
pub open spec fn texts(v: Seq<String>) -> Seq<Seq<char>> {
    v.map_values(|s: String| s@)
}

/// The variables of a list, each as a pair of sequences of characters.
pub open spec fn pairs(v: Seq<(String, String)>) -> Seq<EnvEntry> {
    v.map_values(|p: (String, String)| (p.0@, p.1@))
}

/// The entries of the variables of `vars`, in order.
pub open spec fn env_lines(vars: Seq<EnvEntry>) -> Seq<Seq<char>> {
    vars.map_values(|p: EnvEntry| env_line(p.0, p.1))
}

/// Where a variable stands: at the first variable with the name, after
/// variables with other names; past the end if none has it.
pub proof fn lemma_env_position(env: Seq<EnvEntry>, name: Seq<char>, from: int)
    requires
        0 <= from <= env.len(),
    ensures
        from <= env_position(env, name, from) <= env.len(),
        env_position(env, name, from) < env.len() ==> env[env_position(env, name, from)].0 == name,
        forall|j: int| from <= j < env_position(env, name, from) ==> env[j].0 != name,
    decreases env.len() - from,
{
    if from < env.len() && env[from].0 != name {
        lemma_env_position(env, name, from + 1);
    }
}

/// Setting and removing a variable leave the names distinct.
pub proof fn lemma_env_stays_distinct(env: Seq<EnvEntry>, name: Seq<char>, entry: Seq<char>)
    requires
        env_distinct(env),
    ensures
        env_distinct(env_put(env, name, entry)),
        env_distinct(env_without(env, name)),
        env_position(env_without(env, name), name, 0) == env_without(env, name).len(),
{
    lemma_env_position(env, name, 0);
    let i = env_position(env, name, 0);
    let put = env_put(env, name, entry);
    assert forall|a: int, b: int| 0 <= a < b < put.len() implies (#[trigger] put[a]).0 != (
    #[trigger] put[b]).0 by {
        if i < env.len() {
            assert(env[a].0 != env[b].0);
        } else if b < env.len() {
            assert(env[a].0 != env[b].0);
        }
    }
    let rest = env_without(env, name);
    assert forall|a: int, b: int| 0 <= a < b < rest.len() implies (#[trigger] rest[a]).0 != (
    #[trigger] rest[b]).0 by {
        if i < env.len() {
            let a0 = if a < i { a } else { a + 1 };
            let b0 = if b < i { b } else { b + 1 };
            assert(env[a0].0 != env[b0].0);
        } else {
            assert(env[a].0 != env[b].0);
        }
    }
    lemma_env_position(rest, name, 0);
    if env_position(rest, name, 0) < rest.len() {
        let k = env_position(rest, name, 0);
        if i < env.len() {
            let k0 = if k < i { k } else { k + 1 };
            assert(env[k0].0 == name);
            if k0 < i {
            } else {
                assert(env[i].0 != env[k0].0);
            }
        }
    }
}

/// The place of the variable `name` among the variables `env`.
fn position_of(env: &Vec<(String, String)>, name: &str) -> (r: usize)
    ensures
        r == env_position(pairs(env@), name@, 0),
        r <= env@.len(),
{
    let mut i: usize = 0;
    while i < env.len()
        invariant
            i <= env@.len(),
            env_position(pairs(env@), name@, 0) == env_position(pairs(env@), name@, i as int),
        decreases env@.len() - i,
    {
        assert(pairs(env@)[i as int].0 == env@[i as int].0@);
        if same_text(env[i].0.as_str(), name) {
            return i;
        }
        i = i + 1;
    }
    i
}

/// Appends to `out` the variables of `env` from index `from` up to `to`.
fn copy_range(out: &mut Vec<(String, String)>, env: &Vec<(String, String)>, from: usize, to: usize)
    requires
        from <= to <= env@.len(),
    ensures
        pairs(final(out)@) == pairs(old(out)@) + pairs(env@).subrange(from as int, to as int),
{
    let mut i: usize = from;
    assert(pairs(out@) =~= pairs(old(out)@) + pairs(env@).subrange(from as int, from as int));
    while i < to
        invariant
            from <= i <= to <= env@.len(),
            pairs(out@) == pairs(old(out)@) + pairs(env@).subrange(from as int, i as int),
        decreases to - i,
    {
        let ghost before = pairs(out@);
        out.push((env[i].0.clone(), env[i].1.clone()));
        assert(pairs(out@) =~= before.push(pairs(env@)[i as int]));
        assert(pairs(env@).subrange(from as int, i + 1) =~= pairs(env@).subrange(
            from as int,
            i as int,
        ).push(pairs(env@)[i as int]));
        i = i + 1;
    }
}

/// The variables `env` with `entry` for the variable `name`.
fn env_with(env: &Vec<(String, String)>, name: &str, entry: String) -> (r: Vec<(String, String)>)
    ensures
        pairs(r@) == env_put(pairs(env@), name@, entry@),
{
    let pos = position_of(env, name);
    let after: usize = if pos < env.len() {
        pos + 1
    } else {
        pos
    };
    let ghost old_env = pairs(env@);
    let ghost x = (name@, entry@);
    let mut out: Vec<(String, String)> = Vec::new();
    copy_range(&mut out, env, 0, pos);
    let ghost head = pairs(out@);
    out.push((String::from_str(name), entry));
    assert(pairs(out@) =~= head.push(x));
    copy_range(&mut out, env, after, env.len());
    assert(pairs(out@) =~= env_put(old_env, name@, x.1));
    out
}

/// The variables `env` without the variable `name`.
fn env_less(env: &Vec<(String, String)>, name: &str) -> (r: Vec<(String, String)>)
    ensures
        pairs(r@) == env_without(pairs(env@), name@),
{
    let pos = position_of(env, name);
    let after: usize = if pos < env.len() {
        pos + 1
    } else {
        pos
    };
    let mut out: Vec<(String, String)> = Vec::new();
    copy_range(&mut out, env, 0, pos);
    copy_range(&mut out, env, after, env.len());
    assert(pairs(out@) =~= env_without(pairs(env@), name@));
    out
}

/// A command to run in place of the current program: the program, its
/// arguments and its environment. No variable is twice in the environment.
#[derive(Debug)]
pub struct Exec {
    cmd: String,
    args: Vec<String>,
    env: Vec<(String, String)>,
}

/// An [`Exec`] with its strings as sequences of characters.
pub struct ExecView {
    /// The program; it is looked up in `PATH`.
    pub cmd: Seq<char>,
    /// The arguments, the program's own name first.
    pub args: Seq<Seq<char>>,
    /// The environment: variables with distinct names, and the entry of each.
    pub env: Seq<EnvEntry>,
}

impl View for Exec {
    type V = ExecView;

    closed spec fn view(&self) -> ExecView {
        ExecView { cmd: self.cmd@, args: texts(self.args@), env: pairs(self.env@) }
    }
}

impl Exec {
    /// What holds of every command: no two variables of its environment
    /// have the same name.
    #[verifier::type_invariant]
    spec fn names_distinct(self) -> bool {
        env_distinct(pairs(self.env@))
    }

    /// Sets the entry of the variable `name`.
    fn put(&mut self, name: &str, entry: String)
        ensures
            final(self)@.cmd == old(self)@.cmd,
            final(self)@.args == old(self)@.args,
            final(self)@.env == env_put(old(self)@.env, name@, entry@),
            env_distinct(final(self)@.env),
    {
        proof {
            use_type_invariant(&*self);
            lemma_env_stays_distinct(self@.env, name@, entry@);
        }
        let next = env_with(&self.env, name, entry);
        self.env = next;
    }

    /// The command `cmd` with the environment that is made of `vars`, the
    /// variables of the caller with name and value, and without arguments.
    /// `Error::BadStr` where `cmd` or the entry of a variable holds a NUL.
    pub fn new(cmd: &str, vars: &Vec<(String, String)>) -> (r: Result<Exec, Error>)
        ensures
            match r {
                Ok(exec) => {
                    &&& !has_nul(cmd@)
                    &&& first_nul(env_lines(pairs(vars@)), 0) == vars@.len()
                    &&& exec@ == (ExecView {
                        cmd: cmd@,
                        args: Seq::empty(),
                        env: environ(pairs(vars@)),
                    })
                    &&& env_distinct(exec@.env)
                },
                Err(e) => {
                    &&& e@ == ErrorView::BadStr
                    &&& has_nul(cmd@) || first_nul(env_lines(pairs(vars@)), 0) < vars@.len()
                },
            },
    {
        let mut exec = Exec { cmd: String::from_str(cmd), args: Vec::new(), env: Vec::new() };
        let ghost all = pairs(vars@);
        let mut i: usize = 0;
        assert(exec@.env =~= environ(all.take(0)));
        assert(exec@.args =~= Seq::<Seq<char>>::empty());
        while i < vars.len()
            invariant
                i <= vars@.len(),
                all == pairs(vars@),
                first_nul(env_lines(all), 0) == first_nul(env_lines(all), i as int),
                exec@.cmd == cmd@,
                exec@.args == Seq::<Seq<char>>::empty(),
                exec@.env == environ(all.take(i as int)),
            decreases vars@.len() - i,
        {
            let mut line = vars[i].0.clone();
            line.append("=");
            line.append(vars[i].1.as_str());
            assert(line@ =~= env_line(all[i as int].0, all[i as int].1));
            assert(env_lines(all)[i as int] == line@);
            if contains_nul(line.as_str()) {
                return Err(Error::BadStr);
            }
            assert(all.take(i + 1).drop_last() =~= all.take(i as int));
            exec.put(vars[i].0.as_str(), line);
            i = i + 1;
        }
        assert(all.take(i as int) =~= all);
        if contains_nul(cmd) {
            return Err(Error::BadStr);
        }
        proof {
            use_type_invariant(&exec);
        }
        Ok(exec)
    }

    /// The command that `args` names: the program `args[0]`, with all of
    /// `args` as its arguments and the environment that is made of `vars`.
    /// `Error::BadStr` where one of the strings holds a NUL.
    pub fn for_args(args: &Vec<String>, vars: &Vec<(String, String)>) -> (r: Result<Exec, Error>)
        requires
            args@.len() > 0,
        ensures
            match r {
                Ok(exec) => {
                    &&& first_nul(texts(args@), 0) == args@.len()
                    &&& first_nul(env_lines(pairs(vars@)), 0) == vars@.len()
                    &&& exec@ == (ExecView {
                        cmd: args@[0]@,
                        args: texts(args@),
                        env: environ(pairs(vars@)),
                    })
                },
                Err(e) => {
                    &&& e@ == ErrorView::BadStr
                    &&& first_nul(texts(args@), 0) < args@.len() || first_nul(
                        env_lines(pairs(vars@)),
                        0,
                    ) < vars@.len()
                },
            },
    {
        let mut exec = match Exec::new(args[0].as_str(), vars) {
            Ok(exec) => exec,
            Err(e) => {
                assert(texts(args@)[0] == args@[0]@);
                return Err(e);
            },
        };
        match exec.args(args) {
            Ok(_) => {
                assert(exec@.args =~= texts(args@)) by {
                    assert(texts(args@).take(args@.len() as int) =~= texts(args@));
                }
                Ok(exec)
            },
            Err(e) => Err(e),
        }
    }

    /// Appends arguments. At the first that holds a NUL the call ends with
    /// `Error::BadStr`, and the arguments before it stay appended.
    pub fn args(&mut self, args: &Vec<String>) -> (r: Result<(), Error>)
        ensures
            final(self)@.cmd == old(self)@.cmd,
            final(self)@.env == old(self)@.env,
            final(self)@.args == old(self)@.args + texts(args@).take(
                first_nul(texts(args@), 0),
            ),
            match r {
                Ok(_) => first_nul(texts(args@), 0) == args@.len(),
                Err(e) => first_nul(texts(args@), 0) < args@.len() && e@ == ErrorView::BadStr,
            },
    {
        let ghost all = texts(args@);
        let mut out = self.argv();
        let mut i: usize = 0;
        assert(texts(out@) =~= old(self)@.args + all.take(0));
        while i < args.len()
            invariant
                i <= args@.len(),
                all == texts(args@),
                first_nul(all, 0) == first_nul(all, i as int),
                self@ == old(self)@,
                texts(out@) == old(self)@.args + all.take(i as int),
            decreases args@.len() - i,
        {
            assert(all[i as int] == args@[i as int]@);
            if contains_nul(args[i].as_str()) {
                proof {
                    use_type_invariant(&*self);
                }
                self.args = out;
                return Err(Error::BadStr);
            }
            let ghost before = texts(out@);
            out.push(args[i].clone());
            assert(texts(out@) =~= before.push(all[i as int]));
            assert(all.take(i + 1) =~= all.take(i as int).push(all[i as int]));
            i = i + 1;
        }
        proof {
            use_type_invariant(&*self);
        }
        self.args = out;
        Ok(())
    }

    /// Empties the environment.
    pub fn env_clear(&mut self)
        ensures
            final(self)@ == (ExecView { env: Seq::empty(), ..old(self)@ }),
    {
        let none: Vec<(String, String)> = Vec::new();
        assert(pairs(none@) =~= Seq::<EnvEntry>::empty());
        self.env = none;
    }

    /// Sets the entry of the variable `name` to `value`, as it stands.
    /// `Error::BadStr` where `value` holds a NUL; then nothing changes.
    pub fn env(&mut self, name: &str, value: &str) -> (r: Result<(), Error>)
        ensures
            match r {
                Ok(_) => !has_nul(value@) && final(self)@ == (ExecView {
                    env: env_put(old(self)@.env, name@, value@),
                    ..old(self)@
                }),
                Err(e) => has_nul(value@) && e@ == ErrorView::BadStr && final(self)@ == old(
                    self,
                )@,
            },
    {
        if contains_nul(value) {
            return Err(Error::BadStr);
        }
        self.put(name, String::from_str(value));
        Ok(())
    }

    /// Removes the variable `name` from the environment.
    pub fn env_remove(&mut self, name: &str)
        ensures
            final(self)@ == (ExecView { env: env_without(old(self)@.env, name@), ..old(self)@ }),
    {
        proof {
            use_type_invariant(&*self);
            lemma_env_stays_distinct(self@.env, name@, name@);
        }
        let next = env_less(&self.env, name);
        self.env = next;
    }

    /// The program.
    pub fn program(&self) -> (r: &str)
        ensures
            r@ == self@.cmd,
    {
        self.cmd.as_str()
    }

    /// The arguments.
    pub fn argv(&self) -> (r: Vec<String>)
        ensures
            texts(r@) == self@.args,
    {
        let mut out: Vec<String> = Vec::new();
        let mut i: usize = 0;
        while i < self.args.len()
            invariant
                i <= self.args@.len(),
                texts(out@) == texts(self.args@).take(i as int),
            decreases self.args@.len() - i,
        {
            let ghost before = texts(out@);
            out.push(self.args[i].clone());
            assert(texts(out@) =~= before.push(self.args@[i as int]@));
            assert(texts(self.args@).take(i + 1) =~= before.push(self.args@[i as int]@));
            i = i + 1;
        }
        assert(texts(self.args@).take(i as int) =~= texts(self.args@));
        out
    }

    /// The entries of the environment, in the order of the variables; no
    /// variable has two of them.
    pub fn envp(&self) -> (r: Vec<String>)
        ensures
            texts(r@) == self@.env.map_values(|p: EnvEntry| p.1),
            env_distinct(self@.env),
    {
        proof {
            use_type_invariant(self);
        }
        let ghost want = self@.env.map_values(|p: EnvEntry| p.1);
        let mut out: Vec<String> = Vec::new();
        let mut i: usize = 0;
        while i < self.env.len()
            invariant
                i <= self.env@.len(),
                want == self@.env.map_values(|p: EnvEntry| p.1),
                texts(out@) == want.take(i as int),
            decreases self.env@.len() - i,
        {
            let ghost before = texts(out@);
            out.push(self.env[i].1.clone());
            assert(texts(out@) =~= before.push(self.env@[i as int].1@));
            assert(want.take(i + 1) =~= before.push(self.env@[i as int].1@));
            i = i + 1;
        }
        assert(want.take(i as int) =~= want);
        out
    }
}

} // verus!
