use sandbox::err::Error;
use sandbox::proc::{
    park_signals, trywaitpid, Exec, ParkAction, ParkEvent, Proc, Signal, TryWait, SIGCHLD, SIGINT,
    SIGKILL, SIGQUIT, SIGTERM,
};

#[test]
fn signal_numbers_are_the_kernels() {
    assert_eq!(SIGINT, libc::SIGINT);
    assert_eq!(SIGQUIT, libc::SIGQUIT);
    assert_eq!(SIGKILL, libc::SIGKILL);
    assert_eq!(SIGTERM, libc::SIGTERM);
    assert_eq!(SIGCHLD, libc::SIGCHLD);
    assert_eq!(park_signals(), [libc::SIGTERM, libc::SIGINT, libc::SIGQUIT, libc::SIGCHLD]);
}

#[test]
fn wait_results() {
    assert_eq!(trywaitpid(10, 0, 0).unwrap(), TryWait::Busy);
    assert_eq!(trywaitpid(10, 10, 42 << 8).unwrap(), TryWait::Done(10, 42));
    assert_eq!(trywaitpid(10, 10, 0).unwrap(), TryWait::Done(10, 0));
    assert_eq!(trywaitpid(10, 10, (255 << 8) | 0x7f).unwrap(), TryWait::Done(10, 255));
    assert_eq!(trywaitpid(10, 11, 0x1_2300).unwrap(), TryWait::Done(11, 0x23));
    match trywaitpid(10, -1, 0) {
        Err(Error::OS { op, .. }) => assert_eq!(op, "waitpid(10)"),
        other => panic!("{:?}", other),
    }
}

#[test]
fn exit_statuses_are_libcs() {
    for status in [0, 1 << 8, 42 << 8, 0xff00, 0x1234, 9, 0x7fff_ffff] {
        assert_eq!(trywaitpid(1, 1, status).unwrap(), TryWait::Done(1, libc::WEXITSTATUS(status)));
    }
}

#[test]
fn park_reaps_a_child_that_exits() {
    let mut pid = Proc::manage(100);
    assert_eq!(pid.id(), 100);
    assert_eq!(pid.park(ParkEvent::Begin), ParkAction::Watch);
    assert_eq!(pid.park(ParkEvent::Watching), ParkAction::Poll);
    assert_eq!(pid.park(ParkEvent::Polled(TryWait::Busy)), ParkAction::Listen);
    assert_eq!(pid.park(ParkEvent::Caught(SIGCHLD)), ParkAction::Poll);
    assert_eq!(pid.park(ParkEvent::Polled(TryWait::Done(100, 42))), ParkAction::Return(42));
}

#[test]
fn park_is_idempotent() {
    let mut pid = Proc::manage(100);
    pid.park(ParkEvent::Begin);
    pid.park(ParkEvent::Watching);
    assert_eq!(pid.park(ParkEvent::Polled(TryWait::Done(100, 7))), ParkAction::Return(7));
    assert_eq!(pid.park(ParkEvent::Begin), ParkAction::Return(7));
    assert_eq!(pid.park(ParkEvent::Begin), ParkAction::Return(7));
    assert_eq!(pid.park(ParkEvent::Caught(SIGINT)), ParkAction::Return(7));
    assert_eq!(pid.park(ParkEvent::Polled(TryWait::Done(100, 9))), ParkAction::Return(7));
    assert_eq!(pid.signal(SIGTERM), None);
    assert_eq!(pid.kill(), None);
}

#[test]
fn third_interrupt_kills() {
    let mut pid = Proc::manage(5);
    pid.park(ParkEvent::Begin);
    pid.park(ParkEvent::Watching);
    pid.park(ParkEvent::Polled(TryWait::Busy));
    assert_eq!(
        pid.park(ParkEvent::Caught(SIGINT)),
        ParkAction::Forward(Signal { pid: 5, sig: SIGINT })
    );
    assert_eq!(pid.park(ParkEvent::Sent), ParkAction::Poll);
    assert_eq!(pid.park(ParkEvent::Polled(TryWait::Busy)), ParkAction::Listen);
    assert_eq!(pid.park(ParkEvent::Caught(SIGCHLD)), ParkAction::Poll);
    assert_eq!(
        pid.park(ParkEvent::Caught(SIGTERM)),
        ParkAction::Forward(Signal { pid: 5, sig: SIGTERM })
    );
    assert_eq!(
        pid.park(ParkEvent::Caught(SIGINT)),
        ParkAction::Forward(Signal { pid: 5, sig: SIGKILL })
    );
    for _ in 0..300 {
        assert_eq!(
            pid.park(ParkEvent::Caught(SIGQUIT)),
            ParkAction::Forward(Signal { pid: 5, sig: SIGKILL })
        );
    }
    assert_eq!(pid.park(ParkEvent::Polled(TryWait::Done(5, 0))), ParkAction::Return(0));
}

#[test]
fn a_new_wait_counts_interrupts_anew() {
    let mut pid = Proc::manage(5);
    pid.park(ParkEvent::Begin);
    for _ in 0..3 {
        pid.park(ParkEvent::Caught(SIGINT));
    }
    pid.park(ParkEvent::Begin);
    assert_eq!(
        pid.park(ParkEvent::Caught(SIGINT)),
        ParkAction::Forward(Signal { pid: 5, sig: SIGINT })
    );
}

#[test]
fn handles_in_log_lines() {
    let mut pid = Proc::manage(321);
    assert_eq!(pid.describe(), "PID 321");
    pid.park(ParkEvent::Polled(TryWait::Done(321, 42)));
    assert_eq!(pid.describe(), "PID 321 Exit with 42");
}

#[test]
fn signals_for_a_running_process() {
    let pid = Proc::manage(77);
    assert_eq!(pid.signal(SIGTERM), Some(Signal { pid: 77, sig: SIGTERM }));
    assert_eq!(pid.kill(), Some(Signal { pid: 77, sig: SIGKILL }));
    match Proc::signal_failed(Signal { pid: 77, sig: 15 }) {
        Error::OS { op, .. } => assert_eq!(op, "Unable to signal 77 with 15"),
        other => panic!("{:?}", other),
    }
}

fn var(name: &str, value: &str) -> (String, String) {
    (name.to_string(), value.to_string())
}

#[test]
fn exec_takes_the_environment() {
    let exec = Exec::new("ls", &vec![var("A", "1"), var("B", "two"), var("A", "3")]).unwrap();
    assert_eq!(exec.program(), "ls");
    assert!(exec.argv().is_empty());
    assert_eq!(exec.envp(), vec!["A=3", "B=two"]);
}

#[test]
fn exec_refuses_nul() {
    assert!(matches!(Exec::new("l\0s", &vec![]), Err(Error::BadStr)));
    assert!(matches!(Exec::new("ls", &vec![var("A", "x\0y")]), Err(Error::BadStr)));
    assert!(matches!(Exec::new("ls", &vec![var("A\0", "x")]), Err(Error::BadStr)));
    let mut exec = Exec::new("ls", &vec![]).unwrap();
    let args = vec!["-l".to_string(), "a\0".to_string(), "b".to_string()];
    assert!(matches!(exec.args(&args), Err(Error::BadStr)));
    assert_eq!(exec.argv(), vec!["-l"]);
    assert!(matches!(exec.env("X", "\0"), Err(Error::BadStr)));
    assert!(exec.envp().is_empty());
}

#[test]
fn exec_arguments_and_variables() {
    let mut exec = Exec::new("sh", &vec![var("HOME", "/root"), var("TERM", "dumb")]).unwrap();
    exec.args(&vec!["sh".to_string(), "-c".to_string()]).unwrap();
    exec.args(&vec!["echo hi".to_string()]).unwrap();
    assert_eq!(exec.argv(), vec!["sh", "-c", "echo hi"]);
    exec.env("TERM", "TERM=vt100").unwrap();
    exec.env("LANG", "LANG=C").unwrap();
    assert_eq!(exec.envp(), vec!["HOME=/root", "TERM=vt100", "LANG=C"]);
    exec.env_remove("HOME");
    exec.env_remove("MISSING");
    assert_eq!(exec.envp(), vec!["TERM=vt100", "LANG=C"]);
    exec.env_clear();
    assert!(exec.envp().is_empty());
    assert_eq!(exec.argv(), vec!["sh", "-c", "echo hi"]);
}

#[test]
fn exec_for_args() {
    let args = vec!["make".to_string(), "-j4".to_string()];
    let exec = Exec::for_args(&args, &vec![var("A", "b")]).unwrap();
    assert_eq!(exec.program(), "make");
    assert_eq!(exec.argv(), vec!["make", "-j4"]);
    assert_eq!(exec.envp(), vec!["A=b"]);
    let bad = vec!["make".to_string(), "\0".to_string()];
    assert!(matches!(Exec::for_args(&bad, &vec![]), Err(Error::BadStr)));
}

#[test]
fn no_variable_is_twice_in_the_environment() {
    let vars = vec![var("A", "1"), var("B", "2"), var("A", "3"), var("C", "4"), var("B", "5")];
    let mut exec = Exec::new("env", &vars).unwrap();
    assert_eq!(exec.envp(), vec!["A=3", "B=5", "C=4"]);
    exec.env("C", "C=6").unwrap();
    exec.env("D", "D=7").unwrap();
    exec.env("A", "A=8").unwrap();
    assert_eq!(exec.envp(), vec!["A=8", "B=5", "C=6", "D=7"]);
    exec.env_remove("B");
    exec.env_remove("B");
    assert_eq!(exec.envp(), vec!["A=8", "C=6", "D=7"]);
    exec.args(&vec!["env".to_string()]).unwrap();
    assert_eq!(exec.envp(), vec!["A=8", "C=6", "D=7"]);
    assert_eq!(exec.argv(), vec!["env"]);
}
