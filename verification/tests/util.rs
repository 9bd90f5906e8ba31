use sandbox::err::{Error, IoError, EACCES, EINVAL, EPERM};
use sandbox::ops::Op;
use sandbox::util::{clone_step, clone_targets, cloexec_flags, FD_CLOEXEC, MODE_MASK};

#[test]
fn cloexec_bit() {
    assert_eq!(FD_CLOEXEC, libc::FD_CLOEXEC);
    assert_eq!(FD_CLOEXEC, 1);
    assert_eq!(cloexec_flags(0, true), 1);
    assert_eq!(cloexec_flags(1, true), 1);
    assert_eq!(cloexec_flags(1, false), 0);
    assert_eq!(cloexec_flags(0, false), 0);
    // no other flag changes
    assert_eq!(cloexec_flags(0x80000, true), 0x80001);
    assert_eq!(cloexec_flags(0x80001, false), 0x80000);
    assert_eq!(cloexec_flags(6, true), 7);
    assert_eq!(cloexec_flags(7, false), 6);
    assert_eq!(cloexec_flags(-1, false), -2);
    assert_eq!(cloexec_flags(-2, true), -1);
}

fn pair(a: &str, b: &str) -> (String, String) {
    (a.to_string(), b.to_string())
}

#[test]
fn clone_walks_from_the_root() {
    assert_eq!(
        clone_targets("/tmp/build/x", "/t/root"),
        vec![
            pair("/", "/t/root/"),
            pair("/tmp", "/t/root/tmp"),
            pair("/tmp/build", "/t/root/tmp/build"),
            pair("/tmp/build/x", "/t/root/tmp/build/x"),
        ]
    );
    assert_eq!(clone_targets("/", "/t"), vec![pair("/", "/t/")]);
}

#[test]
fn clone_step_sets_mode_and_owner() {
    assert_eq!(MODE_MASK, 0o7777);
    let shown = |ops: Vec<Op>| ops.iter().map(|op| format!("{:?}", op)).collect::<Vec<_>>();
    assert_eq!(
        shown(clone_step("/t/a", true, 0o40755, 1000, 100)),
        vec![
            "Mkdir { path: \"/t/a\" }",
            "Chmod { path: \"/t/a\", mode: 493 }",
            "Chown { path: \"/t/a\", uid: 1000, gid: 100 }",
        ]
    );
    assert_eq!(
        shown(clone_step("/t/f", false, 0o104644, 0, 0)),
        vec![
            "Touch { path: \"/t/f\" }",
            "Chmod { path: \"/t/f\", mode: 2468 }",
            "Chown { path: \"/t/f\", uid: 0, gid: 0 }",
        ]
    );
}

#[test]
fn success_settles_every_operation() {
    let ops = vec![
        Op::mount("a", "b", "c", 1),
        Op::UmountLazy { path: "/p".to_string() },
        Op::MaybeUmountLazy { path: "/p".to_string() },
        Op::Mkdir { path: "/p".to_string() },
        Op::Chdir { path: "/p".to_string() },
    ];
    for op in ops {
        assert_eq!(op.settle(None).unwrap(), true);
    }
}

#[test]
fn unmount_of_no_mount_point_is_put_up_with() {
    let maybe = Op::MaybeUmountLazy { path: "/t/root/tmp".to_string() };
    assert_eq!(maybe.settle(Some(IoError::Os(EINVAL))).unwrap(), false);
    match maybe.settle(Some(IoError::Os(EPERM))) {
        Err(Error::File { op, name, io }) => {
            assert_eq!(op, "umount2");
            assert_eq!(name, "/t/root/tmp");
            assert_eq!(io, IoError::Os(EPERM));
        }
        other => panic!("{:?}", other),
    }
    let strict = Op::UmountLazy { path: "/t/root/proc".to_string() };
    assert!(matches!(strict.settle(Some(IoError::Os(EINVAL))), Err(Error::File { .. })));
}

#[test]
fn denied_remount_is_put_up_with_where_allowed() {
    let maybe = Op::maybe_mount("", "/t/root/root", "", 0x1021);
    assert_eq!(maybe.settle(Some(IoError::Os(EACCES))).unwrap(), false);
    assert_eq!(maybe.settle(Some(IoError::Os(EPERM))).unwrap(), false);
    match maybe.settle(Some(IoError::Os(EINVAL))) {
        Err(Error::OS { op, io }) => {
            assert_eq!(op, "mount src= target=/t/root/root fs= flags=0x1021 data=");
            assert_eq!(io, IoError::Os(EINVAL));
        }
        other => panic!("{:?}", other),
    }
    let strict = Op::mount("proc", "/proc", "proc", 0x20000e);
    match strict.settle(Some(IoError::Os(EPERM))) {
        Err(Error::OS { op, .. }) => {
            assert_eq!(op, "mount src=proc target=/proc fs=proc flags=0x20000e data=")
        }
        other => panic!("{:?}", other),
    }
}

#[test]
fn failures_name_operation_and_path() {
    let cases = vec![
        (Op::Mkdir { path: "/a".to_string() }, "mkdir", "/a"),
        (Op::Mkdirs { path: "/b".to_string() }, "mkdirs", "/b"),
        (Op::Rmdir { path: "/c".to_string() }, "rmdir", "/c"),
        (Op::Touch { path: "/d".to_string() }, "write", "/d"),
        (Op::Chmod { path: "/e".to_string(), mode: 1 }, "chmod", "/e"),
        (Op::Chown { path: "/f".to_string(), uid: 1, gid: 2 }, "chown", "/f"),
        (Op::Chdir { path: "/g".to_string() }, "chdir", "/g"),
        (
            Op::PivotRoot { new_root: ".".to_string(), old_root: "tmp/oldroot".to_string() },
            "pivot_root",
            ".",
        ),
        (Op::CloneDirs { src: "/h".to_string(), target: "/t".to_string() }, "clonedirs", "/h"),
    ];
    for (op, label, path) in cases {
        match op.failure(IoError::Os(5)) {
            Error::File { op, name, io } => {
                assert_eq!(op, label);
                assert_eq!(name, path);
                assert_eq!(io, IoError::Os(5));
            }
            other => panic!("{:?}", other),
        }
    }
}

#[test]
fn mounts_carry_their_data() {
    match Op::mount_with_data("none", "/t", "tmpfs", 6, "size=1m,mode=755") {
        Op::Mount { src, target, fstype, flags, data } => {
            assert_eq!(src, "none");
            assert_eq!(target, "/t");
            assert_eq!(fstype, "tmpfs");
            assert_eq!(flags, 6);
            assert_eq!(data, "size=1m,mode=755");
        }
        other => panic!("{:?}", other),
    }
    assert!(matches!(Op::mount("a", "b", "c", 1), Op::Mount { ref data, .. } if data.is_empty()));
    assert!(
        matches!(Op::maybe_mount("a", "b", "c", 1), Op::MaybeMount { ref data, flags: 1, .. } if data.is_empty())
    );
}

#[test]
fn a_nul_is_refused_before_the_call() {
    let bad = vec![
        Op::mount("a\0", "b", "c", 1),
        Op::mount("a", "\0b", "c", 1),
        Op::mount("a", "b", "c\0c", 1),
        Op::mount_with_data("a", "b", "c", 1, "x\0"),
        Op::maybe_mount("", "/x\0y", "", 1),
        Op::UmountLazy { path: "/x\0y".to_string() },
        Op::MaybeUmountLazy { path: "/x\0y".to_string() },
        Op::Mkdir { path: "\0".to_string() },
        Op::Mkdirs { path: "/a/\0".to_string() },
        Op::Rmdir { path: "/a\0".to_string() },
        Op::Touch { path: "/a\0".to_string() },
        Op::Chmod { path: "/a\0".to_string(), mode: 1 },
        Op::Chown { path: "/a\0".to_string(), uid: 1, gid: 2 },
        Op::Chdir { path: "/a\0".to_string() },
        Op::PivotRoot { new_root: ".".to_string(), old_root: "tmp\0".to_string() },
        Op::PivotRoot { new_root: ".\0".to_string(), old_root: "tmp".to_string() },
        Op::CloneDirs { src: "/h\0".to_string(), target: "/t".to_string() },
        Op::CloneDirs { src: "/h".to_string(), target: "/t\0".to_string() },
    ];
    for op in bad {
        assert!(matches!(op.check(), Err(Error::BadStr)), "{:?}", op);
        assert!(matches!(op.settle(None), Err(Error::BadStr)), "{:?}", op);
        assert!(matches!(op.settle(Some(IoError::Os(EINVAL))), Err(Error::BadStr)), "{:?}", op);
    }
    let good = vec![
        Op::mount("proc", "/proc", "proc", 1),
        Op::mount_with_data("none", "/t", "tmpfs", 1, "size=1m"),
        Op::MaybeUmountLazy { path: "/t/root/tmp".to_string() },
        Op::PivotRoot { new_root: ".".to_string(), old_root: "tmp/oldroot".to_string() },
        Op::Mkdir { path: String::new() },
    ];
    for op in good {
        assert!(op.check().is_ok(), "{:?}", op);
    }
}
