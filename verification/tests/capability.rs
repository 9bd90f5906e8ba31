use sandbox::capability::{Cap, CAP_SETGID, CAP_SETUID, CAP_SYS_ADMIN};
use sandbox::err::{Error, IoError, EINVAL};

#[test]
fn get_current() {
    Cap::current().unwrap();
}

#[test]
fn apply_current() {
    Cap::current().unwrap().update().unwrap();
}

#[test]
fn snapshot_is_stable() {
    let before = Cap::current().unwrap();
    before.update().unwrap();
    let after = Cap::current().unwrap();
    assert_eq!(before, after);
}

#[test]
fn current_pid_zero_is_current() {
    assert_eq!(Cap::current_pid(0).unwrap(), Cap::current().unwrap());
}

#[test]
fn negative_pid_is_invalid() {
    match Cap::current_pid(-5) {
        Err(Error::OS { op, io }) => {
            assert_eq!(op, "capget");
            assert_eq!(io, IoError::Os(EINVAL));
        }
        other => panic!("{:?}", other),
    }
    match Cap::default().update_pid(-5) {
        Err(Error::OS { op, io }) => {
            assert_eq!(op, "capset");
            assert_eq!(io, IoError::Os(EINVAL));
        }
        other => panic!("{:?}", other),
    }
}

#[test]
fn activate_copies_permitted() {
    let mut cap = Cap { effective: [0, 0], permitted: [0x21, 0x3], inheritable: [7, 8] };
    cap.activate();
    assert_eq!(cap.effective, [0x21, 0x3]);
    assert_eq!(cap.permitted, [0x21, 0x3]);
    assert_eq!(cap.inheritable, [7, 8]);
}

#[test]
fn clear_each_mask() {
    let full = Cap { effective: [1, 2], permitted: [3, 4], inheritable: [5, 6] };
    let mut cap = full;
    cap.clear_effective();
    assert_eq!(cap, Cap { effective: [0, 0], ..full });
    let mut cap = full;
    cap.clear_permitted();
    assert_eq!(cap, Cap { permitted: [0, 0], ..full });
    let mut cap = full;
    cap.clear_inheritable();
    assert_eq!(cap, Cap { inheritable: [0, 0], ..full });
    let mut cap = full;
    cap.clear();
    assert_eq!(cap, Cap::default());
}

#[test]
fn chained_calls() {
    let mut cap = Cap { effective: [1, 2], permitted: [3, 4], inheritable: [5, 6] };
    cap.clear_effective().clear_permitted().clear_inheritable();
    assert_eq!(cap, Cap::default());
    let mut cap = Cap { effective: [0, 0], permitted: [3, 4], inheritable: [5, 6] };
    cap.activate().clear_inheritable();
    assert_eq!(cap, Cap { effective: [3, 4], permitted: [3, 4], inheritable: [0, 0] });
}

#[test]
fn effective_tests_one_bit() {
    let cap = Cap { effective: [1 << 7, 1 << 2], permitted: [0, 0], inheritable: [0, 0] };
    assert!(cap.effective(CAP_SETUID));
    assert!(!cap.effective(CAP_SETGID));
    assert!(!cap.effective(CAP_SYS_ADMIN));
    assert!(cap.effective(34));
    assert!(!cap.effective(2));
    assert!(!cap.effective(63));
    let low = Cap { effective: [0b111, 0], permitted: [0, 0], inheritable: [0, 0] };
    assert!(!low.effective(CAP_SETUID));
    assert!(low.effective(0));
    assert!(low.effective(2));
    assert!(!low.effective(3));
}

#[test]
fn capability_numbers() {
    assert_eq!(CAP_SETGID, 6);
    assert_eq!(CAP_SETUID, 7);
    assert_eq!(CAP_SYS_ADMIN, 21);
}

#[test]
fn masks_round_trip() {
    let cap = Cap { effective: [0xdead_beef, 0x1ff], permitted: [1, 0], inheritable: [0, 0x80] };
    let masks = cap.to_masks();
    assert_eq!(masks, (0x1ff_dead_beef, 1, 0x80_0000_0000));
    assert_eq!(Cap::from_masks(masks), cap);
}

#[test]
fn describe_prints_high_word_first() {
    let cap = Cap { effective: [0xa, 0x1], permitted: [0xffff_ffff, 0x1ff], inheritable: [0, 0] };
    assert_eq!(
        cap.describe(),
        "CapEff: 0x000000010000000a CapPrm: 0x000001ffffffffff CapInh: 0x0000000000000000"
    );
}

#[test]
fn answers_of_the_kernel() {
    let cap = Cap::capget_outcome(Ok((0x1_0000_0080, 3, 0))).unwrap();
    assert_eq!(cap, Cap { effective: [0x80, 1], permitted: [3, 0], inheritable: [0, 0] });
    match Cap::capget_outcome(Err(1)) {
        Err(Error::OS { op, io }) => {
            assert_eq!(op, "capget");
            assert_eq!(io, IoError::Os(1));
        }
        other => panic!("{:?}", other),
    }
    assert!(Cap::capset_outcome(None).is_ok());
    match Cap::capset_outcome(Some(22)) {
        Err(Error::OS { op, io }) => {
            assert_eq!(op, "capset");
            assert_eq!(io, IoError::Os(22));
        }
        other => panic!("{:?}", other),
    }
}
