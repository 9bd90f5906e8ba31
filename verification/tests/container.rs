use sandbox::capability::{Cap, CAP_SETGID, CAP_SETUID};
use sandbox::container::{
    advance, id_maps, Action, Event, Hook, IdMap, IdMapAction, Stage, CLONE_NEWCGROUP,
    CLONE_NEWIPC, CLONE_NEWNET, CLONE_NEWNS, CLONE_NEWPID, CLONE_NEWUSER, GO, STOP,
};
use sandbox::err::Error;

#[test]
fn map_args() {
    let actual = IdMap::new_uid(0).add(0, 1, 2).add(15, 16, 2).map_args();

    assert_eq!(actual, &["0", "1", "2", "15", "16", "2"]);
}

#[test]
fn map_file() {
    let actual = IdMap::new_uid(0).add(0, 1, 2).add(15, 16, 2).map_file();

    assert_eq!(actual, "0 1 2\n15 16 2\n");
}

#[test]
fn map_is_sorted_by_start() {
    let actual = IdMap::new_gid(1).add(15, 16, 2).add(0, 1, 2).add(7, 7, 1).map_file();
    assert_eq!(actual, "0 1 2\n7 7 1\n15 16 2\n");
}

#[test]
fn map_replaces_same_start() {
    let actual = IdMap::new_uid(1).add(5, 1, 2).add(9, 9, 9).add(5, 100, 4294967295).map_args();
    assert_eq!(actual, &["5", "100", "4294967295", "9", "9", "9"]);
}

#[test]
fn empty_map_is_empty_file() {
    assert_eq!(IdMap::new_uid(3).map_file(), "");
    assert!(IdMap::new_uid(3).map_args().is_empty());
}

fn caps(bits: u32) -> Cap {
    Cap { effective: [bits, 0], permitted: [0, 0], inheritable: [0, 0] }
}

#[test]
fn write_directly_with_capability() {
    let mut map = IdMap::new_uid(1234);
    map.add(1000, 1000, 1);
    match map.write(&caps(1 << CAP_SETUID)) {
        IdMapAction::WriteFile { path, data } => {
            assert_eq!(path, "/proc/1234/uid_map");
            assert_eq!(data, "1000 1000 1\n");
        }
        other => panic!("{:?}", other),
    }
    let mut map = IdMap::new_gid(1234);
    map.add(100, 100, 1);
    match map.write(&caps(1 << CAP_SETGID)) {
        IdMapAction::WriteFile { path, data } => {
            assert_eq!(path, "/proc/1234/gid_map");
            assert_eq!(data, "100 100 1\n");
        }
        other => panic!("{:?}", other),
    }
}

#[test]
fn write_through_helper_without_capability() {
    let mut map = IdMap::new_uid(77);
    map.add(1000, 0, 1).add(100000, 1, 65536);
    match map.write(&caps(1 << CAP_SETGID)) {
        IdMapAction::RunHelper { cmd, args } => {
            assert_eq!(cmd, "newuidmap");
            assert_eq!(args, &["77", "1000", "0", "1", "100000", "1", "65536"]);
        }
        other => panic!("{:?}", other),
    }
    let map = IdMap::new_gid(77);
    match map.write(&caps(1 << CAP_SETUID)) {
        IdMapAction::RunHelper { cmd, args } => {
            assert_eq!(cmd, "newgidmap");
            assert_eq!(args, &["77"]);
        }
        other => panic!("{:?}", other),
    }
}

#[test]
fn helper_must_exit_zero() {
    assert!(IdMap::helper_outcome(Some(0)).is_ok());
    assert!(matches!(IdMap::helper_outcome(Some(1)), Err(Error::UIDMap)));
    assert!(matches!(IdMap::helper_outcome(Some(-1)), Err(Error::UIDMap)));
    assert!(matches!(IdMap::helper_outcome(None), Err(Error::UIDMap)));
}

#[test]
fn own_id_maps() {
    assert!(id_maps(false, 5, 1000, 100).is_empty());
    let maps = id_maps(true, 5, 1000, 100);
    assert_eq!(maps.len(), 2);
    assert_eq!(maps[0].map_file(), "1000 1000 1\n");
    assert_eq!(maps[1].map_file(), "100 100 1\n");
    let all = Cap { effective: [!0, !0], permitted: [0, 0], inheritable: [0, 0] };
    assert!(matches!(maps[0].write(&all), IdMapAction::WriteFile { ref path, .. } if path == "/proc/5/uid_map"));
    assert!(matches!(maps[1].write(&all), IdMapAction::WriteFile { ref path, .. } if path == "/proc/5/gid_map"));
}

#[test]
fn namespace_flags_are_the_kernels() {
    assert_eq!(CLONE_NEWNS, libc::CLONE_NEWNS);
    assert_eq!(CLONE_NEWCGROUP, libc::CLONE_NEWCGROUP);
    assert_eq!(CLONE_NEWIPC, libc::CLONE_NEWIPC);
    assert_eq!(CLONE_NEWUSER, libc::CLONE_NEWUSER);
    assert_eq!(CLONE_NEWPID, libc::CLONE_NEWPID);
    assert_eq!(CLONE_NEWNET, libc::CLONE_NEWNET);
}

#[test]
fn handshake_bytes() {
    assert_eq!(GO, b'.');
    assert_eq!(STOP, b'X');
}

/// Runs the three processes to their ends, each event a success, and notes
/// the hooks in the order of their calls.
fn run_all(unshare: Event, set_id_map: Event) -> (Vec<Hook>, Vec<Action>) {
    let mut hooks = Vec::new();
    let mut ends = Vec::new();
    let mut up: Vec<u8> = Vec::new();
    let mut down: Vec<u8> = Vec::new();
    // (stage, pending action) of parent, child, grandchild
    let mut procs: Vec<Option<(Stage, Option<Action>)>> =
        vec![Some((Stage::ParentStart, None)), None, None];
    let mut progress = true;
    while progress {
        progress = false;
        for who in 0..3 {
            let (stage, pending) = match procs[who] {
                Some(p) => p,
                None => continue,
            };
            let event = match pending {
                None => Event::Start,
                Some(Action::Call(Hook::Unshare)) => unshare,
                Some(Action::Call(Hook::SetIdMap)) => set_id_map,
                Some(Action::Receive) => {
                    let inbox = if who == 0 { &mut up } else { &mut down };
                    if inbox.is_empty() {
                        let peer = if who == 0 { procs[1] } else { procs[0] };
                        match peer {
                            Some((Stage::Finished, _)) | None => Event::Closed,
                            _ => continue,
                        }
                    } else {
                        Event::Byte(inbox.remove(0))
                    }
                }
                Some(Action::Park) => match procs[who + 1] {
                    Some((Stage::Finished, Some(Action::Exit { code, .. }))) => Event::Exited(code),
                    _ => continue,
                },
                Some(Action::Return(_)) | Some(Action::Fail) | Some(Action::Exit { .. }) => continue,
                Some(_) => Event::Done,
            };
            let (to, action) = advance(stage, event).unwrap();
            match action {
                Action::Call(hook) => hooks.push(hook),
                Action::ForkChild => procs[1] = Some((Stage::ChildStart, None)),
                Action::ForkGrandchild => procs[2] = Some((Stage::GrandchildStart, None)),
                Action::Send(byte) => {
                    if who == 0 {
                        down.push(byte)
                    } else {
                        up.push(byte)
                    }
                }
                Action::Return(_) | Action::Fail | Action::Exit { .. } => ends.push(action),
                _ => {}
            }
            procs[who] = Some((to, Some(action)));
            progress = true;
        }
    }
    (hooks, ends)
}

#[test]
fn lifecycle() {
    let (hooks, ends) = run_all(Event::Done, Event::Done);
    assert_eq!(
        hooks,
        vec![Hook::AtStart, Hook::Unshare, Hook::SetIdMap, Hook::SetupPriv, Hook::Setup]
    );
    assert_eq!(
        ends,
        vec![
            Action::Exit { code: 0, hint: false },
            Action::Exit { code: 0, hint: false },
            Action::Return(0)
        ]
    );
}

#[test]
fn unshare_denied_gives_hint() {
    let (hooks, ends) = run_all(Event::Failed { denied: true }, Event::Done);
    assert_eq!(hooks, vec![Hook::AtStart, Hook::Unshare]);
    assert_eq!(ends, vec![Action::Exit { code: 1, hint: true }, Action::Return(1)]);
}

#[test]
fn unshare_failure_is_told_to_parent() {
    let (hooks, ends) = run_all(Event::Failed { denied: false }, Event::Done);
    assert_eq!(hooks, vec![Hook::AtStart, Hook::Unshare]);
    assert_eq!(ends, vec![Action::Exit { code: 1, hint: false }, Action::Return(1)]);
}

#[test]
fn id_map_failure_ends_runc() {
    let (hooks, ends) = run_all(Event::Done, Event::Failed { denied: false });
    assert_eq!(hooks, vec![Hook::AtStart, Hook::Unshare, Hook::SetIdMap]);
    assert_eq!(ends[0], Action::Fail);
}

#[test]
fn parent_steps() {
    assert_eq!(
        advance(Stage::ParentStart, Event::Start),
        Some((Stage::AtStart, Action::Call(Hook::AtStart)))
    );
    assert_eq!(advance(Stage::AtStart, Event::Done), Some((Stage::ForkingChild, Action::ForkChild)));
    assert_eq!(
        advance(Stage::AtStart, Event::Failed { denied: false }),
        Some((Stage::Finished, Action::Fail))
    );
    assert_eq!(
        advance(Stage::AwaitingChild, Event::Byte(b'.')),
        Some((Stage::MappingIds, Action::Call(Hook::SetIdMap)))
    );
    assert_eq!(
        advance(Stage::AwaitingChild, Event::Byte(b'X')),
        Some((Stage::ParentDropping, Action::DropPrivileges))
    );
    assert_eq!(
        advance(Stage::AwaitingChild, Event::Closed),
        Some((Stage::ParentDropping, Action::DropPrivileges))
    );
    assert_eq!(
        advance(Stage::MappingIds, Event::Done),
        Some((Stage::ReleasingChild, Action::Send(b'.')))
    );
    assert_eq!(
        advance(Stage::ParkingChild, Event::Exited(42)),
        Some((Stage::Finished, Action::Return(42)))
    );
    assert_eq!(advance(Stage::ParkingChild, Event::Done), None);
    assert_eq!(advance(Stage::Finished, Event::Done), None);
    assert_eq!(advance(Stage::ParentStart, Event::Done), None);
}

#[test]
fn grandchild_steps() {
    assert_eq!(
        advance(Stage::GrandchildStart, Event::Start),
        Some((Stage::Activating, Action::Activate))
    );
    assert_eq!(
        advance(Stage::Activating, Event::Done),
        Some((Stage::SettingUpPriv, Action::Call(Hook::SetupPriv)))
    );
    assert_eq!(advance(Stage::SettingUpPriv, Event::Done), Some((Stage::Clearing, Action::ClearCaps)));
    assert_eq!(
        advance(Stage::Clearing, Event::Done),
        Some((Stage::SettingUp, Action::Call(Hook::Setup)))
    );
    assert_eq!(
        advance(Stage::SettingUp, Event::Failed { denied: true }),
        Some((Stage::Finished, Action::Exit { code: 1, hint: false }))
    );
    assert_eq!(
        advance(Stage::ParkingGrandchild, Event::Exited(3)),
        Some((Stage::Finished, Action::Exit { code: 3, hint: false }))
    );
}
