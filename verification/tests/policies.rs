use sandbox::fs::{MS_BIND, MS_MOVE, MS_REC, MS_SLAVE};
use sandbox::hidehome::{HideHome, Refusal};
use sandbox::isolate::NOOPT;
use sandbox::nonet::NoNet;
use sandbox::ops::Op;
use sandbox::tempdir::TempDir;

fn strings(words: &[&str]) -> Vec<String> {
    words.iter().map(|s| s.to_string()).collect()
}

fn show(ops: &Vec<Op>) -> Vec<String> {
    ops.iter().map(|op| format!("{:?}", op)).collect()
}

fn mount(src: &str, target: &str, fstype: &str, flags: u64) -> String {
    format!("{:?}", Op::mount(src, target, fstype, flags))
}

fn mkdirs(path: &str) -> String {
    format!("{:?}", Op::Mkdirs { path: path.to_string() })
}

#[test]
fn policies_take_command_and_arguments() {
    let cont = HideHome::new("ls", &strings(&["-l", "/home"]));
    assert!(cont.isuser);
    assert_eq!(cont.args, strings(&["ls", "-l", "/home"]));
    let cont = NoNet::new("true", &vec![]);
    assert_eq!(cont.args, strings(&["true"]));
    let cont = NoNet::new("ip", &strings(&["route", "get", "8.8.8.8"]));
    assert_eq!(cont.args, strings(&["ip", "route", "get", "8.8.8.8"]));
}

#[test]
fn nonet_enters_a_network_namespace() {
    let cont = NoNet::new("true", &vec![]);
    assert_eq!(cont.unshare_flags(), libc::CLONE_NEWNET);
    assert_eq!(cont.setup_priv().len(), 3);
}

#[test]
fn hidehome_namespaces() {
    let mut cont = HideHome::new("true", &vec![]);
    let base = libc::CLONE_NEWNS | libc::CLONE_NEWPID | libc::CLONE_NEWCGROUP;
    assert_eq!(cont.unshare_flags(), base | libc::CLONE_NEWUSER);
    cont.isuser = false;
    assert_eq!(cont.unshare_flags(), base);
}

fn check_hidden(home: &str, cwd: &str, shown: Vec<String>, root: &str) {
    let ops = HideHome::new("true", &vec![]).setup_priv(home, cwd).unwrap();
    let mut want = vec![
        mount("", "/", "", MS_REC | MS_SLAVE),
        mkdirs("/proc"),
        mount("none", "/proc", "proc", NOOPT),
        mkdirs("/sys/fs/cgroup"),
        mount("none", "/sys/fs/cgroup", "tmpfs", NOOPT),
        mkdirs("/sys/fs/cgroup/unified"),
        mount("none", "/sys/fs/cgroup/unified", "cgroup2", NOOPT),
        mount("none", "/tmp", "tmpfs", NOOPT),
    ];
    want.extend(shown);
    want.extend(vec![
        mount("/tmp", root, "", MS_MOVE),
        mount("none", "/tmp", "tmpfs", NOOPT),
        mkdirs("/var/tmp"),
        mount("none", "/var/tmp", "tmpfs", NOOPT),
        format!("{:?}", Op::Chdir { path: cwd.to_string() }),
    ]);
    assert_eq!(show(&ops), want);
}

#[test]
fn hidehome_binds_a_working_directory_in_the_hidden_tree() {
    check_hidden(
        "/home/me",
        "/home/me/work",
        vec![mkdirs("/tmp/me/work"), mount("/home/me/work", "/tmp/me/work", "", MS_BIND)],
        "/home",
    );
    check_hidden(
        "/home/me",
        "/home/other",
        vec![mkdirs("/tmp/other"), mount("/home/other", "/tmp/other", "", MS_BIND)],
        "/home",
    );
    check_hidden("/home/me", "/home", vec![mkdirs("/tmp/"), mount("/home", "/tmp/", "", MS_BIND)], "/home");
}

#[test]
fn hidehome_makes_a_stub_home_for_a_working_directory_elsewhere() {
    check_hidden("/home/me", "/srv/data", vec![mkdirs("/home/me")], "/home");
    check_hidden("/home/me", "/homework", vec![mkdirs("/home/me")], "/home");
}

#[test]
fn hidehome_hides_a_home_below_the_root_itself() {
    check_hidden("/root", "/root/x", vec![mkdirs("/tmp/x"), mount("/root/x", "/tmp/x", "", MS_BIND)], "/root");
    check_hidden("/root", "/srv", vec![mkdirs("/root")], "/root");
}

#[test]
fn hidehome_refusals() {
    let cont = HideHome::new("true", &vec![]);
    assert_eq!(cont.setup_priv("home/me", "/home/me").unwrap_err(), Refusal::HomeNotAbsolute);
    assert_eq!(cont.setup_priv("", "/home/me").unwrap_err(), Refusal::HomeNotAbsolute);
    assert_eq!(cont.setup_priv("/home/me", "/tmp").unwrap_err(), Refusal::UnderTmp);
    assert_eq!(cont.setup_priv("/home/me", "/tmp/build/x").unwrap_err(), Refusal::UnderTmp);
    assert!(cont.setup_priv("/home/me", "/tmpfiles").is_ok());
    assert_eq!(Refusal::HomeNotAbsolute.message(), "$HOME must be an absolute path");
    assert_eq!(Refusal::UnderTmp.message(), "Can't run under /tmp");
}

#[test]
fn staging_directory_template() {
    assert_eq!(TempDir::template("/tmp"), "/tmp/sandbox-XXXXXX");
    assert_eq!(TempDir::template("/var/tmp/"), "/var/tmp/sandbox-XXXXXX");
    let dir = TempDir::adopt("/tmp/sandbox-a1B2c3".to_string());
    assert_eq!(dir.path(), "/tmp/sandbox-a1B2c3");
}
