use sandbox::err::{Error, IoError, EACCES, EINVAL, EPERM};

#[test]
fn errno_values_are_the_kernels() {
    assert_eq!(EPERM, libc::EPERM);
    assert_eq!(EACCES, libc::EACCES);
    assert_eq!(EINVAL, libc::EINVAL);
}

#[test]
fn kinds_of_failure() {
    assert!(IoError::Os(EACCES).is_permission_denied());
    assert!(IoError::Os(EPERM).is_permission_denied());
    assert!(!IoError::Os(EINVAL).is_permission_denied());
    assert!(!IoError::Other.is_permission_denied());
    assert!(IoError::Os(EINVAL).is_invalid_argument());
    assert!(!IoError::Os(EPERM).is_invalid_argument());
    assert!(!IoError::UnexpectedEof.is_invalid_argument());
    assert!(IoError::UnexpectedEof.is_unexpected_eof());
    assert!(!IoError::Os(0).is_unexpected_eof());
}

#[test]
fn constructors() {
    match Error::file("open", "/x", IoError::Os(2)) {
        Error::File { op, name, io } => {
            assert_eq!(op, "open");
            assert_eq!(name, "/x");
            assert_eq!(io, IoError::Os(2));
        }
        other => panic!("{:?}", other),
    }
    match Error::os("fork", IoError::Other) {
        Error::OS { op, io } => {
            assert_eq!(op, "fork");
            assert_eq!(io, IoError::Other);
        }
        other => panic!("{:?}", other),
    }
    match Error::parse("bad line", "static") {
        Error::ParseError { msg, name } => {
            assert_eq!(msg, "bad line");
            assert_eq!(name, "static");
        }
        other => panic!("{:?}", other),
    }
    match Error::last_os_error("mkdtemp") {
        Error::OS { op, io } => {
            assert_eq!(op, "mkdtemp");
            assert!(!io.is_unexpected_eof());
        }
        other => panic!("{:?}", other),
    }
    match Error::last_file_error("chown", "/y") {
        Error::File { op, name, io } => {
            assert_eq!(op, "chown");
            assert_eq!(name, "/y");
            assert!(!io.is_unexpected_eof());
        }
        other => panic!("{:?}", other),
    }
}

#[test]
fn sources() {
    assert_eq!(Error::file("a", "b", IoError::Os(13)).source(), Some(IoError::Os(13)));
    assert_eq!(Error::os("a", IoError::UnexpectedEof).source(), Some(IoError::UnexpectedEof));
    assert_eq!(Error::TooLong.source(), None);
    assert_eq!(Error::parse("a", "b").source(), None);
    assert!(Error::os("unshare", IoError::Os(EPERM)).is_permission_denied());
    assert!(Error::file("open", "/", IoError::Os(EACCES)).is_permission_denied());
    assert!(!Error::os("unshare", IoError::Os(EINVAL)).is_permission_denied());
    assert!(!Error::UIDMap.is_permission_denied());
}

#[test]
fn messages() {
    assert_eq!(
        Error::file("open", "/proc/1/uid_map", IoError::Os(1)).message(),
        "File open with /proc/1/uid_map : os error 1"
    );
    assert_eq!(Error::os("capset", IoError::Os(-3)).message(), "OS capset : os error -3");
    assert_eq!(
        Error::os("read", IoError::UnexpectedEof).message(),
        "OS read : unexpected end of file"
    );
    assert_eq!(Error::os("read", IoError::Other).message(), "OS read : input/output error");
    assert_eq!(Error::TooLong.message(), "Interface name too long");
    assert_eq!(Error::NotIPv4.message(), "Interface address not IPv4");
    assert_eq!(Error::BadStr.message(), "String can not contain nil");
    assert_eq!(Error::UIDMap.message(), "newuidmap");
    assert_eq!(
        Error::parse("Error parsing line 3 : x", "/proc/self/mountinfo").message(),
        "Error: Error parsing line 3 : x while parsing /proc/self/mountinfo"
    );
    assert_eq!(Error::MissingMount.message(), "Missing mount point info");
}
