use sandbox::err::Error;
use sandbox::net::{
    address, b2u32, configure_lo, dummy_bridge, from_name, loopback, raise, u32_octets, NetOp,
    AF_INET, IFF_NO_PI, IFF_TAP, IFF_UP, IFNAMSIZ, TAP_FLAGS,
};

#[test]
fn interface_constants_are_the_kernels() {
    assert_eq!(IFNAMSIZ, libc::IFNAMSIZ);
    assert_eq!(IFF_UP, libc::IFF_UP as u32);
    assert_eq!(IFF_TAP, libc::IFF_TAP as u32);
    assert_eq!(IFF_NO_PI, libc::IFF_NO_PI as u32);
    assert_eq!(AF_INET, libc::AF_INET as u16);
    assert_eq!(TAP_FLAGS, 0x1002);
    assert_eq!(loopback(), "lo");
}

#[test]
fn addresses_as_numbers() {
    assert_eq!(b2u32([127, 0, 0, 1]), 0x0100007f);
    assert_eq!(b2u32([192, 168, 1, 1]), 0x0101a8c0);
    assert_eq!(b2u32([0, 0, 0, 0]), 0);
    assert_eq!(b2u32([255, 255, 255, 255]), u32::MAX);
    assert_eq!(b2u32([1, 2, 3, 4]), u32::from_le_bytes([1, 2, 3, 4]));
    assert_eq!(u32_octets(0x0100007f), [127, 0, 0, 1]);
    assert_eq!(u32_octets(0xdeadbeef), 0xdeadbeefu32.to_le_bytes());
    for addr in [[10, 0, 0, 1], [172, 16, 254, 3], [0, 255, 0, 255]] {
        assert_eq!(u32_octets(b2u32(addr)), addr);
    }
}

#[test]
fn address_needs_ipv4() {
    assert_eq!(address(AF_INET, 0x0100007f).unwrap(), [127, 0, 0, 1]);
    assert!(matches!(address(10, 0x0100007f), Err(Error::NotIPv4)));
    assert!(matches!(address(0, 0), Err(Error::NotIPv4)));
}

#[test]
fn names_fit_with_their_nul() {
    assert_eq!(from_name("lo").unwrap(), *b"lo\0\0\0\0\0\0\0\0\0\0\0\0\0\0");
    assert_eq!(from_name("").unwrap(), [0u8; 16]);
    assert_eq!(from_name("fifteen-chars-x").unwrap(), *b"fifteen-chars-x\0");
    assert!(matches!(from_name("sixteen-chars-xy"), Err(Error::TooLong)));
    assert!(matches!(from_name("a-very-long-interface-name"), Err(Error::TooLong)));
    // the limit counts bytes
    assert!(matches!(from_name("éééééééé"), Err(Error::TooLong)));
    assert_eq!(&from_name("ééééééé").unwrap()[..15], "ééééééé\0".as_bytes());
}

#[test]
fn raising_an_interface() {
    assert_eq!(raise(0, false), Some(IFF_UP));
    assert_eq!(raise(0x1042, false), Some(0x1043));
    assert_eq!(raise(0x1043, false), None);
    assert_eq!(raise(1, false), None);
    assert_eq!(raise(1, true), Some(1));
    assert_eq!(raise(0x48, true), Some(0x49));
}

fn show(ops: Vec<NetOp>) -> Vec<String> {
    ops.iter().map(|op| format!("{:?}", op)).collect()
}

#[test]
fn loopback_steps() {
    assert_eq!(
        show(configure_lo()),
        vec![
            "SetAddress { ifname: \"lo\", addr: [127, 0, 0, 1] }",
            "ReadFlags { ifname: \"lo\" }",
            "Raise { ifname: \"lo\", always: false }",
        ]
    );
}

#[test]
fn bridge_steps_in_order() {
    assert_eq!(
        show(dummy_bridge()),
        vec![
            "BridgeCreate { brname: \"br0\" }",
            "TapCreate { ifname: \"tap0\" }",
            "BridgeAdd { brname: \"br0\", ifname: \"tap0\" }",
            "ReadFlags { ifname: \"br0\" }",
            "SetAddress { ifname: \"br0\", addr: [192, 168, 1, 1] }",
            "Raise { ifname: \"br0\", always: true }",
            "ReadFlags { ifname: \"tap0\" }",
            "Raise { ifname: \"tap0\", always: true }",
            "Discard { ifname: \"tap0\" }",
        ]
    );
}
