//! What the configuration of network interfaces computes: interface names
//! and addresses as the kernel takes them, and the steps that bring the
//! loopback interface up and add a dummy bridge.

use crate::err::{Error, ErrorView};
use vstd::prelude::*;
use vstd::string::StringSliceAdditionalSpecFns;

verus! {

/// The size of an interface name in the kernel, with its closing NUL.
pub const IFNAMSIZ: usize = 16;

/// The interface is up.
pub const IFF_UP: u32 = 0x1;

/// A TAP device: it carries Ethernet frames.
pub const IFF_TAP: u32 = 0x2;

/// No packet information is put before a frame.
pub const IFF_NO_PI: u32 = 0x1000;

/// The address family of IPv4.
pub const AF_INET: u16 = 2;

/// The flags with which a TAP interface is created.
pub const TAP_FLAGS: u32 = IFF_TAP | IFF_NO_PI;

/// The name of the loopback interface.
pub fn loopback() -> (r: &'static str)
    ensures
        r@ == "lo"@,
{
    "lo"
}

/// The number whose bytes in memory, lowest first, are `b`.
pub open spec fn le_value(b: Seq<u8>) -> int {
    b[0] + 0x100 * b[1] + 0x1_0000 * b[2] + 0x100_0000 * b[3]
}

/// The address `b` as the 32-bit number that the kernel holds for it on a
/// machine that stores the lowest byte first.
pub fn b2u32(b: [u8; 4]) -> (r: u32)
    ensures
        r == le_value(b@),
{
    let b0: u32 = b[0] as u32;
    let b1: u32 = b[1] as u32;
    let b2: u32 = b[2] as u32;
    let b3: u32 = b[3] as u32;
    let mut ret: u32 = b3;
    ret = ret << 8;
    ret = ret | b2;
    ret = ret << 8;
    ret = ret | b1;
    ret = ret << 8;
    ret = ret | b0;
    assert(ret == b0 + 0x100 * b1 + 0x1_0000 * b2 + 0x100_0000 * b3) by (bit_vector)
        requires
            ret == (((((b3 << 8) | b2) << 8) | b1) << 8) | b0,
            b0 < 256,
            b1 < 256,
            b2 < 256,
            b3 < 256,
    ;
    ret
}

/// The four bytes, lowest first, of the 32-bit number that the kernel holds
/// for an address.
pub fn u32_octets(v: u32) -> (r: [u8; 4])
    ensures
        le_value(r@) == v,
{
    let b0: u8 = (v & 0xff) as u8;
    let b1: u8 = ((v >> 8) & 0xff) as u8;
    let b2: u8 = ((v >> 16) & 0xff) as u8;
    let b3: u8 = ((v >> 24) & 0xff) as u8;
    assert(b0 + 0x100 * b1 + 0x1_0000 * b2 + 0x100_0000 * b3 == v) by (bit_vector)
        requires
            b0 == (v & 0xff) as u8,
            b1 == ((v >> 8) & 0xff) as u8,
            b2 == ((v >> 16) & 0xff) as u8,
            b3 == ((v >> 24) & 0xff) as u8,
    ;
    [b0, b1, b2, b3]
}

/// The address that the kernel reports for an interface: the bytes of
/// `s_addr` where the family is IPv4, else `Error::NotIPv4`.
pub fn address(family: u16, s_addr: u32) -> (r: Result<[u8; 4], Error>)
    ensures
        match r {
            Ok(addr) => family == AF_INET && le_value(addr@) == s_addr,
            Err(e) => family != AF_INET && e@ == ErrorView::NotIPv4,
        },
{
    if family != AF_INET {
        return Err(Error::NotIPv4);
    }
    Ok(u32_octets(s_addr))
}

/// The name of an interface as the kernel takes it: the bytes of the name,
/// and NUL bytes up to the size of the field.
pub open spec fn padded_name(name: Seq<u8>) -> Seq<u8> {
    Seq::new(IFNAMSIZ as nat, |i: int| if i < name.len() { name[i] } else { 0u8 })
}

/// The name of an interface as the kernel takes it. `Error::TooLong` for a
/// name that leaves no room for the closing NUL.
pub fn from_name(name: &str) -> (r: Result<[u8; 16], Error>)
    ensures
        match r {
            Ok(field) => name.spec_bytes().len() < IFNAMSIZ && field@ == padded_name(
                name.spec_bytes(),
            ),
            Err(e) => name.spec_bytes().len() >= IFNAMSIZ && e@ == ErrorView::TooLong,
        },
{
    let raw = name.as_bytes();
    if raw.len() >= IFNAMSIZ {
        return Err(Error::TooLong);
    }
    let mut field: [u8; 16] = [0u8; 16];
    let mut i: usize = 0;
    while i < raw.len()
        invariant
            i <= raw@.len() < IFNAMSIZ,
            raw@ == name.spec_bytes(),
            forall|j: int| 0 <= j < i ==> field@[j] == raw@[j],
            forall|j: int| i <= j < 16 ==> field@[j] == 0u8,
        decreases raw@.len() - i,
    {
        field[i] = raw[i];
        i = i + 1;
    }
    assert(field@ =~= padded_name(name.spec_bytes()));
    Ok(field)
}

/// The flags to set so that an interface with the flags `flags` is up:
/// none where it is up already and `always` does not hold.
pub open spec fn raised(flags: u32, always: bool) -> Option<u32> {
    if !always && flags & IFF_UP != 0 {
        None
    } else {
        Some(flags | IFF_UP)
    }
}

/// The flags to set so that an interface with the flags `flags` is up.
pub fn raise(flags: u32, always: bool) -> (r: Option<u32>)
    ensures
        r == raised(flags, always),
{
    if !always && (flags & IFF_UP) != 0 {
        None
    } else {
        Some(flags | IFF_UP)
    }
}

/// One step of the configuration of the network.
#[derive(Debug)]
pub enum NetOp {
    /// Create the bridge `brname`.
    BridgeCreate { brname: String },
    /// Create the TAP interface `ifname`, with [`TAP_FLAGS`].
    TapCreate { ifname: String },
    /// Add the interface `ifname` to the bridge `brname`.
    BridgeAdd { brname: String, ifname: String },
    /// Read the flags of the interface `ifname`.
    ReadFlags { ifname: String },
    /// Give the interface `ifname` the IPv4 address `addr`.
    SetAddress { ifname: String, addr: [u8; 4] },
    /// Set on the interface `ifname` what [`raise`] makes of the flags
    /// that were read last.
    Raise { ifname: String, always: bool },
    /// Fork a process that reads from the TAP interface `ifname` and throws
    /// away what it reads, so that the interface stays running.
    Discard { ifname: String },
}

/// A [`NetOp`] with its strings as sequences of characters.
pub enum NetOpView {
    BridgeCreate { brname: Seq<char> },
    TapCreate { ifname: Seq<char> },
    BridgeAdd { brname: Seq<char>, ifname: Seq<char> },
    ReadFlags { ifname: Seq<char> },
    SetAddress { ifname: Seq<char>, addr: Seq<u8> },
    Raise { ifname: Seq<char>, always: bool },
    Discard { ifname: Seq<char> },
}

impl View for NetOp {
    type V = NetOpView;

    open spec fn view(&self) -> NetOpView {
        match self {
            NetOp::BridgeCreate { brname } => NetOpView::BridgeCreate { brname: brname@ },
            NetOp::TapCreate { ifname } => NetOpView::TapCreate { ifname: ifname@ },
            NetOp::BridgeAdd { brname, ifname } => NetOpView::BridgeAdd {
                brname: brname@,
                ifname: ifname@,
            },
            NetOp::ReadFlags { ifname } => NetOpView::ReadFlags { ifname: ifname@ },
            NetOp::SetAddress { ifname, addr } => NetOpView::SetAddress {
                ifname: ifname@,
                addr: addr@,
            },
            NetOp::Raise { ifname, always } => NetOpView::Raise {
                ifname: ifname@,
                always: *always,
            },
            NetOp::Discard { ifname } => NetOpView::Discard { ifname: ifname@ },
        }
    }
}

/// The steps of a list, each by its view.
pub open spec fn net_views(ops: Seq<NetOp>) -> Seq<NetOpView> {
    ops.map_values(|op: NetOp| op@)
}

/// What brings the loopback interface up: it gets the address 127.0.0.1,
/// and is raised unless it is up.
pub open spec fn lo_steps() -> Seq<NetOpView> {
    seq![
        NetOpView::SetAddress { ifname: "lo"@, addr: seq![127u8, 0u8, 0u8, 1u8] },
        NetOpView::ReadFlags { ifname: "lo"@ },
        NetOpView::Raise { ifname: "lo"@, always: false },
    ]
}

/// What adds the dummy bridge: the bridge `br0` with the TAP interface
/// `tap0` in it and the address 192.168.1.1, both raised, and a process
/// that empties `tap0`.
pub open spec fn bridge_steps() -> Seq<NetOpView> {
    seq![
        NetOpView::BridgeCreate { brname: "br0"@ },
        NetOpView::TapCreate { ifname: "tap0"@ },
        NetOpView::BridgeAdd { brname: "br0"@, ifname: "tap0"@ },
        NetOpView::ReadFlags { ifname: "br0"@ },
        NetOpView::SetAddress { ifname: "br0"@, addr: seq![192u8, 168u8, 1u8, 1u8] },
        NetOpView::Raise { ifname: "br0"@, always: true },
        NetOpView::ReadFlags { ifname: "tap0"@ },
        NetOpView::Raise { ifname: "tap0"@, always: true },
        NetOpView::Discard { ifname: "tap0"@ },
    ]
}

/// The steps that bring the loopback interface up with 127.0.0.1.
pub fn configure_lo() -> (r: Vec<NetOp>)
    ensures
        net_views(r@) == lo_steps(),
{
    let mut out: Vec<NetOp> = Vec::new();
    let addr: [u8; 4] = [127, 0, 0, 1];
    assert(addr@ =~= seq![127u8, 0u8, 0u8, 1u8]);
    out.push(NetOp::SetAddress { ifname: String::from_str("lo"), addr });
    out.push(NetOp::ReadFlags { ifname: String::from_str("lo") });
    out.push(NetOp::Raise { ifname: String::from_str("lo"), always: false });
    assert(net_views(out@) =~= lo_steps());
    out
}

/// The steps that add a bridge with a dummy TAP interface, so that
/// broadcasts have somewhere to go.
pub fn dummy_bridge() -> (r: Vec<NetOp>)
    ensures
        net_views(r@) == bridge_steps(),
{
    let mut out: Vec<NetOp> = Vec::new();
    let addr: [u8; 4] = [192, 168, 1, 1];
    assert(addr@ =~= seq![192u8, 168u8, 1u8, 1u8]);
    out.push(NetOp::BridgeCreate { brname: String::from_str("br0") });
    out.push(NetOp::TapCreate { ifname: String::from_str("tap0") });
    out.push(
        NetOp::BridgeAdd { brname: String::from_str("br0"), ifname: String::from_str("tap0") },
    );
    out.push(NetOp::ReadFlags { ifname: String::from_str("br0") });
    out.push(NetOp::SetAddress { ifname: String::from_str("br0"), addr });
    out.push(NetOp::Raise { ifname: String::from_str("br0"), always: true });
    out.push(NetOp::ReadFlags { ifname: String::from_str("tap0") });
    out.push(NetOp::Raise { ifname: String::from_str("tap0"), always: true });
    out.push(NetOp::Discard { ifname: String::from_str("tap0") });
    assert(net_views(out@) =~= bridge_steps());
    out
}

} // verus!
