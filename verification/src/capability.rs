//! The three capability masks of a Linux process.

use crate::err::{Error, ErrorView, IoError, EINVAL};
use crate::text::{hex_padded, push_hex_padded};
use vstd::prelude::*;

verus! {

/// The capability to change group IDs.
pub const CAP_SETGID: u32 = 6;

/// The capability to change user IDs.
pub const CAP_SETUID: u32 = 7;

/// The capability to mount, unshare and much else.
pub const CAP_SYS_ADMIN: u32 = 21;

/// The three masks of a process, each as one 64-bit number: effective,
/// permitted, inheritable.
pub type Masks = (u64, u64, u64);

/// The capabilities of the process `pid` (0: of the caller), or the code of
/// the failure. Calls `rustix::thread::capabilities`, which is `capget` in
/// version 3 of the kernel's interface; nothing is claimed of what the
/// kernel answers.
#[verifier::external_body]
fn capget(pid: i32) -> (r: Result<Masks, i32>)
    requires
        pid >= 0,
{
    match rustix::thread::capabilities(rustix::thread::Pid::from_raw(pid)) {
        Ok(sets) => Ok((sets.effective.bits(), sets.permitted.bits(), sets.inheritable.bits())),
        Err(errno) => Err(errno.raw_os_error()),
    }
}

/// Sets the capabilities of the process `pid` (0: of the caller) and hands
/// back the code of the failure, if it fails. Calls
/// `rustix::thread::set_capabilities`, which is `capset` in version 3 of
/// the kernel's interface; nothing is claimed of what the kernel answers.
#[verifier::external_body]
fn capset(pid: i32, masks: Masks) -> (r: Option<i32>)
    requires
        pid >= 0,
{
    let sets = rustix::thread::CapabilitySets {
        effective: rustix::thread::CapabilitySet::from_bits_retain(masks.0),
        permitted: rustix::thread::CapabilitySet::from_bits_retain(masks.1),
        inheritable: rustix::thread::CapabilitySet::from_bits_retain(masks.2),
    };
    match rustix::thread::set_capabilities(rustix::thread::Pid::from_raw(pid), sets) {
        Ok(_) => None,
        Err(errno) => Some(errno.raw_os_error()),
    }
}

/// The 64-bit number whose lower half is `low` and whose upper half is
/// `high`.
pub open spec fn join_words(low: u32, high: u32) -> u64 {
    (low as u64) | ((high as u64) << 32)
}

/// The two halves of a 64-bit number, the lower first.
fn split_words(mask: u64) -> (r: [u32; 2])
    ensures
        join_words(r[0], r[1]) == mask,
{
    let low: u32 = (mask & 0xffff_ffff) as u32;
    let high: u32 = (mask >> 32) as u32;
    assert((low as u64) | ((high as u64) << 32) == mask) by (bit_vector)
        requires
            low == (mask & 0xffff_ffff) as u32,
            high == (mask >> 32) as u32,
    ;
    [low, high]
}

/// The capabilities of a process: what it holds now (`effective`), what it
/// may take up (`permitted`) and what it hands on at `exec` (`inheritable`).
/// Word 0 of a mask holds the capabilities 0 to 31, word 1 those from 32 on.
#[derive(Debug, Clone, Copy, PartialEq, Eq)]
pub struct Cap {
    pub effective: [u32; 2],
    pub permitted: [u32; 2],
    pub inheritable: [u32; 2],
}

/// Whether bit number `bit` of `word` is set.
pub open spec fn bit_is_set(word: u32, bit: u32) -> bool {
    (word >> bit) & 1 == 1
}

impl Cap {
    /// Whether the capability with number `cap` is in the effective mask.
    pub open spec fn holds(self, cap: u32) -> bool {
        bit_is_set(self.effective[(cap / 32) as int], cap % 32)
    }

    /// Whether the three masks are empty.
    pub open spec fn is_clear(self) -> bool {
        &&& self.effective@ == seq![0u32, 0u32]
        &&& self.permitted@ == seq![0u32, 0u32]
        &&& self.inheritable@ == seq![0u32, 0u32]
    }

    /// The three masks, each as one 64-bit number.
    pub open spec fn masks(self) -> Masks {
        (
            join_words(self.effective[0], self.effective[1]),
            join_words(self.permitted[0], self.permitted[1]),
            join_words(self.inheritable[0], self.inheritable[1]),
        )
    }

    /// How the masks read in a log line, each as sixteen hexadecimal digits.
    pub open spec fn text(self) -> Seq<char> {
        "CapEff: 0x"@ + hex_padded(self.effective[1] as nat, 8) + hex_padded(
            self.effective[0] as nat,
            8,
        ) + " CapPrm: 0x"@ + hex_padded(self.permitted[1] as nat, 8) + hex_padded(
            self.permitted[0] as nat,
            8,
        ) + " CapInh: 0x"@ + hex_padded(self.inheritable[1] as nat, 8) + hex_padded(
            self.inheritable[0] as nat,
            8,
        )
    }

    /// The capabilities with the masks `masks`.
    pub fn from_masks(masks: Masks) -> (r: Cap)
        ensures
            r.masks() == masks,
    {
        Cap {
            effective: split_words(masks.0),
            permitted: split_words(masks.1),
            inheritable: split_words(masks.2),
        }
    }

    /// The three masks, each as one 64-bit number.
    pub fn to_masks(&self) -> (r: Masks)
        ensures
            r == self.masks(),
    {
        (
            (self.effective[0] as u64) | ((self.effective[1] as u64) << 32),
            (self.permitted[0] as u64) | ((self.permitted[1] as u64) << 32),
            (self.inheritable[0] as u64) | ((self.inheritable[1] as u64) << 32),
        )
    }

    /// What an answer to `capget` means: the capabilities with the masks
    /// that were read, or the error of the failure with the code `code`.
    pub fn capget_outcome(answer: Result<Masks, i32>) -> (r: Result<Cap, Error>)
        ensures
            match answer {
                Ok(masks) => r matches Ok(cap) && cap.masks() == masks,
                Err(code) => r matches Err(e) && e@ == (ErrorView::OS {
                    op: "capget"@,
                    io: IoError::Os(code),
                }),
            },
    {
        match answer {
            Ok(masks) => Ok(Cap::from_masks(masks)),
            Err(code) => Err(Error::os("capget", IoError::Os(code))),
        }
    }

    /// What an answer to `capset` means: done where no failure is reported,
    /// else the error of the failure with the code `code`.
    pub fn capset_outcome(answer: Option<i32>) -> (r: Result<(), Error>)
        ensures
            match answer {
                None => r is Ok,
                Some(code) => r matches Err(e) && e@ == (ErrorView::OS {
                    op: "capset"@,
                    io: IoError::Os(code),
                }),
            },
    {
        match answer {
            None => Ok(()),
            Some(code) => Err(Error::os("capset", IoError::Os(code))),
        }
    }

    /// The capabilities of this process.
    pub fn current() -> (r: Result<Cap, Error>)
        ensures
            r matches Err(e) ==> (e@ matches ErrorView::OS { op, io } && op == "capget"@
                && io is Os),
    {
        Cap::current_pid(0)
    }

    /// The capabilities of the process `pid` (0: of this process). A
    /// negative `pid` names no process and is refused as an invalid
    /// argument.
    pub fn current_pid(pid: i32) -> (r: Result<Cap, Error>)
        ensures
            r matches Err(e) ==> (e@ matches ErrorView::OS { op, io } && op == "capget"@
                && io is Os),
            pid < 0 ==> (r matches Err(e) && e@ == (ErrorView::OS {
                op: "capget"@,
                io: IoError::Os(EINVAL),
            })),
    {
        if pid < 0 {
            return Err(Error::os("capget", IoError::Os(EINVAL)));
        }
        Cap::capget_outcome(capget(pid))
    }

    /// Makes these the capabilities of this process.
    pub fn update(&self) -> (r: Result<(), Error>)
        ensures
            r matches Err(e) ==> (e@ matches ErrorView::OS { op, io } && op == "capset"@
                && io is Os),
    {
        self.update_pid(0)
    }

    /// Makes these the capabilities of the process `pid` (0: of this
    /// process). A negative `pid` names no process and is refused as an
    /// invalid argument.
    pub fn update_pid(&self, pid: i32) -> (r: Result<(), Error>)
        ensures
            r matches Err(e) ==> (e@ matches ErrorView::OS { op, io } && op == "capset"@
                && io is Os),
            pid < 0 ==> (r matches Err(e) && e@ == (ErrorView::OS {
                op: "capset"@,
                io: IoError::Os(EINVAL),
            })),
    {
        if pid < 0 {
            return Err(Error::os("capset", IoError::Os(EINVAL)));
        }
        Cap::capset_outcome(capset(pid, self.to_masks()))
    }

    /// Copies the permitted mask to the effective mask.
    pub fn activate(&mut self) -> (ret: &mut Self)
        ensures
            ret.effective == old(self).permitted,
            ret.permitted == old(self).permitted,
            ret.inheritable == old(self).inheritable,
            *final(self) == *final(ret),
    {
        self.effective = self.permitted;
        self
    }

    /// Clears all bits in the effective mask.
    pub fn clear_effective(&mut self) -> (ret: &mut Self)
        ensures
            ret.effective@ == seq![0u32, 0u32],
            ret.permitted == old(self).permitted,
            ret.inheritable == old(self).inheritable,
            *final(self) == *final(ret),
    {
        self.effective = [0, 0];
        assert(self.effective@ =~= seq![0u32, 0u32]);
        self
    }

    /// Clears all bits in the permitted mask.
    pub fn clear_permitted(&mut self) -> (ret: &mut Self)
        ensures
            ret.effective == old(self).effective,
            ret.permitted@ == seq![0u32, 0u32],
            ret.inheritable == old(self).inheritable,
            *final(self) == *final(ret),
    {
        self.permitted = [0, 0];
        assert(self.permitted@ =~= seq![0u32, 0u32]);
        self
    }

    /// Clears all bits in the inheritable mask.
    pub fn clear_inheritable(&mut self) -> (ret: &mut Self)
        ensures
            ret.effective == old(self).effective,
            ret.permitted == old(self).permitted,
            ret.inheritable@ == seq![0u32, 0u32],
            *final(self) == *final(ret),
    {
        self.inheritable = [0, 0];
        assert(self.inheritable@ =~= seq![0u32, 0u32]);
        self
    }

    /// Clears the three masks.
    pub fn clear(&mut self) -> (ret: &mut Self)
        ensures
            ret.is_clear(),
            *final(self) == *final(ret),
    {
        self.effective = [0, 0];
        self.permitted = [0, 0];
        self.inheritable = [0, 0];
        assert(self.effective@ =~= seq![0u32, 0u32]);
        assert(self.permitted@ =~= seq![0u32, 0u32]);
        assert(self.inheritable@ =~= seq![0u32, 0u32]);
        self
    }

    /// Whether the capability with number `cap` is in the effective mask.
    pub fn effective(&self, cap: u32) -> (r: bool)
        requires
            cap < 64,
        ensures
            r == self.holds(cap),
    {
        let word: u32 = cap / 32;
        let bit: u32 = cap % 32;
        ((self.effective[word as usize] >> bit) & 1) == 1
    }

    /// How the masks read in a log line.
    pub fn describe(&self) -> (r: String)
        ensures
            r@ == self.text(),
    {
        let mut out = String::from_str("CapEff: 0x");
        push_hex_padded(&mut out, self.effective[1] as u64, 8);
        push_hex_padded(&mut out, self.effective[0] as u64, 8);
        out.append(" CapPrm: 0x");
        push_hex_padded(&mut out, self.permitted[1] as u64, 8);
        push_hex_padded(&mut out, self.permitted[0] as u64, 8);
        out.append(" CapInh: 0x");
        push_hex_padded(&mut out, self.inheritable[1] as u64, 8);
        push_hex_padded(&mut out, self.inheritable[0] as u64, 8);
        assert(out@ =~= self.text());
        out
    }
}

impl Default for Cap {
    /// The capabilities of a process that has none.
    fn default() -> (r: Cap)
        ensures
            r.is_clear(),
    {
        let r = Cap { effective: [0, 0], permitted: [0, 0], inheritable: [0, 0] };
        assert(r.effective@ =~= seq![0u32, 0u32]);
        assert(r.permitted@ =~= seq![0u32, 0u32]);
        assert(r.inheritable@ =~= seq![0u32, 0u32]);
        r
    }
}

/// Capabilities are their masks: two that have the same three masks are
/// the same, so that nothing is lost between what the kernel reports and
/// what is handed back to it.
pub proof fn lemma_masks_round_trip(a: Cap, b: Cap)
    requires
        a.masks() == b.masks(),
    ensures
        a.effective@ == b.effective@,
        a.permitted@ == b.permitted@,
        a.inheritable@ == b.inheritable@,
{
    lemma_join_words_injective(a.effective[0], a.effective[1], b.effective[0], b.effective[1]);
    lemma_join_words_injective(a.permitted[0], a.permitted[1], b.permitted[0], b.permitted[1]);
    lemma_join_words_injective(
        a.inheritable[0],
        a.inheritable[1],
        b.inheritable[0],
        b.inheritable[1],
    );
    assert(a.effective@ =~= b.effective@);
    assert(a.permitted@ =~= b.permitted@);
    assert(a.inheritable@ =~= b.inheritable@);
}

/// Two pairs of halves that give the same number are the same halves.
proof fn lemma_join_words_injective(a0: u32, a1: u32, b0: u32, b1: u32)
    requires
        join_words(a0, a1) == join_words(b0, b1),
    ensures
        a0 == b0,
        a1 == b1,
{
    assert(a0 == b0 && a1 == b1) by (bit_vector)
        requires
            (a0 as u64) | ((a1 as u64) << 32) == (b0 as u64) | ((b1 as u64) << 32),
    ;
}

/// No capability is effective once the masks are cleared.
pub proof fn lemma_clear_holds_nothing(cap: Cap, n: u32)
    requires
        cap.is_clear(),
        n < 64,
    ensures
        !cap.holds(n),
{
    let bit: u32 = n % 32;
    assert(cap.effective[(n / 32) as int] == 0u32) by {
        assert(cap.effective@[0] == 0u32);
        assert(cap.effective@[1] == 0u32);
    }
    assert((0u32 >> bit) & 1 == 0) by (bit_vector);
}

} // verus!
