//! The sandbox without a network: a network namespace of its own, in which
//! only the loopback interface is up.

use crate::container::CLONE_NEWNET;
use crate::net::{configure_lo, lo_steps, net_views, NetOp};
use crate::proc::texts;
use vstd::prelude::*;

verus! {

/// The policy of the sandbox without a network.
#[derive(Debug)]
pub struct NoNet {
    /// The command and its arguments.
    pub args: Vec<String>,
}

impl NoNet {
    /// The policy that runs `cmd` with the arguments `args`.
    pub fn new(cmd: &str, args: &Vec<String>) -> (r: NoNet)
        ensures
            texts(r.args@) == seq![cmd@] + texts(args@),
    {
        let mut all: Vec<String> = Vec::new();
        all.push(String::from_str(cmd));
        let mut i: usize = 0;
        assert(texts(all@) =~= seq![cmd@] + texts(args@).take(0));
        while i < args.len()
            invariant
                i <= args@.len(),
                texts(all@) == seq![cmd@] + texts(args@).take(i as int),
            decreases args@.len() - i,
        {
            let ghost before = texts(all@);
            all.push(args[i].clone());
            assert(texts(all@) =~= before.push(args@[i as int]@));
            assert(texts(args@).take(i + 1) =~= texts(args@).take(i as int).push(
                args@[i as int]@,
            ));
            i = i + 1;
        }
        assert(texts(args@).take(i as int) =~= texts(args@));
        NoNet { args: all }
    }

    /// The namespaces to enter: a network namespace, and no other.
    pub fn unshare_flags(&self) -> (r: i32)
        ensures
            r == CLONE_NEWNET,
    {
        CLONE_NEWNET
    }

    /// The steps of the setup: the loopback interface is brought up.
    pub fn setup_priv(&self) -> (r: Vec<NetOp>)
        ensures
            net_views(r@) == lo_steps(),
    {
        configure_lo()
    }
}

} // verus!
