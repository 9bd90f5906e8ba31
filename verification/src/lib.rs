//! Building blocks for small Linux containers.
//!
//! The decisions that a sandbox launcher takes (which mounts to make, in
//! which order to run its hooks, which signal to forward to a child, how a
//! `mountinfo` file reads) are functions of plain values here, each with a
//! contract that Verus proves. The system calls themselves are left to the
//! program that links this library.

pub mod capability;
pub mod container;
pub mod err;
pub mod fs;
pub mod hidehome;
pub mod isolate;
pub mod net;
pub mod nonet;
pub mod ops;
pub mod path;
pub mod proc;
pub mod tempdir;
pub mod text;
pub mod util;
