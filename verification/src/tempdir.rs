//! The staging directory of a sandbox.

use crate::path::{join, path_join};
use vstd::prelude::*;

verus! {

/// A temporary directory. The program that creates it removes it, with all
/// that it holds, when it gives the handle up.
#[derive(Debug)]
pub struct TempDir {
    name: String,
}

impl View for TempDir {
    type V = Seq<char>;

    /// The path of the directory.
    closed spec fn view(&self) -> Seq<char> {
        self.name@
    }
}

/// The template that `mkdtemp` makes the name of a staging directory from,
/// below the directory `tmp`.
pub open spec fn template_in(tmp: Seq<char>) -> Seq<char> {
    join(tmp, "sandbox-XXXXXX"@)
}

impl TempDir {
    /// The template that `mkdtemp` makes the name of a staging directory
    /// from, below the directory `tmp` for temporary files.
    pub fn template(tmp: &str) -> (r: String)
        ensures
            r@ == template_in(tmp@),
    {
        path_join(tmp, "sandbox-XXXXXX")
    }

    /// The handle of the directory `name`, which was created.
    pub fn adopt(name: String) -> (r: TempDir)
        ensures
            r@ == name@,
    {
        TempDir { name }
    }

    /// Where the directory is.
    pub fn path(&self) -> (r: &str)
        ensures
            r@ == self@,
    {
        self.name.as_str()
    }
}

} // verus!
