//! The kind of a node of a file system.

use vstd::prelude::*;

verus! {

/// What a node is: a file, a directory, or not known (a path that is not
/// there).
#[derive(Clone, Copy, Debug, PartialEq, Eq, Structural)]
pub enum Kind {
    File,
    Directory,
    Unknown,
}

} // verus!
