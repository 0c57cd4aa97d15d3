//! What the errors of the library have in common.
use vstd::prelude::*;

verus! {

/// The kinds of the errors that the library raises itself.
#[derive(Clone, Copy, PartialEq, Eq, Structural, Debug)]
pub enum ErrorKind {
    Other,
    InvalidData,
}

} // verus!
