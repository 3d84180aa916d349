//! The platform that the program runs on.
use vstd::prelude::*;

verus! {

/// A platform, as far as it makes a difference.
#[derive(Clone, Copy, Debug, PartialEq, Eq, Structural)]
pub enum Platform {
    Windows,
    MacOs,
    Linux,
    Other,
}

} // verus!
