//! Errors of the channel engine.

use vstd::prelude::*;

pub mod predeclared;

verus! {

/// The exhaustive port scan found every port of the range taken.
#[derive(Debug, Clone, Copy, PartialEq, Eq, Structural)]
pub struct PortNotFoundError;

impl PortNotFoundError {
    pub open spec fn text() -> Seq<char> {
        "cannot find vacant port"@
    }

    pub fn to_string(&self) -> (text: String)
        ensures
            text@ == Self::text(),
    {
        String::from_str("cannot find vacant port")
    }
}

} // verus!
