//! Navigation requests and scroll-restoration policy values.

use vstd::prelude::*;

verus! {

/// How scroll restoration is driven: either the application issues the
/// scroll command itself, or the router's pending-effect protocol does.
#[derive(Debug, PartialEq, Eq)]
pub enum ScrollRestoration {
    Manuel,
    Auto,
}

/// A navigation request: either a relative move of a signed number of
/// steps through the history, or a jump to a named URL.
#[derive(Debug, PartialEq, Eq)]
pub enum Nav {
    Number(i32),
    Url(String),
}

impl From<i32> for Nav {
    fn from(n: i32) -> (r: Nav) {
        Nav::Number(n)
    }
}

impl vstd::std_specs::convert::FromSpecImpl<i32> for Nav {
    open spec fn obeys_from_spec() -> bool {
        true
    }

    open spec fn from_spec(n: i32) -> Nav {
        Nav::Number(n)
    }
}

impl From<String> for Nav {
    fn from(url: String) -> (r: Nav) {
        Nav::Url(url)
    }
}

impl vstd::std_specs::convert::FromSpecImpl<String> for Nav {
    open spec fn obeys_from_spec() -> bool {
        true
    }

    open spec fn from_spec(url: String) -> Nav {
        Nav::Url(url)
    }
}

} // verus!
