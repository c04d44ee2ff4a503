//! Auxiliary page state carried by a route.

use vstd::prelude::*;

verus! {

/// Page-specific data attached to a route. A route that carries no data
/// holds `State::Empty`; the other variants form the small closed set of
/// payloads a page may stash in the history.
#[derive(Debug, PartialEq)]
pub enum State {
    /// The page has no auxiliary state.
    Empty,
    /// A textual payload, such as a search query or a form draft.
    Text(String),
    /// A numeric payload, such as a counter value or a selected index.
    Number(i64),
}

} // verus!
