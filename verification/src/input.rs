//! What one round of input polling tells the driver.

use vstd::prelude::*;

verus! {

/// What the input collaborator reports once per driver iteration, beside
/// the refreshed key state.
#[derive(Clone, Copy, Debug, PartialEq, Eq, Structural)]
pub enum InputAction {
    /// The user asked to quit.
    BreakDisplay,
    /// Nothing to act on.
    NoAction,
}

/// Whether the driver runs another iteration after a poll reported
/// `action`.
pub fn continue_after(action: InputAction) -> (r: bool)
    ensures
        r == (action matches InputAction::NoAction),
{
    match action {
        InputAction::BreakDisplay => false,
        InputAction::NoAction => true,
    }
}

} // verus!
