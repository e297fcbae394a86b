use vstd::prelude::*;

verus! {

/// An input event, as far as the main loop cares.
#[derive(Clone, Copy, Debug, PartialEq, Eq, Structural)]
pub enum Input {
    /// The window was asked to close.
    Quit,
    /// The Escape key went down.
    Escape,
    /// Anything else.
    Other,
}

pub open spec fn stops(e: Input) -> bool {
    e is Quit || e is Escape
}

/// Whether this tick's events end the main loop: a quit request or Escape.
pub fn quit_requested(events: &[Input]) -> (r: bool)
    ensures
        r == exists|i: int| 0 <= i < events@.len() && stops(#[trigger] events@[i]),
{
    let mut i: usize = 0;
    while i < events.len()
        invariant
            i <= events@.len(),
            forall|k: int| 0 <= k < i ==> !stops(#[trigger] events@[k]),
        decreases events@.len() - i,
    {
        match events[i] {
            Input::Quit | Input::Escape => {
                return true;
            },
            Input::Other => {},
        }
        i = i + 1;
    }
    false
}

} // verus!
