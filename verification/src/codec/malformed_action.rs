use vstd::prelude::*;

verus! {

/// Policy used when input units do not form a valid character.
#[derive(Clone, Copy, Debug, Eq, Hash, PartialEq, Structural)]
pub enum MalformedAction {
    /// Return the decoding error to the caller.
    Report,
    /// Skip the malformed input units and continue.
    Ignore,
    /// Emit the configured replacement character and continue.
    Replace,
}

impl Default for MalformedAction {
    /// The default policy is [`MalformedAction::Replace`].
    fn default() -> (r: Self)
        ensures
            r == MalformedAction::Replace,
    {
        MalformedAction::Replace
    }
}

} // verus!
