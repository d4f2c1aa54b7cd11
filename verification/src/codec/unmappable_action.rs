use vstd::prelude::*;

verus! {

/// Policy used when a character cannot be represented by the target charset.
#[derive(Clone, Copy, Debug, Eq, Hash, PartialEq, Structural)]
pub enum UnmappableAction {
    /// Return the unmappable-character error to the caller.
    Report,
    /// Skip the unmappable character and continue.
    Ignore,
    /// Encode the configured replacement character instead.
    Replace,
}

impl Default for UnmappableAction {
    /// The default policy is [`UnmappableAction::Replace`].
    fn default() -> (r: Self)
        ensures
            r == UnmappableAction::Replace,
    {
        UnmappableAction::Replace
    }
}

} // verus!
