use vstd::prelude::*;

verus! {

/// Why a blob did not turn into a record.
#[derive(Clone, Copy, Debug, PartialEq, Eq, Structural)]
pub enum BlockbusterError {
    /// No parser is registered for the program that was named.
    UnknownProgram,
    /// The blob is too short to hold the discriminator.
    MalformedAccountData,
    /// The discriminator is complete but names no record of the program.
    UnknownAccountDiscriminator,
    /// The discriminator is the marker of an account that holds no data yet.
    UninitializedAccount,
    /// The discriminator named a record, and the fields behind it did not decode.
    DeserializationError,
}

impl BlockbusterError {
    /// An uninitialized account is an expected state, not a fault in the bytes.
    pub open spec fn skippable(self) -> bool {
        self == BlockbusterError::UninitializedAccount
    }

    /// Tells whether a caller may pass over the blob instead of reporting it.
    pub fn is_skippable(&self) -> (r: bool)
        ensures
            r == self.skippable(),
    {
        match self {
            BlockbusterError::UninitializedAccount => true,
            _ => false,
        }
    }
}

} // verus!
