use vstd::prelude::*;
use crate::pubkey::Pubkey;

verus! {

/// One instruction as the ingestion side hands it over.
#[derive(Clone, Copy, Debug)]
pub struct InstructionBundle<'a> {
    /// The program that the instruction invokes.
    pub program: Pubkey,
    /// The accounts that the instruction names, in order.
    pub keys: &'a [Pubkey],
    /// The instruction's own bytes.
    pub data: &'a [u8],
    /// The slot of the transaction that carried the instruction.
    pub slot: u64,
}

} // verus!
