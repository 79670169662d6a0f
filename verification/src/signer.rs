//! The accounts that have to sign an instruction.
use crate::pubkey::Pubkey;
use vstd::prelude::*;

verus! {

/// An account that has to sign an instruction, and whether it did.
#[derive(Clone, Copy, Debug, PartialEq, Eq)]
pub struct SignerAccount {
    pub key: Pubkey,
    pub is_signer: bool,
}

/// Why the accounts of an instruction are refused: one that has to sign did not,
/// or a rule of the game is against them. Signatures are looked at first.
#[derive(Clone, Copy, Debug, PartialEq, Eq)]
pub enum AccountsError<E> {
    NotSigner,
    Refused(E),
}

} // verus!
