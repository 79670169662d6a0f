//! The order to the system program by which a participant pays an entry fee.
use crate::pubkey::Pubkey;
use vstd::bytes::{
    lemma_auto_spec_u64_to_from_le_bytes, spec_u64_from_le_bytes, spec_u64_to_le_bytes,
};
use vstd::prelude::*;

verus! {

/// An account that an instruction names, and what the instruction may do with it.
#[derive(Clone, Copy, Debug, PartialEq, Eq)]
pub struct AccountMeta {
    pub pubkey: Pubkey,
    pub is_signer: bool,
    pub is_writable: bool,
}

/// A call of another program.
#[derive(Clone, Debug, PartialEq, Eq)]
pub struct Instruction {
    pub program_id: Pubkey,
    pub accounts: Vec<AccountMeta>,
    pub data: Vec<u8>,
}

/// The instruction is a transfer by the system program, whose address is all
/// zeros: the payer signs, both balances may be written, and the data are the
/// number of the transfer command and the amount, both little-endian.
pub open spec fn is_system_transfer(
    instruction: Instruction,
    from: Pubkey,
    to: Pubkey,
    lamports: u64,
) -> bool {
    &&& instruction.program_id.bytes@ == Seq::new(32, |i: int| 0u8)
    &&& instruction.accounts@ == seq![
        AccountMeta { pubkey: from, is_signer: true, is_writable: true },
        AccountMeta { pubkey: to, is_signer: false, is_writable: true },
    ]
    &&& instruction.data@ == seq![2u8, 0u8, 0u8, 0u8] + spec_u64_to_le_bytes(lamports)
}

/// Calls `system_instruction::transfer` of `solana_program` and copies the
/// instruction that it builds, field by field.
///
/// Trusted: the result is the transfer instruction of the system program from
/// the first account, as signer, to the second.
#[verifier::external_body]
pub(crate) fn system_transfer(from: Pubkey, to: Pubkey, lamports: u64) -> (instruction: Instruction)
    ensures
        is_system_transfer(instruction, from, to, lamports),
{
    let built = anchor_lang::solana_program::system_instruction::transfer(
        &anchor_lang::prelude::Pubkey::new_from_array(from.bytes),
        &anchor_lang::prelude::Pubkey::new_from_array(to.bytes),
        lamports,
    );
    let accounts = built.accounts.iter().map(|meta| AccountMeta {
        pubkey: Pubkey { bytes: meta.pubkey.to_bytes() },
        is_signer: meta.is_signer,
        is_writable: meta.is_writable,
    }).collect();
    Instruction { program_id: Pubkey { bytes: built.program_id.to_bytes() }, accounts, data: built.data }
}

/// A transfer says who pays, whom and how much: payer and payee are its two
/// accounts, the payer signs and nobody else does, both balances may be written,
/// the command is the third of the system program, and the amount can be read back
/// from the data.
pub proof fn transfers_say_what_they_pay(
    instruction: Instruction,
    from: Pubkey,
    to: Pubkey,
    lamports: u64,
)
    requires
        is_system_transfer(instruction, from, to, lamports),
    ensures
        forall|i: int| 0 <= i < 32 ==> #[trigger] instruction.program_id.bytes@[i] == 0,
        instruction.accounts@.len() == 2,
        instruction.accounts@[0].pubkey == from,
        instruction.accounts@[1].pubkey == to,
        instruction.accounts@[0].is_signer && !instruction.accounts@[1].is_signer,
        instruction.accounts@[0].is_writable && instruction.accounts@[1].is_writable,
        instruction.data@.len() == 12,
        instruction.data@[0] == 2,
        instruction.data@[1] == 0 && instruction.data@[2] == 0 && instruction.data@[3] == 0,
        spec_u64_from_le_bytes(instruction.data@.skip(4)) == lamports,
{
    lemma_auto_spec_u64_to_from_le_bytes();
    let amount = spec_u64_to_le_bytes(lamports);
    assert(amount.len() == 8);
    assert(instruction.data@.skip(4) =~= amount);
}

/// Transfers that differ in payer, payee or amount are different instructions.
pub proof fn different_transfers_are_told_apart(
    instruction: Instruction,
    from: Pubkey,
    to: Pubkey,
    lamports: u64,
    other_from: Pubkey,
    other_to: Pubkey,
    other_lamports: u64,
)
    requires
        is_system_transfer(instruction, from, to, lamports),
        is_system_transfer(instruction, other_from, other_to, other_lamports),
    ensures
        from == other_from,
        to == other_to,
        lamports == other_lamports,
{
    transfers_say_what_they_pay(instruction, from, to, lamports);
    transfers_say_what_they_pay(instruction, other_from, other_to, other_lamports);
}

} // verus!
