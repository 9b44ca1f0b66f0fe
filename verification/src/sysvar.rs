//! The instructions sysvar: the ledger's read-only record of the transaction
//! that is being executed.

use vstd::prelude::*;
use anchor_lang::solana_program::account_info::AccountInfo;
use anchor_lang::solana_program::pubkey::Pubkey;
use anchor_lang::solana_program::sysvar::instructions::load_current_index_checked;
use anchor_lang::solana_program::sysvar::instructions::load_instruction_at_checked;
use crate::address::Address;
use crate::instruction::AccountMeta;
use crate::instruction::Instruction;
use crate::instruction::InstructionView;

verus! {

/// The address at which the ledger keeps the instructions sysvar.
pub const INSTRUCTIONS_SYSVAR_ID: [u8; 32] = [
    6, 167, 213, 23, 24, 123, 209, 102, 53, 218, 212, 4, 85, 253, 194, 192,
    193, 36, 198, 143, 33, 86, 117, 165, 219, 186, 203, 95, 8, 0, 0, 0,
];

/// No transaction holds this many instructions: the sysvar counts them in
/// sixteen bits.
pub const INSTRUCTION_LIMIT: usize = 0xffff;

/// The instruction that the ledger's decoder finds at `index` in the sysvar
/// account with address `key` and contents `data`, if it finds one.
pub uninterp spec fn decoded_instruction(index: nat, key: Seq<u8>, data: Seq<u8>) -> Option<
    InstructionView,
>;

/// The position of the running instruction that a sysvar account with address
/// `key` and contents `data` records: its last two bytes, least significant
/// first, where the address is the sysvar's.
pub open spec fn recorded_index(key: Seq<u8>, data: Seq<u8>) -> Option<u16> {
    if key == INSTRUCTIONS_SYSVAR_ID@ && data.len() >= 2 {
        Some((data[data.len() - 2] + 0x100 * data[data.len() - 1]) as u16)
    } else {
        None
    }
}

/// Calls `load_current_index_checked` of `solana_program` on an account made
/// of `key` and a copy of `data`. Trusted: the result is the last two bytes of
/// the data read as a little-endian number, and there is none where the
/// address is not the sysvar's. Data shorter than two bytes is left out.
#[verifier::external_body]
fn current_index_checked(key: &Address, data: &[u8]) -> (r: Option<u16>)
    requires
        data@.len() >= 2,
    ensures
        r == recorded_index(key@, data@),
{
    let key = Pubkey::new_from_array(key.to_bytes());
    let (mut lamports, mut image) = (0u64, data.to_vec());
    let account = AccountInfo::new(&key, false, false, &mut lamports, &mut image, &key, false, 0);
    load_current_index_checked(&account).ok()
}

/// Calls `load_instruction_at_checked` of `solana_program` on an account made
/// of `key` and a copy of `data`. Trusted: the result depends on the arguments
/// alone, and there is none where the address is not the sysvar's or the
/// index does not fit the sysvar's sixteen-bit count.
#[verifier::external_body]
fn instruction_at_checked(index: usize, key: &Address, data: &[u8]) -> (r: Option<Instruction>)
    ensures
        r matches Some(ixn) ==> decoded_instruction(index as nat, key@, data@) == Some(ixn@),
        r is None ==> decoded_instruction(index as nat, key@, data@) is None,
        index >= INSTRUCTION_LIMIT ==> r is None,
        key@ != INSTRUCTIONS_SYSVAR_ID@ ==> r is None,
{
    let key = Pubkey::new_from_array(key.to_bytes());
    let (mut lamports, mut image) = (0u64, data.to_vec());
    let account = AccountInfo::new(&key, false, false, &mut lamports, &mut image, &key, false, 0);
    let found = load_instruction_at_checked(index, &account).ok()?;
    let accounts = found.accounts.iter().map(|meta| AccountMeta {
        pubkey: Address::new(meta.pubkey.to_bytes()),
        is_signer: meta.is_signer,
        is_writable: meta.is_writable,
    }).collect();
    let program_id = Address::new(found.program_id.to_bytes());
    Some(Instruction { program_id, accounts, data: found.data })
}

/// A copy of the instructions sysvar account: its address and its contents.
#[derive(Clone, Debug, PartialEq, Eq)]
pub struct InstructionsSysvar {
    pub key: Address,
    pub data: Vec<u8>,
}

impl InstructionsSysvar {
    /// The position of the running instruction, as the account records it.
    pub open spec fn current(&self) -> Option<u16> {
        recorded_index(self.key@, self.data@)
    }

    /// The instruction at `index`, as the ledger's decoder reads it. There
    /// is none where the account is not the sysvar, and none at or past the
    /// limit.
    pub open spec fn at(&self, index: nat) -> Option<InstructionView> {
        if index < INSTRUCTION_LIMIT && self.key@ == INSTRUCTIONS_SYSVAR_ID@ {
            decoded_instruction(index, self.key@, self.data@)
        } else {
            None
        }
    }

    /// The position of the running instruction among those of the
    /// transaction, or `None` where the account is not the sysvar or is too
    /// short to record one.
    pub fn current_index(&self) -> (r: Option<u16>)
        ensures
            r == self.current(),
    {
        if self.data.len() < 2 {
            return None;
        }
        current_index_checked(&self.key, self.data.as_slice())
    }

    /// The instruction at `index`, or `None` where the transaction has none
    /// there or the account is not the sysvar.
    pub fn instruction_at(&self, index: usize) -> (r: Option<Instruction>)
        ensures
            r matches Some(ixn) ==> self.at(index as nat) == Some(ixn@),
            r is None ==> self.at(index as nat) is None,
    {
        instruction_at_checked(index, &self.key, self.data.as_slice())
    }
}

} // verus!
