//! Instructions of a transaction as the ledger shows them, and the wire
//! layout of a repayment.

use vstd::prelude::*;
use crate::address::Address;

verus! {

/// An account that an instruction refers to, with its flags.
#[derive(Clone, Copy, Debug, PartialEq, Eq)]
pub struct AccountMeta {
    pub pubkey: Address,
    pub is_signer: bool,
    pub is_writable: bool,
}

/// One instruction of a transaction: the program it invokes, the accounts it
/// refers to, in order, and its payload.
#[derive(Clone, Debug, PartialEq, Eq)]
pub struct Instruction {
    pub program_id: Address,
    pub accounts: Vec<AccountMeta>,
    pub data: Vec<u8>,
}

/// What an [`Instruction`] holds, as mathematical sequences.
pub struct InstructionView {
    pub program_id: Address,
    pub accounts: Seq<AccountMeta>,
    pub data: Seq<u8>,
}

impl View for Instruction {
    type V = InstructionView;

    open spec fn view(&self) -> InstructionView {
        InstructionView { program_id: self.program_id, accounts: self.accounts@, data: self.data@ }
    }
}

/// The tag that opens the payload of a repayment.
pub const REPAY_TAG: [u8; 8] = [234, 103, 67, 82, 208, 234, 219, 166];

/// Where a repayment lists its pool among its accounts.
pub const REPAY_POOL_POSITION: usize = 2;

/// The number that eight bytes spell, least significant byte first.
pub open spec fn le_u64(bytes: Seq<u8>) -> int
    recommends
        bytes.len() == 8,
{
    bytes[0] + 0x100 * bytes[1] + 0x1_0000 * bytes[2] + 0x100_0000 * bytes[3] + 0x1_0000_0000
        * bytes[4] + 0x100_0000_0000 * bytes[5] + 0x1_0000_0000_0000 * bytes[6]
        + 0x100_0000_0000_0000 * bytes[7]
}

impl InstructionView {
    /// The payload opens with the repayment tag.
    pub open spec fn has_repay_tag(self) -> bool {
        self.data.len() >= 8 && self.data.subrange(0, 8) == REPAY_TAG@
    }

    /// The instruction is a repayment, made to `program`, that names `pool` as
    /// the pool it repays.
    pub open spec fn repays_pool(self, program: Address, pool: Address) -> bool {
        &&& self.program_id == program
        &&& self.has_repay_tag()
        &&& self.accounts.len() > REPAY_POOL_POSITION
        &&& self.accounts[REPAY_POOL_POSITION as int].pubkey == pool
    }

    /// The amount that follows the tag, where the payload is long enough to
    /// hold one.
    pub open spec fn amount(self) -> Option<u64> {
        if self.data.len() >= 16 {
            Some(le_u64(self.data.subrange(8, 16)) as u64)
        } else {
            None
        }
    }
}

/// Eight bytes cannot spell more than a `u64` holds.
pub proof fn lemma_le_u64_bounds(bytes: Seq<u8>)
    requires
        bytes.len() == 8,
    ensures
        0 <= le_u64(bytes) <= u64::MAX,
{
}

impl Instruction {
    /// Whether the payload opens with the repayment tag.
    pub fn has_repay_tag(&self) -> (b: bool)
        ensures
            b == self@.has_repay_tag(),
    {
        if self.data.len() < 8 {
            return false;
        }
        let mut i: usize = 0;
        while i < 8
            invariant
                i <= 8,
                self.data@.len() >= 8,
                forall|j: int| 0 <= j < i ==> self.data@[j] == REPAY_TAG@[j],
            decreases 8 - i,
        {
            if self.data[i] != REPAY_TAG[i] {
                assert(self.data@.subrange(0, 8)[i as int] != REPAY_TAG@[i as int]);
                return false;
            }
            i += 1;
        }
        assert(self.data@.subrange(0, 8) =~= REPAY_TAG@);
        true
    }

    /// Whether this is a repayment, made to `program`, that names `pool` as
    /// the pool it repays.
    pub fn repays_pool(&self, program: &Address, pool: &Address) -> (b: bool)
        ensures
            b == self@.repays_pool(*program, *pool),
    {
        self.program_id.same(program) && self.has_repay_tag() && self.accounts.len()
            > REPAY_POOL_POSITION && self.accounts[REPAY_POOL_POSITION].pubkey.same(pool)
    }

    /// The amount that follows the tag, where the payload is long enough to
    /// hold one.
    pub fn amount(&self) -> (a: Option<u64>)
        ensures
            a == self@.amount(),
    {
        if self.data.len() < 16 {
            return None;
        }
        let ghost bytes = self.data@.subrange(8, 16);
        proof {
            lemma_le_u64_bounds(bytes);
            assert(forall|j: int| 0 <= j < 8 ==> bytes[j] == self.data@[8 + j]);
        }
        let low: u64 = self.data[8] as u64 + 0x100 * (self.data[9] as u64) + 0x1_0000 * (
        self.data[10] as u64) + 0x100_0000 * (self.data[11] as u64);
        let high: u64 = self.data[12] as u64 + 0x100 * (self.data[13] as u64) + 0x1_0000 * (
        self.data[14] as u64) + 0x100_0000 * (self.data[15] as u64);
        Some(low + 0x1_0000_0000 * high)
    }
}

} // verus!
