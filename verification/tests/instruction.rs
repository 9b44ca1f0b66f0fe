use adobe::address::Address;
use adobe::instruction::AccountMeta;
use adobe::instruction::Instruction;
use adobe::instruction::REPAY_POOL_POSITION;
use adobe::instruction::REPAY_TAG;
use adobe::loan::judge_instruction;
use adobe::loan::Verdict;

const PROGRAM: [u8; 32] = [10; 32];
const POOL: [u8; 32] = [20; 32];

fn meta(byte: u8) -> AccountMeta {
    AccountMeta { pubkey: Address::new([byte; 32]), is_signer: false, is_writable: true }
}

fn repay_instruction(amount: u64) -> Instruction {
    let mut data = REPAY_TAG.to_vec();
    data.extend_from_slice(&amount.to_le_bytes());
    Instruction {
        program_id: Address::new(PROGRAM),
        accounts: vec![meta(1), meta(2), meta(20), meta(3), meta(4)],
        data,
    }
}

#[test]
fn repay_tag_bytes() {
    assert_eq!(REPAY_TAG, [234, 103, 67, 82, 208, 234, 219, 166]);
    assert_eq!(REPAY_POOL_POSITION, 2);
}

#[test]
fn tag_is_recognised() {
    assert!(repay_instruction(1).has_repay_tag());
    let mut other = repay_instruction(1);
    other.data[7] ^= 1;
    assert!(!other.has_repay_tag());
    let mut first = repay_instruction(1);
    first.data[0] ^= 1;
    assert!(!first.has_repay_tag());
}

#[test]
fn tag_needs_eight_bytes() {
    let mut short = repay_instruction(1);
    short.data.truncate(7);
    assert!(!short.has_repay_tag());
    short.data.clear();
    assert!(!short.has_repay_tag());
    let mut exact = repay_instruction(1);
    exact.data.truncate(8);
    assert!(exact.has_repay_tag());
}

#[test]
fn amount_is_little_endian() {
    assert_eq!(repay_instruction(100).amount(), Some(100));
    assert_eq!(repay_instruction(0).amount(), Some(0));
    assert_eq!(repay_instruction(u64::MAX).amount(), Some(u64::MAX));
    let mut spelled = repay_instruction(0);
    spelled.data[8..16].copy_from_slice(&[1, 2, 3, 4, 5, 6, 7, 8]);
    assert_eq!(spelled.amount(), Some(0x0807_0605_0403_0201));
    let mut low = repay_instruction(0);
    low.data[8] = 0x2a;
    assert_eq!(low.amount(), Some(42));
    let mut high = repay_instruction(0);
    high.data[15] = 0x80;
    assert_eq!(high.amount(), Some(1 << 63));
}

#[test]
fn amount_ignores_what_follows() {
    let mut long = repay_instruction(7);
    long.data.extend_from_slice(&[0xff, 0xff]);
    assert_eq!(long.amount(), Some(7));
}

#[test]
fn amount_needs_sixteen_bytes() {
    let mut short = repay_instruction(100);
    short.data.truncate(15);
    assert_eq!(short.amount(), None);
    short.data.truncate(8);
    assert_eq!(short.amount(), None);
}

#[test]
fn repayment_names_its_pool_third() {
    let program = Address::new(PROGRAM);
    let ixn = repay_instruction(5);
    assert!(ixn.repays_pool(&program, &Address::new(POOL)));
    assert!(!ixn.repays_pool(&program, &Address::new([1; 32])));
    assert!(!ixn.repays_pool(&program, &Address::new([2; 32])));
    assert!(!ixn.repays_pool(&program, &Address::new([3; 32])));
}

#[test]
fn repayment_needs_three_accounts() {
    let program = Address::new(PROGRAM);
    let mut ixn = repay_instruction(5);
    ixn.accounts.truncate(2);
    assert!(!ixn.repays_pool(&program, &Address::new(POOL)));
    ixn.accounts.clear();
    assert!(!ixn.repays_pool(&program, &Address::new(POOL)));
}

#[test]
fn repayment_is_to_the_program_itself() {
    let ixn = repay_instruction(5);
    assert!(!ixn.repays_pool(&Address::new([11; 32]), &Address::new(POOL)));
}

#[test]
fn judge_tells_the_three_cases() {
    let program = Address::new(PROGRAM);
    let pool = Address::new(POOL);
    assert_eq!(judge_instruction(&repay_instruction(100), &program, &pool, 100), Verdict::Repays);
    assert_eq!(
        judge_instruction(&repay_instruction(50), &program, &pool, 100),
        Verdict::WrongAmount
    );
    assert_eq!(
        judge_instruction(&repay_instruction(100), &program, &Address::new([21; 32]), 100),
        Verdict::Unrelated
    );
    assert_eq!(
        judge_instruction(&repay_instruction(100), &Address::new([11; 32]), &pool, 100),
        Verdict::Unrelated
    );
}

#[test]
fn judge_counts_a_cut_amount_as_wrong() {
    let program = Address::new(PROGRAM);
    let pool = Address::new(POOL);
    let mut cut = repay_instruction(0);
    cut.data.truncate(12);
    assert_eq!(judge_instruction(&cut, &program, &pool, 0), Verdict::WrongAmount);
}

#[test]
fn judge_passes_over_other_operations() {
    let program = Address::new(PROGRAM);
    let pool = Address::new(POOL);
    let mut borrow = repay_instruction(100);
    borrow.data[..8].copy_from_slice(&[228, 253, 131, 202, 207, 116, 89, 18]);
    assert_eq!(judge_instruction(&borrow, &program, &pool, 100), Verdict::Unrelated);
}
