use vm_core::alu::{
    solve_add, solve_alu, solve_and, solve_or, solve_subtract, solve_xor, AluOpcode,
    BaseAluCoreChip, XorLookupChip,
};
use vm_core::arch::Instruction;
use vm_core::field::Felt;

const LIMB_BITS: usize = 8;

#[test]
fn test_add_carry_propagates_one_limb() {
    let x = vec![255u32, 0, 0, 0];
    let y = vec![1u32, 0, 0, 0];
    assert_eq!(solve_add(&x, &y, LIMB_BITS), vec![0, 1, 0, 0]);
}

#[test]
fn test_subtract_borrows_one_limb() {
    let x = vec![0u32, 1, 0, 0];
    let y = vec![1u32, 0, 0, 0];
    assert_eq!(solve_subtract(&x, &y, LIMB_BITS), vec![255, 0, 0, 0]);
}

#[test]
fn test_bitwise_first_limb() {
    let x = vec![0b1010u32, 0, 0, 0];
    let y = vec![0b0110u32, 0, 0, 0];
    assert_eq!(solve_xor(&x, &y, LIMB_BITS)[0], 0b1100);
    assert_eq!(solve_or(&x, &y, LIMB_BITS)[0], 0b1110);
    assert_eq!(solve_and(&x, &y, LIMB_BITS)[0], 0b0010);
}

#[test]
fn test_add_wraps_modulo_word() {
    let x = vec![255u32, 255, 255, 255];
    let y = vec![1u32, 0, 0, 0];
    assert_eq!(solve_alu(AluOpcode::ADD, &x, &y, LIMB_BITS), vec![0, 0, 0, 0]);
    // and subtraction wraps the other way
    let zero = vec![0u32, 0, 0, 0];
    assert_eq!(
        solve_alu(AluOpcode::SUB, &zero, &y, LIMB_BITS),
        vec![255, 255, 255, 255]
    );
}

#[test]
fn test_alu_opcode_from_usize() {
    assert_eq!(AluOpcode::from_usize(0), Some(AluOpcode::ADD));
    assert_eq!(AluOpcode::from_usize(4), Some(AluOpcode::AND));
    assert_eq!(AluOpcode::from_usize(5), None);
}

#[test]
fn test_alu_core_chip_executes_add() {
    let mut chip = BaseAluCoreChip::new(XorLookupChip::new(3), 100, 4, LIMB_BITS);
    let zero = Felt::zero();
    let instruction = Instruction::new(100, zero, zero, zero, zero, zero, zero);
    let reads = vec![
        vec![
            Felt::from_u32(255),
            Felt::from_u32(0),
            Felt::from_u32(0),
            Felt::from_u32(0),
        ],
        vec![
            Felt::from_u32(1),
            Felt::from_u32(0),
            Felt::from_u32(0),
            Felt::from_u32(0),
        ],
    ];
    let (ctx, record) = chip.execute_instruction(&instruction, 0, &reads);
    assert!(ctx.to_pc.is_none());
    let result: Vec<u32> = ctx.writes[0].iter().map(|f| f.as_u32()).collect();
    assert_eq!(result, vec![0, 1, 0, 0]);
    assert_eq!(record.opcode, AluOpcode::ADD);
    // ADD records one lookup request per result limb, of the result with itself
    assert_eq!(chip.xor_lookup_chip.requests.len(), 4);
    assert_eq!(chip.xor_lookup_chip.requests[1], (1, 1));
}

#[test]
fn test_alu_trace_row_flags() {
    let chip = BaseAluCoreChip::new(XorLookupChip::new(0), 0, 4, LIMB_BITS);
    let record = vm_core::alu::BaseAluCoreRecord {
        opcode: AluOpcode::XOR,
        a: vec![Felt::zero(); 4],
        b: vec![Felt::zero(); 4],
        c: vec![Felt::zero(); 4],
    };
    let cols = chip.generate_trace_row(record);
    assert_eq!(cols.opcode_xor_flag.as_u32(), 1);
    assert_eq!(cols.opcode_add_flag.as_u32(), 0);
    assert_eq!(cols.opcode_and_flag.as_u32(), 0);
}
