use vm_core::arch::{ExecutionError, Instruction, Streams};
use vm_core::columns::{
    MemoryData, UintMultiplicationAuxCols, UintMultiplicationCols, UintMultiplicationIoCols,
};
use vm_core::field::Felt;
use vm_core::field_arithmetic::{
    ArithmeticOperation, FieldArithmeticAir, FieldArithmeticOpcode, BASE_OP,
    FIELD_ARITHMETIC_NUM_COLS,
};
use vm_core::final_page::FinalPageAir;
use vm_core::hintstore::{BitwiseOperationLookupChip, Rv32HintStoreCoreChip};
use vm_core::jal::JalCoreChip;
use vm_core::range_tuple::{RangeTupleCheckerAir, RangeTupleCheckerBus};

fn f(v: u32) -> Felt {
    Felt::from_u32(v)
}

#[test]
fn test_jal_core_redirect_and_link() {
    let chip = JalCoreChip::new(7);
    let instruction = Instruction::new(7, f(0), f(100), f(0), f(0), f(0), f(0));
    let (ctx, record) = chip.execute_instruction(&instruction, 20);
    assert_eq!(ctx.to_pc, Some(120));
    assert_eq!(ctx.writes[0][0].as_u32(), 24);
    assert_eq!(record.imm.as_u32(), 100);
    let cols = chip.generate_trace_row(record);
    assert_eq!(cols.is_valid.as_u32(), 1);
    assert_eq!(cols.imm.as_u32(), 100);
}

#[test]
fn test_hintstore_core_pops_four_hints() {
    let mut chip = Rv32HintStoreCoreChip::new(BitwiseOperationLookupChip::new(0), 40);
    let mut streams = Streams::new();
    for v in [1u32, 2, 3, 4, 5] {
        streams.push_hint(f(v));
    }
    let instruction = Instruction::new(40, f(0), f(0), f(0), f(0), f(0), f(0));
    let (ctx, record) = chip.execute_instruction(&mut streams, &instruction, 8).unwrap();
    let data: Vec<u32> = record.data.iter().map(|x| x.as_u32()).collect();
    assert_eq!(data, vec![1, 2, 3, 4]);
    assert_eq!(ctx.writes[0].len(), 4);
    // the fifth hint stays queued
    assert_eq!(streams.hint_stream.len(), 1);
    // two range-check pairs were recorded
    assert_eq!(chip.bitwise_lookup_chip.requests, vec![(1, 2), (3, 4)]);
}

#[test]
fn test_hintstore_core_underflow() {
    let mut chip = Rv32HintStoreCoreChip::new(BitwiseOperationLookupChip::new(0), 40);
    let mut streams = Streams::new();
    streams.push_hint(f(1));
    let instruction = Instruction::new(40, f(0), f(0), f(0), f(0), f(0), f(0));
    let err = chip.execute_instruction(&mut streams, &instruction, 36).unwrap_err();
    assert_eq!(err, ExecutionError::HintOutOfBounds { pc: 36 });
    // nothing was consumed
    assert_eq!(streams.hint_stream.len(), 1);
}

#[test]
fn test_uint_multiplication_widths() {
    assert_eq!(MemoryData::<Felt, 8, 8>::width(), 10);
    assert_eq!(UintMultiplicationIoCols::<Felt, 8, 8>::width(), 34);
    assert_eq!(UintMultiplicationAuxCols::<Felt, 8, 8>::width(), 35);
    assert_eq!(
        UintMultiplicationCols::<Felt, 8, 8>::width(),
        UintMultiplicationIoCols::<Felt, 8, 8>::width()
            + UintMultiplicationAuxCols::<Felt, 8, 8>::width()
    );
}

#[test]
fn test_final_page_widths() {
    let air = FinalPageAir::new(0, 2, 3, 16, 8);
    assert_eq!(air.page_width(), 6);
    // each index element needs 2 slots plus ceil(16 / 8) = 2 limbs
    assert_eq!(air.aux_width(), 2 * (2 + 2) + 1);
    assert_eq!(air.air_width(), air.page_width() + air.aux_width());
}

#[test]
fn test_range_tuple_height_and_trace() {
    let air = RangeTupleCheckerAir { bus: RangeTupleCheckerBus { index: 0, sizes: vec![2, 3] } };
    assert_eq!(air.height(), 6);
    let trace = air.preprocessed_trace();
    assert_eq!(trace, vec![0, 0, 0, 1, 0, 2, 1, 0, 1, 1, 1, 2]);
}

#[test]
fn test_range_tuple_zero_bound_empty_table() {
    let air = RangeTupleCheckerAir { bus: RangeTupleCheckerBus { index: 0, sizes: vec![3, 0] } };
    assert_eq!(air.height(), 0);
    assert!(air.preprocessed_trace().is_empty());
}

#[test]
fn test_field_arithmetic_trace() {
    let air = FieldArithmeticAir { bus_index: 0 };
    let ops = vec![
        ArithmeticOperation {
            opcode: FieldArithmeticOpcode::FADD,
            operand1: f(3),
            operand2: f(4),
        },
        ArithmeticOperation {
            opcode: FieldArithmeticOpcode::FDIV,
            operand1: f(10),
            operand2: f(2),
        },
    ];
    let trace = air.generate_trace(&ops);
    assert_eq!(trace.len(), 2 * FIELD_ARITHMETIC_NUM_COLS);
    // first row: 3 + 4 = 7
    assert_eq!(trace[1].as_u32(), BASE_OP);
    assert_eq!(trace[4].as_u32(), 7);
    // second row: 10 / 2 = 5, with the divisor's inverse populated
    let row = &trace[FIELD_ARITHMETIC_NUM_COLS..2 * FIELD_ARITHMETIC_NUM_COLS];
    assert_eq!(row[1].as_u32(), BASE_OP + 3);
    assert_eq!(row[4].as_u32(), 5);
    assert_eq!(row[12].mul(f(2)).as_u32(), 1);
}

#[test]
fn test_field_arithmetic_trace_padding() {
    let air = FieldArithmeticAir { bus_index: 0 };
    let ops = vec![
        ArithmeticOperation {
            opcode: FieldArithmeticOpcode::FMUL,
            operand1: f(6),
            operand2: f(7),
        };
        3
    ];
    let trace = air.generate_trace(&ops);
    // three rows pad to four
    assert_eq!(trace.len(), 4 * FIELD_ARITHMETIC_NUM_COLS);
    // the padding row is all zeroes
    let blank = &trace[3 * FIELD_ARITHMETIC_NUM_COLS..];
    assert!(blank.iter().all(|c| c.as_u32() == 0));
    assert_eq!(trace[4].as_u32(), 42);
}
