use vm_core::adapters::{
    compose_register, read_rv32_register, ExecutionBus, MemoryBridge, ProgramBus,
    Rv32VecHeapAdapterChip, Rv32VecHeapTwoReadsAdapterChip,
};
use vm_core::arch::{AdapterRuntimeContext, ExecutionState, Instruction};
use vm_core::field::Felt;
use vm_core::memory::Memory;

fn f(v: u32) -> Felt {
    Felt::from_u32(v)
}

fn set_register(memory: &mut Memory, pointer: u32, value: u32) {
    let limbs: Vec<Felt> = value.to_le_bytes().iter().map(|&b| f(b as u32)).collect();
    memory.write(1, pointer, &limbs);
}

#[test]
fn test_compose_register_little_endian() {
    let limbs = vec![f(0x2F), f(0x01), f(0x00), f(0x00)];
    assert_eq!(compose_register(&limbs), 0x012F);
    let high = vec![f(0), f(0), f(0), f(0x80)];
    assert_eq!(compose_register(&high), 0x8000_0000);
}

#[test]
fn test_read_rv32_register_composes() {
    let mut memory = Memory::new();
    set_register(&mut memory, 12, 305419896);
    let log_before = memory.log_len();
    let (record, value) = read_rv32_register(&mut memory, 1, 12);
    assert_eq!(value, 305419896);
    assert_eq!(record.pointer, 12);
    assert_eq!(memory.log_len(), log_before + 1);
}

#[test]
fn test_vec_heap_adapter_round_trip() {
    let mut memory = Memory::new();
    // rs1 register at 0 points to heap 64, rs2 at 4 points to 96, rd at 8 to 128
    set_register(&mut memory, 0, 64);
    set_register(&mut memory, 4, 96);
    set_register(&mut memory, 8, 128);
    memory.write(2, 64, &vec![f(1), f(2), f(3), f(4)]);
    memory.write(2, 96, &vec![f(9), f(9), f(9), f(9)]);

    let mut adapter = Rv32VecHeapAdapterChip::new(
        ExecutionBus(0),
        ProgramBus(0),
        MemoryBridge(0),
        29,
        1,
        1,
        4,
        4,
    );
    let instruction = Instruction::new(300, f(8), f(0), f(4), f(1), f(2), f(0));
    let (reads, read_record) = adapter.preprocess(&mut memory, &instruction);
    let first: Vec<u32> = reads[0][0].iter().map(|x| x.as_u32()).collect();
    let second: Vec<u32> = reads[1][0].iter().map(|x| x.as_u32()).collect();
    assert_eq!(first, vec![1, 2, 3, 4]);
    assert_eq!(second, vec![9, 9, 9, 9]);
    assert_eq!(read_record.rd_val.as_u32(), 128);

    let output = AdapterRuntimeContext {
        to_pc: None,
        writes: vec![vec![f(10), f(11), f(12), f(13)]],
    };
    let from_state = ExecutionState { pc: 40, timestamp: memory.timestamp() };
    let (new_state, write_record) =
        adapter.postprocess(&mut memory, &instruction, from_state, output, &read_record);
    assert_eq!(new_state.pc, 44);
    assert_eq!(write_record.writes.len(), 1);
    let (_, written) = memory.read(2, 128, 4);
    let written: Vec<u32> = written.iter().map(|x| x.as_u32()).collect();
    assert_eq!(written, vec![10, 11, 12, 13]);
}

#[test]
fn test_two_reads_adapter_distinct_block_counts() {
    let mut memory = Memory::new();
    set_register(&mut memory, 0, 64);
    set_register(&mut memory, 4, 96);
    set_register(&mut memory, 8, 160);
    memory.write(2, 64, &vec![f(1), f(1)]);
    memory.write(2, 66, &vec![f(2), f(2)]);
    memory.write(2, 96, &vec![f(3), f(3)]);

    let mut adapter = Rv32VecHeapTwoReadsAdapterChip::new(
        ExecutionBus(0),
        ProgramBus(0),
        MemoryBridge(0),
        29,
        2,
        1,
        1,
        2,
        2,
    );
    let instruction = Instruction::new(301, f(8), f(0), f(4), f(1), f(2), f(0));
    let ((reads1, reads2), read_record) = adapter.preprocess(&mut memory, &instruction);
    assert_eq!(reads1.len(), 2);
    assert_eq!(reads2.len(), 1);
    assert_eq!(reads1[1][0].as_u32(), 2);
    assert_eq!(reads2[0][0].as_u32(), 3);
    assert_eq!(read_record.rd_val.as_u32(), 160);

    let output = AdapterRuntimeContext { to_pc: None, writes: vec![vec![f(7), f(8)]] };
    let from_state = ExecutionState { pc: 0, timestamp: memory.timestamp() };
    let (new_state, _write_record) =
        adapter.postprocess(&mut memory, &instruction, from_state, output, &read_record);
    assert_eq!(new_state.pc, 4);
    assert_eq!(memory.get(2, 161).as_u32(), 8);
}
