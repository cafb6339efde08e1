use vm_core::arch::{ExecutionError, Instruction};
use vm_core::exec::{
    VmExecutor, ALU_OPCODE_OFFSET, HINT_STOREW_OPCODE, JAL_OPCODE, NOP_OPCODE, TERMINATE_OPCODE,
};
use vm_core::field::Felt;
use vm_core::memory::address_key;

fn f(v: u32) -> Felt {
    Felt::from_u32(v)
}

fn instr(opcode: usize) -> Instruction {
    Instruction::new(opcode, f(0), f(0), f(0), f(0), f(0), f(0))
}

fn alu_instr(local: usize) -> Instruction {
    // registers a=b=c=0 all read zero, so the operands and the
    // destination pointer sit at the bottom of the heap
    Instruction::new(ALU_OPCODE_OFFSET + local, f(0), f(0), f(0), f(1), f(2), f(0))
}

fn hint_program() -> Vec<Instruction> {
    vec![instr(HINT_STOREW_OPCODE), instr(TERMINATE_OPCODE)]
}

#[test]
fn test_hint_store_writes_input_to_heap() {
    let executor = VmExecutor::new(hint_program(), 16);
    let input = vec![f(5), f(6), f(7), f(8)];
    let image = executor.execute(&input, 4).expect("program should halt");
    for (i, v) in [5u32, 6, 7, 8].iter().enumerate() {
        assert_eq!(image.get(address_key(2, i as u32)).unwrap().as_u32(), *v);
    }
}

#[test]
fn test_alu_doubles_heap_window() {
    // store hints at heap 0, then ADD the window to itself in place
    let program = vec![
        instr(HINT_STOREW_OPCODE),
        alu_instr(0),
        instr(TERMINATE_OPCODE),
    ];
    let executor = VmExecutor::new(program, 16);
    let input = vec![f(5), f(6), f(7), f(200)];
    let image = executor.execute(&input, 4).expect("program should halt");
    let expect = [10u32, 12, 14, 144]; // 200 + 200 = 400 = 144 + 256: carry into limb 4 is lost
    for (i, v) in expect.iter().enumerate() {
        assert_eq!(image.get(address_key(2, i as u32)).unwrap().as_u32(), *v);
    }
    // the carry out of limb 3 wrapped modulo 2^32, so limb 4 is untouched
    assert!(image.get(address_key(2, 4)).is_none());
}

#[test]
fn test_segmentation_idempotence() {
    // three instructions fit one segment of exactly three
    let program = vec![
        instr(HINT_STOREW_OPCODE),
        alu_instr(0),
        instr(TERMINATE_OPCODE),
    ];
    let input = vec![f(1), f(2), f(3), f(4)];
    let exact = VmExecutor::new(program.clone(), 3);
    let larger = VmExecutor::new(program, 4);
    let image_exact = exact.execute(&input, 8).expect("halts within budget");
    let image_larger = larger.execute(&input, 8).expect("halts within budget");
    for p in 0..8u32 {
        assert_eq!(
            image_exact.get(address_key(2, p)).map(|v| v.as_u32()),
            image_larger.get(address_key(2, p)).map(|v| v.as_u32()),
        );
    }
}

#[test]
fn test_segment_much_smaller_than_program() {
    // force a segment boundary between every instruction
    let program = vec![
        instr(NOP_OPCODE),
        instr(HINT_STOREW_OPCODE),
        instr(NOP_OPCODE),
        instr(TERMINATE_OPCODE),
    ];
    let input = vec![f(9), f(8), f(7), f(6)];
    let image = VmExecutor::new(program, 1).execute(&input, 8).expect("halts");
    assert_eq!(image.get(address_key(2, 0)).unwrap().as_u32(), 9);
}

#[test]
fn test_jal_redirects_and_links() {
    // jump over a disabled opcode straight to the terminate, writing the
    // return address into the register space
    let mut jal = instr(JAL_OPCODE);
    jal.b = f(8); // jump two instructions ahead
    jal.a = f(16); // link register pointer
    jal.d = f(1);
    let program = vec![jal, instr(12345), instr(TERMINATE_OPCODE)];
    let image = VmExecutor::new(program, 16).execute(&Vec::new(), 4).expect("halts");
    assert_eq!(image.get(address_key(1, 16)).unwrap().as_u32(), 4);
}

#[test]
fn test_hint_underflow_reports_pc() {
    let program = vec![instr(NOP_OPCODE), instr(HINT_STOREW_OPCODE), instr(TERMINATE_OPCODE)];
    let err = VmExecutor::new(program, 16).execute(&vec![f(1), f(2)], 4).unwrap_err();
    assert_eq!(err, ExecutionError::HintOutOfBounds { pc: 4 });
}

#[test]
fn test_disabled_opcode_reports_pc_and_opcode() {
    let program = vec![instr(NOP_OPCODE), instr(999)];
    let err = VmExecutor::new(program, 16).execute(&Vec::new(), 4).unwrap_err();
    assert_eq!(err, ExecutionError::DisabledOperation { pc: 4, opcode: 999 });
}

#[test]
fn test_running_off_the_program_reports_pc() {
    let program = vec![instr(NOP_OPCODE)];
    let err = VmExecutor::new(program, 16).execute(&Vec::new(), 4).unwrap_err();
    assert_eq!(err, ExecutionError::PcOutOfBounds { pc: 4 });
}

#[test]
fn test_out_of_range_heap_limbs_abort() {
    // hint a value too wide for one limb into the heap, then ask the ALU
    // to consume it: a contract-violating machine state aborts execution
    let program = vec![
        instr(HINT_STOREW_OPCODE),
        alu_instr(0),
        instr(TERMINATE_OPCODE),
    ];
    let input = vec![f(300), f(0), f(0), f(0)];
    let err = VmExecutor::new(program, 16).execute(&input, 4).unwrap_err();
    assert_eq!(err, ExecutionError::Fail { pc: 4 });
}

#[test]
fn test_default_segment_length_supported() {
    let program = hint_program();
    let executor = VmExecutor::new(program, vm_core::config::DEFAULT_MAX_SEGMENT_LEN);
    let input = vec![f(1), f(2), f(3), f(4)];
    let image = executor.execute(&input, 2).expect("halts in the first segment");
    assert_eq!(image.get(address_key(2, 3)).unwrap().as_u32(), 4);
}

#[test]
fn test_budget_exhaustion_is_did_not_terminate() {
    // a jump with immediate zero spins in place forever
    let mut spin = instr(JAL_OPCODE);
    spin.b = f(0);
    spin.d = f(1);
    let program = vec![spin];
    let err = VmExecutor::new(program, 4).execute(&Vec::new(), 2).unwrap_err();
    assert_eq!(err, ExecutionError::DidNotTerminate);
}
