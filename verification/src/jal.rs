//! The jump-and-link core: redirects the program counter by an immediate
//! and writes the return address.

use vstd::prelude::*;

use crate::arch::{AdapterRuntimeContext, Instruction, DEFAULT_PC_STEP};
use crate::field::Felt;
use crate::field::MODULUS;

verus! {

/// The trace-row layout of the jump-and-link core.
#[derive(Clone, Copy, Debug)]
pub struct JalCoreCols<T> {
    pub imm: T,
    pub is_valid: T,
}

impl<T> JalCoreCols<T> {
    /// The number of trace cells such a row occupies.
    pub fn width() -> (r: usize)
        ensures
            r == 2,
    {
        2
    }
}

/// The constraint-side description of the jump-and-link core.
#[derive(Clone, Copy, Debug, PartialEq, Eq, Structural)]
pub struct JalCoreAir {
    pub offset: usize,
}

/// What executing one jump leaves behind.
#[derive(Clone, Copy, Debug, PartialEq, Eq, Structural)]
pub struct JalRecord {
    pub imm: Felt,
}

/// The jump-and-link core chip.
#[derive(Clone, Copy, Debug, PartialEq, Eq, Structural)]
pub struct JalCoreChip {
    pub air: JalCoreAir,
}

impl JalCoreChip {
    /// A core at the given global opcode offset.
    pub fn new(offset: usize) -> (r: JalCoreChip)
        ensures
            r.air.offset == offset,
    {
        JalCoreChip { air: JalCoreAir { offset } }
    }

    /// Executes one jump: the next program counter is the current one
    /// plus the immediate, in the field, and the address of the
    /// following instruction is written back through the adapter.
    pub fn execute_instruction(&self, instruction: &Instruction, from_pc: u32) -> (r: (
        AdapterRuntimeContext,
        JalRecord,
    ))
        requires
            instruction.wf(),
            instruction.opcode == self.air.offset,
            from_pc + DEFAULT_PC_STEP < MODULUS,
        ensures
            r.0.to_pc == Some((((from_pc % MODULUS) + instruction.b.value) % (MODULUS as int)) as u32),
            r.0.writes@.len() == 1,
            r.0.writes@[0]@.len() == 1,
            r.0.writes@[0]@[0] == (Felt { value: (from_pc + DEFAULT_PC_STEP) as u32 }),
            r.1.imm == instruction.b,
    {
        let to_pc = Felt::from_u32(from_pc).add(instruction.b).as_u32();
        proof {
            vstd::arithmetic::div_mod::lemma_small_mod(
                (from_pc + DEFAULT_PC_STEP) as nat,
                MODULUS as nat,
            );
        }
        let link = Felt::from_u32(from_pc + DEFAULT_PC_STEP);
        let mut cell: Vec<Felt> = Vec::new();
        cell.push(link);
        let mut writes: Vec<Vec<Felt>> = Vec::new();
        writes.push(cell);
        let ctx = AdapterRuntimeContext { to_pc: Some(to_pc), writes };
        (ctx, JalRecord { imm: instruction.b })
    }

    /// Converts one execution record into the cells of one trace row.
    pub fn generate_trace_row(&self, record: JalRecord) -> (r: JalCoreCols<Felt>)
        ensures
            r.imm == record.imm,
            r.is_valid.value == 1,
    {
        JalCoreCols { imm: record.imm, is_valid: Felt::one() }
    }

    /// The diagnostic name of the one opcode this core executes.
    pub fn get_opcode_name(&self, opcode: usize) -> (r: String)
        requires
            opcode == self.air.offset,
        ensures
            r@ == "JAL"@,
    {
        proof {
            reveal_strlit("JAL");
        }
        "JAL".to_string()
    }

    /// The constraint-side description of this core.
    pub fn air(&self) -> (r: &JalCoreAir)
        ensures
            *r == self.air,
    {
        &self.air
    }
}

} // verus!
