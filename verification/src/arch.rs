//! Shared architecture types: decoded instructions, execution state, the
//! runtime context a core hands back to its adapter, execution errors and
//! the hint/input streams.

use std::collections::VecDeque;

use vstd::prelude::*;

use crate::field::Felt;

verus! {

/// How far the program counter advances past an ordinary instruction.
pub const DEFAULT_PC_STEP: u32 = 4;

/// One decoded instruction: an opcode and six field-element operands
/// whose meaning is the executing chip's convention.
#[derive(Clone, Copy, Debug, PartialEq, Eq, Structural)]
pub struct Instruction {
    pub opcode: usize,
    pub a: Felt,
    pub b: Felt,
    pub c: Felt,
    pub d: Felt,
    pub e: Felt,
    pub f: Felt,
}

impl Instruction {
    /// All operands are canonical field elements.
    pub open spec fn wf(&self) -> bool {
        self.a.valid() && self.b.valid() && self.c.valid() && self.d.valid() && self.e.valid()
            && self.f.valid()
    }

    /// An instruction from its opcode and operands.
    pub fn new(opcode: usize, a: Felt, b: Felt, c: Felt, d: Felt, e: Felt, f: Felt) -> (r:
        Instruction)
        ensures
            r == (Instruction { opcode, a, b, c, d, e, f }),
    {
        Instruction { opcode, a, b, c, d, e, f }
    }
}

/// The (program counter, timestamp) pair threaded through adapters.
#[derive(Clone, Copy, Debug, PartialEq, Eq, Structural)]
pub struct ExecutionState {
    pub pc: u32,
    pub timestamp: u32,
}

impl ExecutionState {
    pub fn new(pc: u32, timestamp: u32) -> (r: ExecutionState)
        ensures
            r == (ExecutionState { pc, timestamp }),
    {
        ExecutionState { pc, timestamp }
    }
}

/// What a core hands back to its adapter after executing one
/// instruction: an optional program-counter redirect, and the data
/// blocks the adapter must write.
#[derive(Clone, Debug)]
pub struct AdapterRuntimeContext {
    pub to_pc: Option<u32>,
    pub writes: Vec<Vec<Felt>>,
}

/// Runtime execution failures the harness can branch on. Contract
/// violations are not here: those are excluded by preconditions.
#[derive(Clone, Copy, Debug, PartialEq, Eq, Structural)]
pub enum ExecutionError {
    /// An input-consuming opcode demanded more hints than remain;
    /// carries the program counter at the point of failure.
    HintOutOfBounds { pc: u32 },
    /// The fetched opcode resolves to no enabled executor.
    DisabledOperation { pc: u32, opcode: usize },
    /// The program counter left the program, or lost its alignment.
    PcOutOfBounds { pc: u32 },
    /// The machine reached a state that breaks an executor's contract —
    /// a pointer outside the addressable range, or heap data outside its
    /// limb range — and execution aborted.
    Fail { pc: u32 },
    /// The segment budget ran out before a terminate opcode executed.
    DidNotTerminate,
}

/// The hint and input streams an executing program consumes: ordered
/// queues of field elements supplied before execution and read strictly
/// first-in, first-out by input-consuming opcodes.
#[derive(Debug)]
pub struct Streams {
    pub hint_stream: VecDeque<Felt>,
    pub input_stream: VecDeque<Vec<Felt>>,
}

impl Streams {
    /// All queued hints are canonical field elements.
    pub open spec fn wf(&self) -> bool {
        forall|i: int| 0 <= i < self.hint_stream@.len() ==> (#[trigger] self.hint_stream@[i]).valid()
    }

    /// Empty streams.
    pub fn new() -> (r: Streams)
        ensures
            r.hint_stream@ == Seq::<Felt>::empty(),
            r.input_stream@.len() == 0,
            r.wf(),
    {
        Streams { hint_stream: VecDeque::new(), input_stream: VecDeque::new() }
    }

    /// Queues one hint element at the back of the hint stream.
    pub fn push_hint(&mut self, value: Felt)
        requires
            old(self).wf(),
            value.valid(),
        ensures
            final(self).wf(),
            final(self).hint_stream@ == old(self).hint_stream@.push(value),
            final(self).input_stream@ == old(self).input_stream@,
    {
        self.hint_stream.push_back(value);
    }
}

} // verus!
