//! The program execution loop: fetches the instruction at the program
//! counter, dispatches it to the matching chip, advances state, and
//! slices long executions into bounded segments.
//!
//! The observable machine state is the program counter, the memory
//! mapping, the remaining hint stream and the halted flag; the step
//! relation below fixes what one dispatch does to it. Segment boundaries
//! reset only the access log and timestamp, which the machine state does
//! not contain, so segmentation cannot change what a program computes.

use vstd::prelude::*;

use crate::adapters::{
    peek_register, register_at, ExecutionBus, MemoryBridge, ProgramBus, Rv32VecHeapAdapterChip,
    RV32_MEMORY_AS, RV32_REGISTER_AS,
};
use crate::alu::{
    alu_opcode_of, alu_result_ok, felt_values, BaseAluCoreChip, XorLookupChip,
};
use crate::arch::{ExecutionError, ExecutionState, Instruction, Streams};
use crate::field::{Felt, MODULUS};
use crate::hintstore::{
    BitwiseOperationLookupChip, Rv32HintStoreCoreChip, RV32_REGISTER_NUM_LIMBS,
};
use crate::jal::JalCoreChip;
use crate::memory::{window_spec, write_window_spec, Memory, MemoryImage};

verus! {

/// The opcode that halts execution.
pub const TERMINATE_OPCODE: usize = 0;

/// The opcode that does nothing but advance.
pub const NOP_OPCODE: usize = 1;

/// The jump-and-link opcode.
pub const JAL_OPCODE: usize = 16;

/// The hint-store opcode.
pub const HINT_STOREW_OPCODE: usize = 32;

/// The first of the five base ALU opcodes.
pub const ALU_OPCODE_OFFSET: usize = 256;

/// The limb shape of the heap ALU: one block of four 8-bit limbs per
/// operand.
pub const ALU_NUM_LIMBS: usize = 4;

/// Bits per ALU limb.
pub const ALU_LIMB_BITS: usize = 8;

/// The observable state of the machine between instructions: program
/// counter, memory mapping, remaining hints, and whether a terminate
/// opcode has executed. Timestamps and the access log are bookkeeping for
/// the consistency argument and are deliberately not part of this state.
pub struct MachineState {
    pub pc: int,
    pub mem: Map<u64, Felt>,
    pub hints: Seq<Felt>,
    pub halted: bool,
}

/// What one dispatch produces: the next machine state, or a typed
/// execution failure.
pub enum StepOut {
    Next { state: MachineState },
    Fail { error: ExecutionError },
}

/// The field elements a limb array embeds to.
pub open spec fn felts_of_limbs(z: Seq<u32>) -> Seq<Felt> {
    Seq::new(z.len(), |i: int| Felt { value: z[i] })
}

/// Whether every cell of a window holds a canonical limb of the ALU's
/// width.
pub open spec fn window_limbs_ok(m: Map<u64, Felt>, base: int) -> bool {
    crate::alu::limbs_in_range(
        felt_values(window_spec(m, RV32_MEMORY_AS, base, ALU_NUM_LIMBS as nat)),
        ALU_LIMB_BITS as nat,
    )
}

/// What one dispatch of the instruction at the program counter does to
/// the machine state. This is a relation only because the ALU's result
/// limbs are characterized, not constructed, by their contract; the
/// relation is nevertheless deterministic.
pub open spec fn step_rel(prog: Seq<Instruction>, s: MachineState, out: StepOut) -> bool {
    &&& !s.halted
    &&& if !(s.pc % 4 == 0 && 0 <= s.pc / 4 < prog.len()) {
        out == (StepOut::Fail { error: ExecutionError::PcOutOfBounds { pc: s.pc as u32 } })
    } else {
        let instr = prog[s.pc / 4];
        let pc = s.pc;
        if instr.opcode == TERMINATE_OPCODE {
            out == (StepOut::Next {
                state: MachineState { pc: s.pc, mem: s.mem, hints: s.hints, halted: true },
            })
        } else if instr.opcode == NOP_OPCODE {
            out == (StepOut::Next {
                state: MachineState { pc: pc + 4, mem: s.mem, hints: s.hints, halted: false },
            })
        } else if instr.opcode == JAL_OPCODE {
            let link = Felt { value: ((pc + 4) % (MODULUS as int)) as u32 };
            out == (StepOut::Next {
                state: MachineState {
                    pc: ((pc % (MODULUS as int)) + instr.b.value) % (MODULUS as int),
                    mem: write_window_spec(
                        s.mem,
                        instr.d.value,
                        instr.a.value as int,
                        seq![link],
                    ),
                    hints: s.hints,
                    halted: false,
                },
            })
        } else if instr.opcode == HINT_STOREW_OPCODE {
            if s.hints.len() < RV32_REGISTER_NUM_LIMBS {
                out == (StepOut::Fail {
                    error: ExecutionError::HintOutOfBounds { pc: pc as u32 },
                })
            } else {
                let ptr = register_at(s.mem, instr.a.value as int);
                if ptr + RV32_REGISTER_NUM_LIMBS > 0x1_0000_0000 {
                    out == (StepOut::Fail { error: ExecutionError::Fail { pc: pc as u32 } })
                } else {
                    out == (StepOut::Next {
                        state: MachineState {
                            pc: pc + 4,
                            mem: write_window_spec(
                                s.mem,
                                RV32_MEMORY_AS,
                                ptr,
                                s.hints.take(RV32_REGISTER_NUM_LIMBS as int),
                            ),
                            hints: s.hints.skip(RV32_REGISTER_NUM_LIMBS as int),
                            halted: false,
                        },
                    })
                }
            }
        } else if ALU_OPCODE_OFFSET <= instr.opcode < ALU_OPCODE_OFFSET + 5 {
            let op = alu_opcode_of(instr.opcode - ALU_OPCODE_OFFSET);
            let rs1 = register_at(s.mem, instr.b.value as int);
            let rs2 = register_at(s.mem, instr.c.value as int);
            let rd = register_at(s.mem, instr.a.value as int);
            if instr.d.value != RV32_REGISTER_AS || instr.e.value != RV32_MEMORY_AS || rs1
                + ALU_NUM_LIMBS > 0x1_0000_0000 || rs2 + ALU_NUM_LIMBS > 0x1_0000_0000 || rd
                >= MODULUS || !window_limbs_ok(s.mem, rs1) || !window_limbs_ok(s.mem, rs2) {
                out == (StepOut::Fail { error: ExecutionError::Fail { pc: pc as u32 } })
            } else {
                exists|z: Seq<u32>|
                    #[trigger] alu_result_ok(
                        op,
                        felt_values(window_spec(s.mem, RV32_MEMORY_AS, rs1, ALU_NUM_LIMBS as nat)),
                        felt_values(window_spec(s.mem, RV32_MEMORY_AS, rs2, ALU_NUM_LIMBS as nat)),
                        z,
                        ALU_LIMB_BITS as nat,
                    ) && out == (StepOut::Next {
                        state: MachineState {
                            pc: pc + 4,
                            mem: write_window_spec(s.mem, RV32_MEMORY_AS, rd, felts_of_limbs(z)),
                            hints: s.hints,
                            halted: false,
                        },
                    })
            }
        } else {
            out == (StepOut::Fail {
                error: ExecutionError::DisabledOperation { pc: pc as u32, opcode: instr.opcode },
            })
        }
    }
}

/// Whether the machine can go from one state to another in exactly `n`
/// successful steps.
pub open spec fn reaches(prog: Seq<Instruction>, s: MachineState, t: MachineState, n: nat) -> bool
    decreases n,
{
    if n == 0 {
        s == t
    } else {
        exists|mid: MachineState|
            #[trigger] step_rel(prog, s, StepOut::Next { state: mid }) && reaches(
                prog,
                mid,
                t,
                (n - 1) as nat,
            )
    }
}

/// A run can be extended by one more step at its end.
pub proof fn lemma_reaches_extend(
    prog: Seq<Instruction>,
    s: MachineState,
    t: MachineState,
    u: MachineState,
    n: nat,
)
    requires
        reaches(prog, s, t, n),
        step_rel(prog, t, StepOut::Next { state: u }),
    ensures
        reaches(prog, s, u, n + 1),
    decreases n,
{
    if n == 0 {
        assert(step_rel(prog, s, StepOut::Next { state: u }) && reaches(prog, u, u, 0));
    } else {
        let mid = choose|mid: MachineState|
            #[trigger] step_rel(prog, s, StepOut::Next { state: mid }) && reaches(
                prog,
                mid,
                t,
                (n - 1) as nat,
            );
        lemma_reaches_extend(prog, mid, t, u, (n - 1) as nat);
        assert(step_rel(prog, s, StepOut::Next { state: mid }) && reaches(prog, mid, u, n));
    }
}

/// Two in-range limb arrays denoting the same number are equal.
proof fn lemma_limbs_value_injective(a: Seq<u32>, b: Seq<u32>, bits: nat)
    requires
        a.len() == b.len(),
        crate::alu::limbs_in_range(a, bits),
        crate::alu::limbs_in_range(b, bits),
        crate::alu::limbs_value(a, bits) == crate::alu::limbs_value(b, bits),
    ensures
        a =~= b,
    decreases a.len(),
{
    if a.len() > 0 {
        let n = a.len();
        let p = vstd::arithmetic::power2::pow2(bits * (n - 1) as nat) as int;
        crate::alu::lemma_limbs_value_bound(a.drop_last(), bits);
        crate::alu::lemma_limbs_value_bound(b.drop_last(), bits);
        let va = crate::alu::limbs_value(a.drop_last(), bits);
        let vb = crate::alu::limbs_value(b.drop_last(), bits);
        let v = crate::alu::limbs_value(a, bits);
        vstd::arithmetic::div_mod::lemma_fundamental_div_mod_converse(
            v,
            p,
            a.last() as int,
            va,
        );
        vstd::arithmetic::div_mod::lemma_fundamental_div_mod_converse(
            v,
            p,
            b.last() as int,
            vb,
        );
        assert(a.last() == b.last() && va == vb);
        lemma_limbs_value_injective(a.drop_last(), b.drop_last(), bits);
        assert(a =~= a.drop_last().push(a.last()));
        assert(b =~= b.drop_last().push(b.last()));
    }
}

/// The step relation is deterministic: one state steps to at most one
/// outcome.
pub proof fn lemma_step_deterministic(
    prog: Seq<Instruction>,
    s: MachineState,
    o1: StepOut,
    o2: StepOut,
)
    requires
        step_rel(prog, s, o1),
        step_rel(prog, s, o2),
    ensures
        o1 == o2,
{
    if s.pc % 4 == 0 && 0 <= s.pc / 4 < prog.len() {
        let instr = prog[s.pc / 4];
        if ALU_OPCODE_OFFSET <= instr.opcode < ALU_OPCODE_OFFSET + 5 {
            let op = alu_opcode_of(instr.opcode - ALU_OPCODE_OFFSET);
            let rs1 = register_at(s.mem, instr.b.value as int);
            let rs2 = register_at(s.mem, instr.c.value as int);
            let rd = register_at(s.mem, instr.a.value as int);
            if !(instr.d.value != RV32_REGISTER_AS || instr.e.value != RV32_MEMORY_AS || rs1
                + ALU_NUM_LIMBS > 0x1_0000_0000 || rs2 + ALU_NUM_LIMBS > 0x1_0000_0000 || rd
                >= MODULUS || !window_limbs_ok(s.mem, rs1) || !window_limbs_ok(s.mem, rs2)) {
                let xs = felt_values(
                    window_spec(s.mem, RV32_MEMORY_AS, rs1, ALU_NUM_LIMBS as nat),
                );
                let ys = felt_values(
                    window_spec(s.mem, RV32_MEMORY_AS, rs2, ALU_NUM_LIMBS as nat),
                );
                let z1 = choose|z: Seq<u32>|
                    #[trigger] alu_result_ok(op, xs, ys, z, ALU_LIMB_BITS as nat) && o1 == (
                    StepOut::Next {
                        state: MachineState {
                            pc: s.pc + 4,
                            mem: write_window_spec(s.mem, RV32_MEMORY_AS, rd, felts_of_limbs(z)),
                            hints: s.hints,
                            halted: false,
                        },
                    });
                let z2 = choose|z: Seq<u32>|
                    #[trigger] alu_result_ok(op, xs, ys, z, ALU_LIMB_BITS as nat) && o2 == (
                    StepOut::Next {
                        state: MachineState {
                            pc: s.pc + 4,
                            mem: write_window_spec(s.mem, RV32_MEMORY_AS, rd, felts_of_limbs(z)),
                            hints: s.hints,
                            halted: false,
                        },
                    });
                match op {
                    crate::alu::AluOpcode::ADD => {
                        lemma_limbs_value_injective(z1, z2, ALU_LIMB_BITS as nat);
                    },
                    crate::alu::AluOpcode::SUB => {
                        lemma_limbs_value_injective(z1, z2, ALU_LIMB_BITS as nat);
                    },
                    _ => {
                        assert(z1 =~= z2);
                    },
                }
                assert(felts_of_limbs(z1) =~= felts_of_limbs(z2));
            }
        }
    }
}

/// The program execution loop: owns the decoded program and the segment
/// bound, and drives the per-opcode chips.
#[derive(Clone, Debug)]
pub struct VmExecutor {
    /// The decoded program, indexed by `pc / 4`.
    pub program: Vec<Instruction>,
    /// The greatest number of instructions one proof segment may hold.
    pub max_segment_len: usize,
}

impl VmExecutor {
    /// Sensible executor shape: well-formed instructions, a program
    /// that fits the program-counter space, and a bounded segment
    /// length.
    pub open spec fn wf(&self) -> bool {
        &&& forall|i: int| 0 <= i < self.program@.len() ==> (#[trigger] self.program@[i]).wf()
        &&& 4 * self.program@.len() + 4 < MODULUS
        &&& 1 <= self.max_segment_len <= 0x0400_0000
    }

    /// The machine state a run starts from: program counter zero, empty
    /// memory, the given hint queue.
    pub open spec fn initial_state(&self, input: Seq<Felt>) -> MachineState {
        MachineState { pc: 0, mem: Map::<u64, Felt>::empty(), hints: input, halted: false }
    }

    /// An executor over a program, with the given segment bound.
    pub fn new(program: Vec<Instruction>, max_segment_len: usize) -> (r: VmExecutor)
        ensures
            r.program == program,
            r.max_segment_len == max_segment_len,
    {
        VmExecutor { program, max_segment_len }
    }

    /// Runs the program from an empty memory over the given hint input,
    /// for at most `max_segments` segments of at most `max_segment_len`
    /// instructions each. At each segment boundary the memory image is
    /// checkpointed and the access log and timestamp start afresh.
    ///
    /// An `Ok` image is the memory of a halted machine state the step
    /// relation reaches from the initial state; every error other than
    /// the exhausted segment budget is the failure of the one step the
    /// machine could not take.
    pub fn execute(&self, input: &Vec<Felt>, max_segments: usize) -> (r: Result<
        MemoryImage,
        ExecutionError,
    >)
        requires
            self.wf(),
            forall|i: int| 0 <= i < input@.len() ==> (#[trigger] input@[i]).valid(),
        ensures
            r matches Ok(image) ==> image.wf() && image.values_valid() && exists|n: nat, t: MachineState|
                #[trigger] reaches(self.program@, self.initial_state(input@), t, n) && t.halted
                    && image@ == t.mem,
            r matches Err(e) ==> e == ExecutionError::DidNotTerminate || exists|
                n: nat,
                t: MachineState,
            |
                #[trigger] reaches(self.program@, self.initial_state(input@), t, n) && step_rel(
                    self.program@,
                    t,
                    StepOut::Fail { error: e },
                ),
            r == Err::<MemoryImage, ExecutionError>(ExecutionError::DidNotTerminate) ==> exists|
                t: MachineState,
            |
                #[trigger] reaches(
                    self.program@,
                    self.initial_state(input@),
                    t,
                    (max_segments * self.max_segment_len) as nat,
                ) && !t.halted,
    {
        let ghost prog = self.program@;
        let ghost init = self.initial_state(input@);
        let prog_len = self.program.len();
        let mut memory = Memory::new();
        let mut streams = Streams::new();
        let input_len = input.len();
        let mut i: usize = 0;
        while i < input_len
            invariant
                input_len == input@.len(),
                forall|j: int| 0 <= j < input@.len() ==> (#[trigger] input@[j]).valid(),
                0 <= i <= input_len,
                streams.wf(),
                streams.hint_stream@ =~= input@.take(i as int),
            decreases input_len - i,
        {
            streams.push_hint(input[i]);
            proof {
                assert(streams.hint_stream@ =~= input@.take(i + 1));
            }
            i += 1;
        }
        proof {
            assert(streams.hint_stream@ =~= input@);
        }
        let mut pc: u32 = 0;
        let ghost mut cur: MachineState = init;
        let ghost mut steps: nat = 0nat;
        let mut seg: usize = 0;
        while seg < max_segments
            invariant
                self.wf(),
                prog == self.program@,
                prog_len == prog.len(),
                init == self.initial_state(input@),
                memory.inv(),
                memory.timestamp_spec() == 1,
                streams.wf(),
                cur == (MachineState {
                    pc: pc as int,
                    mem: memory.data_map(),
                    hints: streams.hint_stream@,
                    halted: false,
                }),
                reaches(prog, init, cur, steps),
                steps == seg * self.max_segment_len,
                0 <= seg <= max_segments,
            decreases max_segments - seg,
        {
            let mut count: usize = 0;
            while count < self.max_segment_len
                invariant
                    self.wf(),
                    prog == self.program@,
                    prog_len == prog.len(),
                    init == self.initial_state(input@),
                    memory.inv(),
                    0 <= count <= self.max_segment_len,
                    memory.timestamp_spec() <= 1 + 16 * count,
                    streams.wf(),
                    cur == (MachineState {
                        pc: pc as int,
                        mem: memory.data_map(),
                        hints: streams.hint_stream@,
                        halted: false,
                    }),
                    reaches(prog, init, cur, steps),
                    steps == seg * self.max_segment_len + count,
                    0 <= seg < max_segments,
                decreases self.max_segment_len - count,
            {
                proof {
                    assert(16 * count <= 16 * 0x0400_0000);
                    crate::adapters::lemma_small_powers_of_two();
                    vstd::arithmetic::power2::lemma2_to64();
                }
                if pc % 4 != 0 || pc / 4 >= prog_len as u32 {
                    let err = ExecutionError::PcOutOfBounds { pc };
                    proof {
                        assert(step_rel(prog, cur, StepOut::Fail { error: err }));
                    }
                    return Err(err);
                }
                let instr = self.program[(pc / 4) as usize];
                proof {
                    assert(instr == prog[pc as int / 4]);
                    assert(instr.wf());
                    assert(pc + 4 < MODULUS) by {
                        assert(pc as int / 4 < prog.len());
                        assert(pc as int <= 4 * prog.len() - 4);
                    };
                }
                if instr.opcode == TERMINATE_OPCODE {
                    let ghost halted_state = MachineState {
                        pc: pc as int,
                        mem: memory.data_map(),
                        hints: streams.hint_stream@,
                        halted: true,
                    };
                    proof {
                        assert(step_rel(prog, cur, StepOut::Next { state: halted_state }));
                        lemma_reaches_extend(prog, init, cur, halted_state, steps);
                    }
                    return Ok(memory.into_image());
                } else if instr.opcode == NOP_OPCODE {
                    memory.increment_timestamp_by(1);
                    pc = pc + 4;
                    proof {
                        let next = MachineState {
                            pc: pc as int,
                            mem: memory.data_map(),
                            hints: streams.hint_stream@,
                            halted: false,
                        };
                        assert(step_rel(prog, cur, StepOut::Next { state: next }));
                        lemma_reaches_extend(prog, init, cur, next, steps);
                        cur = next;
                        steps = steps + 1;
                    }
                } else if instr.opcode == JAL_OPCODE {
                    let jal_chip = JalCoreChip::new(JAL_OPCODE);
                    let (ctx, _record) = jal_chip.execute_instruction(&instr, pc);
                    let link_cell = &ctx.writes[0];
                    memory.write(instr.d.as_u32(), instr.a.as_u32(), link_cell);
                    let to_pc = match ctx.to_pc {
                        Some(p) => p,
                        None => {
                            proof {
                                assert(false);
                            }
                            0
                        },
                    };
                    proof {
                        vstd::arithmetic::div_mod::lemma_small_mod(
                            (pc + 4) as nat,
                            MODULUS as nat,
                        );
                        assert(link_cell@ =~= seq![
                            Felt { value: ((pc + 4) as int % (MODULUS as int)) as u32 },
                        ]);
                    }
                    pc = to_pc;
                    proof {
                        let next = MachineState {
                            pc: pc as int,
                            mem: memory.data_map(),
                            hints: streams.hint_stream@,
                            halted: false,
                        };
                        assert(step_rel(prog, cur, StepOut::Next { state: next }));
                        lemma_reaches_extend(prog, init, cur, next, steps);
                        cur = next;
                        steps = steps + 1;
                    }
                } else if instr.opcode == HINT_STOREW_OPCODE {
                    if streams.hint_stream.len() < RV32_REGISTER_NUM_LIMBS {
                        let err = ExecutionError::HintOutOfBounds { pc };
                        proof {
                            assert(step_rel(prog, cur, StepOut::Fail { error: err }));
                        }
                        return Err(err);
                    }
                    let (_reg_record, ptr) = crate::adapters::read_rv32_register(
                        &mut memory,
                        RV32_REGISTER_AS,
                        instr.a.as_u32(),
                    );
                    if ptr > 0xFFFF_FFFCu32 {
                        let err = ExecutionError::Fail { pc };
                        proof {
                            assert(step_rel(prog, cur, StepOut::Fail { error: err }));
                        }
                        return Err(err);
                    }
                    let mut hint_chip = Rv32HintStoreCoreChip::new(
                        BitwiseOperationLookupChip::new(0),
                        HINT_STOREW_OPCODE,
                    );
                    let step = hint_chip.execute_instruction(&mut streams, &instr, pc);
                    match step {
                        Err(_) => {
                            proof {
                                assert(false);
                            }
                            return Err(ExecutionError::Fail { pc });
                        },
                        Ok((ctx, _rec)) => {
                            proof {
                                assert forall|j: int|
                                    0 <= j < ctx.writes@[0]@.len() implies (
                                #[trigger] ctx.writes@[0]@[j]).valid() by {
                                    assert(ctx.writes@[0]@[j] == cur.hints[j]);
                                }
                            }
                            memory.write(RV32_MEMORY_AS, ptr, &ctx.writes[0]);
                            pc = pc + 4;
                            proof {
                                let next = MachineState {
                                    pc: pc as int,
                                    mem: memory.data_map(),
                                    hints: streams.hint_stream@,
                                    halted: false,
                                };
                                assert(step_rel(prog, cur, StepOut::Next { state: next }));
                                lemma_reaches_extend(prog, init, cur, next, steps);
                                cur = next;
                                steps = steps + 1;
                            }
                        },
                    }
                } else if ALU_OPCODE_OFFSET <= instr.opcode && instr.opcode < ALU_OPCODE_OFFSET
                    + 5 {
                    if instr.d.as_u32() != RV32_REGISTER_AS || instr.e.as_u32() != RV32_MEMORY_AS {
                        let err = ExecutionError::Fail { pc };
                        proof {
                            assert(step_rel(prog, cur, StepOut::Fail { error: err }));
                        }
                        return Err(err);
                    }
                    let rs1 = peek_register(&memory, instr.b.as_u32());
                    let rs2 = peek_register(&memory, instr.c.as_u32());
                    let rd = peek_register(&memory, instr.a.as_u32());
                    if rs1 > 0xFFFF_FFFCu32 || rs2 > 0xFFFF_FFFCu32 || rd >= MODULUS {
                        let err = ExecutionError::Fail { pc };
                        proof {
                            assert(step_rel(prog, cur, StepOut::Fail { error: err }));
                        }
                        return Err(err);
                    }
                    let mut adapter = Rv32VecHeapAdapterChip::new(
                        ExecutionBus(0),
                        ProgramBus(0),
                        MemoryBridge(0),
                        29,
                        1,
                        1,
                        ALU_NUM_LIMBS,
                        ALU_NUM_LIMBS,
                    );
                    let (reads, read_record) = adapter.preprocess(&mut memory, &instr);
                    let block1 = crate::memory::copy_felt_vec(&reads[0][0]);
                    let block2 = crate::memory::copy_felt_vec(&reads[1][0]);
                    proof {
                        assert(block1@ =~= window_spec(
                            cur.mem,
                            RV32_MEMORY_AS,
                            rs1 as int + 0 * ALU_NUM_LIMBS,
                            ALU_NUM_LIMBS as nat,
                        ));
                        assert(rs1 as int + 0 * ALU_NUM_LIMBS == rs1 as int);
                        assert(rs2 as int + 0 * ALU_NUM_LIMBS == rs2 as int);
                    }
                    let in_range = block1[0].as_u32() < 256 && block1[1].as_u32() < 256
                        && block1[2].as_u32() < 256 && block1[3].as_u32() < 256
                        && block2[0].as_u32() < 256 && block2[1].as_u32() < 256
                        && block2[2].as_u32() < 256 && block2[3].as_u32() < 256;
                    proof {
                        vstd::arithmetic::power2::lemma2_to64();
                        let w1 = felt_values(
                            window_spec(cur.mem, RV32_MEMORY_AS, rs1 as int, ALU_NUM_LIMBS as nat),
                        );
                        let w2 = felt_values(
                            window_spec(cur.mem, RV32_MEMORY_AS, rs2 as int, ALU_NUM_LIMBS as nat),
                        );
                        assert forall|l: int| 0 <= l < ALU_NUM_LIMBS implies (#[trigger] w1[l])
                            == block1@[l].value && (#[trigger] w2[l]) == block2@[l].value by {
                            assert(w1[l] == block1@[l].value);
                            assert(w2[l] == block2@[l].value);
                        }
                        if in_range {
                            assert forall|l: int| 0 <= l < w1.len() implies (#[trigger] w1[l])
                                < 256 by {
                                assert(l == 0 || l == 1 || l == 2 || l == 3);
                            }
                            assert forall|l: int| 0 <= l < w2.len() implies (#[trigger] w2[l])
                                < 256 by {
                                assert(l == 0 || l == 1 || l == 2 || l == 3);
                            }
                            assert(window_limbs_ok(cur.mem, rs1 as int));
                            assert(window_limbs_ok(cur.mem, rs2 as int));
                        } else {
                            if window_limbs_ok(cur.mem, rs1 as int) && window_limbs_ok(
                                cur.mem,
                                rs2 as int,
                            ) {
                                assert(w1[0] < 256 && w1[1] < 256 && w1[2] < 256 && w1[3] < 256);
                                assert(w2[0] < 256 && w2[1] < 256 && w2[2] < 256 && w2[3] < 256);
                                assert(false);
                            }
                        }
                    }
                    if !in_range {
                        let err = ExecutionError::Fail { pc };
                        proof {
                            assert(step_rel(prog, cur, StepOut::Fail { error: err }));
                        }
                        return Err(err);
                    }
                    let mut flat: Vec<Vec<Felt>> = Vec::new();
                    flat.push(block1);
                    flat.push(block2);
                    let mut core = BaseAluCoreChip::new(
                        XorLookupChip::new(0),
                        ALU_OPCODE_OFFSET,
                        ALU_NUM_LIMBS,
                        ALU_LIMB_BITS,
                    );
                    let from_ts = memory.timestamp();
                    let (ctx, _record) = core.execute_instruction(&instr, pc, &flat);
                    let ghost ctx_writes = ctx.writes@;
                    let (new_state, _write_record) = adapter.postprocess(
                        &mut memory,
                        &instr,
                        ExecutionState { pc, timestamp: from_ts },
                        ctx,
                        &read_record,
                    );
                    pc = new_state.pc;
                    proof {
                        let op = alu_opcode_of(instr.opcode - ALU_OPCODE_OFFSET);
                        let xs = felt_values(
                            window_spec(cur.mem, RV32_MEMORY_AS, rs1 as int, ALU_NUM_LIMBS as nat),
                        );
                        let ys = felt_values(
                            window_spec(cur.mem, RV32_MEMORY_AS, rs2 as int, ALU_NUM_LIMBS as nat),
                        );
                        assert(flat@[0]@ == window_spec(
                            cur.mem,
                            RV32_MEMORY_AS,
                            rs1 as int,
                            ALU_NUM_LIMBS as nat,
                        ));
                        assert(flat@[1]@ == window_spec(
                            cur.mem,
                            RV32_MEMORY_AS,
                            rs2 as int,
                            ALU_NUM_LIMBS as nat,
                        ));
                        let z = felt_values(ctx_writes[0]@);
                        assert(alu_result_ok(op, xs, ys, z, ALU_LIMB_BITS as nat));
                        // the single write block lands at the destination pointer
                        let views = Seq::new(ctx_writes.len() as nat, |i: int| ctx_writes[i]@);
                        vstd::arithmetic::div_mod::lemma_small_mod(rd as nat, MODULUS as nat);
                        assert(read_record.rd_val.value == rd);
                        assert(memory.data_map() == crate::adapters::write_blocks_spec(
                            cur.mem,
                            RV32_MEMORY_AS,
                            rd as int,
                            views,
                            ALU_NUM_LIMBS as nat,
                        ));
                        assert(views.len() == 1);
                        assert(views.drop_last() =~= Seq::<Seq<Felt>>::empty());
                        assert(crate::adapters::write_blocks_spec(
                            cur.mem,
                            RV32_MEMORY_AS,
                            rd as int,
                            views.drop_last(),
                            ALU_NUM_LIMBS as nat,
                        ) == cur.mem);
                        assert(memory.data_map() == write_window_spec(
                            cur.mem,
                            RV32_MEMORY_AS,
                            rd as int + (views.len() - 1) * (ALU_NUM_LIMBS as int),
                            views.last(),
                        ));
                        assert((views.len() - 1) * (ALU_NUM_LIMBS as int) == 0);
                        assert(felts_of_limbs(z) =~= ctx_writes[0]@);
                        assert(memory.data_map() == write_window_spec(
                            cur.mem,
                            RV32_MEMORY_AS,
                            rd as int,
                            felts_of_limbs(z),
                        ));
                        let next = MachineState {
                            pc: pc as int,
                            mem: memory.data_map(),
                            hints: streams.hint_stream@,
                            halted: false,
                        };
                        assert(step_rel(prog, cur, StepOut::Next { state: next }));
                        lemma_reaches_extend(prog, init, cur, next, steps);
                        cur = next;
                        steps = steps + 1;
                    }
                } else {
                    let err = ExecutionError::DisabledOperation { pc, opcode: instr.opcode };
                    proof {
                        assert(step_rel(prog, cur, StepOut::Fail { error: err }));
                    }
                    return Err(err);
                }
                count += 1;
            }
            let image = memory.into_image();
            memory = Memory::from_image(image);
            seg += 1;
            proof {
                assert(seg * self.max_segment_len == (seg - 1) * self.max_segment_len
                    + self.max_segment_len) by (nonlinear_arith);
            }
        }
        proof {
            assert(steps == (max_segments * self.max_segment_len) as nat);
            assert(reaches(prog, init, cur, (max_segments * self.max_segment_len) as nat)
                && !cur.halted);
        }
        Err(ExecutionError::DidNotTerminate)
    }
}

/// Execution is deterministic up to halting: however a run is segmented
/// or resumed, two complete runs from the same state halt in the same
/// state — in particular with the same final memory image.
pub proof fn lemma_execution_deterministic(
    prog: Seq<Instruction>,
    s: MachineState,
    t1: MachineState,
    t2: MachineState,
    n1: nat,
    n2: nat,
)
    requires
        reaches(prog, s, t1, n1),
        reaches(prog, s, t2, n2),
        t1.halted,
        t2.halted,
    ensures
        t1 == t2,
    decreases n1,
{
    if n1 == 0 {
        // s itself is halted, so no further step exists: the other run
        // must be empty too.
        if n2 != 0 {
            let mid = choose|mid: MachineState|
                #[trigger] step_rel(prog, s, StepOut::Next { state: mid }) && reaches(
                    prog,
                    mid,
                    t2,
                    (n2 - 1) as nat,
                );
            assert(false);
        }
    } else {
        if n2 == 0 {
            let mid = choose|mid: MachineState|
                #[trigger] step_rel(prog, s, StepOut::Next { state: mid }) && reaches(
                    prog,
                    mid,
                    t1,
                    (n1 - 1) as nat,
                );
            assert(false);
        } else {
            let mid1 = choose|mid: MachineState|
                #[trigger] step_rel(prog, s, StepOut::Next { state: mid }) && reaches(
                    prog,
                    mid,
                    t1,
                    (n1 - 1) as nat,
                );
            let mid2 = choose|mid: MachineState|
                #[trigger] step_rel(prog, s, StepOut::Next { state: mid }) && reaches(
                    prog,
                    mid,
                    t2,
                    (n2 - 1) as nat,
                );
            lemma_step_deterministic(
                prog,
                s,
                StepOut::Next { state: mid1 },
                StepOut::Next { state: mid2 },
            );
            lemma_execution_deterministic(
                prog,
                mid1,
                t1,
                t2,
                (n1 - 1) as nat,
                (n2 - 1) as nat,
            );
        }
    }
}

} // verus!
