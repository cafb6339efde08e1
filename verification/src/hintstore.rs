//! The hint-store core: pops one register's worth of elements off the
//! hint stream and hands them to the adapter to write, range-checking
//! the data through the bitwise lookup table.

use vstd::prelude::*;

use crate::arch::{AdapterRuntimeContext, ExecutionError, Instruction, Streams};
use crate::field::Felt;

verus! {

/// How many limbs one register holds.
pub const RV32_REGISTER_NUM_LIMBS: usize = 4;

/// How many bits one memory cell holds.
pub const RV32_CELL_BITS: usize = 8;

/// The interaction bus a bitwise lookup table listens on.
#[derive(Clone, Copy, Debug, PartialEq, Eq, Structural)]
pub struct BitwiseOperationLookupBus(pub usize);

/// The bitwise lookup table chip used for range checks: it records
/// every pair of values the cores ask it to witness.
#[derive(Clone, Debug)]
pub struct BitwiseOperationLookupChip {
    pub bus: BitwiseOperationLookupBus,
    pub requests: Vec<(u32, u32)>,
}

impl BitwiseOperationLookupChip {
    /// A fresh lookup chip on the given bus, with no recorded requests.
    pub fn new(bus_index: usize) -> (r: BitwiseOperationLookupChip)
        ensures
            r.bus == BitwiseOperationLookupBus(bus_index),
            r.requests@ == Seq::<(u32, u32)>::empty(),
    {
        BitwiseOperationLookupChip { bus: BitwiseOperationLookupBus(bus_index), requests: Vec::new() }
    }

    /// The bus this lookup table listens on.
    pub fn bus(&self) -> (r: BitwiseOperationLookupBus)
        ensures
            r == self.bus,
    {
        self.bus
    }

    /// Records one range-check request.
    pub fn request_range(&mut self, x: u32, y: u32)
        ensures
            final(self).bus == old(self).bus,
            final(self).requests@ == old(self).requests@.push((x, y)),
    {
        self.requests.push((x, y));
    }
}

/// The trace-row layout of the hint-store core.
#[derive(Clone, Debug)]
pub struct Rv32HintStoreCoreCols<T> {
    pub is_valid: T,
    pub data: [T; RV32_REGISTER_NUM_LIMBS],
}

impl<T> Rv32HintStoreCoreCols<T> {
    /// The number of trace cells such a row occupies.
    pub fn width() -> (r: usize)
        ensures
            r == 1 + RV32_REGISTER_NUM_LIMBS,
    {
        1 + RV32_REGISTER_NUM_LIMBS
    }
}

/// What executing one hint store leaves behind.
#[derive(Clone, Debug)]
pub struct Rv32HintStoreCoreRecord {
    pub data: Vec<Felt>,
}

/// The constraint-side description of the hint-store core.
#[derive(Clone, Copy, Debug, PartialEq, Eq, Structural)]
pub struct Rv32HintStoreCoreAir {
    pub bus: BitwiseOperationLookupBus,
    pub offset: usize,
}

/// The hint-store core chip.
#[derive(Clone, Debug)]
pub struct Rv32HintStoreCoreChip {
    pub air: Rv32HintStoreCoreAir,
    pub bitwise_lookup_chip: BitwiseOperationLookupChip,
}

impl Rv32HintStoreCoreChip {
    /// A core over the given lookup chip, at the given global opcode
    /// offset.
    pub fn new(bitwise_lookup_chip: BitwiseOperationLookupChip, offset: usize) -> (r:
        Rv32HintStoreCoreChip)
        ensures
            r.air == (Rv32HintStoreCoreAir { bus: bitwise_lookup_chip.bus, offset }),
            r.bitwise_lookup_chip == bitwise_lookup_chip,
    {
        let bus = bitwise_lookup_chip.bus();
        Rv32HintStoreCoreChip { air: Rv32HintStoreCoreAir { bus, offset }, bitwise_lookup_chip }
    }

    /// Executes one hint store: pops one register's worth of elements
    /// off the hint stream, in order, and hands them to the adapter to
    /// write. Demanding more hints than remain is the error carrying the
    /// current program counter, and consumes nothing.
    pub fn execute_instruction(
        &mut self,
        streams: &mut Streams,
        _instruction: &Instruction,
        from_pc: u32,
    ) -> (r: Result<(AdapterRuntimeContext, Rv32HintStoreCoreRecord), ExecutionError>)
        requires
            old(streams).wf(),
        ensures
            final(streams).wf(),
            final(self).air == old(self).air,
            old(streams).hint_stream@.len() < RV32_REGISTER_NUM_LIMBS ==> r == Err::<
                (AdapterRuntimeContext, Rv32HintStoreCoreRecord),
                ExecutionError,
            >(ExecutionError::HintOutOfBounds { pc: from_pc }) && *final(streams) == *old(streams)
                && *final(self) == *old(self),
            old(streams).hint_stream@.len() >= RV32_REGISTER_NUM_LIMBS ==> ({
                let data = old(streams).hint_stream@.take(RV32_REGISTER_NUM_LIMBS as int);
                &&& r is Ok
                &&& final(streams).hint_stream@ == old(streams).hint_stream@.skip(
                    RV32_REGISTER_NUM_LIMBS as int,
                )
                &&& final(streams).input_stream@ == old(streams).input_stream@
                &&& r->Ok_0.0.to_pc is None
                &&& r->Ok_0.0.writes@.len() == 1
                &&& r->Ok_0.0.writes@[0]@ == data
                &&& r->Ok_0.1.data@ == data
                &&& final(self).bitwise_lookup_chip.bus == old(self).bitwise_lookup_chip.bus
                &&& final(self).bitwise_lookup_chip.requests@ =~= old(
                    self,
                ).bitwise_lookup_chip.requests@ + seq![
                    (data[0].value, data[1].value),
                    (data[2].value, data[3].value),
                ]
            }),
    {
        if streams.hint_stream.len() < RV32_REGISTER_NUM_LIMBS {
            return Err(ExecutionError::HintOutOfBounds { pc: from_pc });
        }
        let mut data: Vec<Felt> = Vec::new();
        let mut i: usize = 0;
        while i < RV32_REGISTER_NUM_LIMBS
            invariant
                0 <= i <= RV32_REGISTER_NUM_LIMBS,
                old(streams).hint_stream@.len() >= RV32_REGISTER_NUM_LIMBS,
                old(streams).wf(),
                streams.hint_stream@ =~= old(streams).hint_stream@.skip(i as int),
                streams.input_stream@ == old(streams).input_stream@,
                data@ =~= old(streams).hint_stream@.take(i as int),
            decreases RV32_REGISTER_NUM_LIMBS - i,
        {
            let value = match streams.hint_stream.pop_front() {
                Some(v) => v,
                None => {
                    proof {
                        assert(false);
                    }
                    Felt::zero()
                },
            };
            data.push(value);
            proof {
                assert(streams.hint_stream@ =~= old(streams).hint_stream@.skip(i + 1));
                assert(data@ =~= old(streams).hint_stream@.take(i + 1));
            }
            i += 1;
        }
        proof {
            assert forall|j: int| 0 <= j < streams.hint_stream@.len() implies (#[trigger] streams.hint_stream@[j]).valid() by {
                assert(streams.hint_stream@[j] == old(streams).hint_stream@[j
                    + RV32_REGISTER_NUM_LIMBS]);
            }
        }
        self.bitwise_lookup_chip.request_range(data[0].as_u32(), data[1].as_u32());
        self.bitwise_lookup_chip.request_range(data[2].as_u32(), data[3].as_u32());
        proof {
            assert(self.bitwise_lookup_chip.requests@ =~= old(self).bitwise_lookup_chip.requests@
                + seq![
                (data@[0].value, data@[1].value),
                (data@[2].value, data@[3].value),
            ]);
        }
        let write_data = crate::memory::copy_felt_vec(&data);
        let mut writes: Vec<Vec<Felt>> = Vec::new();
        writes.push(write_data);
        let ctx = AdapterRuntimeContext { to_pc: None, writes };
        Ok((ctx, Rv32HintStoreCoreRecord { data }))
    }

    /// Converts one execution record into the cells of one trace row.
    pub fn generate_trace_row(&self, record: Rv32HintStoreCoreRecord) -> (r: Rv32HintStoreCoreCols<
        Felt,
    >)
        requires
            record.data@.len() == RV32_REGISTER_NUM_LIMBS,
        ensures
            r.is_valid.value == 1,
            forall|i: int| 0 <= i < RV32_REGISTER_NUM_LIMBS ==> r.data@[i] == record.data@[i],
    {
        let data: [Felt; RV32_REGISTER_NUM_LIMBS] = [
            record.data[0],
            record.data[1],
            record.data[2],
            record.data[3],
        ];
        Rv32HintStoreCoreCols { is_valid: Felt::one(), data }
    }

    /// The diagnostic name of the one opcode this core executes.
    pub fn get_opcode_name(&self, opcode: usize) -> (r: String)
        requires
            opcode == self.air.offset,
        ensures
            r@ == "HINT_STOREW"@,
    {
        proof {
            reveal_strlit("HINT_STOREW");
        }
        "HINT_STOREW".to_string()
    }

    /// The constraint-side description of this core.
    pub fn air(&self) -> (r: &Rv32HintStoreCoreAir)
        ensures
            *r == self.air,
    {
        &self.air
    }
}

} // verus!
