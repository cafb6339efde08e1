//! Adapters: the opcode-class-independent plumbing around a core.
//!
//! An adapter reads the pointer operands out of registers, composes the
//! multi-limb register values into machine pointers, performs the heap
//! reads its opcode class needs, and after the core has computed, performs
//! the heap writes and advances the program counter and timestamp.

use vstd::prelude::*;

use crate::arch::{AdapterRuntimeContext, ExecutionState, Instruction, DEFAULT_PC_STEP};
use crate::field::Felt;
use crate::hintstore::RV32_REGISTER_NUM_LIMBS;
use crate::memory::{
    cell_spec, is_power_of_two, is_write_entry, window_spec, write_window_spec, Memory,
    MemoryLogEntry, RecordId,
};

verus! {

/// The address space registers live in.
pub const RV32_REGISTER_AS: u32 = 1;

/// The address space the heap lives in.
pub const RV32_MEMORY_AS: u32 = 2;

/// One logged batch read: where it read, the log handle, and the data.
#[derive(Clone, Debug)]
pub struct MemoryReadRecord {
    pub address_space: u32,
    pub pointer: u32,
    pub record_id: RecordId,
    pub data: Vec<Felt>,
}

/// One logged batch write: where it wrote, the log handle, the data
/// written and the previous contents.
#[derive(Clone, Debug)]
pub struct MemoryWriteRecord {
    pub address_space: u32,
    pub pointer: u32,
    pub record_id: RecordId,
    pub data: Vec<Felt>,
    pub prev_data: Vec<Felt>,
}

/// The machine integer a register window encodes: four 8-bit limbs,
/// little-endian, each taken modulo 256.
pub open spec fn register_value(s: Seq<Felt>, start: int) -> int {
    (s[start].value % 256) + 256 * (s[start + 1].value % 256) + 65536 * (s[start + 2].value % 256)
        + 16777216 * (s[start + 3].value % 256)
}

/// The register value stored at a pointer in a memory mapping.
pub open spec fn register_at(m: Map<u64, Felt>, pointer: int) -> int {
    register_value(window_spec(m, RV32_REGISTER_AS, pointer, RV32_REGISTER_NUM_LIMBS as nat), 0)
}

/// Composes four 8-bit limbs into the machine integer they encode.
pub fn compose_register(limbs: &Vec<Felt>) -> (r: u32)
    requires
        limbs@.len() == RV32_REGISTER_NUM_LIMBS,
    ensures
        r == register_value(limbs@, 0),
{
    let b0 = limbs[0].as_u32() % 256;
    let b1 = limbs[1].as_u32() % 256;
    let b2 = limbs[2].as_u32() % 256;
    let b3 = limbs[3].as_u32() % 256;
    b0 + 256 * b1 + 65536 * b2 + 16777216 * b3
}

/// The small power-of-two window lengths adapters use.
pub proof fn lemma_small_powers_of_two()
    ensures
        is_power_of_two(1),
        is_power_of_two(2),
        is_power_of_two(4),
        is_power_of_two(8),
        is_power_of_two(16),
        is_power_of_two(32),
        is_power_of_two(64),
{
    assert(is_power_of_two(1));
    assert(is_power_of_two(2));
    assert(is_power_of_two(4));
    assert(is_power_of_two(8));
    assert(is_power_of_two(16));
    assert(is_power_of_two(32));
    assert(is_power_of_two(64));
}

/// Reads one register out of the register address space, returning its
/// read record and the machine integer it encodes.
pub fn read_rv32_register(memory: &mut Memory, address_space: u32, pointer: u32) -> (r: (
    MemoryReadRecord,
    u32,
))
    requires
        old(memory).inv(),
        address_space == RV32_REGISTER_AS,
        pointer + RV32_REGISTER_NUM_LIMBS <= 0x1_0000_0000,
        old(memory).timestamp_spec() < 0xffff_ffff,
    ensures
        final(memory).inv(),
        final(memory).data_map() == old(memory).data_map(),
        final(memory).timestamp_spec() == old(memory).timestamp_spec() + 1,
        final(memory).log_seq().len() == old(memory).log_seq().len() + 1,
        r.0.data@ =~= window_spec(
            old(memory).data_map(),
            RV32_REGISTER_AS,
            pointer as int,
            RV32_REGISTER_NUM_LIMBS as nat,
        ),
        r.0.address_space == address_space,
        r.0.pointer == pointer,
        r.0.record_id == RecordId(old(memory).log_seq().len() as usize),
        final(memory).log_seq() =~= old(memory).log_seq().push(
            MemoryLogEntry::Read { address_space, pointer, len: RV32_REGISTER_NUM_LIMBS },
        ),
        r.1 == register_at(old(memory).data_map(), pointer as int),
{
    proof {
        lemma_small_powers_of_two();
    }
    let (record_id, data) = memory.read(address_space, pointer, RV32_REGISTER_NUM_LIMBS);
    let value = compose_register(&data);
    (MemoryReadRecord { address_space, pointer, record_id, data }, value)
}

/// Reads the machine integer a register encodes without logging an
/// access; used to validate pointers before a provable access is made.
pub fn peek_register(memory: &Memory, pointer: u32) -> (r: u32)
    requires
        memory.inv(),
        pointer + RV32_REGISTER_NUM_LIMBS <= 0x1_0000_0000,
    ensures
        r == register_at(memory.data_map(), pointer as int),
{
    let mut limbs: Vec<Felt> = Vec::new();
    limbs.push(memory.get(RV32_REGISTER_AS, pointer));
    limbs.push(memory.get(RV32_REGISTER_AS, pointer + 1));
    limbs.push(memory.get(RV32_REGISTER_AS, pointer + 2));
    limbs.push(memory.get(RV32_REGISTER_AS, pointer + 3));
    proof {
        assert(limbs@ =~= window_spec(
            memory.data_map(),
            RV32_REGISTER_AS,
            pointer as int,
            RV32_REGISTER_NUM_LIMBS as nat,
        ));
    }
    compose_register(&limbs)
}

/// The log entries `count` consecutive block reads of `size` cells
/// starting at `base` in address space `s` append, in order.
pub open spec fn block_read_log(s: u32, base: int, count: nat, size: nat) -> Seq<MemoryLogEntry> {
    Seq::new(
        count,
        |i: int|
            MemoryLogEntry::Read {
                address_space: s,
                pointer: (base + i * size) as u32,
                len: size as usize,
            },
    )
}

/// The contents of `count` consecutive blocks of `size` cells starting
/// at `base` in address space `s`.
pub open spec fn blocks_spec(m: Map<u64, Felt>, s: u32, base: int, count: nat, size: nat) -> Seq<
    Seq<Felt>,
> {
    Seq::new(count, |i: int| window_spec(m, s, base + i * size, size))
}

/// The mapping after writing consecutive blocks of `size` cells starting
/// at `base` in address space `s`.
pub open spec fn write_blocks_spec(
    m: Map<u64, Felt>,
    s: u32,
    base: int,
    blocks: Seq<Seq<Felt>>,
    size: nat,
) -> Map<u64, Felt>
    decreases blocks.len(),
{
    if blocks.len() == 0 {
        m
    } else {
        write_window_spec(
            write_blocks_spec(m, s, base, blocks.drop_last(), size),
            s,
            base + (blocks.len() - 1) * size,
            blocks.last(),
        )
    }
}

/// Reads `count` consecutive blocks of `size` cells from the heap.
fn read_blocks(memory: &mut Memory, address_space: u32, base: u32, count: usize, size: usize) -> (r:
    (Vec<MemoryReadRecord>, Vec<Vec<Felt>>))
    requires
        old(memory).inv(),
        address_space != 0,
        is_power_of_two(size as nat),
        base + count * size <= 0x1_0000_0000,
        old(memory).timestamp_spec() + count <= 0xffff_ffff,
        count <= 64,
        size <= 64,
    ensures
        final(memory).inv(),
        final(memory).data_map() == old(memory).data_map(),
        final(memory).timestamp_spec() == old(memory).timestamp_spec() + count,
        final(memory).log_seq() =~= old(memory).log_seq() + block_read_log(
            address_space,
            base as int,
            count as nat,
            size as nat,
        ),
        r.0@.len() == count,
        r.1@.len() == count,
        forall|i: int|
            0 <= i < count ==> (#[trigger] r.0@[i]).address_space == address_space
                && r.0@[i].pointer as int == base + i * size && r.0@[i].record_id == RecordId(
                (old(memory).log_seq().len() + i) as usize,
            ),
        forall|i: int|
            0 <= i < count ==> (#[trigger] r.1@[i])@ =~= window_spec(
                old(memory).data_map(),
                address_space,
                base + i * size,
                size as nat,
            ),
        forall|i: int|
            0 <= i < count ==> (#[trigger] r.0@[i]).data@ =~= window_spec(
                old(memory).data_map(),
                address_space,
                base + i * size,
                size as nat,
            ),
{
    let mut records: Vec<MemoryReadRecord> = Vec::new();
    let mut data: Vec<Vec<Felt>> = Vec::new();
    let mut i: usize = 0;
    while i < count
        invariant
            memory.inv(),
            memory.data_map() == old(memory).data_map(),
            address_space != 0,
            is_power_of_two(size as nat),
            base + count * size <= 0x1_0000_0000,
            old(memory).timestamp_spec() + count <= 0xffff_ffff,
            count <= 64,
            size <= 64,
            0 <= i <= count,
            memory.timestamp_spec() == old(memory).timestamp_spec() + i,
            memory.log_seq() =~= old(memory).log_seq() + block_read_log(
                address_space,
                base as int,
                i as nat,
                size as nat,
            ),
            records@.len() == i,
            data@.len() == i,
            forall|j: int|
                0 <= j < i ==> (#[trigger] records@[j]).address_space == address_space
                    && records@[j].pointer as int == base + j * size && records@[j].record_id
                    == RecordId((old(memory).log_seq().len() + j) as usize),
            forall|j: int|
                0 <= j < i ==> (#[trigger] data@[j])@ =~= window_spec(
                    old(memory).data_map(),
                    address_space,
                    base + j * size,
                    size as nat,
                ),
            forall|j: int|
                0 <= j < i ==> (#[trigger] records@[j]).data@ =~= window_spec(
                    old(memory).data_map(),
                    address_space,
                    base + j * size,
                    size as nat,
                ),
        decreases count - i,
    {
        proof {
            assert((i + 1) * size <= count * size && i * size <= count * size) by (nonlinear_arith)
                requires
                    0 <= i < count,
                    size >= 0;
            assert(i * size + size == (i + 1) * size) by (nonlinear_arith);
        }
        let pointer = base + (i * size) as u32;
        let (record_id, block) = memory.read(address_space, pointer, size);
        proof {
            assert(block_read_log(address_space, base as int, (i + 1) as nat, size as nat)
                =~= block_read_log(address_space, base as int, i as nat, size as nat).push(
                MemoryLogEntry::Read { address_space, pointer, len: size },
            ));
            assert(memory.log_seq() =~= old(memory).log_seq() + block_read_log(
                address_space,
                base as int,
                (i + 1) as nat,
                size as nat,
            ));
        }
        let block_copy = crate::memory::copy_felt_vec(&block);
        records.push(
            MemoryReadRecord { address_space, pointer, record_id, data: block_copy },
        );
        data.push(block);
        i += 1;
    }
    (records, data)
}

/// Writes consecutive blocks of `size` cells to the heap.
fn write_blocks(
    memory: &mut Memory,
    address_space: u32,
    base: u32,
    blocks: &Vec<Vec<Felt>>,
    size: usize,
) -> (r: Vec<MemoryWriteRecord>)
    requires
        old(memory).inv(),
        is_power_of_two(size as nat),
        base + blocks@.len() * size <= 0x1_0000_0000,
        old(memory).timestamp_spec() + blocks@.len() <= 0xffff_ffff,
        blocks@.len() <= 64,
        size <= 64,
        forall|i: int| 0 <= i < blocks@.len() ==> (#[trigger] blocks@[i])@.len() == size,
        forall|i: int, j: int|
            0 <= i < blocks@.len() && 0 <= j < size ==> (#[trigger] blocks@[i]@[j]).valid(),
    ensures
        final(memory).inv(),
        final(memory).data_map() == write_blocks_spec(
            old(memory).data_map(),
            address_space,
            base as int,
            Seq::new(blocks@.len() as nat, |i: int| blocks@[i]@),
            size as nat,
        ),
        final(memory).timestamp_spec() == old(memory).timestamp_spec() + blocks@.len(),
        final(memory).log_seq().len() == old(memory).log_seq().len() + blocks@.len(),
        final(memory).log_seq().take(old(memory).log_seq().len() as int) =~= old(memory).log_seq(),
        forall|i: int|
            0 <= i < blocks@.len() ==> is_write_entry(
                #[trigger] final(memory).log_seq()[old(memory).log_seq().len() + i],
                address_space,
                (base + i * size) as u32,
                blocks@[i]@,
            ),
        r@.len() == blocks@.len(),
        forall|i: int|
            0 <= i < blocks@.len() ==> (#[trigger] r@[i]).address_space == address_space
                && r@[i].pointer as int == base + i * size && r@[i].record_id == RecordId(
                (old(memory).log_seq().len() + i) as usize,
            ) && r@[i].data@ =~= blocks@[i]@ && r@[i].prev_data@ =~= window_spec(
                write_blocks_spec(
                    old(memory).data_map(),
                    address_space,
                    base as int,
                    Seq::new(blocks@.len() as nat, |j: int| blocks@[j]@).take(i),
                    size as nat,
                ),
                address_space,
                base + i * size,
                size as nat,
            ),
{
    let ghost views = Seq::new(blocks@.len() as nat, |i: int| blocks@[i]@);
    let count = blocks.len();
    let mut records: Vec<MemoryWriteRecord> = Vec::new();
    let mut i: usize = 0;
    while i < count
        invariant
            memory.inv(),
            is_power_of_two(size as nat),
            count == blocks@.len(),
            base + count * size <= 0x1_0000_0000,
            old(memory).timestamp_spec() + count <= 0xffff_ffff,
            count <= 64,
            size <= 64,
            forall|j: int| 0 <= j < count ==> (#[trigger] blocks@[j])@.len() == size,
            forall|j: int, l: int|
                0 <= j < count && 0 <= l < size ==> (#[trigger] blocks@[j]@[l]).valid(),
            views == Seq::new(blocks@.len() as nat, |j: int| blocks@[j]@),
            0 <= i <= count,
            memory.timestamp_spec() == old(memory).timestamp_spec() + i,
            memory.log_seq().len() == old(memory).log_seq().len() + i,
            memory.log_seq().take(old(memory).log_seq().len() as int) =~= old(memory).log_seq(),
            forall|j: int|
                0 <= j < i ==> is_write_entry(
                    #[trigger] memory.log_seq()[old(memory).log_seq().len() + j],
                    address_space,
                    (base + j * size) as u32,
                    views[j],
                ),
            records@.len() == i,
            forall|j: int|
                0 <= j < i ==> (#[trigger] records@[j]).address_space == address_space
                    && records@[j].pointer as int == base + j * size && records@[j].record_id
                    == RecordId((old(memory).log_seq().len() + j) as usize) && records@[j].data@
                    =~= views[j] && records@[j].prev_data@ =~= window_spec(
                    write_blocks_spec(
                        old(memory).data_map(),
                        address_space,
                        base as int,
                        views.take(j),
                        size as nat,
                    ),
                    address_space,
                    base + j * size,
                    size as nat,
                ),
            memory.data_map() == write_blocks_spec(
                old(memory).data_map(),
                address_space,
                base as int,
                views.take(i as int),
                size as nat,
            ),
        decreases count - i,
    {
        proof {
            assert((i + 1) * size <= count * size && i * size <= count * size) by (nonlinear_arith)
                requires
                    0 <= i < count,
                    size >= 0;
            assert(i * size + size == (i + 1) * size) by (nonlinear_arith);
        }
        let pointer = base + (i * size) as u32;
        let ghost log_before = memory.log_seq();
        let (record_id, prev_data) = memory.write(address_space, pointer, &blocks[i]);
        records.push(
            MemoryWriteRecord {
                address_space,
                pointer,
                record_id,
                data: crate::memory::copy_felt_vec(&blocks[i]),
                prev_data,
            },
        );
        proof {
            assert(views.take(i + 1).drop_last() =~= views.take(i as int));
            assert(views.take(i + 1).last() == blocks@[i as int]@);
            // the new log keeps every earlier entry and appends this write
            assert forall|k: int| 0 <= k < log_before.len() implies memory.log_seq()[k]
                == log_before[k] by {
                assert(memory.log_seq().drop_last()[k] == log_before[k]);
            }
            assert(memory.log_seq().take(old(memory).log_seq().len() as int) =~= old(
                memory,
            ).log_seq());
            assert(memory.log_seq().last() == memory.log_seq()[old(memory).log_seq().len()
                + i as int]);
            assert(pointer as int == base + i * size);
            assert(is_write_entry(
                memory.log_seq()[old(memory).log_seq().len() + i as int],
                address_space,
                (base + i * size) as u32,
                views[i as int],
            ));
            assert forall|j: int| 0 <= j < i + 1 implies is_write_entry(
                #[trigger] memory.log_seq()[old(memory).log_seq().len() + j],
                address_space,
                (base + j * size) as u32,
                views[j],
            ) by {
                if j < i {
                    assert(memory.log_seq()[old(memory).log_seq().len() + j] == log_before[old(
                        memory,
                    ).log_seq().len() + j]);
                }
            }
        }
        i += 1;
    }
    proof {
        assert(views.take(count as int) =~= views);
    }
    records
}

/// The bus over which execution state transitions are communicated.
#[derive(Clone, Copy, Debug, PartialEq, Eq, Structural)]
pub struct ExecutionBus(pub usize);

/// The bus over which fetched instructions are communicated.
#[derive(Clone, Copy, Debug, PartialEq, Eq, Structural)]
pub struct ProgramBus(pub usize);

/// The bus over which memory accesses are communicated.
#[derive(Clone, Copy, Debug, PartialEq, Eq, Structural)]
pub struct MemoryBridge(pub usize);

/// The pair of buses an adapter interacts with the executor over.
#[derive(Clone, Copy, Debug, PartialEq, Eq, Structural)]
pub struct ExecutionBridge {
    pub execution_bus: ExecutionBus,
    pub program_bus: ProgramBus,
}

impl ExecutionBridge {
    pub fn new(execution_bus: ExecutionBus, program_bus: ProgramBus) -> (r: ExecutionBridge)
        ensures
            r == (ExecutionBridge { execution_bus, program_bus }),
    {
        ExecutionBridge { execution_bus, program_bus }
    }
}

/// The constraint-side description of the vector-heap adapter.
#[derive(Clone, Copy, Debug, PartialEq, Eq, Structural)]
pub struct Rv32VecHeapAdapterAir {
    pub execution_bridge: ExecutionBridge,
    pub memory_bridge: MemoryBridge,
    /// The maximum number of bits of a heap pointer.
    pub address_bits: usize,
}

/// The trace-row layout of the vector-heap adapter.
#[derive(Clone, Debug)]
pub struct Rv32VecHeapAdapterCols<T> {
    pub from_state: ExecutionState,
    pub rd_ptr: T,
    pub rs1_ptr: T,
    pub rs2_ptr: T,
    pub rd_val: Vec<T>,
    pub rs1_val: Vec<T>,
    pub rs2_val: Vec<T>,
}

impl<T> Rv32VecHeapAdapterCols<T> {
    /// The number of trace cells such a row occupies: the execution
    /// state, three register pointers and three register values.
    pub fn width() -> (r: usize)
        ensures
            r == 2 + 3 + 3 * RV32_REGISTER_NUM_LIMBS,
    {
        2 + 3 + 3 * RV32_REGISTER_NUM_LIMBS
    }
}

/// The shape of the data a vector-heap adapter exchanges with its core:
/// two pointers' worth of block reads in, one pointer's worth of block
/// writes out.
#[derive(Debug)]
pub struct Rv32VecHeapAdapterInterface<T> {
    pub marker: core::marker::PhantomData<T>,
}

/// What the vector-heap adapter's read phase leaves behind.
#[derive(Clone, Debug)]
pub struct Rv32VecHeapReadRecord {
    /// Register reads from the register address space.
    pub rs1: MemoryReadRecord,
    pub rs2: MemoryReadRecord,
    pub rd: MemoryReadRecord,
    pub rd_val: Felt,
    pub reads1: Vec<MemoryReadRecord>,
    pub reads2: Vec<MemoryReadRecord>,
}

/// What the vector-heap adapter's write phase leaves behind.
#[derive(Clone, Debug)]
pub struct Rv32VecHeapWriteRecord {
    pub from_state: ExecutionState,
    pub writes: Vec<MemoryWriteRecord>,
}

/// The adapter for opcode classes that read `num_reads` blocks through
/// each of two register pointers and write `num_writes` blocks through a
/// third. Registers live in address space 1, the heap in address space 2.
#[derive(Clone, Copy, Debug, PartialEq, Eq, Structural)]
pub struct Rv32VecHeapAdapterChip {
    pub air: Rv32VecHeapAdapterAir,
    pub num_reads: usize,
    pub num_writes: usize,
    pub read_size: usize,
    pub write_size: usize,
}

impl Rv32VecHeapAdapterChip {
    /// The adapter's static shape is sensible: power-of-two block sizes,
    /// a few blocks per access, and pointers bounded well inside the
    /// address space.
    pub open spec fn wf(&self) -> bool {
        &&& is_power_of_two(self.read_size as nat)
        &&& is_power_of_two(self.write_size as nat)
        &&& 0 < self.num_reads <= 64
        &&& 0 < self.num_writes <= 64
        &&& self.read_size <= 64
        &&& self.write_size <= 64
        &&& self.air.address_bits <= 29
    }

    pub fn new(
        execution_bus: ExecutionBus,
        program_bus: ProgramBus,
        memory_bridge: MemoryBridge,
        address_bits: usize,
        num_reads: usize,
        num_writes: usize,
        read_size: usize,
        write_size: usize,
    ) -> (r: Rv32VecHeapAdapterChip)
        ensures
            r.air == (Rv32VecHeapAdapterAir {
                execution_bridge: ExecutionBridge { execution_bus, program_bus },
                memory_bridge,
                address_bits,
            }),
            r.num_reads == num_reads,
            r.num_writes == num_writes,
            r.read_size == read_size,
            r.write_size == write_size,
    {
        Rv32VecHeapAdapterChip {
            air: Rv32VecHeapAdapterAir {
                execution_bridge: ExecutionBridge::new(execution_bus, program_bus),
                memory_bridge,
                address_bits,
            },
            num_reads,
            num_writes,
            read_size,
            write_size,
        }
    }

    /// The read phase: fetches the three pointer registers named by the
    /// instruction's operands, then reads `num_reads` consecutive blocks
    /// through each of the two source pointers. The heap pointers must
    /// have been validated against the address-bit budget first.
    pub fn preprocess(&mut self, memory: &mut Memory, instruction: &Instruction) -> (r: (
        Vec<Vec<Vec<Felt>>>,
        Rv32VecHeapReadRecord,
    ))
        requires
            old(self).wf(),
            old(memory).inv(),
            instruction.wf(),
            instruction.d.value == RV32_REGISTER_AS,
            instruction.e.value == RV32_MEMORY_AS,
            register_at(old(memory).data_map(), instruction.b.value as int) + old(self).num_reads
                * old(self).read_size <= 0x1_0000_0000,
            register_at(old(memory).data_map(), instruction.c.value as int) + old(self).num_reads
                * old(self).read_size <= 0x1_0000_0000,
            old(memory).timestamp_spec() + 3 + 2 * old(self).num_reads <= 0xffff_ffff,
        ensures
            *final(self) == *old(self),
            final(memory).inv(),
            final(memory).data_map() == old(memory).data_map(),
            final(memory).timestamp_spec() == old(memory).timestamp_spec() + 3 + 2 * old(
                self,
            ).num_reads,
            final(memory).log_seq().len() == old(memory).log_seq().len() + 3 + 2 * old(
                self,
            ).num_reads,
            ({
                let m = old(memory).data_map();
                let rs1 = register_at(m, instruction.b.value as int);
                let rs2 = register_at(m, instruction.c.value as int);
                let rd = register_at(m, instruction.a.value as int);
                &&& r.0@.len() == 2
                &&& r.0@[0]@.len() == old(self).num_reads
                &&& r.0@[1]@.len() == old(self).num_reads
                &&& forall|i: int|
                    0 <= i < old(self).num_reads ==> (#[trigger] r.0@[0]@[i])@ =~= window_spec(
                        m,
                        RV32_MEMORY_AS,
                        rs1 + i * old(self).read_size,
                        old(self).read_size as nat,
                    )
                &&& forall|i: int|
                    0 <= i < old(self).num_reads ==> (#[trigger] r.0@[1]@[i])@ =~= window_spec(
                        m,
                        RV32_MEMORY_AS,
                        rs2 + i * old(self).read_size,
                        old(self).read_size as nat,
                    )
                &&& r.1.rd_val.value == rd % (crate::field::MODULUS as int)
                &&& final(memory).log_seq() =~= old(memory).log_seq() + seq![
                    MemoryLogEntry::Read {
                        address_space: RV32_REGISTER_AS,
                        pointer: instruction.b.value,
                        len: RV32_REGISTER_NUM_LIMBS,
                    },
                    MemoryLogEntry::Read {
                        address_space: RV32_REGISTER_AS,
                        pointer: instruction.c.value,
                        len: RV32_REGISTER_NUM_LIMBS,
                    },
                    MemoryLogEntry::Read {
                        address_space: RV32_REGISTER_AS,
                        pointer: instruction.a.value,
                        len: RV32_REGISTER_NUM_LIMBS,
                    },
                ] + block_read_log(
                    RV32_MEMORY_AS,
                    rs1,
                    old(self).num_reads as nat,
                    old(self).read_size as nat,
                ) + block_read_log(
                    RV32_MEMORY_AS,
                    rs2,
                    old(self).num_reads as nat,
                    old(self).read_size as nat,
                )
                &&& r.1.rs1.address_space == RV32_REGISTER_AS
                &&& r.1.rs1.pointer == instruction.b.value
                &&& r.1.rs1.record_id == RecordId(old(memory).log_seq().len() as usize)
                &&& r.1.rs1.data@ =~= window_spec(
                    m,
                    RV32_REGISTER_AS,
                    instruction.b.value as int,
                    RV32_REGISTER_NUM_LIMBS as nat,
                )
                &&& r.1.rs2.address_space == RV32_REGISTER_AS
                &&& r.1.rs2.pointer == instruction.c.value
                &&& r.1.rs2.record_id == RecordId((old(memory).log_seq().len() + 1) as usize)
                &&& r.1.rs2.data@ =~= window_spec(
                    m,
                    RV32_REGISTER_AS,
                    instruction.c.value as int,
                    RV32_REGISTER_NUM_LIMBS as nat,
                )
                &&& r.1.rd.address_space == RV32_REGISTER_AS
                &&& r.1.rd.pointer == instruction.a.value
                &&& r.1.rd.record_id == RecordId((old(memory).log_seq().len() + 2) as usize)
                &&& r.1.rd.data@ =~= window_spec(
                    m,
                    RV32_REGISTER_AS,
                    instruction.a.value as int,
                    RV32_REGISTER_NUM_LIMBS as nat,
                )
                &&& r.1.reads1@.len() == old(self).num_reads
                &&& r.1.reads2@.len() == old(self).num_reads
                &&& forall|i: int|
                    0 <= i < old(self).num_reads ==> (#[trigger] r.1.reads1@[i]).address_space
                        == RV32_MEMORY_AS && r.1.reads1@[i].pointer as int == rs1 + i * old(
                        self,
                    ).read_size && r.1.reads1@[i].record_id == RecordId(
                        (old(memory).log_seq().len() + 3 + i) as usize,
                    ) && r.1.reads1@[i].data@ =~= window_spec(
                        m,
                        RV32_MEMORY_AS,
                        rs1 + i * old(self).read_size,
                        old(self).read_size as nat,
                    )
                &&& forall|i: int|
                    0 <= i < old(self).num_reads ==> (#[trigger] r.1.reads2@[i]).address_space
                        == RV32_MEMORY_AS && r.1.reads2@[i].pointer as int == rs2 + i * old(
                        self,
                    ).read_size && r.1.reads2@[i].record_id == RecordId(
                        (old(memory).log_seq().len() + 3 + old(self).num_reads + i) as usize,
                    ) && r.1.reads2@[i].data@ =~= window_spec(
                        m,
                        RV32_MEMORY_AS,
                        rs2 + i * old(self).read_size,
                        old(self).read_size as nat,
                    )
            }),
    {
        let b = instruction.b.as_u32();
        let c = instruction.c.as_u32();
        let a = instruction.a.as_u32();
        let d = RV32_REGISTER_AS;
        let (rs1_record, rs1_val) = read_rv32_register(memory, d, b);
        let (rs2_record, rs2_val) = read_rv32_register(memory, d, c);
        let (rd_record, rd_val) = read_rv32_register(memory, d, a);
        let (reads1_records, reads1) = read_blocks(
            memory,
            RV32_MEMORY_AS,
            rs1_val,
            self.num_reads,
            self.read_size,
        );
        let (reads2_records, reads2) = read_blocks(
            memory,
            RV32_MEMORY_AS,
            rs2_val,
            self.num_reads,
            self.read_size,
        );
        proof {
            assert(memory.log_seq() =~= old(memory).log_seq() + seq![
                MemoryLogEntry::Read {
                    address_space: RV32_REGISTER_AS,
                    pointer: instruction.b.value,
                    len: RV32_REGISTER_NUM_LIMBS,
                },
                MemoryLogEntry::Read {
                    address_space: RV32_REGISTER_AS,
                    pointer: instruction.c.value,
                    len: RV32_REGISTER_NUM_LIMBS,
                },
                MemoryLogEntry::Read {
                    address_space: RV32_REGISTER_AS,
                    pointer: instruction.a.value,
                    len: RV32_REGISTER_NUM_LIMBS,
                },
            ] + block_read_log(
                RV32_MEMORY_AS,
                rs1_val as int,
                self.num_reads as nat,
                self.read_size as nat,
            ) + block_read_log(
                RV32_MEMORY_AS,
                rs2_val as int,
                self.num_reads as nat,
                self.read_size as nat,
            ));
        }
        let record = Rv32VecHeapReadRecord {
            rs1: rs1_record,
            rs2: rs2_record,
            rd: rd_record,
            rd_val: Felt::from_u32(rd_val),
            reads1: reads1_records,
            reads2: reads2_records,
        };
        let mut reads: Vec<Vec<Vec<Felt>>> = Vec::new();
        reads.push(reads1);
        reads.push(reads2);
        (reads, record)
    }

    /// The write phase: writes the core's output blocks through the
    /// destination pointer, then advances the program counter by one
    /// instruction and reports the new timestamp. The destination pointer
    /// must have been validated against the address-bit budget first.
    pub fn postprocess(
        &mut self,
        memory: &mut Memory,
        instruction: &Instruction,
        from_state: ExecutionState,
        output: AdapterRuntimeContext,
        read_record: &Rv32VecHeapReadRecord,
    ) -> (r: (ExecutionState, Rv32VecHeapWriteRecord))
        requires
            old(self).wf(),
            old(memory).inv(),
            instruction.e.value == RV32_MEMORY_AS,
            read_record.rd_val.valid(),
            read_record.rd_val.value + old(self).num_writes * old(self).write_size
                <= 0x1_0000_0000,
            output.writes@.len() == old(self).num_writes,
            forall|i: int|
                0 <= i < output.writes@.len() ==> (#[trigger] output.writes@[i])@.len() == old(
                    self,
                ).write_size,
            forall|i: int, j: int|
                0 <= i < output.writes@.len() && 0 <= j < old(self).write_size ==> (
                #[trigger] output.writes@[i]@[j]).valid(),
            old(memory).timestamp_spec() + old(self).num_writes <= 0xffff_ffff,
            from_state.pc + DEFAULT_PC_STEP <= 0xffff_ffff,
        ensures
            *final(self) == *old(self),
            final(memory).inv(),
            final(memory).data_map() == write_blocks_spec(
                old(memory).data_map(),
                RV32_MEMORY_AS,
                read_record.rd_val.value as int,
                Seq::new(output.writes@.len() as nat, |i: int| output.writes@[i]@),
                old(self).write_size as nat,
            ),
            final(memory).timestamp_spec() == old(memory).timestamp_spec() + old(self).num_writes,
            final(memory).log_seq().len() == old(memory).log_seq().len() + old(self).num_writes,
            r.0.pc == from_state.pc + DEFAULT_PC_STEP,
            r.0.timestamp == final(memory).timestamp_spec(),
            r.1.from_state == from_state,
            r.1.writes@.len() == old(self).num_writes,
            final(memory).log_seq().take(old(memory).log_seq().len() as int) =~= old(
                memory,
            ).log_seq(),
            forall|i: int|
                0 <= i < old(self).num_writes ==> is_write_entry(
                    #[trigger] final(memory).log_seq()[old(memory).log_seq().len() + i],
                    RV32_MEMORY_AS,
                    (read_record.rd_val.value + i * old(self).write_size) as u32,
                    output.writes@[i]@,
                ),
            forall|i: int|
                0 <= i < old(self).num_writes ==> (#[trigger] r.1.writes@[i]).address_space
                    == RV32_MEMORY_AS && r.1.writes@[i].pointer as int == read_record.rd_val.value
                    + i * old(self).write_size && r.1.writes@[i].record_id == RecordId(
                    (old(memory).log_seq().len() + i) as usize,
                ) && r.1.writes@[i].data@ =~= output.writes@[i]@,
    {
        let records = write_blocks(
            memory,
            RV32_MEMORY_AS,
            read_record.rd_val.as_u32(),
            &output.writes,
            self.write_size,
        );
        let new_state = ExecutionState {
            pc: from_state.pc + DEFAULT_PC_STEP,
            timestamp: memory.timestamp(),
        };
        (new_state, Rv32VecHeapWriteRecord { from_state, writes: records })
    }

    /// Converts the records of one dispatch into the cells of one trace
    /// row: the execution state, the three register pointers and the
    /// register values they held.
    pub fn generate_trace_row(
        &self,
        read_record: &Rv32VecHeapReadRecord,
        write_record: &Rv32VecHeapWriteRecord,
    ) -> (r: Rv32VecHeapAdapterCols<Felt>)
        ensures
            r.from_state == write_record.from_state,
            r.rd_ptr.value == read_record.rd.pointer % crate::field::MODULUS,
            r.rs1_ptr.value == read_record.rs1.pointer % crate::field::MODULUS,
            r.rs2_ptr.value == read_record.rs2.pointer % crate::field::MODULUS,
            r.rd_val@ == read_record.rd.data@,
            r.rs1_val@ == read_record.rs1.data@,
            r.rs2_val@ == read_record.rs2.data@,
    {
        Rv32VecHeapAdapterCols {
            from_state: write_record.from_state,
            rd_ptr: Felt::from_u32(read_record.rd.pointer),
            rs1_ptr: Felt::from_u32(read_record.rs1.pointer),
            rs2_ptr: Felt::from_u32(read_record.rs2.pointer),
            rd_val: crate::memory::copy_felt_vec(&read_record.rd.data),
            rs1_val: crate::memory::copy_felt_vec(&read_record.rs1.data),
            rs2_val: crate::memory::copy_felt_vec(&read_record.rs2.data),
        }
    }

    /// The constraint-side description of this adapter.
    pub fn air(&self) -> (r: &Rv32VecHeapAdapterAir)
        ensures
            *r == self.air,
    {
        &self.air
    }
}

/// The constraint-side description of the two-pointer, distinct-block-
/// count variant of the vector-heap adapter.
#[derive(Clone, Copy, Debug, PartialEq, Eq, Structural)]
pub struct Rv32VecHeapTwoReadsAdapterAir {
    pub execution_bridge: ExecutionBridge,
    pub memory_bridge: MemoryBridge,
    pub address_bits: usize,
}

/// The trace-row layout of the two-reads vector-heap adapter.
#[derive(Clone, Debug)]
pub struct Rv32VecHeapTwoReadsAdapterCols<T> {
    pub from_state: ExecutionState,
    pub rs1_ptr: T,
    pub rs2_ptr: T,
    pub rd_ptr: T,
    pub rs1_val: Vec<T>,
    pub rs2_val: Vec<T>,
    pub rd_val: Vec<T>,
}

impl<T> Rv32VecHeapTwoReadsAdapterCols<T> {
    /// The number of trace cells such a row occupies.
    pub fn width() -> (r: usize)
        ensures
            r == 2 + 3 + 3 * RV32_REGISTER_NUM_LIMBS,
    {
        2 + 3 + 3 * RV32_REGISTER_NUM_LIMBS
    }
}

/// What the two-reads adapter's read phase leaves behind.
#[derive(Clone, Debug)]
pub struct Rv32VecHeapTwoReadsReadRecord {
    pub rs1: MemoryReadRecord,
    pub rs2: MemoryReadRecord,
    pub rd: MemoryReadRecord,
    pub rd_val: Felt,
    pub reads1: Vec<MemoryReadRecord>,
    pub reads2: Vec<MemoryReadRecord>,
}

/// What the two-reads adapter's write phase leaves behind.
#[derive(Clone, Debug)]
pub struct Rv32VecHeapTwoReadsWriteRecord {
    pub from_state: ExecutionState,
    pub writes: Vec<MemoryWriteRecord>,
}

/// Like the vector-heap adapter, except that the two source pointers may
/// read different numbers of blocks.
#[derive(Clone, Copy, Debug, PartialEq, Eq, Structural)]
pub struct Rv32VecHeapTwoReadsAdapterChip {
    pub air: Rv32VecHeapTwoReadsAdapterAir,
    pub blocks_per_read1: usize,
    pub blocks_per_read2: usize,
    pub blocks_per_write: usize,
    pub read_size: usize,
    pub write_size: usize,
}

impl Rv32VecHeapTwoReadsAdapterChip {
    /// The adapter's static shape is sensible.
    pub open spec fn wf(&self) -> bool {
        &&& is_power_of_two(self.read_size as nat)
        &&& is_power_of_two(self.write_size as nat)
        &&& 0 < self.blocks_per_read1 <= 64
        &&& 0 < self.blocks_per_read2 <= 64
        &&& 0 < self.blocks_per_write <= 64
        &&& self.read_size <= 64
        &&& self.write_size <= 64
        &&& self.air.address_bits <= 29
    }

    pub fn new(
        execution_bus: ExecutionBus,
        program_bus: ProgramBus,
        memory_bridge: MemoryBridge,
        address_bits: usize,
        blocks_per_read1: usize,
        blocks_per_read2: usize,
        blocks_per_write: usize,
        read_size: usize,
        write_size: usize,
    ) -> (r: Rv32VecHeapTwoReadsAdapterChip)
        ensures
            r.air == (Rv32VecHeapTwoReadsAdapterAir {
                execution_bridge: ExecutionBridge { execution_bus, program_bus },
                memory_bridge,
                address_bits,
            }),
            r.blocks_per_read1 == blocks_per_read1,
            r.blocks_per_read2 == blocks_per_read2,
            r.blocks_per_write == blocks_per_write,
            r.read_size == read_size,
            r.write_size == write_size,
    {
        Rv32VecHeapTwoReadsAdapterChip {
            air: Rv32VecHeapTwoReadsAdapterAir {
                execution_bridge: ExecutionBridge::new(execution_bus, program_bus),
                memory_bridge,
                address_bits,
            },
            blocks_per_read1,
            blocks_per_read2,
            blocks_per_write,
            read_size,
            write_size,
        }
    }

    /// The read phase, with each source pointer reading its own number
    /// of blocks.
    pub fn preprocess(&mut self, memory: &mut Memory, instruction: &Instruction) -> (r: (
        (Vec<Vec<Felt>>, Vec<Vec<Felt>>),
        Rv32VecHeapTwoReadsReadRecord,
    ))
        requires
            old(self).wf(),
            old(memory).inv(),
            instruction.wf(),
            instruction.d.value == RV32_REGISTER_AS,
            instruction.e.value == RV32_MEMORY_AS,
            register_at(old(memory).data_map(), instruction.b.value as int) + old(
                self,
            ).blocks_per_read1 * old(self).read_size <= 0x1_0000_0000,
            register_at(old(memory).data_map(), instruction.c.value as int) + old(
                self,
            ).blocks_per_read2 * old(self).read_size <= 0x1_0000_0000,
            old(memory).timestamp_spec() + 3 + old(self).blocks_per_read1 + old(
                self,
            ).blocks_per_read2 <= 0xffff_ffff,
        ensures
            *final(self) == *old(self),
            final(memory).inv(),
            final(memory).data_map() == old(memory).data_map(),
            final(memory).timestamp_spec() == old(memory).timestamp_spec() + 3 + old(
                self,
            ).blocks_per_read1 + old(self).blocks_per_read2,
            ({
                let m = old(memory).data_map();
                let rs1 = register_at(m, instruction.b.value as int);
                let rs2 = register_at(m, instruction.c.value as int);
                let rd = register_at(m, instruction.a.value as int);
                &&& r.0.0@.len() == old(self).blocks_per_read1
                &&& r.0.1@.len() == old(self).blocks_per_read2
                &&& forall|i: int|
                    0 <= i < old(self).blocks_per_read1 ==> (#[trigger] r.0.0@[i])@ =~= window_spec(
                        m,
                        RV32_MEMORY_AS,
                        rs1 + i * old(self).read_size,
                        old(self).read_size as nat,
                    )
                &&& forall|i: int|
                    0 <= i < old(self).blocks_per_read2 ==> (#[trigger] r.0.1@[i])@ =~= window_spec(
                        m,
                        RV32_MEMORY_AS,
                        rs2 + i * old(self).read_size,
                        old(self).read_size as nat,
                    )
                &&& r.1.rd_val.value == rd % (crate::field::MODULUS as int)
                &&& final(memory).log_seq() =~= old(memory).log_seq() + seq![
                    MemoryLogEntry::Read {
                        address_space: RV32_REGISTER_AS,
                        pointer: instruction.b.value,
                        len: RV32_REGISTER_NUM_LIMBS,
                    },
                    MemoryLogEntry::Read {
                        address_space: RV32_REGISTER_AS,
                        pointer: instruction.c.value,
                        len: RV32_REGISTER_NUM_LIMBS,
                    },
                    MemoryLogEntry::Read {
                        address_space: RV32_REGISTER_AS,
                        pointer: instruction.a.value,
                        len: RV32_REGISTER_NUM_LIMBS,
                    },
                ] + block_read_log(
                    RV32_MEMORY_AS,
                    rs1,
                    old(self).blocks_per_read1 as nat,
                    old(self).read_size as nat,
                ) + block_read_log(
                    RV32_MEMORY_AS,
                    rs2,
                    old(self).blocks_per_read2 as nat,
                    old(self).read_size as nat,
                )
                &&& r.1.rs1.address_space == RV32_REGISTER_AS
                &&& r.1.rs1.pointer == instruction.b.value
                &&& r.1.rs1.record_id == RecordId(old(memory).log_seq().len() as usize)
                &&& r.1.rs1.data@ =~= window_spec(
                    m,
                    RV32_REGISTER_AS,
                    instruction.b.value as int,
                    RV32_REGISTER_NUM_LIMBS as nat,
                )
                &&& r.1.rs2.address_space == RV32_REGISTER_AS
                &&& r.1.rs2.pointer == instruction.c.value
                &&& r.1.rs2.record_id == RecordId((old(memory).log_seq().len() + 1) as usize)
                &&& r.1.rs2.data@ =~= window_spec(
                    m,
                    RV32_REGISTER_AS,
                    instruction.c.value as int,
                    RV32_REGISTER_NUM_LIMBS as nat,
                )
                &&& r.1.rd.address_space == RV32_REGISTER_AS
                &&& r.1.rd.pointer == instruction.a.value
                &&& r.1.rd.record_id == RecordId((old(memory).log_seq().len() + 2) as usize)
                &&& r.1.rd.data@ =~= window_spec(
                    m,
                    RV32_REGISTER_AS,
                    instruction.a.value as int,
                    RV32_REGISTER_NUM_LIMBS as nat,
                )
                &&& r.1.reads1@.len() == old(self).blocks_per_read1
                &&& r.1.reads2@.len() == old(self).blocks_per_read2
                &&& forall|i: int|
                    0 <= i < old(self).blocks_per_read1 ==> (#[trigger] r.1.reads1@[i]).address_space
                        == RV32_MEMORY_AS && r.1.reads1@[i].pointer as int == rs1 + i * old(
                        self,
                    ).read_size && r.1.reads1@[i].record_id == RecordId(
                        (old(memory).log_seq().len() + 3 + i) as usize,
                    ) && r.1.reads1@[i].data@ =~= window_spec(
                        m,
                        RV32_MEMORY_AS,
                        rs1 + i * old(self).read_size,
                        old(self).read_size as nat,
                    )
                &&& forall|i: int|
                    0 <= i < old(self).blocks_per_read2 ==> (#[trigger] r.1.reads2@[i]).address_space
                        == RV32_MEMORY_AS && r.1.reads2@[i].pointer as int == rs2 + i * old(
                        self,
                    ).read_size && r.1.reads2@[i].record_id == RecordId(
                        (old(memory).log_seq().len() + 3 + old(self).blocks_per_read1 + i) as usize,
                    ) && r.1.reads2@[i].data@ =~= window_spec(
                        m,
                        RV32_MEMORY_AS,
                        rs2 + i * old(self).read_size,
                        old(self).read_size as nat,
                    )
            }),
    {
        let b = instruction.b.as_u32();
        let c = instruction.c.as_u32();
        let a = instruction.a.as_u32();
        let d = RV32_REGISTER_AS;
        let (rs1_record, rs1_val) = read_rv32_register(memory, d, b);
        let (rs2_record, rs2_val) = read_rv32_register(memory, d, c);
        let (rd_record, rd_val) = read_rv32_register(memory, d, a);
        let (reads1_records, reads1) = read_blocks(
            memory,
            RV32_MEMORY_AS,
            rs1_val,
            self.blocks_per_read1,
            self.read_size,
        );
        let (reads2_records, reads2) = read_blocks(
            memory,
            RV32_MEMORY_AS,
            rs2_val,
            self.blocks_per_read2,
            self.read_size,
        );
        proof {
            assert(memory.log_seq() =~= old(memory).log_seq() + seq![
                MemoryLogEntry::Read {
                    address_space: RV32_REGISTER_AS,
                    pointer: instruction.b.value,
                    len: RV32_REGISTER_NUM_LIMBS,
                },
                MemoryLogEntry::Read {
                    address_space: RV32_REGISTER_AS,
                    pointer: instruction.c.value,
                    len: RV32_REGISTER_NUM_LIMBS,
                },
                MemoryLogEntry::Read {
                    address_space: RV32_REGISTER_AS,
                    pointer: instruction.a.value,
                    len: RV32_REGISTER_NUM_LIMBS,
                },
            ] + block_read_log(
                RV32_MEMORY_AS,
                rs1_val as int,
                self.blocks_per_read1 as nat,
                self.read_size as nat,
            ) + block_read_log(
                RV32_MEMORY_AS,
                rs2_val as int,
                self.blocks_per_read2 as nat,
                self.read_size as nat,
            ));
        }
        let record = Rv32VecHeapTwoReadsReadRecord {
            rs1: rs1_record,
            rs2: rs2_record,
            rd: rd_record,
            rd_val: Felt::from_u32(rd_val),
            reads1: reads1_records,
            reads2: reads2_records,
        };
        ((reads1, reads2), record)
    }

    /// The write phase: writes the core's output blocks through the
    /// destination pointer and advances the program counter.
    pub fn postprocess(
        &mut self,
        memory: &mut Memory,
        instruction: &Instruction,
        from_state: ExecutionState,
        output: AdapterRuntimeContext,
        read_record: &Rv32VecHeapTwoReadsReadRecord,
    ) -> (r: (ExecutionState, Rv32VecHeapTwoReadsWriteRecord))
        requires
            old(self).wf(),
            old(memory).inv(),
            instruction.e.value == RV32_MEMORY_AS,
            read_record.rd_val.valid(),
            read_record.rd_val.value + old(self).blocks_per_write * old(self).write_size
                <= 0x1_0000_0000,
            output.writes@.len() == old(self).blocks_per_write,
            forall|i: int|
                0 <= i < output.writes@.len() ==> (#[trigger] output.writes@[i])@.len() == old(
                    self,
                ).write_size,
            forall|i: int, j: int|
                0 <= i < output.writes@.len() && 0 <= j < old(self).write_size ==> (
                #[trigger] output.writes@[i]@[j]).valid(),
            old(memory).timestamp_spec() + old(self).blocks_per_write <= 0xffff_ffff,
            from_state.pc + DEFAULT_PC_STEP <= 0xffff_ffff,
        ensures
            *final(self) == *old(self),
            final(memory).inv(),
            final(memory).data_map() == write_blocks_spec(
                old(memory).data_map(),
                RV32_MEMORY_AS,
                read_record.rd_val.value as int,
                Seq::new(output.writes@.len() as nat, |i: int| output.writes@[i]@),
                old(self).write_size as nat,
            ),
            final(memory).timestamp_spec() == old(memory).timestamp_spec() + old(
                self,
            ).blocks_per_write,
            r.0.pc == from_state.pc + DEFAULT_PC_STEP,
            r.0.timestamp == final(memory).timestamp_spec(),
            r.1.from_state == from_state,
            r.1.writes@.len() == old(self).blocks_per_write,
            final(memory).log_seq().take(old(memory).log_seq().len() as int) =~= old(
                memory,
            ).log_seq(),
            forall|i: int|
                0 <= i < old(self).blocks_per_write ==> is_write_entry(
                    #[trigger] final(memory).log_seq()[old(memory).log_seq().len() + i],
                    RV32_MEMORY_AS,
                    (read_record.rd_val.value + i * old(self).write_size) as u32,
                    output.writes@[i]@,
                ),
            forall|i: int|
                0 <= i < old(self).blocks_per_write ==> (#[trigger] r.1.writes@[i]).address_space
                    == RV32_MEMORY_AS && r.1.writes@[i].pointer as int == read_record.rd_val.value
                    + i * old(self).write_size && r.1.writes@[i].record_id == RecordId(
                    (old(memory).log_seq().len() + i) as usize,
                ) && r.1.writes@[i].data@ =~= output.writes@[i]@,
    {
        let records = write_blocks(
            memory,
            RV32_MEMORY_AS,
            read_record.rd_val.as_u32(),
            &output.writes,
            self.write_size,
        );
        let new_state = ExecutionState {
            pc: from_state.pc + DEFAULT_PC_STEP,
            timestamp: memory.timestamp(),
        };
        (new_state, Rv32VecHeapTwoReadsWriteRecord { from_state, writes: records })
    }

    /// Converts the records of one dispatch into the cells of one trace
    /// row.
    pub fn generate_trace_row(
        &self,
        read_record: &Rv32VecHeapTwoReadsReadRecord,
        write_record: &Rv32VecHeapTwoReadsWriteRecord,
    ) -> (r: Rv32VecHeapTwoReadsAdapterCols<Felt>)
        ensures
            r.from_state == write_record.from_state,
            r.rd_ptr.value == read_record.rd.pointer % crate::field::MODULUS,
            r.rs1_ptr.value == read_record.rs1.pointer % crate::field::MODULUS,
            r.rs2_ptr.value == read_record.rs2.pointer % crate::field::MODULUS,
            r.rd_val@ == read_record.rd.data@,
            r.rs1_val@ == read_record.rs1.data@,
            r.rs2_val@ == read_record.rs2.data@,
    {
        Rv32VecHeapTwoReadsAdapterCols {
            from_state: write_record.from_state,
            rs1_ptr: Felt::from_u32(read_record.rs1.pointer),
            rs2_ptr: Felt::from_u32(read_record.rs2.pointer),
            rd_ptr: Felt::from_u32(read_record.rd.pointer),
            rs1_val: crate::memory::copy_felt_vec(&read_record.rs1.data),
            rs2_val: crate::memory::copy_felt_vec(&read_record.rs2.data),
            rd_val: crate::memory::copy_felt_vec(&read_record.rd.data),
        }
    }

    /// The constraint-side description of this adapter.
    pub fn air(&self) -> (r: &Rv32VecHeapTwoReadsAdapterAir)
        ensures
            *r == self.air,
    {
        &self.air
    }
}

} // verus!
