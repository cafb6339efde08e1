//! Configuration of the machine: memory geometry, segment bounds, the set
//! of enabled executors, and the supported moduli for modular-arithmetic
//! opcodes.
//!
//! These values are produced and validated outside the core and passed in
//! as immutable parameters.

use vstd::prelude::*;

verus! {

use vstd::arithmetic::power2::pow2;

/// The default cap on the number of instructions executed in one segment:
/// 100 below `2^25`.
pub const DEFAULT_MAX_SEGMENT_LEN: usize = 33554332;

/// The default s-box constraint degree used by the hash permutation.
pub const DEFAULT_POSEIDON2_MAX_CONSTRAINT_DEGREE: usize = 7;

/// Whether memory persists across proof segments or is volatile.
#[derive(Clone, Copy, Debug, PartialEq, Eq, Structural)]
pub enum PersistenceType {
    Persistent,
    Volatile,
}

/// Geometry and range-check parameters of the addressable memory.
#[derive(Clone, Copy, Debug, PartialEq, Eq, Structural)]
pub struct MemoryConfig {
    /// Address spaces live in `[as_offset, as_offset + 2^as_height)`,
    /// with `as_offset` fixed to 1 so that address space 0 stays immediate.
    pub as_height: usize,
    /// Pointers are at most this many bits wide.
    pub pointer_max_bits: usize,
    /// Timestamps are at most this many bits wide.
    pub clk_max_bits: usize,
    /// Limb width used when decomposing values for range checks.
    pub decomp: usize,
    pub persistence_type: PersistenceType,
}

impl MemoryConfig {
    pub fn new(
        as_height: usize,
        pointer_max_bits: usize,
        clk_max_bits: usize,
        decomp: usize,
        persistence_type: PersistenceType,
    ) -> (r: MemoryConfig)
        ensures
            r == (MemoryConfig {
                as_height,
                pointer_max_bits,
                clk_max_bits,
                decomp,
                persistence_type,
            }),
    {
        MemoryConfig { as_height, pointer_max_bits, clk_max_bits, decomp, persistence_type }
    }
}

impl Default for MemoryConfig {
    /// The default geometry: 29-bit address spaces, pointers and
    /// timestamps, 16-bit range-check decomposition, volatile memory.
    fn default() -> (r: MemoryConfig)
        ensures
            r == (MemoryConfig {
                as_height: 29,
                pointer_max_bits: 29,
                clk_max_bits: 29,
                decomp: 16,
                persistence_type: PersistenceType::Volatile,
            }),
    {
        MemoryConfig::new(29, 29, 29, 16, PersistenceType::Volatile)
    }
}

/// Geometry of the memory commitment tree: the tree addresses
/// `2^as_height` address spaces starting at `as_offset`, each holding
/// `2^address_height` chunks of cells.
#[derive(Clone, Copy, Debug, PartialEq, Eq, Structural)]
pub struct MemoryDimensions {
    /// Bits used to select the address space.
    pub as_height: usize,
    /// Bits used to select a chunk inside one address space.
    pub address_height: usize,
    /// The first valid address space.
    pub as_offset: u32,
}

impl MemoryDimensions {
    /// Bounds under which every chunk label fits the index arithmetic and
    /// every addressed pointer fits 32 bits.
    pub open spec fn wf(&self) -> bool {
        &&& self.as_height + self.address_height <= 56
        &&& self.address_height <= 29
        &&& self.as_offset + pow2(self.as_height as nat) <= 0x1_0000_0000
        &&& 1 <= self.as_offset
    }

    /// The height of the commitment tree over the whole address space.
    pub open spec fn overall_height_spec(&self) -> nat {
        (self.as_height + self.address_height) as nat
    }

    /// The height of the commitment tree over the whole address space.
    pub fn overall_height(&self) -> (r: usize)
        requires
            self.wf(),
        ensures
            r == self.overall_height_spec(),
    {
        self.as_height + self.address_height
    }

    /// The global chunk index of a label `(address_space, chunk number)`.
    pub open spec fn label_to_index_spec(&self, address_space: u32, block: int) -> int {
        (address_space - self.as_offset) * pow2(self.address_height as nat) + block
    }

    /// The global chunk index of a label `(address_space, chunk number)`.
    pub fn label_to_index(&self, label: (u32, u32)) -> (r: u64)
        requires
            self.wf(),
            self.as_offset <= label.0 < self.as_offset + pow2(self.as_height as nat),
            label.1 < pow2(self.address_height as nat),
        ensures
            r == self.label_to_index_spec(label.0, label.1 as int),
            r < pow2(self.overall_height_spec()),
    {
        proof {
            vstd::arithmetic::power2::lemma_pow2_adds(
                self.as_height as nat,
                self.address_height as nat,
            );
            vstd::arithmetic::power2::lemma_pow2_pos(self.address_height as nat);
            vstd::arithmetic::power2::lemma_pow2_pos(self.as_height as nat);
            vstd::arithmetic::power2::lemma2_to64_rest();
            if self.overall_height_spec() < 56 {
                vstd::arithmetic::power2::lemma_pow2_strictly_increases(
                    self.overall_height_spec(),
                    56,
                );
            }
            let a = (label.0 - self.as_offset) as int;
            let h = pow2(self.address_height as nat) as int;
            let hi = pow2(self.as_height as nat) as int;
            assert(a * h + label.1 < hi * h && 0 <= a * h) by (nonlinear_arith)
                requires
                    0 <= a < hi,
                    0 <= (label.1 as int) < h,
                    h >= 1;
        }
        let shift = pow2_u64(self.address_height);
        (label.0 - self.as_offset) as u64 * shift + label.1 as u64
    }
}

/// `2^e` as a 64-bit integer.
pub fn pow2_u64(e: usize) -> (r: u64)
    requires
        e <= 56,
    ensures
        r == pow2(e as nat),
{
    let mut i: usize = 0;
    let mut r: u64 = 1;
    proof {
        vstd::arithmetic::power2::lemma2_to64();
    }
    while i < e
        invariant
            0 <= i <= e,
            e <= 56,
            r == pow2(i as nat),
        decreases e - i,
    {
        proof {
            vstd::arithmetic::power2::lemma2_to64_rest();
            vstd::arithmetic::power2::lemma_pow2_strictly_increases(i as nat, 56);
            vstd::arithmetic::power2::lemma_pow2_unfold((i + 1) as nat);
        }
        r = r * 2;
        i += 1;
    }
    r
}

/// The names of the per-opcode executors a machine can enable.
#[derive(Clone, Copy, Debug, PartialEq, Eq, Structural)]
pub enum ExecutorName {
    Phantom,
    ArithmeticLogicUnitRv32,
    LessThanRv32,
    ShiftRv32,
    LoadStoreRv32,
    LoadSignExtendRv32,
    HintStoreRv32,
    BranchEqualRv32,
    BranchLessThanRv32,
    JalLuiRv32,
    JalrRv32,
    AuipcRv32,
    MultiplicationRv32,
    MultiplicationHighRv32,
    DivRemRv32,
    LoadStore,
    BranchEqual,
    Jal,
    FieldArithmetic,
    FieldExtension,
    Poseidon2,
}

/// Configuration of one virtual machine: enabled executors, supported
/// moduli (as little-endian 32-bit limbs), memory geometry and segment
/// bounds.
#[derive(Clone, Debug)]
pub struct VmConfig {
    /// All enabled executors except the modular ones.
    pub executors: Vec<ExecutorName>,
    /// Every supported modulus, as little-endian 32-bit limbs.
    pub supported_modulus: Vec<Vec<u32>>,
    pub poseidon2_max_constraint_degree: usize,
    pub memory_config: MemoryConfig,
    pub num_public_values: usize,
    pub max_segment_len: usize,
    pub collect_metrics: bool,
}

impl VmConfig {
    pub fn from_parameters(
        poseidon2_max_constraint_degree: usize,
        memory_config: MemoryConfig,
        num_public_values: usize,
        max_segment_len: usize,
        collect_metrics: bool,
        enabled_modulus: Vec<Vec<u32>>,
    ) -> (r: VmConfig)
        ensures
            r.executors@ == Seq::<ExecutorName>::empty(),
            r.supported_modulus@ == enabled_modulus@,
            r.poseidon2_max_constraint_degree == poseidon2_max_constraint_degree,
            r.memory_config == memory_config,
            r.num_public_values == num_public_values,
            r.max_segment_len == max_segment_len,
            r.collect_metrics == collect_metrics,
    {
        let config = VmConfig {
            executors: Vec::new(),
            poseidon2_max_constraint_degree,
            memory_config,
            num_public_values,
            max_segment_len,
            collect_metrics,
            supported_modulus: Vec::new(),
        };
        config.add_modular_support(enabled_modulus)
    }

    /// Enables one more executor.
    pub fn add_executor(self, executor: ExecutorName) -> (r: VmConfig)
        ensures
            r.executors@ == self.executors@.push(executor),
            r.supported_modulus == self.supported_modulus,
            r.poseidon2_max_constraint_degree == self.poseidon2_max_constraint_degree,
            r.memory_config == self.memory_config,
            r.num_public_values == self.num_public_values,
            r.max_segment_len == self.max_segment_len,
            r.collect_metrics == self.collect_metrics,
    {
        let mut res = self;
        res.executors.push(executor);
        res
    }

    /// Enables modular arithmetic for the given moduli.
    pub fn add_modular_support(self, enabled_modulus: Vec<Vec<u32>>) -> (r: VmConfig)
        ensures
            r.supported_modulus@ == self.supported_modulus@ + enabled_modulus@,
            r.executors == self.executors,
            r.poseidon2_max_constraint_degree == self.poseidon2_max_constraint_degree,
            r.memory_config == self.memory_config,
            r.num_public_values == self.num_public_values,
            r.max_segment_len == self.max_segment_len,
            r.collect_metrics == self.collect_metrics,
    {
        let mut res = self;
        let mut rest = enabled_modulus;
        res.supported_modulus.append(&mut rest);
        res
    }

    /// Enables modular arithmetic for every canonically supported modulus.
    pub fn add_canonical_modulus(self) -> (r: VmConfig)
        ensures
            r.supported_modulus@.len() == self.supported_modulus@.len() + 2,
            r.executors == self.executors,
    {
        let all = Modulus::all();
        let mut primes: Vec<Vec<u32>> = Vec::new();
        let mut i: usize = 0;
        let n = all.len();
        while i < n
            invariant
                n == all@.len(),
                0 <= i <= n,
                primes@.len() == i,
            decreases n - i,
        {
            primes.push(all[i].prime_limbs());
            i += 1;
        }
        self.add_modular_support(primes)
    }

    /// The baseline RV32I machine: persistent memory and the full set of
    /// base integer executors.
    pub fn rv32i() -> (r: VmConfig)
        ensures
            r.executors@.len() == 12,
            r.memory_config.persistence_type == PersistenceType::Persistent,
    {
        let base = VmConfig {
            executors: Vec::new(),
            supported_modulus: Vec::new(),
            poseidon2_max_constraint_degree: 3,
            memory_config: MemoryConfig::new(29, 29, 29, 16, PersistenceType::Persistent),
            num_public_values: 0,
            max_segment_len: DEFAULT_MAX_SEGMENT_LEN,
            collect_metrics: false,
        };
        base.add_executor(ExecutorName::Phantom).add_executor(
            ExecutorName::ArithmeticLogicUnitRv32,
        ).add_executor(ExecutorName::LessThanRv32).add_executor(
            ExecutorName::ShiftRv32,
        ).add_executor(ExecutorName::LoadStoreRv32).add_executor(
            ExecutorName::LoadSignExtendRv32,
        ).add_executor(ExecutorName::HintStoreRv32).add_executor(
            ExecutorName::BranchEqualRv32,
        ).add_executor(ExecutorName::BranchLessThanRv32).add_executor(
            ExecutorName::JalLuiRv32,
        ).add_executor(ExecutorName::JalrRv32).add_executor(ExecutorName::AuipcRv32)
    }

    /// RV32IM: the base machine plus the multiplication-family executors.
    pub fn rv32im() -> (r: VmConfig)
        ensures
            r.executors@.len() == 15,
            r.memory_config.persistence_type == PersistenceType::Persistent,
    {
        VmConfig::rv32i().add_executor(ExecutorName::MultiplicationRv32).add_executor(
            ExecutorName::MultiplicationHighRv32,
        ).add_executor(ExecutorName::DivRemRv32)
    }

    /// The aggregation machine used to verify other proofs.
    pub fn aggregation(num_public_values: usize, poseidon2_max_constraint_degree: usize) -> (r:
        VmConfig)
        ensures
            r.executors@.len() == 7,
            r.num_public_values == num_public_values,
            r.poseidon2_max_constraint_degree == poseidon2_max_constraint_degree,
    {
        let base = VmConfig {
            executors: Vec::new(),
            supported_modulus: Vec::new(),
            poseidon2_max_constraint_degree,
            memory_config: MemoryConfig::default(),
            num_public_values,
            max_segment_len: DEFAULT_MAX_SEGMENT_LEN,
            collect_metrics: false,
        };
        base.add_executor(ExecutorName::Phantom).add_executor(
            ExecutorName::LoadStore,
        ).add_executor(ExecutorName::BranchEqual).add_executor(ExecutorName::Jal).add_executor(
            ExecutorName::FieldArithmetic,
        ).add_executor(ExecutorName::FieldExtension).add_executor(ExecutorName::Poseidon2)
    }
}

impl Default for VmConfig {
    fn default() -> (r: VmConfig)
        ensures
            r.executors@.len() == 0,
            r.supported_modulus@.len() == 0,
            r.max_segment_len == DEFAULT_MAX_SEGMENT_LEN,
    {
        VmConfig::from_parameters(
            DEFAULT_POSEIDON2_MAX_CONSTRAINT_DEGREE,
            MemoryConfig::default(),
            0,
            DEFAULT_MAX_SEGMENT_LEN,
            false,
            Vec::new(),
        )
    }
}

/// The canonically supported moduli for modular-arithmetic opcodes.
#[derive(Clone, Copy, Debug, PartialEq, Eq, Structural)]
pub enum Modulus {
    Secp256k1Coord,
    Secp256k1Scalar,
}

impl Modulus {
    /// The modulus as little-endian 32-bit limbs.
    pub fn prime_limbs(&self) -> (r: Vec<u32>)
        ensures
            r@.len() == 8,
            *self == Modulus::Secp256k1Coord ==> r@ == seq![
                0xFFFFFC2Fu32,
                0xFFFFFFFEu32,
                0xFFFFFFFFu32,
                0xFFFFFFFFu32,
                0xFFFFFFFFu32,
                0xFFFFFFFFu32,
                0xFFFFFFFFu32,
                0xFFFFFFFFu32,
            ],
            *self == Modulus::Secp256k1Scalar ==> r@ == seq![
                0xD0364141u32,
                0xBFD25E8Cu32,
                0xAF48A03Bu32,
                0xBAAEDCE6u32,
                0xFFFFFFFEu32,
                0xFFFFFFFFu32,
                0xFFFFFFFFu32,
                0xFFFFFFFFu32,
            ],
    {
        let mut v: Vec<u32> = Vec::new();
        match self {
            Modulus::Secp256k1Coord => {
                v.push(0xFFFFFC2F);
                v.push(0xFFFFFFFE);
                v.push(0xFFFFFFFF);
                v.push(0xFFFFFFFF);
                v.push(0xFFFFFFFF);
                v.push(0xFFFFFFFF);
                v.push(0xFFFFFFFF);
                v.push(0xFFFFFFFF);
            },
            Modulus::Secp256k1Scalar => {
                v.push(0xD0364141);
                v.push(0xBFD25E8C);
                v.push(0xAF48A03B);
                v.push(0xBAAEDCE6);
                v.push(0xFFFFFFFE);
                v.push(0xFFFFFFFF);
                v.push(0xFFFFFFFF);
                v.push(0xFFFFFFFF);
            },
        }
        proof {
            if *self == Modulus::Secp256k1Coord {
                assert(v@ =~= seq![
                    0xFFFFFC2Fu32,
                    0xFFFFFFFEu32,
                    0xFFFFFFFFu32,
                    0xFFFFFFFFu32,
                    0xFFFFFFFFu32,
                    0xFFFFFFFFu32,
                    0xFFFFFFFFu32,
                    0xFFFFFFFFu32,
                ]);
            } else {
                assert(v@ =~= seq![
                    0xD0364141u32,
                    0xBFD25E8Cu32,
                    0xAF48A03Bu32,
                    0xBAAEDCE6u32,
                    0xFFFFFFFEu32,
                    0xFFFFFFFFu32,
                    0xFFFFFFFFu32,
                    0xFFFFFFFFu32,
                ]);
            }
        }
        v
    }

    /// Every canonically supported modulus, in declaration order.
    pub fn all() -> (r: Vec<Modulus>)
        ensures
            r@ == seq![Modulus::Secp256k1Coord, Modulus::Secp256k1Scalar],
    {
        let mut v: Vec<Modulus> = Vec::new();
        v.push(Modulus::Secp256k1Coord);
        v.push(Modulus::Secp256k1Scalar);
        proof {
            assert(v@ =~= seq![Modulus::Secp256k1Coord, Modulus::Secp256k1Scalar]);
        }
        v
    }
}

} // verus!
