//! The base arithmetic-logic core: pure opcode semantics over fixed-width
//! little-endian limbs.
//!
//! Addition and subtraction propagate a per-limb carry or borrow; the
//! bitwise opcodes work limb by limb and are separately justified by a
//! lookup argument, whose requests the lookup chip records.

use vstd::prelude::*;

use crate::arch::{AdapterRuntimeContext, Instruction};
use crate::field::Felt;

verus! {

use vstd::arithmetic::power2::pow2;

/// The five base ALU opcodes, in their fixed local order.
#[derive(Clone, Copy, Debug, PartialEq, Eq, Structural)]
#[allow(non_camel_case_types)]
pub enum AluOpcode {
    ADD,
    SUB,
    XOR,
    OR,
    AND,
}

/// The opcode at a local index below five.
pub open spec fn alu_opcode_of(value: int) -> AluOpcode {
    if value == 0 {
        AluOpcode::ADD
    } else if value == 1 {
        AluOpcode::SUB
    } else if value == 2 {
        AluOpcode::XOR
    } else if value == 3 {
        AluOpcode::OR
    } else {
        AluOpcode::AND
    }
}

impl AluOpcode {
    /// The opcode at a local index, if the index is one of the five.
    pub fn from_usize(value: usize) -> (r: Option<AluOpcode>)
        ensures
            r == (if value < 5 {
                Some(alu_opcode_of(value as int))
            } else {
                None::<AluOpcode>
            }),
    {
        match value {
            0usize => Some(AluOpcode::ADD),
            1usize => Some(AluOpcode::SUB),
            2usize => Some(AluOpcode::XOR),
            3usize => Some(AluOpcode::OR),
            4usize => Some(AluOpcode::AND),
            _ => None,
        }
    }
}

/// The number a little-endian limb sequence denotes, with `bits` bits
/// per limb.
pub open spec fn limbs_value(s: Seq<u32>, bits: nat) -> int
    decreases s.len(),
{
    if s.len() == 0 {
        0
    } else {
        limbs_value(s.drop_last(), bits) + s.last() * pow2(bits * (s.len() - 1) as nat)
    }
}

/// Whether every limb of a sequence fits in `bits` bits.
pub open spec fn limbs_in_range(s: Seq<u32>, bits: nat) -> bool {
    forall|i: int| 0 <= i < s.len() ==> (#[trigger] s[i]) < pow2(bits)
}

/// A sequence of in-range limbs denotes a number below `2^(bits * len)`.
pub proof fn lemma_limbs_value_bound(s: Seq<u32>, bits: nat)
    requires
        limbs_in_range(s, bits),
    ensures
        0 <= limbs_value(s, bits) < pow2(bits * s.len()),
    decreases s.len(),
{
    vstd::arithmetic::power2::lemma_pow2_pos(bits * s.len());
    if s.len() > 0 {
        let n = s.len();
        lemma_limbs_value_bound(s.drop_last(), bits);
        vstd::arithmetic::power2::lemma_pow2_adds(bits * (n - 1) as nat, bits);
        assert(bits * n == bits * (n - 1) as nat + bits) by (nonlinear_arith)
            requires
                n >= 1;
        let p = pow2(bits * (n - 1) as nat) as int;
        let b = pow2(bits) as int;
        vstd::arithmetic::power2::lemma_pow2_pos(bits);
        vstd::arithmetic::power2::lemma_pow2_pos(bits * (n - 1) as nat);
        assert(limbs_value(s.drop_last(), bits) + (s.last() as int) * p < p * b) by (nonlinear_arith)
            requires
                0 <= limbs_value(s.drop_last(), bits) < p,
                0 <= (s.last() as int) < b,
                p >= 1,
                b >= 1;
    }
}

/// Extending a prefix by one limb adds that limb at its place value.
proof fn lemma_limbs_value_take_step(s: Seq<u32>, bits: nat, i: int)
    requires
        0 <= i < s.len(),
    ensures
        limbs_value(s.take(i + 1), bits) == limbs_value(s.take(i), bits) + s[i] * pow2(
            bits * i as nat,
        ),
{
    assert(s.take(i + 1).drop_last() =~= s.take(i));
    assert(s.take(i + 1).last() == s[i]);
}

/// Appending a limb adds it at its place value.
proof fn lemma_limbs_value_push(s: Seq<u32>, bits: nat, v: u32)
    ensures
        limbs_value(s.push(v), bits) == limbs_value(s, bits) + v * pow2(bits * s.len()),
{
    assert(s.push(v).drop_last() =~= s);
    assert(s.push(v).last() == v);
}

/// The ring identity behind one step of carry-propagating addition.
proof fn lemma_add_step(
    vz: int,
    vx: int,
    vy: int,
    xi: int,
    yi: int,
    cin: int,
    zi: int,
    cout: int,
    b: int,
    p: int,
)
    requires
        vz + cin * p == vx + vy,
        zi + cout * b == xi + yi + cin,
    ensures
        (vz + zi * p) + cout * (p * b) == (vx + xi * p) + (vy + yi * p),
{
    assert((vz + zi * p) + cout * (p * b) == (vx + xi * p) + (vy + yi * p)) by (nonlinear_arith)
        requires
            vz + cin * p == vx + vy,
            zi + cout * b == xi + yi + cin;
}

/// The ring identity behind one step of borrow-propagating subtraction.
proof fn lemma_sub_step(
    vz: int,
    vx: int,
    vy: int,
    xi: int,
    yi: int,
    bin: int,
    zi: int,
    bout: int,
    b: int,
    p: int,
)
    requires
        vz == vx - vy + bin * p,
        zi == xi - yi - bin + bout * b,
    ensures
        vz + zi * p == (vx + xi * p) - (vy + yi * p) + bout * (p * b),
{
    assert(vz + zi * p == (vx + xi * p) - (vy + yi * p) + bout * (p * b)) by (nonlinear_arith)
        requires
            vz == vx - vy + bin * p,
            zi == xi - yi - bin + bout * b;
}

/// The modulus of a limb array: `2^(bits * len)`.
pub open spec fn limbs_modulus(bits: nat, len: nat) -> int {
    pow2(bits * len) as int
}

/// Limb-wise addition modulo `2^(bits * len)`, little-endian, with
/// carries propagated limb by limb.
pub fn solve_add(x: &Vec<u32>, y: &Vec<u32>, limb_bits: usize) -> (z: Vec<u32>)
    requires
        x@.len() == y@.len(),
        0 < limb_bits < 32,
        limbs_in_range(x@, limb_bits as nat),
        limbs_in_range(y@, limb_bits as nat),
    ensures
        z@.len() == x@.len(),
        limbs_in_range(z@, limb_bits as nat),
        limbs_value(z@, limb_bits as nat) == (limbs_value(x@, limb_bits as nat) + limbs_value(
            y@,
            limb_bits as nat,
        )) % limbs_modulus(limb_bits as nat, x@.len()),
{
    let ghost bits = limb_bits as nat;
    proof {
        vstd::bits::lemma_u32_pow2_no_overflow(bits);
        vstd::bits::lemma_u32_shl_is_mul(1u32, limb_bits as u32);
    }
    let base: u32 = 1u32 << (limb_bits as u32);
    proof {
        vstd::arithmetic::power2::lemma2_to64();
        if bits < 31 {
            vstd::arithmetic::power2::lemma_pow2_strictly_increases(bits, 31);
        }
        if 1 < bits {
            vstd::arithmetic::power2::lemma_pow2_strictly_increases(1, bits);
        }
    }
    let n = x.len();
    let mut z: Vec<u32> = Vec::new();
    let mut carry: u32 = 0;
    let mut i: usize = 0;
    while i < n
        invariant
            n == x@.len(),
            x@.len() == y@.len(),
            0 < limb_bits < 32,
            bits == limb_bits as nat,
            base == pow2(bits),
            2 <= base <= 0x80000000,
            limbs_in_range(x@, bits),
            limbs_in_range(y@, bits),
            0 <= i <= n,
            z@.len() == i,
            carry <= 1,
            limbs_in_range(z@, bits),
            limbs_value(z@, bits) + carry * pow2(bits * i as nat) == limbs_value(x@.take(i as int), bits)
                + limbs_value(y@.take(i as int), bits),
        decreases n - i,
    {
        proof {
            vstd::arithmetic::power2::lemma_pow2_pos(bits * i as nat);
        }
        let t: u32 = x[i] + y[i] + carry;
        let zi: u32 = t % base;
        let cout: u32 = t / base;
        proof {
            vstd::arithmetic::div_mod::lemma_fundamental_div_mod(t as int, base as int);
            vstd::arithmetic::div_mod::lemma_mod_bound(t as int, base as int);
            vstd::arithmetic::mul::lemma_mul_is_commutative(base as int, cout as int);
            assert(cout <= 1) by (nonlinear_arith)
                requires
                    t as int == (base as int) * (cout as int) + (zi as int),
                    0 <= (zi as int) < (base as int),
                    (t as int) < 2 * (base as int),
                    base >= 1,
                    cout as int == (t as int) / (base as int),
                    (t as int) / (base as int) >= 0;
            lemma_limbs_value_take_step(x@, bits, i as int);
            lemma_limbs_value_take_step(y@, bits, i as int);
            lemma_limbs_value_push(z@, bits, zi);
            vstd::arithmetic::power2::lemma_pow2_adds(bits * i as nat, bits);
            assert(bits * (i + 1) as nat == bits * i as nat + bits) by (nonlinear_arith);
            lemma_add_step(
                limbs_value(z@, bits),
                limbs_value(x@.take(i as int), bits),
                limbs_value(y@.take(i as int), bits),
                x@[i as int] as int,
                y@[i as int] as int,
                carry as int,
                zi as int,
                cout as int,
                base as int,
                pow2(bits * i as nat) as int,
            );
        }
        z.push(zi);
        carry = cout;
        i += 1;
    }
    proof {
        assert(x@.take(n as int) =~= x@);
        assert(y@.take(n as int) =~= y@);
        lemma_limbs_value_bound(z@, bits);
        vstd::arithmetic::div_mod::lemma_mod_multiples_vanish(
            carry as int,
            limbs_value(z@, bits),
            pow2(bits * n as nat) as int,
        );
        vstd::arithmetic::div_mod::lemma_small_mod(
            limbs_value(z@, bits) as nat,
            pow2(bits * n as nat),
        );
    }
    z
}

/// Limb-wise subtraction modulo `2^(bits * len)`, little-endian, with
/// borrows propagated limb by limb.
pub fn solve_subtract(x: &Vec<u32>, y: &Vec<u32>, limb_bits: usize) -> (z: Vec<u32>)
    requires
        x@.len() == y@.len(),
        0 < limb_bits < 32,
        limbs_in_range(x@, limb_bits as nat),
        limbs_in_range(y@, limb_bits as nat),
    ensures
        z@.len() == x@.len(),
        limbs_in_range(z@, limb_bits as nat),
        limbs_value(z@, limb_bits as nat) == (limbs_value(x@, limb_bits as nat) - limbs_value(
            y@,
            limb_bits as nat,
        )) % limbs_modulus(limb_bits as nat, x@.len()),
{
    let ghost bits = limb_bits as nat;
    proof {
        vstd::bits::lemma_u32_pow2_no_overflow(bits);
        vstd::bits::lemma_u32_shl_is_mul(1u32, limb_bits as u32);
    }
    let base: u32 = 1u32 << (limb_bits as u32);
    proof {
        vstd::arithmetic::power2::lemma2_to64();
        if bits < 31 {
            vstd::arithmetic::power2::lemma_pow2_strictly_increases(bits, 31);
        }
        if 1 < bits {
            vstd::arithmetic::power2::lemma_pow2_strictly_increases(1, bits);
        }
    }
    let n = x.len();
    let mut z: Vec<u32> = Vec::new();
    let mut borrow: u32 = 0;
    let mut i: usize = 0;
    while i < n
        invariant
            n == x@.len(),
            x@.len() == y@.len(),
            0 < limb_bits < 32,
            bits == limb_bits as nat,
            base == pow2(bits),
            2 <= base <= 0x80000000,
            limbs_in_range(x@, bits),
            limbs_in_range(y@, bits),
            0 <= i <= n,
            z@.len() == i,
            borrow <= 1,
            limbs_in_range(z@, bits),
            limbs_value(z@, bits) == limbs_value(x@.take(i as int), bits) - limbs_value(
                y@.take(i as int),
                bits,
            ) + borrow * pow2(bits * i as nat),
        decreases n - i,
    {
        proof {
            vstd::arithmetic::power2::lemma_pow2_pos(bits * i as nat);
        }
        let rhs: u32 = y[i] + borrow;
        let zi: u32;
        let bout: u32;
        if x[i] >= rhs {
            zi = x[i] - rhs;
            bout = 0;
        } else {
            zi = x[i] + base - rhs;
            bout = 1;
        }
        proof {
            lemma_limbs_value_take_step(x@, bits, i as int);
            lemma_limbs_value_take_step(y@, bits, i as int);
            lemma_limbs_value_push(z@, bits, zi);
            vstd::arithmetic::power2::lemma_pow2_adds(bits * i as nat, bits);
            assert(bits * (i + 1) as nat == bits * i as nat + bits) by (nonlinear_arith);
            lemma_sub_step(
                limbs_value(z@, bits),
                limbs_value(x@.take(i as int), bits),
                limbs_value(y@.take(i as int), bits),
                x@[i as int] as int,
                y@[i as int] as int,
                borrow as int,
                zi as int,
                bout as int,
                base as int,
                pow2(bits * i as nat) as int,
            );
        }
        z.push(zi);
        borrow = bout;
        i += 1;
    }
    proof {
        assert(x@.take(n as int) =~= x@);
        assert(y@.take(n as int) =~= y@);
        lemma_limbs_value_bound(z@, bits);
        let m = pow2(bits * n as nat) as int;
        if borrow == 0 {
            assert(limbs_value(x@, bits) - limbs_value(y@, bits) == m * (-(borrow as int))
                + limbs_value(z@, bits));
        } else {
            assert(borrow == 1);
            assert(limbs_value(z@, bits) == limbs_value(x@, bits) - limbs_value(y@, bits) + 1 * m);
            assert(m * (-1) == -m) by (nonlinear_arith);
            assert(limbs_value(x@, bits) - limbs_value(y@, bits) == m * (-(borrow as int))
                + limbs_value(z@, bits));
        }
        vstd::arithmetic::div_mod::lemma_mod_multiples_vanish(
            -(borrow as int),
            limbs_value(z@, bits),
            m,
        );
        vstd::arithmetic::div_mod::lemma_small_mod(
            limbs_value(z@, bits) as nat,
            pow2(bits * n as nat),
        );
    }
    z
}

/// Bitwise exclusive-or stays inside the limb width.
proof fn lemma_xor_in_range(x: u32, y: u32, b: u32)
    requires
        0 < b < 32,
        x < (1u32 << b),
        y < (1u32 << b),
    ensures
        (x ^ y) < (1u32 << b),
{
    assert((x ^ y) < (1u32 << b)) by (bit_vector)
        requires
            0 < b < 32,
            x < (1u32 << b),
            y < (1u32 << b);
}

/// Bitwise or stays inside the limb width.
proof fn lemma_or_in_range(x: u32, y: u32, b: u32)
    requires
        0 < b < 32,
        x < (1u32 << b),
        y < (1u32 << b),
    ensures
        (x | y) < (1u32 << b),
{
    assert((x | y) < (1u32 << b)) by (bit_vector)
        requires
            0 < b < 32,
            x < (1u32 << b),
            y < (1u32 << b);
}

/// Bitwise and stays inside the limb width.
proof fn lemma_and_in_range(x: u32, y: u32, b: u32)
    requires
        0 < b < 32,
        x < (1u32 << b),
        y < (1u32 << b),
    ensures
        (x & y) < (1u32 << b),
{
    assert((x & y) < (1u32 << b)) by (bit_vector)
        requires
            0 < b < 32,
            x < (1u32 << b),
            y < (1u32 << b);
}

/// Limb-wise bitwise exclusive-or.
pub fn solve_xor(x: &Vec<u32>, y: &Vec<u32>, limb_bits: usize) -> (z: Vec<u32>)
    requires
        x@.len() == y@.len(),
        0 < limb_bits < 32,
        limbs_in_range(x@, limb_bits as nat),
        limbs_in_range(y@, limb_bits as nat),
    ensures
        z@.len() == x@.len(),
        limbs_in_range(z@, limb_bits as nat),
        forall|i: int| 0 <= i < z@.len() ==> z@[i] == (x@[i] ^ y@[i]),
{
    let ghost bits = limb_bits as nat;
    proof {
        vstd::bits::lemma_u32_pow2_no_overflow(bits);
        vstd::bits::lemma_u32_shl_is_mul(1u32, limb_bits as u32);
    }
    let n = x.len();
    let mut z: Vec<u32> = Vec::new();
    let mut i: usize = 0;
    while i < n
        invariant
            n == x@.len(),
            x@.len() == y@.len(),
            0 < limb_bits < 32,
            bits == limb_bits as nat,
            (1u32 << (limb_bits as u32)) == pow2(bits),
            limbs_in_range(x@, bits),
            limbs_in_range(y@, bits),
            0 <= i <= n,
            z@.len() == i,
            limbs_in_range(z@, bits),
            forall|j: int| 0 <= j < i ==> z@[j] == (x@[j] ^ y@[j]),
        decreases n - i,
    {
        proof {
            lemma_xor_in_range(x@[i as int], y@[i as int], limb_bits as u32);
        }
        z.push(x[i] ^ y[i]);
        i += 1;
    }
    z
}

/// Limb-wise bitwise or.
pub fn solve_or(x: &Vec<u32>, y: &Vec<u32>, limb_bits: usize) -> (z: Vec<u32>)
    requires
        x@.len() == y@.len(),
        0 < limb_bits < 32,
        limbs_in_range(x@, limb_bits as nat),
        limbs_in_range(y@, limb_bits as nat),
    ensures
        z@.len() == x@.len(),
        limbs_in_range(z@, limb_bits as nat),
        forall|i: int| 0 <= i < z@.len() ==> z@[i] == (x@[i] | y@[i]),
{
    let ghost bits = limb_bits as nat;
    proof {
        vstd::bits::lemma_u32_pow2_no_overflow(bits);
        vstd::bits::lemma_u32_shl_is_mul(1u32, limb_bits as u32);
    }
    let n = x.len();
    let mut z: Vec<u32> = Vec::new();
    let mut i: usize = 0;
    while i < n
        invariant
            n == x@.len(),
            x@.len() == y@.len(),
            0 < limb_bits < 32,
            bits == limb_bits as nat,
            (1u32 << (limb_bits as u32)) == pow2(bits),
            limbs_in_range(x@, bits),
            limbs_in_range(y@, bits),
            0 <= i <= n,
            z@.len() == i,
            limbs_in_range(z@, bits),
            forall|j: int| 0 <= j < i ==> z@[j] == (x@[j] | y@[j]),
        decreases n - i,
    {
        proof {
            lemma_or_in_range(x@[i as int], y@[i as int], limb_bits as u32);
        }
        z.push(x[i] | y[i]);
        i += 1;
    }
    z
}

/// Limb-wise bitwise and.
pub fn solve_and(x: &Vec<u32>, y: &Vec<u32>, limb_bits: usize) -> (z: Vec<u32>)
    requires
        x@.len() == y@.len(),
        0 < limb_bits < 32,
        limbs_in_range(x@, limb_bits as nat),
        limbs_in_range(y@, limb_bits as nat),
    ensures
        z@.len() == x@.len(),
        limbs_in_range(z@, limb_bits as nat),
        forall|i: int| 0 <= i < z@.len() ==> z@[i] == (x@[i] & y@[i]),
{
    let ghost bits = limb_bits as nat;
    proof {
        vstd::bits::lemma_u32_pow2_no_overflow(bits);
        vstd::bits::lemma_u32_shl_is_mul(1u32, limb_bits as u32);
    }
    let n = x.len();
    let mut z: Vec<u32> = Vec::new();
    let mut i: usize = 0;
    while i < n
        invariant
            n == x@.len(),
            x@.len() == y@.len(),
            0 < limb_bits < 32,
            bits == limb_bits as nat,
            (1u32 << (limb_bits as u32)) == pow2(bits),
            limbs_in_range(x@, bits),
            limbs_in_range(y@, bits),
            0 <= i <= n,
            z@.len() == i,
            limbs_in_range(z@, bits),
            forall|j: int| 0 <= j < i ==> z@[j] == (x@[j] & y@[j]),
        decreases n - i,
    {
        proof {
            lemma_and_in_range(x@[i as int], y@[i as int], limb_bits as u32);
        }
        z.push(x[i] & y[i]);
        i += 1;
    }
    z
}

/// What the ALU answers for one opcode on two limb arrays: the modular
/// sum or difference, or the limb-wise bitwise combination.
pub open spec fn alu_result_ok(
    op: AluOpcode,
    x: Seq<u32>,
    y: Seq<u32>,
    z: Seq<u32>,
    bits: nat,
) -> bool {
    &&& z.len() == x.len()
    &&& limbs_in_range(z, bits)
    &&& match op {
        AluOpcode::ADD => limbs_value(z, bits) == (limbs_value(x, bits) + limbs_value(y, bits))
            % limbs_modulus(bits, x.len()),
        AluOpcode::SUB => limbs_value(z, bits) == (limbs_value(x, bits) - limbs_value(y, bits))
            % limbs_modulus(bits, x.len()),
        AluOpcode::XOR => forall|i: int| 0 <= i < z.len() ==> z[i] == (x[i] ^ y[i]),
        AluOpcode::OR => forall|i: int| 0 <= i < z.len() ==> z[i] == (x[i] | y[i]),
        AluOpcode::AND => forall|i: int| 0 <= i < z.len() ==> z[i] == (x[i] & y[i]),
    }
}

/// Dispatches one ALU opcode over two little-endian limb arrays.
pub fn solve_alu(opcode: AluOpcode, x: &Vec<u32>, y: &Vec<u32>, limb_bits: usize) -> (z: Vec<u32>)
    requires
        x@.len() == y@.len(),
        0 < limb_bits < 32,
        limbs_in_range(x@, limb_bits as nat),
        limbs_in_range(y@, limb_bits as nat),
    ensures
        alu_result_ok(opcode, x@, y@, z@, limb_bits as nat),
{
    match opcode {
        AluOpcode::ADD => solve_add(x, y, limb_bits),
        AluOpcode::SUB => solve_subtract(x, y, limb_bits),
        AluOpcode::XOR => solve_xor(x, y, limb_bits),
        AluOpcode::OR => solve_or(x, y, limb_bits),
        AluOpcode::AND => solve_and(x, y, limb_bits),
    }
}

/// The lookup requests one ALU dispatch records, in limb order: the
/// result with itself for the carry opcodes (a range check), the two
/// operands for the bitwise opcodes (the lookup that justifies them).
pub open spec fn alu_lookup_requests(op: AluOpcode, b: Seq<u32>, c: Seq<u32>, a: Seq<u32>) -> Seq<
    (u32, u32),
> {
    Seq::new(
        a.len(),
        |i: int|
            if op == AluOpcode::ADD || op == AluOpcode::SUB {
                (a[i], a[i])
            } else {
                (b[i], c[i])
            },
    )
}

/// The canonical integer each field element of a sequence holds.
pub open spec fn felt_values(s: Seq<Felt>) -> Seq<u32> {
    Seq::new(s.len(), |i: int| s[i].value)
}

/// Extracts the canonical integers of a field-element vector.
pub fn felts_to_u32s(v: &Vec<Felt>) -> (r: Vec<u32>)
    ensures
        r@ =~= felt_values(v@),
{
    let n = v.len();
    let mut out: Vec<u32> = Vec::new();
    let mut i: usize = 0;
    while i < n
        invariant
            n == v@.len(),
            0 <= i <= n,
            out@.len() == i,
            forall|j: int| 0 <= j < i ==> out@[j] == (#[trigger] v@[j]).value,
        decreases n - i,
    {
        out.push(v[i].as_u32());
        i += 1;
    }
    out
}

/// Embeds a vector of small integers as field elements, limb for limb.
pub fn u32s_to_felts(v: &Vec<u32>) -> (r: Vec<Felt>)
    requires
        forall|i: int| 0 <= i < v@.len() ==> (#[trigger] v@[i]) < crate::field::MODULUS,
    ensures
        r@.len() == v@.len(),
        forall|i: int| 0 <= i < r@.len() ==> (#[trigger] r@[i]) == (Felt { value: v@[i] }),
        felt_values(r@) =~= v@,
        forall|i: int| 0 <= i < r@.len() ==> (#[trigger] r@[i]).valid(),
{
    let n = v.len();
    let mut out: Vec<Felt> = Vec::new();
    let mut i: usize = 0;
    while i < n
        invariant
            n == v@.len(),
            forall|j: int| 0 <= j < n ==> (#[trigger] v@[j]) < crate::field::MODULUS,
            0 <= i <= n,
            out@.len() == i,
            forall|j: int| 0 <= j < i ==> (#[trigger] out@[j]) == (Felt { value: v@[j] }),
        decreases n - i,
    {
        proof {
            vstd::arithmetic::div_mod::lemma_small_mod(
                v@[i as int] as nat,
                crate::field::MODULUS as nat,
            );
        }
        out.push(Felt::from_u32(v[i]));
        i += 1;
    }
    out
}

/// The interaction bus a lookup table listens on.
#[derive(Clone, Copy, Debug, PartialEq, Eq, Structural)]
pub struct XorBus(pub usize);

/// The lookup table chip that justifies bitwise results and range checks:
/// it records every `(x, y)` pair the cores ask it to witness.
#[derive(Clone, Debug)]
pub struct XorLookupChip {
    pub bus: XorBus,
    pub requests: Vec<(u32, u32)>,
}

impl XorLookupChip {
    /// A fresh lookup chip on the given bus, with no recorded requests.
    pub fn new(bus_index: usize) -> (r: XorLookupChip)
        ensures
            r.bus == XorBus(bus_index),
            r.requests@ == Seq::<(u32, u32)>::empty(),
    {
        XorLookupChip { bus: XorBus(bus_index), requests: Vec::new() }
    }

    /// The bus this lookup table listens on.
    pub fn bus(&self) -> (r: XorBus)
        ensures
            r == self.bus,
    {
        self.bus
    }

    /// Records one lookup request.
    pub fn request(&mut self, x: u32, y: u32)
        ensures
            final(self).bus == old(self).bus,
            final(self).requests@ == old(self).requests@.push((x, y)),
    {
        self.requests.push((x, y));
    }
}

/// The trace-row layout of the base ALU core: the three limb arrays and
/// one selector flag per opcode.
#[derive(Clone, Debug)]
pub struct BaseAluCoreCols {
    pub a: Vec<Felt>,
    pub b: Vec<Felt>,
    pub c: Vec<Felt>,
    pub opcode_add_flag: Felt,
    pub opcode_sub_flag: Felt,
    pub opcode_xor_flag: Felt,
    pub opcode_or_flag: Felt,
    pub opcode_and_flag: Felt,
}

impl BaseAluCoreCols {
    /// The number of trace cells such a row occupies for a given limb
    /// count.
    pub fn width(num_limbs: usize) -> (r: usize)
        requires
            num_limbs <= 1000,
        ensures
            r == 3 * num_limbs + 5,
    {
        3 * num_limbs + 5
    }
}

/// The constraint-side description of the base ALU core.
#[derive(Clone, Copy, Debug, PartialEq, Eq, Structural)]
pub struct BaseAluCoreAir {
    pub bus: XorBus,
    pub offset: usize,
}

/// What executing one ALU instruction leaves behind, consumed to emit
/// one trace row.
#[derive(Clone, Debug)]
pub struct BaseAluCoreRecord {
    pub opcode: AluOpcode,
    pub a: Vec<Felt>,
    pub b: Vec<Felt>,
    pub c: Vec<Felt>,
}

/// The base ALU core chip: pure opcode semantics plus the lookup
/// requests that later justify them.
#[derive(Clone, Debug)]
pub struct BaseAluCoreChip {
    pub air: BaseAluCoreAir,
    pub xor_lookup_chip: XorLookupChip,
    pub num_limbs: usize,
    pub limb_bits: usize,
}

/// Whether a sequence of field elements encodes in-range limbs.
pub open spec fn felt_limbs_in_range(s: Seq<Felt>, bits: nat) -> bool {
    limbs_in_range(felt_values(s), bits)
}

impl BaseAluCoreChip {
    /// The chip's static shape is sensible: a positive limb width small
    /// enough that limbs embed into the field unchanged.
    pub open spec fn wf(&self) -> bool {
        0 < self.limb_bits <= 16 && 0 < self.num_limbs
    }

    /// A core over the given lookup chip, with the given global opcode
    /// offset and limb shape.
    pub fn new(xor_lookup_chip: XorLookupChip, offset: usize, num_limbs: usize, limb_bits: usize)
        -> (r: BaseAluCoreChip)
        ensures
            r.air == (BaseAluCoreAir { bus: xor_lookup_chip.bus, offset }),
            r.xor_lookup_chip == xor_lookup_chip,
            r.num_limbs == num_limbs,
            r.limb_bits == limb_bits,
    {
        let bus = xor_lookup_chip.bus();
        BaseAluCoreChip { air: BaseAluCoreAir { bus, offset }, xor_lookup_chip, num_limbs, limb_bits }
    }

    /// Executes one ALU instruction over the already-fetched operands:
    /// computes the result limbs, records the lookup requests that will
    /// justify them, and hands the write back to the adapter. Leaves the
    /// program counter alone.
    pub fn execute_instruction(
        &mut self,
        instruction: &Instruction,
        from_pc: u32,
        reads: &Vec<Vec<Felt>>,
    ) -> (r: (AdapterRuntimeContext, BaseAluCoreRecord))
        requires
            old(self).wf(),
            old(self).air.offset <= instruction.opcode < old(self).air.offset + 5,
            reads@.len() == 2,
            reads@[0]@.len() == old(self).num_limbs,
            reads@[1]@.len() == old(self).num_limbs,
            felt_limbs_in_range(reads@[0]@, old(self).limb_bits as nat),
            felt_limbs_in_range(reads@[1]@, old(self).limb_bits as nat),
        ensures
            final(self).air == old(self).air,
            final(self).num_limbs == old(self).num_limbs,
            final(self).limb_bits == old(self).limb_bits,
            ({
                let op = alu_opcode_of(instruction.opcode - old(self).air.offset);
                let ctx = r.0;
                let record = r.1;
                &&& ctx.to_pc is None
                &&& ctx.writes@.len() == 1
                &&& alu_result_ok(
                    op,
                    felt_values(reads@[0]@),
                    felt_values(reads@[1]@),
                    felt_values(ctx.writes@[0]@),
                    old(self).limb_bits as nat,
                )
                &&& felt_limbs_in_range(ctx.writes@[0]@, old(self).limb_bits as nat)
                &&& forall|i: int|
                    0 <= i < ctx.writes@[0]@.len() ==> (#[trigger] ctx.writes@[0]@[i]).valid()
                &&& record.opcode == op
                &&& record.a@ == ctx.writes@[0]@
                &&& record.b@ == reads@[0]@
                &&& record.c@ == reads@[1]@
                &&& final(self).xor_lookup_chip.bus == old(self).xor_lookup_chip.bus
                &&& final(self).xor_lookup_chip.requests@ =~= old(self).xor_lookup_chip.requests@
                    + alu_lookup_requests(
                    op,
                    felt_values(reads@[0]@),
                    felt_values(reads@[1]@),
                    felt_values(ctx.writes@[0]@),
                )
            }),
    {
        let op = match AluOpcode::from_usize(instruction.opcode - self.air.offset) {
            Some(op) => op,
            None => {
                proof {
                    assert(false);
                }
                AluOpcode::ADD
            },
        };
        let b = felts_to_u32s(&reads[0]);
        let c = felts_to_u32s(&reads[1]);
        let a = solve_alu(op, &b, &c, self.limb_bits);
        proof {
            vstd::arithmetic::power2::lemma2_to64();
            if (self.limb_bits as nat) < 16 {
                vstd::arithmetic::power2::lemma_pow2_strictly_increases(
                    self.limb_bits as nat,
                    16,
                );
            }
        }
        let a_felts = u32s_to_felts(&a);
        let is_arith = match op {
            AluOpcode::ADD => true,
            AluOpcode::SUB => true,
            _ => false,
        };
        let ghost expected = alu_lookup_requests(op, b@, c@, a@);
        let mut i: usize = 0;
        let n = self.num_limbs;
        while i < n
            invariant
                0 <= i <= n,
                n == a@.len(),
                n == b@.len(),
                n == c@.len(),
                expected == alu_lookup_requests(op, b@, c@, a@),
                is_arith == (op == AluOpcode::ADD || op == AluOpcode::SUB),
                self.air == old(self).air,
                self.num_limbs == old(self).num_limbs,
                self.limb_bits == old(self).limb_bits,
                self.xor_lookup_chip.bus == old(self).xor_lookup_chip.bus,
                self.xor_lookup_chip.requests@ =~= old(self).xor_lookup_chip.requests@
                    + expected.take(i as int),
            decreases n - i,
        {
            if is_arith {
                self.xor_lookup_chip.request(a[i], a[i]);
            } else {
                self.xor_lookup_chip.request(b[i], c[i]);
            }
            proof {
                assert(expected.take(i + 1) =~= expected.take(i as int).push(expected[i as int]));
                assert(self.xor_lookup_chip.requests@ =~= old(self).xor_lookup_chip.requests@
                    + expected.take(i + 1));
            }
            i += 1;
        }
        proof {
            assert(expected.take(n as int) =~= expected);
        }
        let writes: Vec<Vec<Felt>> = vec![a_felts];
        let record = BaseAluCoreRecord {
            opcode: op,
            a: crate::memory::copy_felt_vec(&writes[0]),
            b: crate::memory::copy_felt_vec(&reads[0]),
            c: crate::memory::copy_felt_vec(&reads[1]),
        };
        let ctx = AdapterRuntimeContext { to_pc: None, writes };
        (ctx, record)
    }

    /// Converts one execution record into the cells of one trace row.
    pub fn generate_trace_row(&self, record: BaseAluCoreRecord) -> (r: BaseAluCoreCols)
        ensures
            r.a@ == record.a@,
            r.b@ == record.b@,
            r.c@ == record.c@,
            r.opcode_add_flag.value == (if record.opcode == AluOpcode::ADD { 1int } else { 0int }),
            r.opcode_sub_flag.value == (if record.opcode == AluOpcode::SUB { 1int } else { 0int }),
            r.opcode_xor_flag.value == (if record.opcode == AluOpcode::XOR { 1int } else { 0int }),
            r.opcode_or_flag.value == (if record.opcode == AluOpcode::OR { 1int } else { 0int }),
            r.opcode_and_flag.value == (if record.opcode == AluOpcode::AND { 1int } else { 0int }),
    {
        let flag = |yes: bool| -> (f: Felt)
            ensures
                f.value == (if yes { 1int } else { 0int }),
            { if yes { Felt::one() } else { Felt::zero() } };
        BaseAluCoreCols {
            a: record.a,
            b: record.b,
            c: record.c,
            opcode_add_flag: flag(matches!(record.opcode, AluOpcode::ADD)),
            opcode_sub_flag: flag(matches!(record.opcode, AluOpcode::SUB)),
            opcode_xor_flag: flag(matches!(record.opcode, AluOpcode::XOR)),
            opcode_or_flag: flag(matches!(record.opcode, AluOpcode::OR)),
            opcode_and_flag: flag(matches!(record.opcode, AluOpcode::AND)),
        }
    }

    /// The diagnostic name of a global opcode this core executes.
    pub fn get_opcode_name(&self, opcode: usize) -> (r: String)
        requires
            self.air.offset <= opcode < self.air.offset + 5,
        ensures
            r@ == alu_opcode_name(alu_opcode_of(opcode - self.air.offset)),
    {
        proof {
            reveal_strlit("ADD");
            reveal_strlit("SUB");
            reveal_strlit("XOR");
            reveal_strlit("OR");
            reveal_strlit("AND");
        }
        let name = match AluOpcode::from_usize(opcode - self.air.offset) {
            Some(AluOpcode::ADD) => "ADD",
            Some(AluOpcode::SUB) => "SUB",
            Some(AluOpcode::XOR) => "XOR",
            Some(AluOpcode::OR) => "OR",
            Some(AluOpcode::AND) => "AND",
            None => "ADD",
        };
        name.to_string()
    }

    /// The constraint-side description of this core.
    pub fn air(&self) -> (r: &BaseAluCoreAir)
        ensures
            *r == self.air,
    {
        &self.air
    }
}

/// The diagnostic name of an ALU opcode.
pub open spec fn alu_opcode_name(op: AluOpcode) -> Seq<char> {
    match op {
        AluOpcode::ADD => "ADD"@,
        AluOpcode::SUB => "SUB"@,
        AluOpcode::XOR => "XOR"@,
        AluOpcode::OR => "OR"@,
        AluOpcode::AND => "AND"@,
    }
}

} // verus!
