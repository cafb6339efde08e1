//! The field-arithmetic core: one trace row per arithmetic operation
//! over single field elements, with the auxiliary cells — selectors,
//! products, quotients and the divisor's inverse — that the constraint
//! system checks the result against.

use vstd::prelude::*;

use crate::field::{Felt, MODULUS};
use crate::memory::is_power_of_two;

verus! {

/// The opcode number of the first field-arithmetic operation.
pub const BASE_OP: u32 = 6;

/// The four field-arithmetic opcodes, in opcode-number order.
#[derive(Clone, Copy, Debug, PartialEq, Eq, Structural)]
#[allow(non_camel_case_types)]
pub enum FieldArithmeticOpcode {
    FADD,
    FSUB,
    FMUL,
    FDIV,
}

/// The index of an opcode above the base opcode number.
pub open spec fn op_index(op: FieldArithmeticOpcode) -> int {
    match op {
        FieldArithmeticOpcode::FADD => 0,
        FieldArithmeticOpcode::FSUB => 1,
        FieldArithmeticOpcode::FMUL => 2,
        FieldArithmeticOpcode::FDIV => 3,
    }
}

/// Field addition on canonical values.
pub open spec fn fadd_spec(a: Felt, b: Felt) -> Felt {
    Felt { value: ((a.value + b.value) % (MODULUS as int)) as u32 }
}

/// Field subtraction on canonical values.
pub open spec fn fsub_spec(a: Felt, b: Felt) -> Felt {
    Felt { value: ((a.value - b.value) % (MODULUS as int)) as u32 }
}

/// Field multiplication on canonical values.
pub open spec fn fmul_spec(a: Felt, b: Felt) -> Felt {
    Felt { value: ((a.value * b.value) % (MODULUS as int)) as u32 }
}

/// The multiplicative inverse as a canonical value.
pub open spec fn finv_spec(a: Felt) -> Felt {
    Felt { value: Felt::inv_spec(a) as u32 }
}

/// One executed arithmetic operation, as recorded by the machine.
#[derive(Clone, Copy, Debug, PartialEq, Eq, Structural)]
pub struct ArithmeticOperation {
    pub opcode: FieldArithmeticOpcode,
    pub operand1: Felt,
    pub operand2: Felt,
}

/// The input/output cells of one row.
#[derive(Clone, Copy, Debug, PartialEq, Eq, Structural)]
pub struct FieldArithmeticIoCols {
    pub rcv_count: Felt,
    pub opcode: Felt,
    pub x: Felt,
    pub y: Felt,
    pub z: Felt,
}

/// The auxiliary cells of one row.
#[derive(Clone, Copy, Debug, PartialEq, Eq, Structural)]
pub struct FieldArithmeticAuxCols {
    pub opcode_lo: Felt,
    pub opcode_hi: Felt,
    pub is_mul: Felt,
    pub is_div: Felt,
    pub sum_or_diff: Felt,
    pub product: Felt,
    pub quotient: Felt,
    pub divisor_inv: Felt,
}

/// One whole trace row of the field-arithmetic chip.
#[derive(Clone, Copy, Debug, PartialEq, Eq, Structural)]
pub struct FieldArithmeticCols {
    pub io: FieldArithmeticIoCols,
    pub aux: FieldArithmeticAuxCols,
}

/// The number of cells of one row.
pub const FIELD_ARITHMETIC_NUM_COLS: usize = 13;

/// The row an operation generates: the operands, the result, and every
/// auxiliary value the constraints consume. The quotient and the
/// divisor's inverse are populated only for division.
pub open spec fn cols_of(op: FieldArithmeticOpcode, x: Felt, y: Felt) -> FieldArithmeticCols {
    let zero = Felt { value: 0 };
    let one = Felt { value: 1 };
    let lo = op_index(op) % 2;
    let hi = op_index(op) / 2;
    let opcode_lo = Felt { value: lo as u32 };
    let opcode_hi = Felt { value: hi as u32 };
    let is_mul = if op == FieldArithmeticOpcode::FMUL {
        one
    } else {
        zero
    };
    let is_div = if op == FieldArithmeticOpcode::FDIV {
        one
    } else {
        zero
    };
    let sum_or_diff = fsub_spec(fadd_spec(x, y), fmul_spec(fmul_spec(Felt { value: 2 }, opcode_lo), y));
    let product = fmul_spec(x, y);
    let quotient = if y.value == 0 || op != FieldArithmeticOpcode::FDIV {
        zero
    } else {
        fmul_spec(x, finv_spec(y))
    };
    let divisor_inv = if op != FieldArithmeticOpcode::FDIV {
        zero
    } else {
        finv_spec(y)
    };
    let z = fadd_spec(
        fadd_spec(fmul_spec(is_mul, product), fmul_spec(is_div, quotient)),
        fmul_spec(fsub_spec(one, opcode_hi), sum_or_diff),
    );
    FieldArithmeticCols {
        io: FieldArithmeticIoCols {
            rcv_count: one,
            opcode: Felt { value: (BASE_OP + op_index(op)) as u32 },
            x,
            y,
            z,
        },
        aux: FieldArithmeticAuxCols {
            opcode_lo,
            opcode_hi,
            is_mul,
            is_div,
            sum_or_diff,
            product,
            quotient,
            divisor_inv,
        },
    }
}

/// The all-zero padding row.
pub open spec fn blank_cols() -> FieldArithmeticCols {
    let zero = Felt { value: 0 };
    FieldArithmeticCols {
        io: FieldArithmeticIoCols { rcv_count: zero, opcode: zero, x: zero, y: zero, z: zero },
        aux: FieldArithmeticAuxCols {
            opcode_lo: zero,
            opcode_hi: zero,
            is_mul: zero,
            is_div: zero,
            sum_or_diff: zero,
            product: zero,
            quotient: zero,
            divisor_inv: zero,
        },
    }
}

/// The cells of one row, in trace order.
pub open spec fn flat_cols(c: FieldArithmeticCols) -> Seq<Felt> {
    seq![
        c.io.rcv_count,
        c.io.opcode,
        c.io.x,
        c.io.y,
        c.io.z,
        c.aux.opcode_lo,
        c.aux.opcode_hi,
        c.aux.is_mul,
        c.aux.is_div,
        c.aux.sum_or_diff,
        c.aux.product,
        c.aux.quotient,
        c.aux.divisor_inv,
    ]
}

impl FieldArithmeticCols {
    /// The cells of this row, in trace order.
    pub fn flatten(&self) -> (r: Vec<Felt>)
        ensures
            r@ =~= flat_cols(*self),
    {
        let mut out: Vec<Felt> = Vec::new();
        out.push(self.io.rcv_count);
        out.push(self.io.opcode);
        out.push(self.io.x);
        out.push(self.io.y);
        out.push(self.io.z);
        out.push(self.aux.opcode_lo);
        out.push(self.aux.opcode_hi);
        out.push(self.aux.is_mul);
        out.push(self.aux.is_div);
        out.push(self.aux.sum_or_diff);
        out.push(self.aux.product);
        out.push(self.aux.quotient);
        out.push(self.aux.divisor_inv);
        out
    }

    /// The all-zero padding row.
    pub fn blank_row() -> (r: FieldArithmeticCols)
        ensures
            r == blank_cols(),
    {
        let zero = Felt::zero();
        FieldArithmeticCols {
            io: FieldArithmeticIoCols { rcv_count: zero, opcode: zero, x: zero, y: zero, z: zero },
            aux: FieldArithmeticAuxCols {
                opcode_lo: zero,
                opcode_hi: zero,
                is_mul: zero,
                is_div: zero,
                sum_or_diff: zero,
                product: zero,
                quotient: zero,
                divisor_inv: zero,
            },
        }
    }
}

/// Builds one row of columns, auxiliary cells included, from one
/// operation's opcode and operands.
fn generate_cols(op: FieldArithmeticOpcode, x: Felt, y: Felt) -> (r: FieldArithmeticCols)
    requires
        x.valid(),
        y.valid(),
        op == FieldArithmeticOpcode::FDIV ==> y.value != 0,
    ensures
        r == cols_of(op, x, y),
{
    let one = Felt::one();
    let zero = Felt::zero();
    let (lo, hi): (u32, u32) = match op {
        FieldArithmeticOpcode::FADD => (0, 0),
        FieldArithmeticOpcode::FSUB => (1, 0),
        FieldArithmeticOpcode::FMUL => (0, 1),
        FieldArithmeticOpcode::FDIV => (1, 1),
    };
    let opcode_lo = Felt { value: lo };
    let opcode_hi = Felt { value: hi };
    let is_mul = if matches!(op, FieldArithmeticOpcode::FMUL) {
        one
    } else {
        zero
    };
    let is_div = if matches!(op, FieldArithmeticOpcode::FDIV) {
        one
    } else {
        zero
    };
    let two = Felt { value: 2 };
    let sum_or_diff = x.add(y).sub(two.mul(opcode_lo).mul(y));
    let product = x.mul(y);
    let quotient = if y.is_zero() || !matches!(op, FieldArithmeticOpcode::FDIV) {
        zero
    } else {
        x.mul(y.inverse())
    };
    let divisor_inv = if !matches!(op, FieldArithmeticOpcode::FDIV) {
        zero
    } else {
        y.inverse()
    };
    let z = is_mul.mul(product).add(is_div.mul(quotient)).add(one.sub(opcode_hi).mul(sum_or_diff));
    let opcode_value = match op {
        FieldArithmeticOpcode::FADD => 0u32,
        FieldArithmeticOpcode::FSUB => 1u32,
        FieldArithmeticOpcode::FMUL => 2u32,
        FieldArithmeticOpcode::FDIV => 3u32,
    };
    FieldArithmeticCols {
        io: FieldArithmeticIoCols {
            rcv_count: one,
            opcode: Felt { value: BASE_OP + opcode_value },
            x,
            y,
            z,
        },
        aux: FieldArithmeticAuxCols {
            opcode_lo,
            opcode_hi,
            is_mul,
            is_div,
            sum_or_diff,
            product,
            quotient,
            divisor_inv,
        },
    }
}

/// The smallest power of two at or above `n` (one, for an empty trace).
fn next_power_of_two(n: usize) -> (r: usize)
    requires
        n <= 0x0400_0000,
    ensures
        is_power_of_two(r as nat),
        r >= n,
        n >= 1 ==> r < 2 * n,
        n == 0 ==> r == 1,
{
    let mut r: usize = 1;
    while r < n
        invariant
            n <= 0x0400_0000,
            1 <= r <= 0x0800_0000,
            is_power_of_two(r as nat),
            r < 2 * n || n <= 1,
            n <= 1 ==> r == 1,
        decreases 2 * n - r,
    {
        r = r * 2;
    }
    r
}

/// The constraint-side description of the field-arithmetic chip.
#[derive(Clone, Copy, Debug, PartialEq, Eq, Structural)]
pub struct FieldArithmeticAir {
    pub bus_index: usize,
}

impl FieldArithmeticAir {
    /// The whole trace of the chip, row-major: one row per executed
    /// operation, padded with blank rows to the next power of two.
    pub fn generate_trace(&self, arithmetic_ops: &Vec<ArithmeticOperation>) -> (r: Vec<Felt>)
        requires
            arithmetic_ops@.len() <= 0x0400_0000,
            forall|i: int|
                0 <= i < arithmetic_ops@.len() ==> (#[trigger] arithmetic_ops@[i]).operand1.valid()
                    && arithmetic_ops@[i].operand2.valid() && (arithmetic_ops@[i].opcode
                    == FieldArithmeticOpcode::FDIV ==> arithmetic_ops@[i].operand2.value != 0),
        ensures
            exists|rows: nat|
                {
                    &&& is_power_of_two(rows)
                    &&& rows >= arithmetic_ops@.len()
                    &&& (arithmetic_ops@.len() >= 1 ==> rows < 2 * arithmetic_ops@.len())
                    &&& (arithmetic_ops@.len() == 0 ==> rows == 1)
                    &&& r@.len() == rows * FIELD_ARITHMETIC_NUM_COLS
                    &&& (forall|i: int|
                        0 <= i < arithmetic_ops@.len() ==> #[trigger] r@.subrange(
                            i * FIELD_ARITHMETIC_NUM_COLS,
                            i * FIELD_ARITHMETIC_NUM_COLS + FIELD_ARITHMETIC_NUM_COLS,
                        ) == flat_cols(
                            cols_of(
                                arithmetic_ops@[i].opcode,
                                arithmetic_ops@[i].operand1,
                                arithmetic_ops@[i].operand2,
                            ),
                        ))
                    &&& (forall|i: int|
                        arithmetic_ops@.len() <= i < rows ==> #[trigger] r@.subrange(
                            i * FIELD_ARITHMETIC_NUM_COLS,
                            i * FIELD_ARITHMETIC_NUM_COLS + FIELD_ARITHMETIC_NUM_COLS,
                        ) == flat_cols(blank_cols()))
                },
    {
        let n = arithmetic_ops.len();
        let rows = next_power_of_two(n);
        let mut out: Vec<Felt> = Vec::new();
        let mut i: usize = 0;
        while i < rows
            invariant
                n == arithmetic_ops@.len(),
                n <= 0x0400_0000,
                forall|j: int|
                    0 <= j < arithmetic_ops@.len() ==> (
                    #[trigger] arithmetic_ops@[j]).operand1.valid()
                        && arithmetic_ops@[j].operand2.valid() && (arithmetic_ops@[j].opcode
                        == FieldArithmeticOpcode::FDIV ==> arithmetic_ops@[j].operand2.value != 0),
                rows <= 0x0800_0000,
                n <= rows,
                0 <= i <= rows,
                out@.len() == i * FIELD_ARITHMETIC_NUM_COLS,
                forall|j: int|
                    0 <= j < i && j < n ==> #[trigger] out@.subrange(
                        j * FIELD_ARITHMETIC_NUM_COLS,
                        j * FIELD_ARITHMETIC_NUM_COLS + FIELD_ARITHMETIC_NUM_COLS,
                    ) == flat_cols(
                        cols_of(
                            arithmetic_ops@[j].opcode,
                            arithmetic_ops@[j].operand1,
                            arithmetic_ops@[j].operand2,
                        ),
                    ),
                forall|j: int|
                    n <= j < i ==> #[trigger] out@.subrange(
                        j * FIELD_ARITHMETIC_NUM_COLS,
                        j * FIELD_ARITHMETIC_NUM_COLS + FIELD_ARITHMETIC_NUM_COLS,
                    ) == flat_cols(blank_cols()),
            decreases rows - i,
        {
            let cols = if i < n {
                let op = arithmetic_ops[i];
                generate_cols(op.opcode, op.operand1, op.operand2)
            } else {
                FieldArithmeticCols::blank_row()
            };
            let mut row_cells = cols.flatten();
            let ghost old_out = out@;
            out.append(&mut row_cells);
            proof {
                assert(out@ =~= old_out + flat_cols(cols));
                assert forall|j: int|
                    0 <= j < i + 1 && j < n implies #[trigger] out@.subrange(
                    j * FIELD_ARITHMETIC_NUM_COLS,
                    j * FIELD_ARITHMETIC_NUM_COLS + FIELD_ARITHMETIC_NUM_COLS,
                ) == flat_cols(
                    cols_of(
                        arithmetic_ops@[j].opcode,
                        arithmetic_ops@[j].operand1,
                        arithmetic_ops@[j].operand2,
                    ),
                ) by {
                    lemma_row_bounds(j, i as int, n as int);
                    if j < i {
                        assert(out@.subrange(
                            j * FIELD_ARITHMETIC_NUM_COLS,
                            j * FIELD_ARITHMETIC_NUM_COLS + FIELD_ARITHMETIC_NUM_COLS,
                        ) =~= old_out.subrange(
                            j * FIELD_ARITHMETIC_NUM_COLS,
                            j * FIELD_ARITHMETIC_NUM_COLS + FIELD_ARITHMETIC_NUM_COLS,
                        ));
                    } else {
                        assert(out@.subrange(
                            j * FIELD_ARITHMETIC_NUM_COLS,
                            j * FIELD_ARITHMETIC_NUM_COLS + FIELD_ARITHMETIC_NUM_COLS,
                        ) =~= flat_cols(cols));
                    }
                }
                assert forall|j: int|
                    n <= j < i + 1 implies #[trigger] out@.subrange(
                    j * FIELD_ARITHMETIC_NUM_COLS,
                    j * FIELD_ARITHMETIC_NUM_COLS + FIELD_ARITHMETIC_NUM_COLS,
                ) == flat_cols(blank_cols()) by {
                    lemma_row_bounds(j, i as int, n as int);
                    if j < i {
                        assert(out@.subrange(
                            j * FIELD_ARITHMETIC_NUM_COLS,
                            j * FIELD_ARITHMETIC_NUM_COLS + FIELD_ARITHMETIC_NUM_COLS,
                        ) =~= old_out.subrange(
                            j * FIELD_ARITHMETIC_NUM_COLS,
                            j * FIELD_ARITHMETIC_NUM_COLS + FIELD_ARITHMETIC_NUM_COLS,
                        ));
                    } else {
                        assert(out@.subrange(
                            j * FIELD_ARITHMETIC_NUM_COLS,
                            j * FIELD_ARITHMETIC_NUM_COLS + FIELD_ARITHMETIC_NUM_COLS,
                        ) =~= flat_cols(cols));
                    }
                }
            }
            i += 1;
        }
        out
    }
}

/// Row index arithmetic: each row's cell range sits inside the trace.
proof fn lemma_row_bounds(j: int, i: int, n: int)
    requires
        0 <= j <= i,
        0 <= i,
    ensures
        0 <= j * FIELD_ARITHMETIC_NUM_COLS,
        j < i ==> j * FIELD_ARITHMETIC_NUM_COLS + FIELD_ARITHMETIC_NUM_COLS <= i
            * FIELD_ARITHMETIC_NUM_COLS,
        j == i ==> j * FIELD_ARITHMETIC_NUM_COLS == i * FIELD_ARITHMETIC_NUM_COLS,
{
    assert(0 <= j * FIELD_ARITHMETIC_NUM_COLS && (j < i ==> j * FIELD_ARITHMETIC_NUM_COLS
        + FIELD_ARITHMETIC_NUM_COLS <= i * FIELD_ARITHMETIC_NUM_COLS)) by (nonlinear_arith)
        requires
            0 <= j <= i;
}

} // verus!
