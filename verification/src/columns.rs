//! Trace-row layouts for the long-multiplication chip, and the auxiliary
//! memory-access columns its rows embed.
//!
//! A width function counts the field cells a row of the layout occupies;
//! the constraint system needs the counts to slice rows.

use vstd::prelude::*;

use crate::arch::ExecutionState;

verus! {

/// Decomposition limbs of the timestamp less-than check carried by every
/// memory-access audit.
pub const TIMESTAMP_LT_AUX_LIMBS: usize = 2;

/// The audit columns of one batched read: the previous timestamp of the
/// touched cells and the limbs proving it is in the past.
#[derive(Clone, Copy, Debug)]
pub struct MemoryReadAuxCols<T> {
    pub prev_timestamp: T,
    pub timestamp_lt_aux: [T; TIMESTAMP_LT_AUX_LIMBS],
}

impl<T> MemoryReadAuxCols<T> {
    /// The number of trace cells the audit occupies.
    pub fn width() -> (r: usize)
        ensures
            r == 1 + TIMESTAMP_LT_AUX_LIMBS,
    {
        1 + TIMESTAMP_LT_AUX_LIMBS
    }
}

/// The audit columns of one batched write: the read audit plus the
/// previous contents of the window.
#[derive(Clone, Copy, Debug)]
pub struct MemoryWriteAuxCols<T, const NUM_LIMBS: usize> {
    pub prev_timestamp: T,
    pub timestamp_lt_aux: [T; TIMESTAMP_LT_AUX_LIMBS],
    pub prev_data: [T; NUM_LIMBS],
}

impl<T, const NUM_LIMBS: usize> MemoryWriteAuxCols<T, NUM_LIMBS> {
    /// The number of trace cells the audit occupies.
    pub fn width() -> (r: usize)
        requires
            NUM_LIMBS <= 4096,
        ensures
            r == 1 + TIMESTAMP_LT_AUX_LIMBS + NUM_LIMBS,
    {
        1 + TIMESTAMP_LT_AUX_LIMBS + NUM_LIMBS
    }
}

/// One memory-resident operand of the multiplication chip: its limbs,
/// its heap address, and the register the address was read from.
#[derive(Clone, Copy, Debug)]
pub struct MemoryData<T, const NUM_LIMBS: usize, const LIMB_BITS: usize> {
    pub data: [T; NUM_LIMBS],
    pub address: T,
    pub ptr_to_address: T,
}

impl<T, const NUM_LIMBS: usize, const LIMB_BITS: usize> MemoryData<T, NUM_LIMBS, LIMB_BITS> {
    /// The number of trace cells the operand occupies.
    pub fn width() -> (r: usize)
        requires
            NUM_LIMBS <= 4096,
        ensures
            r == NUM_LIMBS + 2,
    {
        NUM_LIMBS + 2
    }
}

/// The input/output columns of one long multiplication: the execution
/// state, the three operands, and the two address-space selectors.
#[derive(Clone, Copy, Debug)]
pub struct UintMultiplicationIoCols<T, const NUM_LIMBS: usize, const LIMB_BITS: usize> {
    pub from_state: ExecutionState,
    pub x: MemoryData<T, NUM_LIMBS, LIMB_BITS>,
    pub y: MemoryData<T, NUM_LIMBS, LIMB_BITS>,
    pub z: MemoryData<T, NUM_LIMBS, LIMB_BITS>,
    pub ptr_as: T,
    pub address_as: T,
}

impl<T, const NUM_LIMBS: usize, const LIMB_BITS: usize> UintMultiplicationIoCols<
    T,
    NUM_LIMBS,
    LIMB_BITS,
> {
    /// The number of trace cells the input/output block occupies.
    pub fn width() -> (r: usize)
        requires
            NUM_LIMBS <= 4096,
        ensures
            r == 3 * (NUM_LIMBS + 2) + 4,
    {
        2 + 3 * MemoryData::<T, NUM_LIMBS, LIMB_BITS>::width() + 2
    }
}

/// The auxiliary columns of one long multiplication: the validity flag,
/// the schoolbook carries, and the audits of its five memory accesses.
#[derive(Clone, Copy, Debug)]
pub struct UintMultiplicationAuxCols<T, const NUM_LIMBS: usize, const LIMB_BITS: usize> {
    pub is_valid: T,
    pub carry: [T; NUM_LIMBS],
    pub read_ptr_aux_cols: [MemoryReadAuxCols<T>; 3],
    pub read_x_aux_cols: MemoryReadAuxCols<T>,
    pub read_y_aux_cols: MemoryReadAuxCols<T>,
    pub write_z_aux_cols: MemoryWriteAuxCols<T, NUM_LIMBS>,
}

impl<T, const NUM_LIMBS: usize, const LIMB_BITS: usize> UintMultiplicationAuxCols<
    T,
    NUM_LIMBS,
    LIMB_BITS,
> {
    /// The number of trace cells the auxiliary block occupies.
    pub fn width() -> (r: usize)
        requires
            NUM_LIMBS <= 4096,
        ensures
            r == 2 * NUM_LIMBS + 19,
    {
        1 + NUM_LIMBS + 3 * MemoryReadAuxCols::<T>::width() + MemoryReadAuxCols::<T>::width()
            + MemoryReadAuxCols::<T>::width() + MemoryWriteAuxCols::<T, NUM_LIMBS>::width()
    }
}

/// One whole trace row of the long-multiplication chip.
#[derive(Clone, Copy, Debug)]
pub struct UintMultiplicationCols<T, const NUM_LIMBS: usize, const LIMB_BITS: usize> {
    pub io: UintMultiplicationIoCols<T, NUM_LIMBS, LIMB_BITS>,
    pub aux: UintMultiplicationAuxCols<T, NUM_LIMBS, LIMB_BITS>,
}

impl<T, const NUM_LIMBS: usize, const LIMB_BITS: usize> UintMultiplicationCols<
    T,
    NUM_LIMBS,
    LIMB_BITS,
> {
    /// The number of trace cells one whole row occupies.
    pub fn width() -> (r: usize)
        requires
            NUM_LIMBS <= 4096,
        ensures
            r == 5 * NUM_LIMBS + 29,
    {
        UintMultiplicationAuxCols::<T, NUM_LIMBS, LIMB_BITS>::width() + UintMultiplicationIoCols::<
            T,
            NUM_LIMBS,
            LIMB_BITS,
        >::width()
    }
}

} // verus!
