//! The final-page constraint description: the column counts of the air
//! that audits a finalized memory page, with a sorted-index comparison
//! over decomposed index limbs.

use vstd::prelude::*;

verus! {

/// The trace cells one tuple comparison needs: for each element of the
/// tuple, a strict-comparison slot, an equality slot and its range
/// decomposition of `ceil(bits / decomp)` limbs.
pub open spec fn is_less_than_tuple_aux_width_spec(bits: nat, decomp: nat, len: nat) -> int {
    len * (2 + ((bits + decomp - 1) as int) / (decomp as int))
}

/// The trace cells one tuple comparison needs.
pub fn is_less_than_tuple_aux_width(idx_limb_bits: usize, idx_decomp: usize, idx_len: usize) -> (r:
    usize)
    requires
        0 < idx_decomp <= 64,
        idx_limb_bits <= 64,
        idx_len <= 4096,
    ensures
        r == is_less_than_tuple_aux_width_spec(
            idx_limb_bits as nat,
            idx_decomp as nat,
            idx_len as nat,
        ),
        r <= 274432,
{
    proof {
        assert(((idx_limb_bits + idx_decomp - 1) as int) / (idx_decomp as int) <= 65) by {
            vstd::arithmetic::div_mod::lemma_div_is_ordered(
                (idx_limb_bits + idx_decomp - 1) as int,
                65 * (idx_decomp as int),
                idx_decomp as int,
            );
            vstd::arithmetic::div_mod::lemma_div_multiples_vanish(65, idx_decomp as int);
        };
        assert((idx_len as int) * (2 + ((idx_limb_bits + idx_decomp - 1) as int) / (
        idx_decomp as int)) <= 4096 * 67) by (nonlinear_arith)
            requires
                idx_len <= 4096,
                0 <= ((idx_limb_bits + idx_decomp - 1) as int) / (idx_decomp as int) <= 65;
        assert(0 <= ((idx_limb_bits + idx_decomp - 1) as int) / (idx_decomp as int)) by {
            vstd::arithmetic::div_mod::lemma_div_pos_is_pos(
                (idx_limb_bits + idx_decomp - 1) as int,
                idx_decomp as int,
            );
        };
    }
    idx_len * (2 + (idx_limb_bits + idx_decomp - 1) / idx_decomp)
}

/// The constraint description of the final-page audit: the page layout
/// (index and data column counts) and the comparison parameters for the
/// sortedness check over index limbs.
#[derive(Clone, Copy, Debug, PartialEq, Eq, Structural)]
pub struct FinalPageAir {
    pub range_bus_index: usize,
    /// Number of index columns of the page.
    pub idx_len: usize,
    /// Number of data columns of the page.
    pub data_len: usize,
    /// Bits per index limb.
    pub idx_limb_bits: usize,
    /// Range-check decomposition width for the comparison.
    pub idx_decomp: usize,
}

impl FinalPageAir {
    /// Shapes under which the column counts stay small.
    pub open spec fn wf(&self) -> bool {
        &&& 0 < self.idx_decomp <= 64
        &&& self.idx_limb_bits <= 64
        &&& self.idx_len <= 4096
        &&& self.data_len <= 4096
    }

    pub fn new(
        range_bus_index: usize,
        idx_len: usize,
        data_len: usize,
        idx_limb_bits: usize,
        idx_decomp: usize,
    ) -> (r: FinalPageAir)
        ensures
            r == (FinalPageAir { range_bus_index, idx_len, data_len, idx_limb_bits, idx_decomp }),
    {
        FinalPageAir { range_bus_index, idx_len, data_len, idx_limb_bits, idx_decomp }
    }

    /// The cells of one page row: the allocation flag, the index columns
    /// and the data columns.
    pub fn page_width(&self) -> (r: usize)
        requires
            self.wf(),
        ensures
            r == 1 + self.idx_len + self.data_len,
    {
        1 + self.idx_len + self.data_len
    }

    /// The auxiliary cells of one row: the tuple comparison with the
    /// previous row's index, plus its result slot.
    pub fn aux_width(&self) -> (r: usize)
        requires
            self.wf(),
        ensures
            r == is_less_than_tuple_aux_width_spec(
                self.idx_limb_bits as nat,
                self.idx_decomp as nat,
                self.idx_len as nat,
            ) + 1,
            r <= 274433,
    {
        is_less_than_tuple_aux_width(self.idx_limb_bits, self.idx_decomp, self.idx_len) + 1
    }

    /// All cells of one trace row.
    pub fn air_width(&self) -> (r: usize)
        requires
            self.wf(),
        ensures
            r == 1 + self.idx_len + self.data_len + is_less_than_tuple_aux_width_spec(
                self.idx_limb_bits as nat,
                self.idx_decomp as nat,
                self.idx_len as nat,
            ) + 1,
    {
        self.page_width() + self.aux_width()
    }
}

} // verus!
