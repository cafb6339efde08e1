//! The range-tuple lookup table: a preprocessed trace that enumerates
//! every tuple below a per-coordinate bound, in mixed-radix counting
//! order.

use vstd::prelude::*;

verus! {

/// The product of a sequence of coordinate bounds.
pub open spec fn product_of(s: Seq<u32>) -> int
    decreases s.len(),
{
    if s.len() == 0 {
        1
    } else {
        product_of(s.drop_last()) * s.last()
    }
}

/// Splitting a sequence splits its product.
proof fn lemma_product_split(s: Seq<u32>, i: int)
    requires
        0 <= i <= s.len(),
    ensures
        product_of(s.take(i)) * product_of(s.skip(i)) == product_of(s),
    decreases s.len() - i,
{
    if i == s.len() {
        assert(s.take(i) =~= s);
        assert(s.skip(i) =~= Seq::<u32>::empty());
        assert(product_of(s.take(i)) * 1 == product_of(s));
    } else {
        let dl = s.drop_last();
        lemma_product_split(dl, i);
        assert(dl.take(i) =~= s.take(i));
        assert(s.skip(i).drop_last() =~= dl.skip(i));
        assert(s.skip(i).last() == s.last());
        assert(product_of(s.skip(i)) == product_of(dl.skip(i)) * s.last());
        assert(product_of(s.take(i)) * (product_of(dl.skip(i)) * (s.last() as int)) == (product_of(
            s.take(i),
        ) * product_of(dl.skip(i))) * (s.last() as int)) by (nonlinear_arith);
    }
}

/// A product of bounds that are all at least one is at least one.
proof fn lemma_product_pos(s: Seq<u32>)
    requires
        forall|i: int| 0 <= i < s.len() ==> (#[trigger] s[i]) >= 1,
    ensures
        product_of(s) >= 1,
    decreases s.len(),
{
    if s.len() > 0 {
        lemma_product_pos(s.drop_last());
        assert(product_of(s.drop_last()) * (s.last() as int) >= 1) by (nonlinear_arith)
            requires
                product_of(s.drop_last()) >= 1,
                s.last() >= 1;
    }
}

/// A product of machine-integer bounds is never negative.
proof fn lemma_product_nonneg(s: Seq<u32>)
    ensures
        product_of(s) >= 0,
    decreases s.len(),
{
    if s.len() > 0 {
        lemma_product_nonneg(s.drop_last());
        assert(product_of(s.drop_last()) * (s.last() as int) >= 0) by (nonlinear_arith)
            requires
                product_of(s.drop_last()) >= 0,
                s.last() >= 0;
    }
}

/// A positive product has no zero bound in it.
proof fn lemma_positive_product_elements(s: Seq<u32>)
    requires
        product_of(s) >= 1,
    ensures
        forall|i: int| 0 <= i < s.len() ==> (#[trigger] s[i]) >= 1,
    decreases s.len(),
{
    if s.len() > 0 {
        let dl = s.drop_last();
        lemma_product_nonneg(dl);
        assert(product_of(dl) >= 1 && s.last() >= 1) by (nonlinear_arith)
            requires
                product_of(dl) * (s.last() as int) >= 1,
                product_of(dl) >= 0,
                s.last() >= 0;
        lemma_positive_product_elements(dl);
        assert forall|i: int| 0 <= i < s.len() implies (#[trigger] s[i]) >= 1 by {
            if i < s.len() - 1 {
                assert(s[i] == dl[i]);
            }
        }
    }
}

/// Extending a prefix multiplies its product by the next bound.
proof fn lemma_product_take_step(s: Seq<u32>, i: int)
    requires
        0 <= i < s.len(),
    ensures
        product_of(s.take(i + 1)) == product_of(s.take(i)) * s[i],
{
    assert(s.take(i + 1).drop_last() =~= s.take(i));
    assert(s.take(i + 1).last() == s[i]);
}

/// The interaction bus the tuples are looked up over, with its
/// per-coordinate bounds.
#[derive(Clone, Debug)]
pub struct RangeTupleCheckerBus {
    pub index: usize,
    pub sizes: Vec<u32>,
}

/// The range-tuple lookup table air.
#[derive(Clone, Debug)]
pub struct RangeTupleCheckerAir {
    pub bus: RangeTupleCheckerBus,
}

impl RangeTupleCheckerAir {
    /// Sensible bounds: every running prefix product of the coordinate
    /// bounds fits a 32-bit integer (a zero bound is allowed and gives
    /// an empty table).
    pub open spec fn wf(&self) -> bool {
        &&& forall|i: int|
            0 <= i <= self.bus.sizes@.len() ==> product_of(#[trigger] self.bus.sizes@.take(i))
                <= 0xffff_ffff
        &&& self.bus.sizes@.len() <= 64
    }

    /// The number of rows of the table: one per tuple, the product of
    /// the per-coordinate bounds.
    pub fn height(&self) -> (r: u32)
        requires
            self.wf(),
        ensures
            r == product_of(self.bus.sizes@),
    {
        let n = self.bus.sizes.len();
        let mut acc: u32 = 1;
        let mut i: usize = 0;
        proof {
            assert(self.bus.sizes@.take(0int) =~= Seq::<u32>::empty());
        }
        while i < n
            invariant
                self.wf(),
                n == self.bus.sizes@.len(),
                0 <= i <= n,
                acc == product_of(self.bus.sizes@.take(i as int)),
            decreases n - i,
        {
            proof {
                lemma_product_take_step(self.bus.sizes@, i as int);
                lemma_product_nonneg(self.bus.sizes@.take(i + 1));
            }
            acc = acc * self.bus.sizes[i];
            i += 1;
        }
        proof {
            assert(self.bus.sizes@.take(n as int) =~= self.bus.sizes@);
        }
        acc
    }

    /// The product of the coordinate bounds after position `from`.
    fn suffix_product(&self, from: usize) -> (r: u32)
        requires
            self.wf(),
            forall|i: int| 0 <= i < self.bus.sizes@.len() ==> (#[trigger] self.bus.sizes@[i]) >= 1,
            from <= self.bus.sizes@.len(),
        ensures
            r == product_of(self.bus.sizes@.skip(from as int)),
            r >= 1,
    {
        let n = self.bus.sizes.len();
        let ghost sub = self.bus.sizes@.skip(from as int);
        let mut acc: u32 = 1;
        let mut i: usize = from;
        proof {
            assert(sub.take(0int) =~= Seq::<u32>::empty());
            assert forall|j: int| 0 <= j < sub.len() implies (#[trigger] sub[j]) >= 1 by {
                assert(sub[j] == self.bus.sizes@[j + from]);
            }
        }
        while i < n
            invariant
                self.wf(),
                n == self.bus.sizes@.len(),
                forall|j: int| 0 <= j < self.bus.sizes@.len() ==> (#[trigger] self.bus.sizes@[j])
                    >= 1,
                from <= i <= n,
                sub == self.bus.sizes@.skip(from as int),
                forall|j: int| 0 <= j < sub.len() ==> (#[trigger] sub[j]) >= 1,
                acc == product_of(sub.take(i - from)),
            decreases n - i,
        {
            proof {
                assert(self.bus.sizes@.take(n as int) =~= self.bus.sizes@);
                assert(sub[i - from] == self.bus.sizes@[i as int]);
                lemma_product_take_step(sub, i - from);
                lemma_product_split(sub, i - from + 1);
                lemma_product_pos(sub.take(i - from + 1));
                lemma_product_pos(sub.skip(i - from + 1));
                assert(product_of(sub.take(i - from + 1)) <= product_of(sub)) by (nonlinear_arith)
                    requires
                        product_of(sub.take(i - from + 1)) * product_of(sub.skip(i - from + 1))
                            == product_of(sub),
                        product_of(sub.skip(i - from + 1)) >= 1,
                        product_of(sub.take(i - from + 1)) >= 1;
                lemma_product_split(self.bus.sizes@, from as int);
                lemma_product_pos(self.bus.sizes@.take(from as int));
                assert(product_of(sub) <= product_of(self.bus.sizes@)) by (nonlinear_arith)
                    requires
                        product_of(self.bus.sizes@.take(from as int)) * product_of(sub)
                            == product_of(self.bus.sizes@),
                        product_of(self.bus.sizes@.take(from as int)) >= 1,
                        product_of(sub) >= 1;
            }
            acc = acc * self.bus.sizes[i];
            i += 1;
        }
        proof {
            assert(sub.take(n - from) =~= sub);
            lemma_product_pos(sub);
        }
        acc
    }

    /// The preprocessed lookup table, row-major: row `r` holds the
    /// mixed-radix digits of `r` under the coordinate bounds, most
    /// significant first, so the rows enumerate every tuple in counting
    /// order.
    pub fn preprocessed_trace(&self) -> (r: Vec<u32>)
        requires
            self.wf(),
        ensures
            r@.len() == product_of(self.bus.sizes@) * self.bus.sizes@.len(),
            forall|row: int, col: int|
                0 <= row < product_of(self.bus.sizes@) && 0 <= col < self.bus.sizes@.len()
                    ==> #[trigger] r@[row * self.bus.sizes@.len() + col] == (row / product_of(
                    self.bus.sizes@.skip(col + 1),
                )) % (self.bus.sizes@[col] as int),
    {
        let k = self.bus.sizes.len();
        let height = self.height();
        let mut out: Vec<u32> = Vec::new();
        if height == 0 {
            return out;
        }
        proof {
            lemma_positive_product_elements(self.bus.sizes@);
        }
        let mut row: u32 = 0;
        while row < height
            invariant
                self.wf(),
                forall|j: int| 0 <= j < self.bus.sizes@.len() ==> (#[trigger] self.bus.sizes@[j])
                    >= 1,
                k == self.bus.sizes@.len(),
                height == product_of(self.bus.sizes@),
                0 <= row <= height,
                out@.len() == row * k,
                forall|r0: int, c0: int|
                    0 <= r0 < row && 0 <= c0 < k ==> #[trigger] out@[r0 * k + c0] == (r0
                        / product_of(self.bus.sizes@.skip(c0 + 1))) % (self.bus.sizes@[c0] as int),
            decreases height - row,
        {
            let mut col: usize = 0;
            while col < k
                invariant
                    self.wf(),
                    forall|j: int|
                        0 <= j < self.bus.sizes@.len() ==> (#[trigger] self.bus.sizes@[j]) >= 1,
                    k == self.bus.sizes@.len(),
                    height == product_of(self.bus.sizes@),
                    0 <= row < height,
                    0 <= col <= k,
                    out@.len() == row * k + col,
                    forall|r0: int, c0: int|
                        0 <= r0 < row && 0 <= c0 < k ==> #[trigger] out@[r0 * k + c0] == (r0
                            / product_of(self.bus.sizes@.skip(c0 + 1))) % (
                        self.bus.sizes@[c0] as int),
                    forall|c0: int|
                        0 <= c0 < col ==> #[trigger] out@[row * k + c0] == ((row as int)
                            / product_of(self.bus.sizes@.skip(c0 + 1))) % (
                        self.bus.sizes@[c0] as int),
                decreases k - col,
            {
                let stride = self.suffix_product(col + 1);
                let digit = (row / stride) % self.bus.sizes[col];
                let ghost old_out = out@;
                out.push(digit);
                proof {
                    assert(out@.len() == row * k + col + 1);
                    assert forall|r0: int, c0: int|
                        0 <= r0 < row && 0 <= c0 < k implies #[trigger] out@[r0 * k + c0] == (r0
                        / product_of(self.bus.sizes@.skip(c0 + 1))) % (
                    self.bus.sizes@[c0] as int) by {
                        assert(0 <= r0 * k + c0 < (row as int) * k) by (nonlinear_arith)
                            requires
                                0 <= r0 < row as int,
                                0 <= c0 < k;
                        assert(out@[r0 * k + c0] == old_out[r0 * k + c0]);
                    }
                    assert forall|c0: int|
                        0 <= c0 < col + 1 implies #[trigger] out@[(row as int) * k + c0] == ((
                    row as int) / product_of(self.bus.sizes@.skip(c0 + 1))) % (
                    self.bus.sizes@[c0] as int) by {
                        if c0 < col {
                            assert(out@[(row as int) * k + c0] == old_out[(row as int) * k + c0]);
                        } else {
                            assert(out@[(row as int) * k + c0] == digit);
                        }
                    }
                }
                col += 1;
            }
            proof {
                assert((row as int + 1) * k == (row as int) * k + k) by (nonlinear_arith);
            }
            row = row + 1;
        }
        proof {
            assert(out@.len() == height * k);
        }
        out
    }
}

} // verus!
