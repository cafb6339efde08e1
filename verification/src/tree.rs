//! The Merkle commitment tree over a final memory image.
//!
//! The image is cut into chunks of `CHUNK` consecutive cells; chunks are
//! numbered globally by their address-space and chunk label, and a binary
//! hash tree of configured height summarizes them. Regions that were never
//! written collapse into shared uniform subtrees, so building the tree
//! costs time proportional to the populated chunks times the height, not
//! to the whole address space.

use std::sync::Arc;

use vstd::prelude::*;

use crate::config::MemoryDimensions;
use crate::config::pow2_u64;
use crate::field::Felt;
use crate::memory::copy_felt_vec;
use crate::memory::map_of;

verus! {

use vstd::arithmetic::power2::pow2;

/// The number of consecutive memory cells per tree chunk.
pub const CHUNK: usize = 8;

/// Whether a sequence is a well-shaped chunk digest: `CHUNK` canonical
/// field elements.
pub open spec fn chunk_shaped(s: Seq<Felt>) -> bool {
    s.len() == CHUNK && forall|i: int| 0 <= i < s.len() ==> (#[trigger] s[i]).valid()
}

/// A cryptographic chunk hasher: hashes one chunk of raw cells, and
/// compresses two child digests into one.
///
/// The two spec functions fix what the hash of given data is, so hashing
/// is deterministic; implementations prove their executable code matches.
pub trait Hasher: Sized {
    /// Whether this hasher is ready to use.
    spec fn wf(&self) -> bool;

    /// The digest of one chunk of raw cell values.
    spec fn hash_spec(&self, values: Seq<Felt>) -> Seq<Felt>;

    /// The digest of two child digests.
    spec fn compress_spec(&self, left: Seq<Felt>, right: Seq<Felt>) -> Seq<Felt>;

    /// Digests are themselves well-shaped chunks.
    proof fn hash_spec_shape(&self, values: Seq<Felt>)
        ensures
            chunk_shaped(self.hash_spec(values)),
    ;

    /// Compressed digests are themselves well-shaped chunks.
    proof fn compress_spec_shape(&self, left: Seq<Felt>, right: Seq<Felt>)
        ensures
            chunk_shaped(self.compress_spec(left, right)),
    ;

    /// Hashes one chunk of raw cell values.
    fn hash(&self, values: &Vec<Felt>) -> (r: Vec<Felt>)
        requires
            self.wf(),
            chunk_shaped(values@),
        ensures
            r@ == self.hash_spec(values@),
    ;

    /// Compresses two child digests.
    fn compress(&self, left: &Vec<Felt>, right: &Vec<Felt>) -> (r: Vec<Felt>)
        requires
            self.wf(),
            chunk_shaped(left@),
            chunk_shaped(right@),
        ensures
            r@ == self.compress_spec(left@, right@),
    ;
}

/// One node of the commitment tree. Leaves hold a chunk digest; inner
/// nodes hold the compression of their children's digests and share
/// children by reference counting, so identical subtrees are stored once.
#[derive(Debug, PartialEq)]
pub enum MemoryNode {
    Leaf { values: Vec<Felt> },
    NonLeaf { hash: Vec<Felt>, left: Arc<MemoryNode>, right: Arc<MemoryNode> },
}

/// The digest a node summarizes its subtree with, through a reference.
pub open spec fn node_hash_of(n: &MemoryNode) -> Seq<Felt> {
    node_hash(*n)
}

/// The digest a node summarizes its subtree with.
pub open spec fn node_hash(n: MemoryNode) -> Seq<Felt> {
    match n {
        MemoryNode::Leaf { values } => values@,
        MemoryNode::NonLeaf { hash, .. } => hash@,
    }
}

/// Whether a node is the uniform tree of the given height whose leaves
/// all hold `leaf`, with every inner digest the compression of its
/// children's digests.
pub open spec fn is_uniform_tree<H: Hasher>(n: MemoryNode, height: nat, leaf: Seq<Felt>, hs: &H) -> bool
    decreases n,
{
    match n {
        MemoryNode::Leaf { values } => height == 0 && values@ == leaf,
        MemoryNode::NonLeaf { hash, left, right } => {
            &&& height > 0
            &&& is_uniform_tree(*left, (height - 1) as nat, leaf, hs)
            &&& is_uniform_tree(*right, (height - 1) as nat, leaf, hs)
            &&& hash@ == hs.compress_spec(node_hash(*left), node_hash(*right))
        },
    }
}

/// The digest of the uniform tree of a given height and leaf digest.
pub open spec fn uniform_hash_spec<H: Hasher>(height: nat, leaf: Seq<Felt>, hs: &H) -> Seq<Felt>
    decreases height,
{
    if height == 0 {
        leaf
    } else {
        hs.compress_spec(
            uniform_hash_spec((height - 1) as nat, leaf, hs),
            uniform_hash_spec((height - 1) as nat, leaf, hs),
        )
    }
}

/// The digest of a uniform tree is determined by its height and leaf:
/// any two uniform trees of the same height over the same leaf digest
/// carry the same hash everywhere.
pub proof fn lemma_uniform_tree_hash<H: Hasher>(n: &MemoryNode, height: nat, leaf: Seq<Felt>, hs: &H)
    requires
        is_uniform_tree(*n, height, leaf, hs),
    ensures
        node_hash(*n) == uniform_hash_spec(height, leaf, hs),
    decreases *n,
{
    match n {
        MemoryNode::Leaf { values } => {},
        MemoryNode::NonLeaf { hash, left, right } => {
            lemma_uniform_tree_hash(&**left, (height - 1) as nat, leaf, hs);
            lemma_uniform_tree_hash(&**right, (height - 1) as nat, leaf, hs);
        },
    }
}

/// Uniform digests are well-shaped chunks whenever the leaf digest is.
pub proof fn lemma_uniform_hash_shape<H: Hasher>(height: nat, leaf: Seq<Felt>, hs: &H)
    requires
        chunk_shaped(leaf),
    ensures
        chunk_shaped(uniform_hash_spec(height, leaf, hs)),
    decreases height,
{
    if height > 0 {
        lemma_uniform_hash_shape((height - 1) as nat, leaf, hs);
        hs.compress_spec_shape(
            uniform_hash_spec((height - 1) as nat, leaf, hs),
            uniform_hash_spec((height - 1) as nat, leaf, hs),
        );
    }
}

impl MemoryNode {
    /// The digest this node summarizes its subtree with, for leaves and
    /// inner nodes alike.
    pub fn hash(&self) -> (r: Vec<Felt>)
        ensures
            r@ == node_hash(*self),
    {
        match self {
            MemoryNode::Leaf { values } => copy_felt_vec(values),
            MemoryNode::NonLeaf { hash, .. } => copy_felt_vec(hash),
        }
    }

    /// A leaf holding the given chunk digest.
    pub fn new_leaf(values: Vec<Felt>) -> (r: MemoryNode)
        ensures
            r == (MemoryNode::Leaf { values }),
    {
        MemoryNode::Leaf { values }
    }

    /// An inner node over two children, with its digest the compression
    /// of theirs.
    pub fn new_nonleaf<H: Hasher>(left: Arc<MemoryNode>, right: Arc<MemoryNode>, hasher: &H) -> (r:
        MemoryNode)
        requires
            hasher.wf(),
            chunk_shaped(node_hash(*left)),
            chunk_shaped(node_hash(*right)),
        ensures
            r matches MemoryNode::NonLeaf { hash, left: l, right: rt } && hash@
                == hasher.compress_spec(node_hash(*left), node_hash(*right)) && l == left && rt
                == right,
    {
        let lh = left.hash();
        let rh = right.hash();
        let hash = hasher.compress(&lh, &rh);
        MemoryNode::NonLeaf { hash, left, right }
    }

    /// The uniform tree of the given height with every leaf holding
    /// `leaf_value`; one shared child per level, so it allocates one node
    /// per level.
    pub fn construct_uniform<H: Hasher>(height: usize, leaf_value: &Vec<Felt>, hasher: &H) -> (r:
        MemoryNode)
        requires
            hasher.wf(),
            chunk_shaped(leaf_value@),
        ensures
            is_uniform_tree(r, height as nat, leaf_value@, hasher),
        decreases height,
    {
        if height == 0 {
            Self::new_leaf(copy_felt_vec(leaf_value))
        } else {
            let child = Arc::new(Self::construct_uniform(height - 1, leaf_value, hasher));
            proof {
                lemma_uniform_tree_hash(&*child, (height - 1) as nat, leaf_value@, hasher);
                lemma_uniform_hash_shape((height - 1) as nat, leaf_value@, hasher);
            }
            let child_hash = child.hash();
            let hash = hasher.compress(&child_hash, &child_hash);
            MemoryNode::NonLeaf { hash, left: child.clone(), right: child }
        }
    }
}

/// The address space a packed memory key belongs to.
pub open spec fn space_of_key(k: u64) -> u32 {
    (k / 0x1_0000_0000) as u32
}

/// The pointer a packed memory key addresses.
pub open spec fn ptr_of_key(k: u64) -> int {
    (k % 0x1_0000_0000) as int
}

/// Packing an address and taking it apart again round-trips.
pub proof fn lemma_key_decompose(s: u32, p: int)
    requires
        0 <= p < 0x1_0000_0000,
    ensures
        space_of_key(crate::memory::key_spec(s, p)) == s,
        ptr_of_key(crate::memory::key_spec(s, p)) == p,
{
    assert(s * 0x1_0000_0000 + p < 0x1_0000_0000_0000_0000 && 0 <= s * 0x1_0000_0000) by (nonlinear_arith)
        requires
            s < 0x1_0000_0000,
            0 <= p < 0x1_0000_0000;
    let k = crate::memory::key_spec(s, p) as int;
    vstd::arithmetic::div_mod::lemma_fundamental_div_mod_converse(
        k,
        0x1_0000_0000,
        s as int,
        p,
    );
}

/// Whether an address lies inside the configured geometry.
pub open spec fn addr_in_dims(dims: MemoryDimensions, s: u32, p: int) -> bool {
    &&& dims.as_offset <= s < dims.as_offset + pow2(dims.as_height as nat)
    &&& 0 <= p < CHUNK * pow2(dims.address_height as nat)
}

/// Whether every populated cell of a mapping lies inside the geometry.
/// Behaviour on images that break this is upstream-validated and out of
/// scope here.
pub open spec fn image_in_dims(m: Map<u64, Felt>, dims: MemoryDimensions) -> bool {
    forall|k: u64| #[trigger] m.dom().contains(k) ==> addr_in_dims(dims, space_of_key(k), ptr_of_key(k))
}

/// The global index of the chunk an address belongs to.
pub open spec fn chunk_index_of(dims: MemoryDimensions, s: u32, p: int) -> int {
    (s - dims.as_offset) * pow2(dims.address_height as nat) + p / (CHUNK as int)
}

/// The global index of the chunk a packed key belongs to.
pub open spec fn chunk_index_of_key(dims: MemoryDimensions, k: u64) -> int {
    chunk_index_of(dims, space_of_key(k), ptr_of_key(k))
}

/// The address space the chunk with a given global index lies in.
pub open spec fn space_of_index(dims: MemoryDimensions, idx: int) -> u32 {
    (dims.as_offset + idx / (pow2(dims.address_height as nat) as int)) as u32
}

/// The chunk number, inside its address space, of a global index.
pub open spec fn block_of_index(dims: MemoryDimensions, idx: int) -> int {
    idx % (pow2(dims.address_height as nat) as int)
}

/// The raw contents of the chunk with a given global index: its `CHUNK`
/// consecutive cells, absent cells reading zero.
pub open spec fn chunk_at(m: Map<u64, Felt>, dims: MemoryDimensions, idx: int) -> Seq<Felt> {
    Seq::new(
        CHUNK as nat,
        |j: int|
            crate::memory::cell_spec(
                m,
                space_of_index(dims, idx),
                block_of_index(dims, idx) * CHUNK + j,
            ),
    )
}

/// The all-zero chunk.
pub open spec fn zero_chunk() -> Seq<Felt> {
    Seq::new(CHUNK as nat, |j: int| Felt { value: 0 })
}

/// Whether some populated cell of the mapping falls in the chunk with the
/// given global index.
pub open spec fn populated(m: Map<u64, Felt>, dims: MemoryDimensions, idx: int) -> bool {
    exists|k: u64| #[trigger] m.dom().contains(k) && chunk_index_of_key(dims, k) == idx
}

/// An in-geometry address maps to an in-range chunk index, and the index
/// maps back to the same address space and chunk number.
pub proof fn lemma_chunk_geometry(dims: MemoryDimensions, s: u32, p: int)
    requires
        dims.wf(),
        addr_in_dims(dims, s, p),
    ensures
        0 <= chunk_index_of(dims, s, p) < pow2(dims.overall_height_spec()),
        space_of_index(dims, chunk_index_of(dims, s, p)) == s,
        block_of_index(dims, chunk_index_of(dims, s, p)) == p / (CHUNK as int),
{
    let hp = pow2(dims.address_height as nat) as int;
    let hs = pow2(dims.as_height as nat) as int;
    let a = s - dims.as_offset;
    let b = p / (CHUNK as int);
    vstd::arithmetic::power2::lemma_pow2_pos(dims.address_height as nat);
    vstd::arithmetic::power2::lemma_pow2_pos(dims.as_height as nat);
    vstd::arithmetic::power2::lemma_pow2_adds(dims.as_height as nat, dims.address_height as nat);
    assert(0 <= b < hp) by {
        vstd::arithmetic::div_mod::lemma_div_pos_is_pos(p, CHUNK as int);
        assert(p / (CHUNK as int) < hp) by (nonlinear_arith)
            requires
                0 <= p < CHUNK * hp,
                hp >= 1,
                p / (CHUNK as int) * (CHUNK as int) + p % (CHUNK as int) == p,
                0 <= p % (CHUNK as int) < CHUNK,
        {
        }
    };
    let idx = a * hp + b;
    assert(0 <= idx && idx < hs * hp) by (nonlinear_arith)
        requires
            0 <= a < hs,
            0 <= b < hp,
            hp >= 1,
            idx == a * hp + b;
    vstd::arithmetic::div_mod::lemma_fundamental_div_mod_converse(idx, hp, a, b);
}

/// The division facts used when a division is stated through the
/// fundamental identity.
proof fn lemma_div_identity(p: int, d: int)
    requires
        d > 0,
        0 <= p,
    ensures
        p / d * d + p % d == p,
        0 <= p % d < d,
        0 <= p / d,
{
    vstd::arithmetic::div_mod::lemma_fundamental_div_mod(p, d);
    vstd::arithmetic::div_mod::lemma_mod_bound(p, d);
    vstd::arithmetic::div_mod::lemma_div_pos_is_pos(p, d);
    vstd::arithmetic::mul::lemma_mul_is_commutative(p / d, d);
}

/// Under a well-formed geometry, every in-geometry pointer fits 32 bits.
proof fn lemma_dims_pointer_bound(dims: MemoryDimensions)
    requires
        dims.wf(),
    ensures
        CHUNK * pow2(dims.address_height as nat) <= 0x1_0000_0000,
{
    vstd::arithmetic::power2::lemma2_to64();
    if dims.address_height < 29 {
        vstd::arithmetic::power2::lemma_pow2_strictly_increases(dims.address_height as nat, 29);
    }
}

/// Each cell slot `j` of an in-range chunk index is an in-geometry
/// address that maps back to that same chunk index and slot.
pub proof fn lemma_index_cell(dims: MemoryDimensions, idx: int, j: int)
    requires
        dims.wf(),
        0 <= idx < pow2(dims.overall_height_spec()),
        0 <= j < CHUNK,
    ensures
        addr_in_dims(dims, space_of_index(dims, idx), block_of_index(dims, idx) * CHUNK + j),
        chunk_index_of(dims, space_of_index(dims, idx), block_of_index(dims, idx) * CHUNK + j)
            == idx,
        (block_of_index(dims, idx) * CHUNK + j) % (CHUNK as int) == j,
        (block_of_index(dims, idx) * CHUNK + j) / (CHUNK as int) == block_of_index(dims, idx),
{
    let hp = pow2(dims.address_height as nat) as int;
    let hs = pow2(dims.as_height as nat) as int;
    vstd::arithmetic::power2::lemma_pow2_pos(dims.address_height as nat);
    vstd::arithmetic::power2::lemma_pow2_pos(dims.as_height as nat);
    vstd::arithmetic::power2::lemma_pow2_adds(dims.as_height as nat, dims.address_height as nat);
    lemma_div_identity(idx, hp);
    let a = idx / hp;
    let b = idx % hp;
    assert(a < hs) by (nonlinear_arith)
        requires
            idx < hs * hp,
            0 <= b < hp,
            hp >= 1,
            a * hp + b == idx,
            0 <= a;
    let p = b * CHUNK + j;
    assert(0 <= p && p < hp * CHUNK) by (nonlinear_arith)
        requires
            0 <= b < hp,
            0 <= j < CHUNK,
            p == b * CHUNK + j;
    vstd::arithmetic::div_mod::lemma_fundamental_div_mod_converse(p, CHUNK as int, b, j);
    assert(chunk_index_of(dims, space_of_index(dims, idx), p) == a * hp + b);
}

/// Inserting one cell changes only its own chunk, and only at its own
/// slot inside that chunk.
pub proof fn lemma_chunk_at_insert(
    m: Map<u64, Felt>,
    dims: MemoryDimensions,
    k: u64,
    v: Felt,
    idx: int,
)
    requires
        dims.wf(),
        addr_in_dims(dims, space_of_key(k), ptr_of_key(k)),
        0 <= idx < pow2(dims.overall_height_spec()),
    ensures
        idx != chunk_index_of_key(dims, k) ==> chunk_at(m.insert(k, v), dims, idx) =~= chunk_at(
            m,
            dims,
            idx,
        ),
        idx == chunk_index_of_key(dims, k) ==> chunk_at(m.insert(k, v), dims, idx) =~= chunk_at(
            m,
            dims,
            idx,
        ).update(ptr_of_key(k) % (CHUNK as int), v),
{
    let s = space_of_key(k);
    let p = ptr_of_key(k);
    lemma_dims_pointer_bound(dims);
    lemma_chunk_geometry(dims, s, p);
    lemma_div_identity(p, CHUNK as int);
    let before = chunk_at(m, dims, idx);
    let after = chunk_at(m.insert(k, v), dims, idx);
    if idx == chunk_index_of_key(dims, k) {
        let pos = p % (CHUNK as int);
        assert forall|j: int| 0 <= j < CHUNK implies #[trigger] after[j] == before.update(pos, v)[j] by {
            let cell_s = space_of_index(dims, idx);
            let cell_p = block_of_index(dims, idx) * CHUNK + j;
            lemma_index_cell(dims, idx, j);
            crate::memory::lemma_key_injective(cell_s, cell_p, s, p);
            if j == pos {
                assert(block_of_index(dims, idx) == p / (CHUNK as int));
                assert(cell_p == p);
                assert(cell_s == s);
                assert(crate::memory::key_spec(cell_s, cell_p) == k);
            } else {
                if crate::memory::key_spec(cell_s, cell_p) == k {
                    assert(cell_p == p);
                    assert(j == pos);
                }
            }
        }
        assert(after =~= before.update(pos, v));
    } else {
        assert forall|j: int| 0 <= j < CHUNK implies #[trigger] after[j] == before[j] by {
            let cell_s = space_of_index(dims, idx);
            let cell_p = block_of_index(dims, idx) * CHUNK + j;
            lemma_index_cell(dims, idx, j);
            crate::memory::lemma_key_injective(cell_s, cell_p, s, p);
            if crate::memory::key_spec(cell_s, cell_p) == k {
                assert(cell_s == s && cell_p == p);
                assert(chunk_index_of(dims, cell_s, cell_p) == idx);
                assert(chunk_index_of_key(dims, k) == chunk_index_of(dims, s, p));
                assert(false);
            }
        }
        assert(after =~= before);
    }
}

/// A chunk no populated cell falls in holds only zeroes.
pub proof fn lemma_unpopulated_zero(m: Map<u64, Felt>, dims: MemoryDimensions, idx: int)
    requires
        dims.wf(),
        image_in_dims(m, dims),
        0 <= idx < pow2(dims.overall_height_spec()),
        !populated(m, dims, idx),
    ensures
        chunk_at(m, dims, idx) =~= zero_chunk(),
{
    lemma_dims_pointer_bound(dims);
    assert forall|j: int| 0 <= j < CHUNK implies chunk_at(m, dims, idx)[j] == (Felt {
        value: 0,
    }) by {
        let cell_s = space_of_index(dims, idx);
        let cell_p = block_of_index(dims, idx) * CHUNK + j;
        lemma_index_cell(dims, idx, j);
        let k = crate::memory::key_spec(cell_s, cell_p);
        if m.dom().contains(k) {
            lemma_key_decompose(cell_s, cell_p);
            assert(chunk_index_of_key(dims, k) == idx);
            assert(populated(m, dims, idx));
        }
    }
}

/// Whether a node is the commitment tree for the chunk index range
/// `[from, from + 2^height)` of a memory mapping: leaves hold the digest
/// of their chunk's raw contents, inner digests compress their children.
pub open spec fn is_tree_for<H: Hasher>(
    n: MemoryNode,
    m: Map<u64, Felt>,
    dims: MemoryDimensions,
    height: nat,
    from: int,
    hs: &H,
) -> bool
    decreases n,
{
    match n {
        MemoryNode::Leaf { values } => height == 0 && values@ == hs.hash_spec(
            chunk_at(m, dims, from),
        ),
        MemoryNode::NonLeaf { hash, left, right } => {
            &&& height > 0
            &&& is_tree_for(*left, m, dims, (height - 1) as nat, from, hs)
            &&& is_tree_for(*right, m, dims, (height - 1) as nat, from + pow2((height - 1) as nat), hs)
            &&& hash@ == hs.compress_spec(node_hash(*left), node_hash(*right))
        },
    }
}

/// The digest of a commitment tree is a well-shaped chunk.
pub proof fn lemma_tree_for_shape<H: Hasher>(
    n: &MemoryNode,
    m: Map<u64, Felt>,
    dims: MemoryDimensions,
    height: nat,
    from: int,
    hs: &H,
)
    requires
        is_tree_for(*n, m, dims, height, from, hs),
    ensures
        chunk_shaped(node_hash(*n)),
    decreases *n,
{
    match n {
        MemoryNode::Leaf { values } => {
            hs.hash_spec_shape(chunk_at(m, dims, from));
        },
        MemoryNode::NonLeaf { hash, left, right } => {
            hs.compress_spec_shape(node_hash_of(&**left), node_hash_of(&**right));
        },
    }
}

/// Over a range with no populated chunk, the uniform tree whose leaves
/// hold the zero-chunk digest is the commitment tree.
pub proof fn lemma_uniform_is_tree_for<H: Hasher>(
    n: &MemoryNode,
    m: Map<u64, Felt>,
    dims: MemoryDimensions,
    height: nat,
    from: int,
    hs: &H,
)
    requires
        dims.wf(),
        image_in_dims(m, dims),
        is_uniform_tree(*n, height, hs.hash_spec(zero_chunk()), hs),
        0 <= from,
        from + pow2(height) <= pow2(dims.overall_height_spec()),
        forall|idx: int| from <= idx < from + pow2(height) ==> !populated(m, dims, idx),
    ensures
        is_tree_for(*n, m, dims, height, from, hs),
    decreases *n,
{
    vstd::arithmetic::power2::lemma_pow2_pos(height);
    match n {
        MemoryNode::Leaf { values } => {
            assert(from < from + pow2(height));
            lemma_unpopulated_zero(m, dims, from);
            assert(chunk_at(m, dims, from) =~= zero_chunk());
        },
        MemoryNode::NonLeaf { hash, left, right } => {
            vstd::arithmetic::power2::lemma_pow2_unfold(height);
            lemma_uniform_is_tree_for(&**left, m, dims, (height - 1) as nat, from, hs);
            lemma_uniform_is_tree_for(
                &**right,
                m,
                dims,
                (height - 1) as nat,
                from + pow2((height - 1) as nat),
                hs,
            );
        },
    }
}

/// The converse: the commitment tree over a range with no populated chunk
/// is exactly the uniform tree of zero-chunk digests, so untouched
/// regions share the uniform tree's digests.
pub proof fn lemma_tree_for_uniform<H: Hasher>(
    n: &MemoryNode,
    m: Map<u64, Felt>,
    dims: MemoryDimensions,
    height: nat,
    from: int,
    hs: &H,
)
    requires
        dims.wf(),
        image_in_dims(m, dims),
        is_tree_for(*n, m, dims, height, from, hs),
        0 <= from,
        from + pow2(height) <= pow2(dims.overall_height_spec()),
        forall|idx: int| from <= idx < from + pow2(height) ==> !populated(m, dims, idx),
    ensures
        is_uniform_tree(*n, height, hs.hash_spec(zero_chunk()), hs),
    decreases *n,
{
    vstd::arithmetic::power2::lemma_pow2_pos(height);
    match n {
        MemoryNode::Leaf { values } => {
            assert(from < from + pow2(height));
            lemma_unpopulated_zero(m, dims, from);
            assert(chunk_at(m, dims, from) =~= zero_chunk());
        },
        MemoryNode::NonLeaf { hash, left, right } => {
            vstd::arithmetic::power2::lemma_pow2_unfold(height);
            lemma_tree_for_uniform(&**left, m, dims, (height - 1) as nat, from, hs);
            lemma_tree_for_uniform(
                &**right,
                m,
                dims,
                (height - 1) as nat,
                from + pow2((height - 1) as nat),
                hs,
            );
        },
    }
}

/// Whether every value a mapping holds is a canonical field element.
pub open spec fn map_values_valid(m: Map<u64, Felt>) -> bool {
    forall|k: u64| m.dom().contains(k) ==> (#[trigger] m[k]).valid()
}

/// The raw contents of every chunk are well-shaped when the mapping holds
/// canonical values.
proof fn lemma_chunk_at_shaped(m: Map<u64, Felt>, dims: MemoryDimensions, idx: int)
    requires
        map_values_valid(m),
    ensures
        chunk_shaped(chunk_at(m, dims, idx)),
{
}

/// Inserting a cell leaves a chunk index populated exactly when it was
/// already populated or is the inserted cell's chunk.
proof fn lemma_populated_insert(
    m: Map<u64, Felt>,
    dims: MemoryDimensions,
    k: u64,
    v: Felt,
    idx: int,
)
    ensures
        populated(m.insert(k, v), dims, idx) <==> (populated(m, dims, idx) || idx
            == chunk_index_of_key(dims, k)),
{
    if populated(m.insert(k, v), dims, idx) {
        let k2 = choose|k2: u64|
            #[trigger] m.insert(k, v).dom().contains(k2) && chunk_index_of_key(dims, k2) == idx;
        if k2 != k {
            assert(m.dom().contains(k2));
        }
    }
    if populated(m, dims, idx) {
        let k2 = choose|k2: u64|
            #[trigger] m.dom().contains(k2) && chunk_index_of_key(dims, k2) == idx;
        assert(m.insert(k, v).dom().contains(k2));
    }
    if idx == chunk_index_of_key(dims, k) {
        assert(m.insert(k, v).dom().contains(k));
    }
}

/// The partition of a memory mapping into populated chunks: one entry per
/// chunk index in which some cell is populated, carrying that chunk's raw
/// contents.
struct ChunkStore {
    entries: Vec<(u64, Vec<Felt>)>,
}

/// Whether a chunk store is exactly the populated-chunk partition of the
/// mapping `m` under the geometry `dims`.
spec fn chunks_ok(entries: Seq<(u64, Vec<Felt>)>, m: Map<u64, Felt>, dims: MemoryDimensions) -> bool {
    &&& crate::memory::unique_keys(entries)
    &&& forall|i: int|
        0 <= i < entries.len() ==> 0 <= (#[trigger] entries[i]).0 < pow2(
            dims.overall_height_spec(),
        ) && entries[i].1@ == chunk_at(m, dims, entries[i].0 as int)
    &&& forall|idx: int|
        #[trigger] populated(m, dims, idx) ==> exists|i: int|
            0 <= i < entries.len() && (#[trigger] entries[i]).0 as int == idx
}

/// A fresh all-zero chunk.
fn zero_chunk_vec() -> (r: Vec<Felt>)
    ensures
        r@ =~= zero_chunk(),
{
    let mut out: Vec<Felt> = Vec::new();
    let mut i: usize = 0;
    while i < CHUNK
        invariant
            0 <= i <= CHUNK,
            out@.len() == i,
            forall|j: int| 0 <= j < i ==> out@[j] == (Felt { value: 0 }),
        decreases CHUNK - i,
    {
        out.push(Felt::zero());
        i += 1;
    }
    out
}

impl ChunkStore {
    /// The partition of the empty mapping: no chunks.
    fn new() -> (r: ChunkStore)
        ensures
            r.entries@.len() == 0,
    {
        ChunkStore { entries: Vec::new() }
    }

    /// Records one populated cell: after the call the store partitions
    /// the mapping with that cell inserted.
    fn set_cell(
        &mut self,
        idx: u64,
        pos: usize,
        v: Felt,
        Ghost(m): Ghost<Map<u64, Felt>>,
        Ghost(k): Ghost<u64>,
        dims: MemoryDimensions,
    )
        requires
            dims.wf(),
            image_in_dims(m, dims),
            chunks_ok(old(self).entries@, m, dims),
            addr_in_dims(dims, space_of_key(k), ptr_of_key(k)),
            idx as int == chunk_index_of_key(dims, k),
            pos as int == ptr_of_key(k) % (CHUNK as int),
        ensures
            chunks_ok(final(self).entries@, m.insert(k, v), dims),
    {
        proof {
            lemma_chunk_geometry(dims, space_of_key(k), ptr_of_key(k));
            lemma_div_identity(ptr_of_key(k), CHUNK as int);
        }
        let m2: Ghost<Map<u64, Felt>> = Ghost(m.insert(k, v));
        let n = self.entries.len();
        let mut i: usize = 0;
        while i < n
            invariant
                n == self.entries@.len(),
                0 <= i <= n,
                *self == *old(self),
                dims.wf(),
                image_in_dims(m, dims),
                chunks_ok(self.entries@, m, dims),
                addr_in_dims(dims, space_of_key(k), ptr_of_key(k)),
                idx as int == chunk_index_of_key(dims, k),
                pos as int == ptr_of_key(k) % (CHUNK as int),
                0 <= pos < CHUNK,
                m2@ == m.insert(k, v),
                forall|j: int| 0 <= j < i ==> (#[trigger] self.entries@[j]).0 != idx,
            decreases n - i,
        {
            if self.entries[i].0 == idx {
                let mut c = copy_felt_vec(&self.entries[i].1);
                proof {
                    assert(self.entries@[i as int].1@ == chunk_at(
                        m,
                        dims,
                        self.entries@[i as int].0 as int,
                    ));
                    assert(c@.len() == CHUNK);
                }
                c.set(pos, v);
                proof {
                    lemma_chunk_at_insert(m, dims, k, v, idx as int);
                    assert(c@ =~= chunk_at(m2@, dims, idx as int));
                }
                self.entries.set(i, (idx, c));
                proof {
                    assert forall|j: int|
                        0 <= j < self.entries@.len() implies 0 <= (#[trigger] self.entries@[j]).0
                        < pow2(dims.overall_height_spec()) && self.entries@[j].1@ == chunk_at(
                        m2@,
                        dims,
                        self.entries@[j].0 as int,
                    ) by {
                        if j != i {
                            assert(self.entries@[j] == old(self).entries@[j]);
                            assert(self.entries@[j].0 != idx);
                            lemma_chunk_at_insert(m, dims, k, v, self.entries@[j].0 as int);
                        }
                    }
                    assert forall|idx2: int| #[trigger] populated(m2@, dims, idx2) implies exists|
                        j: int,
                    | 0 <= j < self.entries@.len() && (#[trigger] self.entries@[j]).0 as int
                        == idx2 by {
                        lemma_populated_insert(m, dims, k, v, idx2);
                        if idx2 == idx as int {
                            assert(self.entries@[i as int].0 as int == idx2);
                        } else {
                            let j = choose|j: int|
                                0 <= j < old(self).entries@.len() && (#[trigger] old(
                                    self,
                                ).entries@[j]).0 as int == idx2;
                            assert(self.entries@[j].0 as int == idx2);
                        }
                    }
                }
                return ;
            }
            i += 1;
        }
        let mut c = zero_chunk_vec();
        c.set(pos, v);
        proof {
            if populated(m, dims, idx as int) {
                let j = choose|j: int|
                    0 <= j < self.entries@.len() && (#[trigger] self.entries@[j]).0 as int
                        == idx as int;
                assert(false);
            }
            lemma_unpopulated_zero(m, dims, idx as int);
            lemma_chunk_at_insert(m, dims, k, v, idx as int);
            assert(c@ =~= chunk_at(m2@, dims, idx as int));
        }
        self.entries.push((idx, c));
        proof {
            assert forall|j: int|
                0 <= j < self.entries@.len() implies 0 <= (#[trigger] self.entries@[j]).0 < pow2(
                dims.overall_height_spec(),
            ) && self.entries@[j].1@ == chunk_at(m2@, dims, self.entries@[j].0 as int) by {
                if j < self.entries@.len() - 1 {
                    assert(self.entries@[j] == old(self).entries@[j]);
                    assert(self.entries@[j].0 != idx);
                    lemma_chunk_at_insert(m, dims, k, v, self.entries@[j].0 as int);
                }
            }
            assert forall|idx2: int| #[trigger] populated(m2@, dims, idx2) implies exists|j: int|
                0 <= j < self.entries@.len() && (#[trigger] self.entries@[j]).0 as int == idx2 by {
                lemma_populated_insert(m, dims, k, v, idx2);
                if idx2 == idx as int {
                    assert(self.entries@[self.entries@.len() - 1].0 as int == idx2);
                } else {
                    let j = choose|j: int|
                        0 <= j < old(self).entries@.len() && (#[trigger] old(
                            self,
                        ).entries@[j]).0 as int == idx2;
                    assert(self.entries@[j].0 as int == idx2);
                }
            }
        }
    }

    /// The raw contents of the chunk with the given global index, reading
    /// all zeroes where nothing is populated.
    fn get_chunk(
        &self,
        idx: u64,
        Ghost(m): Ghost<Map<u64, Felt>>,
        dims: MemoryDimensions,
    ) -> (r: Vec<Felt>)
        requires
            dims.wf(),
            image_in_dims(m, dims),
            chunks_ok(self.entries@, m, dims),
            0 <= (idx as int) < pow2(dims.overall_height_spec()),
        ensures
            r@ =~= chunk_at(m, dims, idx as int),
    {
        let n = self.entries.len();
        let mut i: usize = 0;
        while i < n
            invariant
                n == self.entries@.len(),
                0 <= i <= n,
                chunks_ok(self.entries@, m, dims),
                forall|j: int| 0 <= j < i ==> (#[trigger] self.entries@[j]).0 != idx,
            decreases n - i,
        {
            if self.entries[i].0 == idx {
                return copy_felt_vec(&self.entries[i].1);
            }
            i += 1;
        }
        proof {
            if populated(m, dims, idx as int) {
                let j = choose|j: int|
                    0 <= j < self.entries@.len() && (#[trigger] self.entries@[j]).0 as int
                        == idx as int;
                assert(false);
            }
            lemma_unpopulated_zero(m, dims, idx as int);
        }
        zero_chunk_vec()
    }

    /// Whether no populated chunk falls in the index range `[from, to)`.
    fn range_empty(&self, from: u64, to: u64) -> (r: bool)
        ensures
            r <==> forall|j: int|
                0 <= j < self.entries@.len() ==> !(from <= (#[trigger] self.entries@[j]).0 < to),
    {
        let n = self.entries.len();
        let mut i: usize = 0;
        while i < n
            invariant
                n == self.entries@.len(),
                0 <= i <= n,
                forall|j: int| 0 <= j < i ==> !(from <= (#[trigger] self.entries@[j]).0 < to),
            decreases n - i,
        {
            let key = self.entries[i].0;
            if from <= key && key < to {
                return false;
            }
            i += 1;
        }
        true
    }
}

/// Builds the commitment tree for the chunk index range
/// `[from, from + 2^height)` from the populated-chunk partition. A range
/// with no populated chunk short-circuits into a shared uniform subtree,
/// so the cost is proportional to populated chunks times height.
fn from_memory<H: Hasher>(
    chunks: &ChunkStore,
    height: usize,
    from: u64,
    hasher: &H,
    Ghost(m): Ghost<Map<u64, Felt>>,
    dims: MemoryDimensions,
) -> (r: MemoryNode)
    requires
        dims.wf(),
        hasher.wf(),
        image_in_dims(m, dims),
        map_values_valid(m),
        chunks_ok(chunks.entries@, m, dims),
        height as nat <= dims.overall_height_spec(),
        from + pow2(height as nat) <= pow2(dims.overall_height_spec()),
    ensures
        is_tree_for(r, m, dims, height as nat, from as int, hasher),
    decreases height,
{
    proof {
        vstd::arithmetic::power2::lemma_pow2_pos(height as nat);
        vstd::arithmetic::power2::lemma2_to64();
        vstd::arithmetic::power2::lemma2_to64_rest();
        if dims.overall_height_spec() < 56 {
            vstd::arithmetic::power2::lemma_pow2_strictly_increases(
                dims.overall_height_spec(),
                56,
            );
        }
    }
    if height == 0 {
        let values = chunks.get_chunk(from, Ghost(m), dims);
        proof {
            lemma_chunk_at_shaped(m, dims, from as int);
        }
        MemoryNode::new_leaf(hasher.hash(&values))
    } else {
        let bound = pow2_u64(height);
        if chunks.range_empty(from, from + bound) {
            proof {
                assert forall|idx: int|
                    from <= idx < from + pow2(height as nat) implies !populated(m, dims, idx) by {
                    if populated(m, dims, idx) {
                        let j = choose|j: int|
                            0 <= j < chunks.entries@.len() && (#[trigger] chunks.entries@[j]).0 as int
                                == idx;
                        assert(from <= chunks.entries@[j].0 < from + bound);
                    }
                }
            }
            let zc = zero_chunk_vec();
            let leaf = hasher.hash(&zc);
            proof {
                hasher.hash_spec_shape(zc@);
            }
            let r = MemoryNode::construct_uniform(height, &leaf, hasher);
            proof {
                assert(leaf@ == hasher.hash_spec(zero_chunk()));
                lemma_uniform_is_tree_for(&r, m, dims, height as nat, from as int, hasher);
            }
            r
        } else {
            let half = pow2_u64(height - 1);
            proof {
                vstd::arithmetic::power2::lemma_pow2_unfold(height as nat);
            }
            let left = Arc::new(
                from_memory(chunks, height - 1, from, hasher, Ghost(m), dims),
            );
            let right = Arc::new(
                from_memory(chunks, height - 1, from + half, hasher, Ghost(m), dims),
            );
            proof {
                lemma_tree_for_shape(&*left, m, dims, (height - 1) as nat, from as int, hasher);
                lemma_tree_for_shape(
                    &*right,
                    m,
                    dims,
                    (height - 1) as nat,
                    from as int + half as int,
                    hasher,
                );
            }
            MemoryNode::new_nonleaf(left, right, hasher)
        }
    }
}

impl MemoryNode {
    /// The commitment tree over a whole finalized memory image: cells are
    /// grouped into chunks keyed by their address-space and chunk label,
    /// and the tree of the configured overall height summarizes them,
    /// with untouched regions shared as uniform subtrees.
    pub fn tree_from_memory<H: Hasher>(
        memory_dimensions: MemoryDimensions,
        memory: &crate::memory::MemoryImage,
        hasher: &H,
    ) -> (r: MemoryNode)
        requires
            memory_dimensions.wf(),
            hasher.wf(),
            memory.wf(),
            memory.values_valid(),
            image_in_dims(memory@, memory_dimensions),
        ensures
            is_tree_for(
                r,
                memory@,
                memory_dimensions,
                memory_dimensions.overall_height_spec(),
                0,
                hasher,
            ),
    {
        let dims = memory_dimensions;
        let entries = memory.to_entries();
        let mut store = ChunkStore::new();
        let n = entries.len();
        let mut i: usize = 0;
        proof {
            assert forall|idx: int|
                #[trigger] populated(map_of(entries@.take(0)), dims, idx) implies exists|j: int|
                0 <= j < store.entries@.len() && (#[trigger] store.entries@[j]).0 as int == idx by {
                assert(entries@.take(0) =~= Seq::<(u64, Felt)>::empty());
                let k2 = choose|k2: u64|
                    #[trigger] map_of(entries@.take(0)).dom().contains(k2) && chunk_index_of_key(
                        dims,
                        k2,
                    ) == idx;
            }
        }
        while i < n
            invariant
                dims.wf(),
                memory.wf(),
                memory.values_valid(),
                image_in_dims(memory@, dims),
                n == entries@.len(),
                0 <= i <= n,
                crate::memory::unique_keys(entries@),
                forall|j: int|
                    0 <= j < entries@.len() ==> memory@.dom().contains((#[trigger] entries@[j]).0)
                        && memory@[entries@[j].0] == entries@[j].1,
                image_in_dims(map_of(entries@.take(i as int)), dims),
                chunks_ok(store.entries@, map_of(entries@.take(i as int)), dims),
            decreases n - i,
        {
            let ghost mi = map_of(entries@.take(i as int));
            let (k, v) = entries[i];
            let s = (k / 0x1_0000_0000u64) as u32;
            let p = (k % 0x1_0000_0000u64) as u32;
            proof {
                assert(memory@.dom().contains(k));
                assert(addr_in_dims(dims, space_of_key(k), ptr_of_key(k)));
                assert(s == space_of_key(k));
                assert(p as int == ptr_of_key(k));
                lemma_dims_pointer_bound(dims);
                lemma_div_identity(p as int, CHUNK as int);
                assert((p / (CHUNK as u32)) as int == ptr_of_key(k) / (CHUNK as int));
                assert(ptr_of_key(k) / (CHUNK as int) < pow2(dims.address_height as nat)) by {
                    let hp = pow2(dims.address_height as nat) as int;
                    assert(ptr_of_key(k) / (CHUNK as int) < hp) by (nonlinear_arith)
                        requires
                            0 <= ptr_of_key(k) < CHUNK * hp,
                            hp >= 1,
                            ptr_of_key(k) / (CHUNK as int) * (CHUNK as int) + ptr_of_key(k) % (
                            CHUNK as int) == ptr_of_key(k),
                            0 <= ptr_of_key(k) % (CHUNK as int) < CHUNK;
                };
            }
            let idx = dims.label_to_index((s, p / (CHUNK as u32)));
            let pos = (p % (CHUNK as u32)) as usize;
            proof {
                assert(idx as int == chunk_index_of_key(dims, k));
                assert(pos as int == ptr_of_key(k) % (CHUNK as int));
            }
            store.set_cell(idx, pos, v, Ghost(mi), Ghost(k), dims);
            proof {
                assert(entries@.take(i + 1).drop_last() =~= entries@.take(i as int));
                assert(map_of(entries@.take(i + 1)) == mi.insert(k, v));
                assert forall|k2: u64|
                    #[trigger] map_of(entries@.take(i + 1)).dom().contains(k2) implies addr_in_dims(
                    dims,
                    space_of_key(k2),
                    ptr_of_key(k2),
                ) by {
                    crate::memory::lemma_map_of_domain(entries@.take(i + 1), k2);
                    let j = choose|j: int|
                        0 <= j < entries@.take(i + 1).len() && (#[trigger] entries@.take(
                            i + 1,
                        )[j]).0 == k2;
                    assert(entries@[j].0 == k2);
                    assert(memory@.dom().contains(k2));
                }
            }
            i += 1;
        }
        proof {
            assert(entries@.take(n as int) =~= entries@);
            assert(map_of(entries@) =~= memory@) by {
                assert forall|k2: u64| #[trigger] map_of(entries@).dom().contains(k2) implies memory@.dom().contains(
                    k2,
                ) && map_of(entries@)[k2] == memory@[k2] by {
                    crate::memory::lemma_map_of_domain(entries@, k2);
                    let j = choose|j: int|
                        0 <= j < entries@.len() && (#[trigger] entries@[j]).0 == k2;
                    crate::memory::lemma_map_of_index(entries@, j);
                }
                assert forall|k2: u64| #[trigger] memory@.dom().contains(k2) implies map_of(
                    entries@,
                ).dom().contains(k2) by {
                    let j = choose|j: int| 0 <= j < entries@.len() && (#[trigger] entries@[j]).0 == k2;
                    crate::memory::lemma_map_of_domain(entries@, k2);
                }
            };
        }
        let height = dims.overall_height();
        from_memory(&store, height, 0, hasher, Ghost(memory@), dims)
    }
}

/// Over a memory with nothing populated in its whole range — the entirely
/// empty memory in particular — the commitment tree is exactly the
/// uniform tree whose leaves hold the zero-chunk digest, and so carries
/// that uniform tree's digest.
pub proof fn lemma_empty_memory_tree_uniform<H: Hasher>(
    n: &MemoryNode,
    dims: MemoryDimensions,
    hs: &H,
)
    requires
        dims.wf(),
        is_tree_for(*n, Map::<u64, Felt>::empty(), dims, dims.overall_height_spec(), 0, hs),
    ensures
        is_uniform_tree(*n, dims.overall_height_spec(), hs.hash_spec(zero_chunk()), hs),
        node_hash(*n) == uniform_hash_spec(dims.overall_height_spec(), hs.hash_spec(zero_chunk()), hs),
{
    assert forall|idx: int|
        0 <= idx < 0 + pow2(dims.overall_height_spec()) implies !populated(
        Map::<u64, Felt>::empty(),
        dims,
        idx,
    ) by {
        if populated(Map::<u64, Felt>::empty(), dims, idx) {
            let k2 = choose|k2: u64|
                #[trigger] Map::<u64, Felt>::empty().dom().contains(k2) && chunk_index_of_key(
                    dims,
                    k2,
                ) == idx;
        }
    }
    lemma_tree_for_uniform(n, Map::<u64, Felt>::empty(), dims, dims.overall_height_spec(), 0, hs);
    lemma_uniform_tree_hash(n, dims.overall_height_spec(), hs.hash_spec(zero_chunk()), hs);
}

/// A simple verified hasher mixing each lane linearly; stands in for a
/// cryptographic permutation where only determinism and shape matter.
pub struct LinearHasher {
    /// The multiplier applied to the left (or raw) lane.
    pub alpha: Felt,
    /// The multiplier applied to the right lane.
    pub beta: Felt,
}

impl LinearHasher {
    /// A hasher from two canonical multipliers.
    pub fn new(alpha: Felt, beta: Felt) -> (r: LinearHasher)
        requires
            alpha.valid(),
            beta.valid(),
        ensures
            r.alpha == alpha,
            r.beta == beta,
            r.wf(),
    {
        LinearHasher { alpha, beta }
    }

    /// One mixed lane: `alpha * a + beta * b + lane`, in the field.
    pub open spec fn mix_spec(&self, a: Felt, b: Felt, lane: int) -> Felt {
        let m = crate::field::MODULUS as int;
        let t = ((self.alpha.value as int) * (a.value as int)) % m + ((self.beta.value as int) * (
        b.value as int)) % m;
        Felt { value: ((t % m + lane % m) % m) as u32 }
    }

    /// The lane of a digest sequence, with out-of-range lanes reading zero.
    pub open spec fn lane_at(values: Seq<Felt>, i: int) -> Felt {
        if 0 <= i < values.len() {
            values[i]
        } else {
            Felt { value: 0 }
        }
    }

    /// One mixed lane: `alpha * a + beta * b + lane`, in the field.
    fn mix(&self, a: Felt, b: Felt, lane: u32) -> (r: Felt)
        requires
            self.wf(),
            a.valid(),
            b.valid(),
        ensures
            r == self.mix_spec(a, b, lane as int),
            r.valid(),
    {
        self.alpha.mul(a).add(self.beta.mul(b)).add(Felt::from_u32(lane))
    }
}

impl Hasher for LinearHasher {
    /// Ready when both multipliers are canonical.
    open spec fn wf(&self) -> bool {
        self.alpha.valid() && self.beta.valid()
    }

    /// Lane `i` of the chunk digest mixes lanes `i` and `i+1 mod CHUNK`.
    open spec fn hash_spec(&self, values: Seq<Felt>) -> Seq<Felt> {
        Seq::new(
            CHUNK as nat,
            |i: int|
                self.mix_spec(
                    LinearHasher::lane_at(values, i),
                    LinearHasher::lane_at(values, if i + 1 < CHUNK { i + 1 } else { 0 }),
                    i,
                ),
        )
    }

    /// Lane `i` of the compression mixes lane `i` of both children.
    open spec fn compress_spec(&self, left: Seq<Felt>, right: Seq<Felt>) -> Seq<Felt> {
        Seq::new(
            CHUNK as nat,
            |i: int|
                self.mix_spec(
                    LinearHasher::lane_at(left, i),
                    LinearHasher::lane_at(right, i),
                    i,
                ),
        )
    }

    proof fn hash_spec_shape(&self, values: Seq<Felt>) {
    }

    proof fn compress_spec_shape(&self, left: Seq<Felt>, right: Seq<Felt>) {
    }

    fn hash(&self, values: &Vec<Felt>) -> (r: Vec<Felt>) {
        let mut out: Vec<Felt> = Vec::new();
        let mut i: usize = 0;
        while i < CHUNK
            invariant
                self.wf(),
                chunk_shaped(values@),
                0 <= i <= CHUNK,
                out@.len() == i,
                forall|j: int| 0 <= j < i ==> out@[j] == self.hash_spec(values@)[j],
            decreases CHUNK - i,
        {
            let next = if i + 1 < CHUNK {
                i + 1
            } else {
                0
            };
            out.push(self.mix(values[i], values[next], i as u32));
            i += 1;
        }
        proof {
            assert(out@ =~= self.hash_spec(values@));
        }
        out
    }

    fn compress(&self, left: &Vec<Felt>, right: &Vec<Felt>) -> (r: Vec<Felt>) {
        let mut out: Vec<Felt> = Vec::new();
        let mut i: usize = 0;
        while i < CHUNK
            invariant
                self.wf(),
                chunk_shaped(left@),
                chunk_shaped(right@),
                0 <= i <= CHUNK,
                out@.len() == i,
                forall|j: int| 0 <= j < i ==> out@[j] == self.compress_spec(left@, right@)[j],
            decreases CHUNK - i,
        {
            out.push(self.mix(left[i], right[i], i as u32));
            i += 1;
        }
        proof {
            assert(out@ =~= self.compress_spec(left@, right@));
        }
        out
    }
}

} // verus!
