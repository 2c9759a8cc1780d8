//! Local positions inside a chunk, the canonical cell order, and chunk storage.
use vstd::prelude::*;
use crate::block::{Block, EMPTY_BLOCK_ID};

verus! {

/// Extent along Y.
pub const CHUNK_HEIGHT: usize = 64;
/// Extent along X.
pub const CHUNK_WIDTH: usize = 64;
/// Extent along Z.
pub const CHUNK_LENGTH: usize = 64;
/// Number of cells in a chunk.
pub const CHUNK_SIZE: usize = 262144;

/// Stride of one step along Y in the linear cell order.
pub const Y_SIZE: usize = 4096;
/// Stride of one step along X in the linear cell order.
pub const X_SIZE: usize = 64;
/// Stride of one step along Z in the linear cell order.
pub const Z_SIZE: usize = 1;

/// Whether a coordinate triple `(x, y, z)` lies inside the chunk.
pub open spec fn in_chunk(c: (int, int, int)) -> bool {
    &&& 0 <= c.0 < CHUNK_WIDTH
    &&& 0 <= c.1 < CHUNK_HEIGHT
    &&& 0 <= c.2 < CHUNK_LENGTH
}

/// The canonical linear index: Y varies slowest, then X, then Z.
pub open spec fn index_of(c: (int, int, int)) -> int {
    c.1 * Y_SIZE + c.0 * X_SIZE + c.2 * Z_SIZE
}

/// The coordinates `(x, y, z)` of the cell at a linear index.
pub open spec fn coords_of(i: int) -> (int, int, int) {
    ((i / X_SIZE as int) % CHUNK_WIDTH as int, i / Y_SIZE as int, i % X_SIZE as int)
}

/// Every cell of the chunk has an index below `CHUNK_SIZE`, from which its
/// coordinates are recovered.
pub proof fn lemma_index_round_trip(c: (int, int, int))
    requires
        in_chunk(c),
    ensures
        0 <= index_of(c) < CHUNK_SIZE,
        coords_of(index_of(c)) == c,
{
    let (x, y, z) = c;
    let i = y * 4096 + x * 64 + z;
    assert(i / 64 == y * 64 + x) by (nonlinear_arith)
        requires i == y * 4096 + x * 64 + z, 0 <= z < 64, 0 <= x < 64, 0 <= y < 64;
    assert((y * 64 + x) % 64 == x) by (nonlinear_arith)
        requires 0 <= x < 64, 0 <= y;
    assert(i / 4096 == y) by (nonlinear_arith)
        requires i == y * 4096 + x * 64 + z, 0 <= z < 64, 0 <= x < 64, 0 <= y < 64;
    assert(i % 64 == z) by (nonlinear_arith)
        requires i == y * 4096 + x * 64 + z, 0 <= z < 64, 0 <= x < 64, 0 <= y < 64;
}

/// Every index below `CHUNK_SIZE` names a cell of the chunk, whose index it
/// is: indexing is a bijection between cells and `0..CHUNK_SIZE`.
pub proof fn lemma_coords_round_trip(i: int)
    requires
        0 <= i < CHUNK_SIZE,
    ensures
        in_chunk(coords_of(i)),
        index_of(coords_of(i)) == i,
{
    let q = i / 64;
    assert(i == q * 64 + i % 64 && 0 <= i % 64 < 64) by (nonlinear_arith)
        requires q == i / 64, 0 <= i;
    assert(q == (q / 64) * 64 + q % 64 && 0 <= q % 64 < 64) by (nonlinear_arith)
        requires 0 <= q;
    assert(i / 4096 == q / 64) by (nonlinear_arith)
        requires q == i / 64, 0 <= i;
    assert(0 <= q < 4096) by (nonlinear_arith)
        requires q == i / 64, 0 <= i < 262144;
    assert(q / 64 < 64) by (nonlinear_arith)
        requires 0 <= q < 4096;
}

/// The linear index of the cell `(x, y, z)`.
pub fn chunk_index(x: usize, y: usize, z: usize) -> (r: usize)
    requires
        index_of((x as int, y as int, z as int)) <= usize::MAX,
    ensures
        r == index_of((x as int, y as int, z as int)),
{
    (y * Y_SIZE) + (x * X_SIZE) + (z * Z_SIZE)
}

/// Candidate coordinates of the neighbor in slot `slot`; slots are, in order,
/// +X, +Y, +Z, -X, -Y, -Z.
pub open spec fn neighbor_candidate(c: (int, int, int), slot: int) -> (int, int, int) {
    if slot == 0 {
        (c.0 + 1, c.1, c.2)
    } else if slot == 1 {
        (c.0, c.1 + 1, c.2)
    } else if slot == 2 {
        (c.0, c.1, c.2 + 1)
    } else if slot == 3 {
        (c.0 - 1, c.1, c.2)
    } else if slot == 4 {
        (c.0, c.1 - 1, c.2)
    } else {
        (c.0, c.1, c.2 - 1)
    }
}

/// The neighbor in slot `slot`, or `None` where it falls outside the chunk.
pub open spec fn neighbor_slot(c: (int, int, int), slot: int) -> Option<(int, int, int)> {
    if in_chunk(neighbor_candidate(c, slot)) {
        Some(neighbor_candidate(c, slot))
    } else {
        None
    }
}

/// The coordinates held by an optional position.
pub open spec fn slot_view(o: Option<LocalBlockPosition>) -> Option<(int, int, int)> {
    match o {
        Some(p) => Some(p@),
        None => None,
    }
}

/// 1 where the neighbor in `slot` lies inside the chunk, else 0.
pub open spec fn slot_count(c: (int, int, int), slot: int) -> int {
    if neighbor_slot(c, slot) is Some {
        1
    } else {
        0
    }
}

/// Number of neighbors of `c` that lie inside the chunk.
pub open spec fn neighbor_count(c: (int, int, int)) -> int {
    slot_count(c, 0) + slot_count(c, 1) + slot_count(c, 2) + slot_count(c, 3) + slot_count(c, 4)
        + slot_count(c, 5)
}

/// 1 where `v` lies on either end of an axis of extent `dim`, else 0.
pub open spec fn on_edge(v: int, dim: int) -> int {
    if v == 0 || v == dim - 1 {
        1
    } else {
        0
    }
}

/// Number of axes along which `c` lies on the chunk's boundary: 0 inside,
/// 1 on a face, 2 on an edge, 3 at a corner.
pub open spec fn boundary_axes(c: (int, int, int)) -> int {
    on_edge(c.0, CHUNK_WIDTH as int) + on_edge(c.1, CHUNK_HEIGHT as int) + on_edge(
        c.2,
        CHUNK_LENGTH as int,
    )
}

/// A cell has one neighbor fewer for each axis along which it touches the
/// chunk's boundary: 3 at a corner, 4 on an edge, 5 on a face, 6 inside.
pub proof fn lemma_neighbor_count_by_class(c: (int, int, int))
    requires
        in_chunk(c),
    ensures
        neighbor_count(c) == 6 - boundary_axes(c),
        boundary_axes(c) == 3 ==> neighbor_count(c) == 3,
        boundary_axes(c) == 2 ==> neighbor_count(c) == 4,
        boundary_axes(c) == 1 ==> neighbor_count(c) == 5,
        boundary_axes(c) == 0 ==> neighbor_count(c) == 6,
{
}

/// A position inside a chunk; every coordinate is below its axis' extent.
#[derive(Debug, Copy, Clone)]
pub struct LocalBlockPosition {
    x: usize,
    y: usize,
    z: usize,
}

impl View for LocalBlockPosition {
    type V = (int, int, int);

    closed spec fn view(&self) -> (int, int, int) {
        (self.x as int, self.y as int, self.z as int)
    }
}

impl LocalBlockPosition {
    #[verifier::type_invariant]
    spec fn inside(&self) -> bool {
        in_chunk(self@)
    }

    /// The position `(x, y, z)`, or `None` where a coordinate is not below
    /// its axis' extent.
    pub fn new(x: usize, y: usize, z: usize) -> (r: Option<LocalBlockPosition>)
        ensures
            r is Some <==> in_chunk((x as int, y as int, z as int)),
            r matches Some(p) ==> p@ == (x as int, y as int, z as int),
    {
        if x >= CHUNK_WIDTH || y >= CHUNK_HEIGHT || z >= CHUNK_LENGTH {
            return None;
        }
        Some(LocalBlockPosition { x, y, z })
    }

    /// The position `(x, y, z)`, for callers that already know it lies
    /// inside the chunk.
    pub fn unchecked_new(x: usize, y: usize, z: usize) -> (r: LocalBlockPosition)
        requires
            in_chunk((x as int, y as int, z as int)),
        ensures
            r@ == (x as int, y as int, z as int),
    {
        LocalBlockPosition { x, y, z }
    }

    /// The position of the cell at a linear index, or `None` past the chunk.
    pub fn from_index(index: usize) -> (r: Option<LocalBlockPosition>)
        ensures
            r is Some <==> index < CHUNK_SIZE,
            r matches Some(p) ==> p@ == coords_of(index as int) && index_of(p@) == index,
    {
        if index >= CHUNK_SIZE {
            return None;
        }
        proof {
            lemma_coords_round_trip(index as int);
        }
        let x = (index / X_SIZE) % CHUNK_WIDTH;
        let y = index / Y_SIZE;
        let z = index % X_SIZE;
        Some(LocalBlockPosition { x, y, z })
    }

    /// The linear index of this position.
    pub fn index(&self) -> (r: usize)
        ensures
            r == index_of(self@),
            r < CHUNK_SIZE,
    {
        proof {
            use_type_invariant(self);
            lemma_index_round_trip(self@);
        }
        chunk_index(self.x, self.y, self.z)
    }

    /// The six candidate neighbors in slot order +X, +Y, +Z, -X, -Y, -Z, for
    /// a position that touches no boundary, so that each of them lies inside
    /// the chunk.
    pub fn possible_surrounding(&self) -> (r: [LocalBlockPosition; 6])
        requires
            boundary_axes(self@) == 0,
        ensures
            forall|slot: int| 0 <= slot < 6 ==> (#[trigger] r@[slot])@ == neighbor_candidate(self@, slot),
    {
        proof {
            use_type_invariant(self);
        }
        let r = [
            LocalBlockPosition { x: self.x + 1, y: self.y, z: self.z },
            LocalBlockPosition { x: self.x, y: self.y + 1, z: self.z },
            LocalBlockPosition { x: self.x, y: self.y, z: self.z + 1 },
            LocalBlockPosition { x: self.x - 1, y: self.y, z: self.z },
            LocalBlockPosition { x: self.x, y: self.y - 1, z: self.z },
            LocalBlockPosition { x: self.x, y: self.y, z: self.z - 1 },
        ];
        r
    }

    /// The six neighbor slots in order +X, +Y, +Z, -X, -Y, -Z; a slot is
    /// `None` where the neighbor would fall outside the chunk.
    pub fn surrounding(&self) -> (r: [Option<LocalBlockPosition>; 6])
        ensures
            forall|slot: int| 0 <= slot < 6 ==> slot_view(#[trigger] r@[slot]) == neighbor_slot(self@, slot),
    {
        proof {
            use_type_invariant(self);
        }
        let (x, y, z) = (self.x, self.y, self.z);
        let px = if x + 1 < CHUNK_WIDTH {
            Some(LocalBlockPosition { x: x + 1, y, z })
        } else {
            None
        };
        let py = if y + 1 < CHUNK_HEIGHT {
            Some(LocalBlockPosition { x, y: y + 1, z })
        } else {
            None
        };
        let pz = if z + 1 < CHUNK_LENGTH {
            Some(LocalBlockPosition { x, y, z: z + 1 })
        } else {
            None
        };
        let mx = if x > 0 {
            Some(LocalBlockPosition { x: x - 1, y, z })
        } else {
            None
        };
        let my = if y > 0 {
            Some(LocalBlockPosition { x, y: y - 1, z })
        } else {
            None
        };
        let mz = if z > 0 {
            Some(LocalBlockPosition { x, y, z: z - 1 })
        } else {
            None
        };
        let r = [px, py, pz, mx, my, mz];
        assert(slot_view(r@[0]) == neighbor_slot(self@, 0));
        assert(slot_view(r@[1]) == neighbor_slot(self@, 1));
        assert(slot_view(r@[2]) == neighbor_slot(self@, 2));
        assert(slot_view(r@[3]) == neighbor_slot(self@, 3));
        assert(slot_view(r@[4]) == neighbor_slot(self@, 4));
        assert(slot_view(r@[5]) == neighbor_slot(self@, 5));
        r
    }
}

/// Read access to the cells of one chunk.
pub trait Chunk {
    /// The chunk's cells in linear index order.
    spec fn cells(&self) -> Seq<Block>;

    /// The block stored at `position`, in a chunk that holds one cell per
    /// position.
    fn block(&self, position: &LocalBlockPosition) -> (r: Block)
        requires
            self.cells().len() == CHUNK_SIZE,
        ensures
            r == self.cells()[index_of(position@)],
    ;
}

/// Write access to the cells of one chunk.
pub trait ChunkMut: Chunk {
    /// Overwrites the cell at `position` with `block`; every other cell keeps
    /// its block.
    fn set_block(&mut self, position: &LocalBlockPosition, block: Block)
        requires
            old(self).cells().len() == CHUNK_SIZE,
        ensures
            final(self).cells() == old(self).cells().update(index_of(position@), block),
            final(self).cells().len() == CHUNK_SIZE,
    ;
}

/// Writing a block and reading the same position back yields that block;
/// every other position keeps what it held.
pub proof fn lemma_write_then_read(
    cells: Seq<Block>,
    written: (int, int, int),
    read: (int, int, int),
    block: Block,
)
    requires
        cells.len() == CHUNK_SIZE,
        in_chunk(written),
        in_chunk(read),
    ensures
        cells.update(index_of(written), block)[index_of(written)] == block,
        written != read ==> cells.update(index_of(written), block)[index_of(read)]
            == cells[index_of(read)],
{
    lemma_index_round_trip(written);
    lemma_index_round_trip(read);
}

/// A chunk that owns its cells.
pub struct BoxedChunk {
    blocks: Vec<Block>,
}

impl BoxedChunk {
    /// A chunk whose every cell holds the empty block.
    pub fn empty() -> (r: BoxedChunk)
        ensures
            r.cells().len() == CHUNK_SIZE,
            forall|i: int| 0 <= i < CHUNK_SIZE ==> (#[trigger] r.cells()[i])@ == EMPTY_BLOCK_ID,
    {
        let blocks = vec![Block::empty(); CHUNK_SIZE];
        BoxedChunk { blocks }
    }

    /// A read-only view of this chunk's cells.
    pub fn get_ref(&self) -> (r: ChunkRef<'_>)
        ensures
            r.cells() == self.cells(),
    {
        ChunkRef { blocks: self.blocks.as_slice() }
    }
}

impl Chunk for BoxedChunk {
    closed spec fn cells(&self) -> Seq<Block> {
        self.blocks@
    }

    fn block(&self, position: &LocalBlockPosition) -> (r: Block) {
        self.blocks[position.index()]
    }
}

impl ChunkMut for BoxedChunk {
    fn set_block(&mut self, position: &LocalBlockPosition, block: Block) {
        let index = position.index();
        self.blocks.set(index, block);
    }
}

/// A read-only view of the cells of a chunk owned elsewhere.
pub struct ChunkRef<'a> {
    // Stored in Y, X, Z order, so that cells of one horizontal row are adjacent.
    blocks: &'a [Block],
}

impl<'a> Chunk for ChunkRef<'a> {
    closed spec fn cells(&self) -> Seq<Block> {
        self.blocks@
    }

    fn block(&self, position: &LocalBlockPosition) -> (r: Block) {
        self.blocks[position.index()]
    }
}

} // verus!
