//! Which faces of each occupied cell of a chunk are exposed.
//!
//! A face is exposed where it lies on the chunk's boundary, or where the
//! neighbor behind it does not hide it. Only a neighbor whose declaration is
//! fully opaque hides a face: a neighbor that is transparent, or whose
//! identifier has no declaration at all, leaves the face exposed.
use vstd::prelude::*;
use crate::block::{Block, EMPTY_BLOCK_ID};
use crate::chunk::{
    Chunk, LocalBlockPosition, CHUNK_SIZE, coords_of, in_chunk, index_of, lemma_coords_round_trip, lemma_index_round_trip,
    neighbor_candidate, neighbor_slot, slot_view,
};
use crate::registry::{BlockDeclaration, BlockRegistry};

verus! {

/// Whether a cell holds something: any block but the empty one.
pub open spec fn occupied(b: Block) -> bool {
    b@ != EMPTY_BLOCK_ID
}

/// Whether a neighbor with this declaration hides the face behind it: only
/// a declared, fully opaque block does.
pub open spec fn hides_face(declaration: Option<BlockDeclaration>) -> bool {
    match declaration {
        Some(d) => d@.transparency == 0,
        None => false,
    }
}

/// Whether a face is exposed, given the neighbor slot in front of it.
pub open spec fn slot_exposed(
    cells: Seq<Block>,
    declarations: Seq<Option<BlockDeclaration>>,
    slot: Option<(int, int, int)>,
) -> bool {
    match slot {
        None => true,
        Some(n) => !hides_face(declarations[cells[index_of(n)]@ as int]),
    }
}

/// Whether the face of cell `c` toward neighbor slot `slot` is exposed.
pub open spec fn face_exposed(
    cells: Seq<Block>,
    declarations: Seq<Option<BlockDeclaration>>,
    c: (int, int, int),
    slot: int,
) -> bool {
    slot_exposed(cells, declarations, neighbor_slot(c, slot))
}

/// The exposure of the six faces of cell `c`, in neighbor slot order
/// +X, +Y, +Z, -X, -Y, -Z.
pub open spec fn exposed_faces(
    cells: Seq<Block>,
    declarations: Seq<Option<BlockDeclaration>>,
    c: (int, int, int),
) -> Seq<bool> {
    seq![
        face_exposed(cells, declarations, c, 0),
        face_exposed(cells, declarations, c, 1),
        face_exposed(cells, declarations, c, 2),
        face_exposed(cells, declarations, c, 3),
        face_exposed(cells, declarations, c, 4),
        face_exposed(cells, declarations, c, 5),
    ]
}

/// Whether cell `c` has anything to show: it is occupied and has at least
/// one exposed face.
pub open spec fn shown(
    cells: Seq<Block>,
    declarations: Seq<Option<BlockDeclaration>>,
    c: (int, int, int),
) -> bool {
    occupied(cells[index_of(c)]) && exposed_faces(cells, declarations, c).contains(true)
}

/// The visible cells among the first `n` cells in linear index order, each
/// as (coordinates, block, exposed faces).
pub open spec fn visible_upto(
    cells: Seq<Block>,
    declarations: Seq<Option<BlockDeclaration>>,
    n: nat,
) -> Seq<((int, int, int), Block, Seq<bool>)>
    decreases n,
{
    if n == 0 {
        Seq::empty()
    } else {
        let before = visible_upto(cells, declarations, (n - 1) as nat);
        let c = coords_of(n - 1);
        if shown(cells, declarations, c) {
            before.push((c, cells[n - 1], exposed_faces(cells, declarations, c)))
        } else {
            before
        }
    }
}

/// A cell with something to show, and which of its faces are exposed, in
/// neighbor slot order +X, +Y, +Z, -X, -Y, -Z.
pub struct VisibleBlock {
    pub position: LocalBlockPosition,
    pub block: Block,
    pub faces: [bool; 6],
}

/// A visible cell as (coordinates, block, exposed faces).
pub open spec fn visible_view(v: VisibleBlock) -> ((int, int, int), Block, Seq<bool>) {
    (v.position@, v.block, v.faces@)
}

fn face_exposed_at<C: Chunk>(chunk: &C, registry: &BlockRegistry, slot: Option<LocalBlockPosition>) -> (r: bool)
    requires
        chunk.cells().len() == CHUNK_SIZE,
        registry.well_formed(),
    ensures
        r == slot_exposed(chunk.cells(), registry@.declarations, slot_view(slot)),
{
    match slot {
        None => true,
        Some(neighbor) => {
            let block = chunk.block(&neighbor);
            match registry.declaration(block) {
                Some(d) => !d.opaque(),
                None => true,
            }
        },
    }
}

/// The cells of `chunk` with something to show, in linear index order, with
/// their exposed faces.
pub fn visible_blocks<C: Chunk>(chunk: &C, registry: &BlockRegistry) -> (r: Vec<VisibleBlock>)
    requires
        chunk.cells().len() == CHUNK_SIZE,
        registry.well_formed(),
    ensures
        r@.map_values(|v: VisibleBlock| visible_view(v)) == visible_upto(
            chunk.cells(),
            registry@.declarations,
            CHUNK_SIZE as nat,
        ),
{
    let ghost cells = chunk.cells();
    let ghost declarations = registry@.declarations;
    let mut visible: Vec<VisibleBlock> = Vec::new();
    let mut index: usize = 0;
    while index < CHUNK_SIZE
        invariant
            index <= CHUNK_SIZE,
            chunk.cells() == cells,
            cells.len() == CHUNK_SIZE,
            registry.well_formed(),
            registry@.declarations == declarations,
            visible@.map_values(|v: VisibleBlock| visible_view(v)) == visible_upto(
                cells,
                declarations,
                index as nat,
            ),
        decreases CHUNK_SIZE - index,
    {
        let position = match LocalBlockPosition::from_index(index) {
            Some(p) => p,
            None => {
                return visible;
            },
        };
        let block = chunk.block(&position);
        if block.id() != EMPTY_BLOCK_ID {
            let slots = position.surrounding();
            let faces = [
                face_exposed_at(chunk, registry, slots[0]),
                face_exposed_at(chunk, registry, slots[1]),
                face_exposed_at(chunk, registry, slots[2]),
                face_exposed_at(chunk, registry, slots[3]),
                face_exposed_at(chunk, registry, slots[4]),
                face_exposed_at(chunk, registry, slots[5]),
            ];
            assert(slot_view(slots@[0]) == neighbor_slot(position@, 0));
            assert(slot_view(slots@[1]) == neighbor_slot(position@, 1));
            assert(slot_view(slots@[2]) == neighbor_slot(position@, 2));
            assert(slot_view(slots@[3]) == neighbor_slot(position@, 3));
            assert(slot_view(slots@[4]) == neighbor_slot(position@, 4));
            assert(slot_view(slots@[5]) == neighbor_slot(position@, 5));
            assert(faces@ =~= exposed_faces(cells, declarations, position@));
            if faces[0] || faces[1] || faces[2] || faces[3] || faces[4] || faces[5] {
                assert(faces@[0] || faces@[1] || faces@[2] || faces@[3] || faces@[4] || faces@[5]);
                visible.push(VisibleBlock { position, block, faces });
            } else {
                assert(!faces@.contains(true));
            }
        }
        assert(visible@.map_values(|v: VisibleBlock| visible_view(v)) =~= visible_upto(
            cells,
            declarations,
            (index + 1) as nat,
        ));
        index = index + 1;
    }
    visible
}

/// A chunk holding nothing but the empty block shows nothing, whatever the
/// registry declares.
pub proof fn lemma_empty_chunk_shows_nothing(
    cells: Seq<Block>,
    declarations: Seq<Option<BlockDeclaration>>,
)
    requires
        cells.len() == CHUNK_SIZE,
        forall|i: int| 0 <= i < CHUNK_SIZE ==> (#[trigger] cells[i])@ == EMPTY_BLOCK_ID,
    ensures
        visible_upto(cells, declarations, CHUNK_SIZE as nat) == Seq::<
            ((int, int, int), Block, Seq<bool>),
        >::empty(),
{
    lemma_empty_prefix_shows_nothing(cells, declarations, CHUNK_SIZE as nat);
}

proof fn lemma_empty_prefix_shows_nothing(
    cells: Seq<Block>,
    declarations: Seq<Option<BlockDeclaration>>,
    n: nat,
)
    requires
        n <= CHUNK_SIZE,
        cells.len() == CHUNK_SIZE,
        forall|i: int| 0 <= i < CHUNK_SIZE ==> (#[trigger] cells[i])@ == EMPTY_BLOCK_ID,
    ensures
        visible_upto(cells, declarations, n) == Seq::<((int, int, int), Block, Seq<bool>)>::empty(),
    decreases n,
{
    if n > 0 {
        lemma_empty_prefix_shows_nothing(cells, declarations, (n - 1) as nat);
        lemma_coords_round_trip(n - 1);
        assert(cells[n - 1]@ == EMPTY_BLOCK_ID);
    }
}

/// A chunk whose cells are all empty but one occupied cell, with the empty
/// block not opaque, shows exactly that cell, with all six faces exposed.
pub proof fn lemma_single_cell_shows_six_faces(
    cells: Seq<Block>,
    declarations: Seq<Option<BlockDeclaration>>,
    c: (int, int, int),
)
    requires
        cells.len() == CHUNK_SIZE,
        in_chunk(c),
        occupied(cells[index_of(c)]),
        forall|i: int|
            0 <= i < CHUNK_SIZE && i != index_of(c) ==> (#[trigger] cells[i])@ == EMPTY_BLOCK_ID,
        !hides_face(declarations[EMPTY_BLOCK_ID as int]),
    ensures
        visible_upto(cells, declarations, CHUNK_SIZE as nat) == seq![
            (c, cells[index_of(c)], seq![true, true, true, true, true, true]),
        ],
{
    lemma_index_round_trip(c);
    assert forall|slot: int| 0 <= slot < 6 implies #[trigger] face_exposed(cells, declarations, c, slot) by {
        let n = neighbor_candidate(c, slot);
        if in_chunk(n) {
            lemma_index_round_trip(n);
            assert(n != c);
            assert(index_of(n) != index_of(c));
            assert(cells[index_of(n)]@ == EMPTY_BLOCK_ID);
        }
    }
    assert(exposed_faces(cells, declarations, c) =~= seq![true, true, true, true, true, true]);
    lemma_single_cell_prefix(cells, declarations, c, CHUNK_SIZE as nat);
}

proof fn lemma_single_cell_prefix(
    cells: Seq<Block>,
    declarations: Seq<Option<BlockDeclaration>>,
    c: (int, int, int),
    n: nat,
)
    requires
        n <= CHUNK_SIZE,
        cells.len() == CHUNK_SIZE,
        in_chunk(c),
        occupied(cells[index_of(c)]),
        forall|i: int|
            0 <= i < CHUNK_SIZE && i != index_of(c) ==> (#[trigger] cells[i])@ == EMPTY_BLOCK_ID,
        exposed_faces(cells, declarations, c) == seq![true, true, true, true, true, true],
    ensures
        n <= index_of(c) ==> visible_upto(cells, declarations, n) == Seq::<
            ((int, int, int), Block, Seq<bool>),
        >::empty(),
        n > index_of(c) ==> visible_upto(cells, declarations, n) == seq![
            (c, cells[index_of(c)], seq![true, true, true, true, true, true]),
        ],
    decreases n,
{
    lemma_index_round_trip(c);
    if n > 0 {
        lemma_coords_round_trip(n - 1);
        lemma_single_cell_prefix(cells, declarations, c, (n - 1) as nat);
        if n - 1 == index_of(c) {
            assert(exposed_faces(cells, declarations, c)[0]);
            assert(shown(cells, declarations, c));
            assert(visible_upto(cells, declarations, n) =~= seq![
                (c, cells[index_of(c)], seq![true, true, true, true, true, true]),
            ]);
        } else {
            assert(cells[n - 1]@ == EMPTY_BLOCK_ID);
        }
    }
}

} // verus!
