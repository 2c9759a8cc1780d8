use voxel::block::Block;
use voxel::chunk::{BoxedChunk, ChunkMut, LocalBlockPosition};
use voxel::registry::{BlockDeclaration, BlockRegistry};
use voxel::visibility::visible_blocks;

fn registry_with(entries: &[(u16, u8)]) -> BlockRegistry {
    let mut registry = BlockRegistry::empty();
    for (id, transparency) in entries {
        let declaration = BlockDeclaration::new(
            "Test".to_string(),
            format!("block {}", id),
            (1, 2, 3),
            *transparency,
        );
        registry.set_declaration(*id, Some(declaration));
    }
    registry
}

fn exposed(faces: &[bool; 6]) -> usize {
    faces.iter().filter(|f| **f).count()
}

#[test]
fn empty_chunk_shows_nothing() {
    let chunk = BoxedChunk::empty();
    let registry = registry_with(&[(0, 255), (16, 0)]);
    assert!(visible_blocks(&chunk, &registry).is_empty());
    assert!(visible_blocks(&chunk.get_ref(), &BlockRegistry::empty()).is_empty());
}

#[test]
fn single_opaque_cell_shows_six_faces() {
    let mut chunk = BoxedChunk::empty();
    let position = LocalBlockPosition::new(10, 20, 30).unwrap();
    chunk.set_block(&position, Block::hard_create(16));
    let registry = registry_with(&[(0, 255), (16, 0)]);

    let visible = visible_blocks(&chunk, &registry);
    assert_eq!(visible.len(), 1);
    assert_eq!(visible[0].position.index(), position.index());
    assert_eq!(visible[0].block, Block::hard_create(16));
    assert_eq!(exposed(&visible[0].faces), 6);
}

#[test]
fn undeclared_air_exposes_faces() {
    let mut chunk = BoxedChunk::empty();
    let position = LocalBlockPosition::new(0, 0, 0).unwrap();
    chunk.set_block(&position, Block::hard_create(16));
    let registry = registry_with(&[(16, 0)]);

    let visible = visible_blocks(&chunk, &registry);
    assert_eq!(visible.len(), 1);
    assert_eq!(visible[0].faces, [true; 6]);
}

#[test]
fn opaque_neighbor_hides_face() {
    let mut chunk = BoxedChunk::empty();
    let a = LocalBlockPosition::new(5, 5, 5).unwrap();
    let b = LocalBlockPosition::new(6, 5, 5).unwrap();
    chunk.set_block(&a, Block::hard_create(16));
    chunk.set_block(&b, Block::hard_create(16));
    let registry = registry_with(&[(0, 255), (16, 0)]);

    let visible = visible_blocks(&chunk, &registry);
    assert_eq!(visible.len(), 2);
    // Cells come in linear index order: a, then b.
    assert_eq!(visible[0].position.index(), a.index());
    assert_eq!(visible[0].faces, [false, true, true, true, true, true]);
    assert_eq!(visible[1].position.index(), b.index());
    assert_eq!(visible[1].faces, [true, true, true, false, true, true]);
}

#[test]
fn transparent_neighbor_keeps_face_exposed() {
    let mut chunk = BoxedChunk::empty();
    let a = LocalBlockPosition::new(5, 5, 5).unwrap();
    let glass = LocalBlockPosition::new(5, 6, 5).unwrap();
    chunk.set_block(&a, Block::hard_create(16));
    chunk.set_block(&glass, Block::hard_create(32));
    let registry = registry_with(&[(16, 0), (32, 1)]);

    let visible = visible_blocks(&chunk, &registry);
    assert_eq!(visible.len(), 2);
    assert_eq!(visible[0].faces, [true; 6]);
    // The glass cell sits on the opaque one, which hides its -Y face.
    assert_eq!(visible[1].faces, [true, true, true, true, false, true]);
}

#[test]
fn enclosed_cell_is_not_shown() {
    let mut chunk = BoxedChunk::empty();
    let centre = LocalBlockPosition::new(8, 8, 8).unwrap();
    chunk.set_block(&centre, Block::hard_create(16));
    for neighbor in centre.surrounding().iter().flatten() {
        chunk.set_block(neighbor, Block::hard_create(16));
    }
    let registry = registry_with(&[(16, 0)]);

    let visible = visible_blocks(&chunk, &registry);
    assert_eq!(visible.len(), 6);
    assert!(visible.iter().all(|v| v.position.index() != centre.index()));
    assert!(visible.iter().all(|v| exposed(&v.faces) == 5));
}
