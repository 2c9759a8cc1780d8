use voxel::block::Block;
use voxel::registry::{BlockDeclaration, BlockRegistry, BlockRegistryFile, RegistryError};

fn declaration(group: &str, name: &str, transparency: u8) -> BlockDeclaration {
    BlockDeclaration::new(group.to_string(), name.to_string(), (10, 20, 30), transparency)
}

#[test]
fn declaration_predicates() {
    let opaque = declaration("Stone", "Granite", 0);
    assert!(opaque.opaque());
    assert!(opaque.visible());
    assert_eq!(opaque.transparency(), 0);

    let glass = declaration("Glass", "Window", 128);
    assert!(!glass.opaque());
    assert!(glass.visible());

    let air = declaration("Empty", "Air", 255);
    assert!(!air.opaque());
    assert!(!air.visible());
    assert_eq!(air.group(), "Empty");
    assert_eq!(air.name(), "Air");
    assert_eq!(air.color(), (10, 20, 30));
}

#[test]
fn registry_partial_tolerance() {
    let mut file = BlockRegistryFile::new();
    for id in 1..10usize {
        file.insert(id, declaration("Stone", &format!("stone {}", id), 0));
    }
    file.insert(70000, declaration("Stone", "too far", 0));

    let (registry, failures) = BlockRegistry::from_registry_file(&file);
    for id in 1..10u16 {
        let found = registry.declaration(Block::hard_create(id)).as_ref().unwrap();
        assert_eq!(found.name(), format!("stone {}", id));
    }
    // 70000 does not wrap around onto a smaller identifier.
    assert!(registry.declaration(Block::hard_create(70000u32 as u16)).is_none());
    assert!(registry.declaration(Block::hard_create(0)).is_none());
    assert_eq!(failures.len(), 1);
    assert_eq!(failures[0].id(), 70000);
    assert_eq!(failures[0].subtype(), None);
    assert_eq!(failures[0].reason(), "block id 70000 is larger than the largest block id 65535");
}

#[test]
fn registry_identifier_limits() {
    let mut file = BlockRegistryFile::new();
    file.insert(65535, declaration("Top", "last", 0));
    file.insert(65536, declaration("Top", "past the last", 0));
    let (registry, failures) = BlockRegistry::from_registry_file(&file);
    assert_eq!(registry.declaration(Block::hard_create(65535)).as_ref().unwrap().name(), "last");
    // 65536 is refused rather than stored at identifier 0.
    assert!(registry.declaration(Block::hard_create(0)).is_none());
    assert_eq!(failures.len(), 1);
    assert_eq!(failures[0].id(), 65536);
    assert_eq!(failures[0].reason(), "block id 65536 is larger than the largest block id 65535");
}

#[test]
fn file_insert_replaces_same_identifier() {
    let mut file = BlockRegistryFile::new();
    file.insert(4, declaration("A", "first", 0));
    file.insert(4, declaration("A", "second", 0));
    assert_eq!(file.entries().len(), 1);
    let (registry, failures) = BlockRegistry::from_registry_file(&file);
    assert!(failures.is_empty());
    assert_eq!(registry.declaration(Block::hard_create(4)).as_ref().unwrap().name(), "second");
}

#[test]
fn parse_failure_gives_no_registry() {
    let error = serde_json::from_str::<serde_json::Value>("{ \"1\": { \"group\": ").unwrap_err();
    match BlockRegistry::from_parsed(Err(error)) {
        Err(RegistryError::JSON(_)) => {},
        _ => panic!("a parse error must not give a registry"),
    }
}

#[test]
fn parsed_file_gives_registry() {
    let mut file = BlockRegistryFile::new();
    file.insert(0, declaration("Empty", "Air", 255));
    file.insert(100000, declaration("Empty", "nowhere", 255));
    match BlockRegistry::from_parsed(Ok(file)) {
        Ok((registry, failures)) => {
            assert_eq!(registry.declaration(Block::hard_create(0)).as_ref().unwrap().name(), "Air");
            assert_eq!(failures.len(), 1);
            assert_eq!(failures[0].id(), 100000);
        },
        Err(_) => panic!("a parsed file always gives a registry"),
    }
}

#[test]
fn empty_registry_has_no_declarations() {
    let registry = BlockRegistry::empty();
    assert!(registry.declaration(Block::hard_create(0)).is_none());
    assert!(registry.declaration(Block::hard_create(65535)).is_none());
    assert!(registry.blocks_in_group(&"Stone".to_string()).is_none());
}

#[test]
fn set_declaration_overwrites_and_clears() {
    let mut registry = BlockRegistry::empty();
    registry.set_declaration(3, Some(declaration("Stone", "Granite", 0)));
    assert_eq!(registry.declaration(Block::hard_create(3)).as_ref().unwrap().name(), "Granite");
    registry.set_declaration(3, Some(declaration("Stone", "Basalt", 0)));
    assert_eq!(registry.declaration(Block::hard_create(3)).as_ref().unwrap().name(), "Basalt");
    registry.set_declaration(3, None);
    assert!(registry.declaration(Block::hard_create(3)).is_none());
}

#[test]
fn group_lookup() {
    let mut file = BlockRegistryFile::new();
    file.insert(16, declaration("Stone", "Granite", 0));
    file.insert(17, declaration("Stone", "Basalt", 0));
    file.insert(32, declaration("Glass", "Window", 100));
    let (mut registry, _) = BlockRegistry::from_registry_file(&file);

    let stones = registry.blocks_in_group(&"Stone".to_string()).unwrap();
    let names: Vec<&str> = stones.iter().map(|d| d.name()).collect();
    assert_eq!(names, vec!["Granite", "Basalt"]);

    let glass = registry.blocks_in_group(&"Glass".to_string()).unwrap();
    assert_eq!(glass.len(), 1);
    assert_eq!(glass[0].name(), "Window");

    assert!(registry.blocks_in_group(&"Wood".to_string()).is_none());

    // A declaration moved to another group no longer counts in the old one.
    registry.set_declaration(17, Some(declaration("Glass", "Pane", 50)));
    let stones = registry.blocks_in_group(&"Stone".to_string()).unwrap();
    assert_eq!(stones.len(), 1);
    assert_eq!(stones[0].name(), "Granite");
    let glass = registry.blocks_in_group(&"Glass".to_string()).unwrap();
    let names: Vec<&str> = glass.iter().map(|d| d.name()).collect();
    assert_eq!(names, vec!["Window", "Pane"]);
}
