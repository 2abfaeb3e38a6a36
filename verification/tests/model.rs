use otassets::model::attributes::{Container, Count, Fluid, Item as ItemId};
use otassets::model::{
    Area, Attribute, AttributeKind, AttributesType, Entity, Offset, Pixel, Position, Sprite,
    Texture, TextureFrame, TextureLayer, TexturePatternX, TexturePatternY, TexturePatternZ,
    Textures, TexturesGetBuilder, Tile, World,
};
use std::cmp::Ordering;

fn entity_with_item(id: u16) -> Entity {
    let mut entity = Entity::new();
    entity.attributes.insert(Attribute::Item(ItemId(id)));
    entity
}

fn texture(tag: u8) -> Texture {
    Texture { width: 1, height: 1, image: format!("t{tag}"), rgba_bytes: vec![tag, tag, tag, 255] }
}

/// Textures with `frames` frames, each with 2 z patterns, 1 y pattern, 3 x
/// patterns and 2 layers; the tag of a texture counts up in that order.
fn cube(frames: usize) -> Textures {
    let mut tag = 0u8;
    let mut out = Vec::new();
    for _ in 0..frames {
        let mut patterns_z = Vec::new();
        for _ in 0..2 {
            let mut patterns_x = Vec::new();
            for _ in 0..3 {
                let mut layers = Vec::new();
                for _ in 0..2 {
                    layers.push(TextureLayer { texture: texture(tag) });
                    tag += 1;
                }
                patterns_x.push(TexturePatternX { layers });
            }
            patterns_z.push(TexturePatternZ { patterns_y: vec![TexturePatternY { patterns_x }] });
        }
        out.push(TextureFrame { patterns_z });
    }
    Textures { frames: out }
}

#[test]
fn position_is_built_field_by_field() {
    let p = Position(1, 2, 3);
    assert_eq!(p, Position { x: 1, y: 2, z: 3, stack_pos: None });
    let q = p.x(10).y(20).z(7).stack_pos(Some(4));
    assert_eq!(q, Position { x: 10, y: 20, z: 7, stack_pos: Some(4) });
    assert_eq!(p, Position(1, 2, 3));
}

#[test]
fn position_diff_is_signed() {
    let a = Position(10, 65535, 0);
    let b = Position(7, 0, 255);
    assert_eq!(a.diff(b), (-3, -65535, 255));
    assert_eq!(b.diff(a), (3, 65535, -255));
    assert_eq!(a.diff(a), (0, 0, 0));
}

#[test]
fn positions_are_ordered_by_floor_then_row_then_column() {
    let mut positions = vec![
        Position(5, 5, 7),
        Position(0, 0, 8),
        Position(9, 4, 7),
        Position(4, 5, 7),
        Position(65535, 65535, 6),
        Position(4, 5, 7).stack_pos(Some(0)),
        Position(4, 5, 7).stack_pos(Some(9)),
    ];
    positions.sort_by(|a, b| a.partial_cmp(b).unwrap());
    assert_eq!(
        positions,
        vec![
            Position(65535, 65535, 6),
            Position(9, 4, 7),
            Position(4, 5, 7),
            Position(4, 5, 7).stack_pos(Some(0)),
            Position(4, 5, 7).stack_pos(Some(9)),
            Position(5, 5, 7),
            Position(0, 0, 8),
        ]
    );
    assert_eq!(Position(1, 1, 1).partial_cmp(&Position(1, 1, 1)), Some(Ordering::Equal));
    assert_eq!(Position(2, 1, 1).partial_cmp(&Position(1, 2, 1)), Some(Ordering::Less));
    assert_eq!(Position(1, 2, 1).partial_cmp(&Position(2, 1, 1)), Some(Ordering::Greater));
    assert!(Position(9, 9, 1) < Position(0, 0, 2));
}

#[test]
fn position_keys_are_ranks_and_convert_back() {
    assert_eq!(Position(0, 0, 0).key(), 0);
    assert_eq!(Position(0, 0, 0).stack_pos(Some(0)).key(), 1);
    assert_eq!(Position(1, 0, 0).key(), 65537);
    assert_eq!(Position(0, 1, 0).key(), 65536 * 65537);
    assert_eq!(Position(0, 0, 1).key(), 65536 * 65536 * 65537);
    assert_eq!(Position(3, 2, 1).key(), ((65536 + 2) * 65536 + 3) * 65537);
    for p in [
        Position(0, 0, 0),
        Position(65535, 65535, 255),
        Position(65535, 65535, 255).stack_pos(Some(65535)),
        Position(12, 34, 5).stack_pos(Some(0)),
    ] {
        assert_eq!(Position::from_key(p.key()), Some(p));
    }
    assert_eq!(Position::from_key(Position(65535, 65535, 255).stack_pos(Some(65535)).key() + 1), None);
    assert_eq!(Position::from_key(u64::MAX), None);
}

#[test]
fn areas_know_whether_they_are_the_root() {
    let root = Area::root();
    assert!(root.is_root());
    assert_eq!(root.get_name(), "root");
    assert_eq!(root.get_parent(), &None);
    assert!(root.get_tiles().is_empty());
    let mut cave =
        Area::new("cave".to_string(), Some("root".to_string()), Some(vec![Position(1, 1, 8)]));
    assert!(!cave.is_root());
    assert_eq!(cave.get_parent(), &Some("root".to_string()));
    cave.add_tile(Position(2, 1, 8));
    assert_eq!(cave.get_tiles(), &vec![Position(1, 1, 8), Position(2, 1, 8)]);
    let copy = cave.clone();
    assert_eq!(copy.get_name(), "cave");
    assert_eq!(copy.get_tiles(), cave.get_tiles());
    assert!(Area::new("root".to_string(), None, None).is_root());
}

#[test]
fn attributes_hold_one_value_of_each_kind() {
    let mut attributes = AttributesType::new();
    assert_eq!(attributes.len(), 0);
    attributes.insert(Attribute::Item(ItemId(7)));
    attributes.insert(Attribute::Count(Count(2)));
    attributes.insert(Attribute::Item(ItemId(8)));
    attributes.insert(Attribute::Fluid(Fluid(3)));
    assert_eq!(attributes.len(), 3);
    assert_eq!(attributes.item, Some(ItemId(8)));
    assert_eq!(attributes.count, Some(Count(2)));
    assert_eq!(attributes.fluid, Some(Fluid(3)));
    assert!(attributes.container.is_none());
    assert!(attributes.contains(AttributeKind::Item));
    assert!(!attributes.contains(AttributeKind::Container));
    attributes.insert(Attribute::Container(Container(vec![entity_with_item(1)])));
    assert_eq!(attributes.len(), 4);
    assert_eq!(attributes.container.as_ref().unwrap().0.len(), 1);
}

#[test]
fn attributes_are_named_in_snake_case() {
    assert_eq!(Attribute::Item(ItemId(1)).name(), "item");
    assert_eq!(Attribute::Count(Count(1)).name(), "count");
    assert_eq!(Attribute::Fluid(Fluid(1)).name(), "fluid");
    assert_eq!(Attribute::Container(Container(vec![])).name(), "container");
    assert_eq!(Attribute::Fluid(Fluid(1)).kind(), AttributeKind::Fluid);
    assert_eq!(AttributeKind::Container.as_name(), "container");
}

#[test]
fn a_new_entity_has_no_attributes() {
    let entity = Entity::new();
    assert_eq!(entity.attributes.len(), 0);
    assert!(entity.attributes.item.is_none());
}

#[test]
fn offsets_default_to_zero() {
    assert_eq!(Offset::default(), Offset { x: 0, y: 0 });
}

#[test]
fn sprites_keep_their_id_and_pixels() {
    let sprite = Sprite::new(42, vec![1, 2, 3, 4]);
    assert_eq!(sprite.id(), 42);
    assert_eq!(sprite.pixels(), &[1, 2, 3, 4]);
    assert_eq!(Sprite::SIZE, 32);
    assert_eq!(Sprite::BYTES, 4096);
}

#[test]
fn pixels_are_four_bytes() {
    let pixel = Pixel::from([1, 2, 3, 4]);
    assert_eq!(pixel, Pixel { red: 1, green: 2, blue: 3, alpha: 4 });
    assert_eq!(pixel.into_bytes(), [1, 2, 3, 4]);
    let texture =
        Texture { width: 2, height: 1, image: String::new(), rgba_bytes: vec![1, 2, 3, 4, 5, 6, 7, 8] };
    assert_eq!(
        texture.pixels(),
        vec![
            Pixel { red: 1, green: 2, blue: 3, alpha: 4 },
            Pixel { red: 5, green: 6, blue: 7, alpha: 8 }
        ]
    );
}

#[test]
fn padding_repeats_the_nearest_pixel() {
    let a = [1u8, 1, 1, 255];
    let b = [2u8, 2, 2, 255];
    let c = [3u8, 3, 3, 255];
    let d = [4u8, 4, 4, 255];
    let e = [5u8, 5, 5, 255];
    let f = [6u8, 6, 6, 255];
    let texture = Texture {
        width: 3,
        height: 2,
        image: String::new(),
        rgba_bytes: [a, b, c, d, e, f].concat(),
    };
    assert_eq!(texture.rgba_bytes(0), texture.rgba_bytes);
    let rows = [
        [a, a, b, c, c],
        [a, a, b, c, c],
        [d, d, e, f, f],
        [d, d, e, f, f],
    ];
    let expected: Vec<u8> = rows.iter().flat_map(|row| row.concat()).collect();
    assert_eq!(texture.rgba_bytes(1), expected);
    let wide = texture.rgba_bytes(2);
    assert_eq!(wide.len(), 4 * 7 * 6);
    assert_eq!(&wide[0..4], &a);
    assert_eq!(&wide[4 * 6..4 * 7], &c);
    assert_eq!(&wide[4 * (5 * 7)..4 * (5 * 7) + 4], &d);
    assert_eq!(&wide[4 * (5 * 7 + 6)..], &f);
    assert_eq!(&wide[4 * (2 * 7 + 3)..4 * (2 * 7 + 3) + 4], &b);
}

#[test]
fn padding_a_single_pixel_fills_the_image_with_it() {
    let texture = Texture { width: 1, height: 1, image: String::new(), rgba_bytes: vec![9, 8, 7, 6] };
    let padded = texture.rgba_bytes(3);
    assert_eq!(padded.len(), 4 * 49);
    assert!(padded.chunks(4).all(|p| p == [9, 8, 7, 6]));
}

#[test]
fn the_builder_sets_each_index() {
    let b = TexturesGetBuilder::new().frame(1).pattern_x(2).pattern_y(3).pattern_z(4).layer(5);
    assert_eq!(
        b,
        TexturesGetBuilder { frame: 1, pattern_x: 2, pattern_y: 3, pattern_z: 4, layer: 5 }
    );
    assert_eq!(
        TexturesGetBuilder::new(),
        TexturesGetBuilder { frame: 0, pattern_x: 0, pattern_y: 0, pattern_z: 0, layer: 0 }
    );
    assert_eq!(TexturesGetBuilder::default(), TexturesGetBuilder::new());
}

#[test]
fn textures_are_found_by_frame_pattern_and_layer() {
    let textures = cube(2);
    assert_eq!(textures.get_default().image, "t0");
    assert_eq!(textures.get(TexturesGetBuilder::new().layer(1)).image, "t1");
    assert_eq!(textures.get(TexturesGetBuilder::new().pattern_x(2)).image, "t4");
    assert_eq!(textures.get(TexturesGetBuilder::new().pattern_z(1)).image, "t6");
    assert_eq!(textures.get(TexturesGetBuilder::new().frame(1)).image, "t12");
    let last = TexturesGetBuilder::new().frame(1).pattern_z(1).pattern_x(2).layer(1);
    assert_eq!(textures.get(last).image, "t23");
}

#[test]
fn pattern_indices_wrap_around() {
    let textures = cube(1);
    assert_eq!(textures.get(TexturesGetBuilder::new().pattern_x(3)).image, "t0");
    assert_eq!(textures.get(TexturesGetBuilder::new().pattern_x(5)).image, "t4");
    assert_eq!(textures.get(TexturesGetBuilder::new().pattern_y(7)).image, "t0");
    assert_eq!(textures.get(TexturesGetBuilder::new().pattern_z(3)).image, "t6");
}

#[test]
fn get_all_lists_every_texture_in_order() {
    let textures = cube(2);
    let all = textures.get_all();
    assert_eq!(all.len(), 24);
    for (i, t) in all.iter().enumerate() {
        assert_eq!(t.image, format!("t{i}"));
        assert_eq!(t.rgba_bytes, vec![i as u8, i as u8, i as u8, 255]);
    }
    assert!(Textures { frames: vec![] }.get_all().is_empty());
}

#[test]
fn a_new_world_has_the_root_area_and_no_tiles() {
    let mut world = World::new(100, 200);
    assert_eq!((world.get_width(), world.get_height()), (100, 200));
    assert!(world.tiles().is_empty());
    assert_eq!(world.get_areas().len(), 1);
    assert!(world.get_areas()[0].is_root());
    world.set_width(7);
    world.set_height(9);
    assert_eq!((world.get_width(), world.get_height()), (7, 9));
    let empty = World::empty();
    assert_eq!((empty.get_width(), empty.get_height()), (0, 0));
    assert!(empty.into_tiles().is_empty());
}

#[test]
fn tiles_are_unique_by_position_and_registered_with_the_root_area() {
    let mut world = World::empty();
    world.add_tile(Position(1, 2, 7), Tile::with_entities(vec![entity_with_item(10)]));
    world.add_tile(Position(2, 2, 7), Tile::with_entities(vec![entity_with_item(20)]));
    world.add_tile(Position(1, 2, 7), Tile::with_entities(vec![entity_with_item(30)]));
    assert_eq!(world.tiles().len(), 2);
    let tile = world.get_tile(&Position(1, 2, 7)).unwrap();
    assert_eq!(tile.entities[0].attributes.item, Some(ItemId(30)));
    assert!(world.get_tile(&Position(1, 2, 6)).is_none());
    assert_eq!(
        world.get_areas()[0].get_tiles(),
        &vec![Position(1, 2, 7), Position(2, 2, 7), Position(1, 2, 7)]
    );
    let keys: Vec<Position> = {
        let mut keys: Vec<u64> = world.tiles().keys().copied().collect();
        keys.sort();
        keys.into_iter().map(|k| Position::from_key(k).unwrap()).collect()
    };
    assert_eq!(keys, vec![Position(1, 2, 7), Position(2, 2, 7)]);
}

#[test]
fn the_root_area_can_be_changed_in_place() {
    let mut world = World::empty();
    world.root_area_mut().add_tile(Position(3, 3, 3));
    assert_eq!(world.get_areas()[0].get_tiles(), &vec![Position(3, 3, 3)]);
    assert!(world.tiles().is_empty());
}

#[test]
fn entities_are_added_at_an_index_or_at_the_end() {
    let mut world = World::empty();
    let here = Position(5, 5, 7);
    world.add_entity(here, entity_with_item(1), None);
    assert_eq!(world.get_areas()[0].get_tiles(), &vec![here]);
    world.add_entity(here, entity_with_item(2), None);
    world.add_entity(here, entity_with_item(3), Some(0));
    world.add_entity(here, entity_with_item(4), Some(2));
    world.add_entity(here, entity_with_item(5), Some(4));
    let ids: Vec<u16> = world
        .get_tile(&here)
        .unwrap()
        .entities
        .iter()
        .map(|e| e.attributes.item.unwrap().0)
        .collect();
    assert_eq!(ids, vec![3, 1, 4, 2, 5]);
    assert_eq!(world.get_areas()[0].get_tiles(), &vec![here]);
    world.add_entity(Position(5, 5, 8), entity_with_item(9), Some(200));
    assert_eq!(world.tiles().len(), 2);
    assert_eq!(world.get_tile(&Position(5, 5, 8)).unwrap().entities.len(), 1);
}

#[test]
fn well_formedness_can_be_tested() {
    assert!(World::empty().is_well_formed());
    let good = Texture { width: 2, height: 3, image: String::new(), rgba_bytes: vec![0; 24] };
    assert!(good.is_well_formed());
    let short = Texture { width: 2, height: 3, image: String::new(), rgba_bytes: vec![0; 23] };
    assert!(!short.is_well_formed());
    let empty = Texture { width: 0, height: 3, image: String::new(), rgba_bytes: vec![] };
    assert!(!empty.is_well_formed());
    let textures = cube(1);
    assert!(textures.contains(TexturesGetBuilder::new()));
    assert!(textures.contains(TexturesGetBuilder::new().pattern_x(100).layer(1)));
    assert!(!textures.contains(TexturesGetBuilder::new().frame(1)));
    assert!(!textures.contains(TexturesGetBuilder::new().layer(2)));
    assert!(!Textures { frames: vec![] }.contains(TexturesGetBuilder::new()));
    let hollow = Textures { frames: vec![TextureFrame { patterns_z: vec![] }] };
    assert!(!hollow.contains(TexturesGetBuilder::new()));
}

#[test]
fn entities_and_tiles_default_to_empty() {
    assert_eq!(Entity::default().attributes.len(), 0);
    let tile = Tile::default();
    assert_eq!(tile.attributes.len(), 0);
    assert!(tile.entities.is_empty());
}
