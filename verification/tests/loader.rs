use base64::engine::general_purpose;
use base64::Engine;
use otassets::model::attributes::{Count, Fluid, Item as ItemId};
use otassets::model::{Offset, Position, Textures, TexturesGetBuilder};
use otassets::parse::otbm::{Attribute, Position as MapPosition, Thing, Tile, TileMap};
use otassets::parse::spr::SpriteBytes;
use otassets::parse::{dat, Error};
use otassets::tfs::images::preview;
use otassets::tfs::loader::{
    assemble_item, assemble_items, assemble_tile, assemble_tiles, assemble_world,
    get_item_textures, item_messages, thing_to_entity, things_to_entities, tile_messages,
};
use otassets::transport::Message;
use std::collections::HashMap;

fn solid(colour: [u8; 4]) -> SpriteBytes {
    SpriteBytes::try_from(colour.repeat(1024)).unwrap()
}

/// Sprites 2, 3 and 4 in plain red, green and blue; 5 is half transparent
/// white.
fn sprites() -> HashMap<u16, SpriteBytes> {
    let mut sprites = HashMap::new();
    sprites.insert(2, solid([255, 0, 0, 255]));
    sprites.insert(3, solid([0, 255, 0, 255]));
    sprites.insert(4, solid([0, 0, 255, 255]));
    sprites.insert(5, solid([255, 255, 255, 128]));
    sprites
}

fn shape(dims: [u8; 7], ids: Vec<u16>) -> dat::Textures {
    dat::Textures {
        width: dims[0],
        height: dims[1],
        layers: dims[2],
        patterns_x: dims[3],
        patterns_y: dims[4],
        patterns_z: dims[5],
        frames: dims[6],
        sprites: ids,
    }
}

fn pixel(texture: &otassets::model::Texture, x: usize, y: usize) -> [u8; 4] {
    let at = 4 * (y * texture.width as usize + x);
    [
        texture.rgba_bytes[at],
        texture.rgba_bytes[at + 1],
        texture.rgba_bytes[at + 2],
        texture.rgba_bytes[at + 3],
    ]
}

fn only(textures: &Textures) -> &otassets::model::Texture {
    assert_eq!(textures.frames.len(), 1);
    textures.get_default()
}

fn thing(attributes: Vec<Attribute>) -> Thing {
    Thing { attributes }
}

#[test]
fn a_single_sprite_is_the_whole_texture() {
    let textures = get_item_textures(&shape([1, 1, 1, 1, 1, 1, 1], vec![3]), &sprites());
    let texture = only(&textures);
    assert_eq!((texture.width, texture.height), (32, 32));
    assert_eq!(texture.rgba_bytes, [0u8, 255, 0, 255].repeat(1024));
    assert_eq!(textures.frames[0].patterns_z[0].patterns_y[0].patterns_x[0].layers.len(), 1);
}

#[test]
fn sprite_columns_go_right_to_left_and_rows_bottom_to_top() {
    let textures = get_item_textures(&shape([2, 2, 1, 1, 1, 1, 1], vec![2, 3, 4, 0]), &sprites());
    let texture = only(&textures);
    assert_eq!((texture.width, texture.height), (64, 64));
    assert_eq!(texture.rgba_bytes.len(), 4 * 64 * 64);
    assert_eq!(pixel(texture, 63, 63), [255, 0, 0, 255]);
    assert_eq!(pixel(texture, 32, 32), [255, 0, 0, 255]);
    assert_eq!(pixel(texture, 0, 63), [0, 255, 0, 255]);
    assert_eq!(pixel(texture, 31, 32), [0, 255, 0, 255]);
    assert_eq!(pixel(texture, 63, 0), [0, 0, 255, 255]);
    assert_eq!(pixel(texture, 32, 31), [0, 0, 255, 255]);
    assert_eq!(pixel(texture, 0, 0), [0, 0, 0, 0]);
    assert_eq!(pixel(texture, 31, 31), [0, 0, 0, 0]);
}

#[test]
fn later_layers_lie_over_earlier_ones() {
    let textures = get_item_textures(&shape([1, 1, 2, 1, 1, 1, 1], vec![2, 4]), &sprites());
    assert_eq!(only(&textures).rgba_bytes, [0u8, 0, 255, 255].repeat(1024));
    let textures = get_item_textures(&shape([1, 1, 2, 1, 1, 1, 1], vec![4, 0]), &sprites());
    assert_eq!(only(&textures).rgba_bytes, [0u8, 0, 255, 255].repeat(1024));
}

#[test]
fn half_transparent_sprites_are_blended_as_the_image_crate_blends() {
    let textures = get_item_textures(&shape([1, 1, 2, 1, 1, 1, 1], vec![2, 5]), &sprites());
    let mut below = image::RgbaImage::from_raw(32, 32, [255u8, 0, 0, 255].repeat(1024)).unwrap();
    let above = image::RgbaImage::from_raw(32, 32, [255u8, 255, 255, 128].repeat(1024)).unwrap();
    image::imageops::overlay(&mut below, &above, 0, 0);
    let texture = only(&textures);
    assert_eq!(texture.rgba_bytes, below.into_raw());
    assert!(pixel(texture, 5, 5)[0] >= 254);
    assert!(pixel(texture, 5, 5)[1] > 100 && pixel(texture, 5, 5)[1] < 160);
    assert!(pixel(texture, 5, 5)[3] >= 254);
    assert_ne!(texture.rgba_bytes, [255u8, 0, 0, 255].repeat(1024));
}

#[test]
fn ids_outside_the_table_stand_for_no_sprite() {
    let table = sprites();
    for id in [0u16, 1, 6, 7, 1000, 65535] {
        let textures = get_item_textures(&shape([1, 1, 1, 1, 1, 1, 1], vec![id]), &table);
        assert_eq!(only(&textures).rgba_bytes, vec![0u8; 4096], "id {id}");
    }
    let mut sparse = HashMap::new();
    sparse.insert(1, solid([9, 9, 9, 255]));
    sparse.insert(4, solid([1, 2, 3, 255]));
    sparse.insert(5, solid([4, 5, 6, 255]));
    let textures = get_item_textures(&shape([1, 1, 1, 3, 1, 1, 1], vec![1, 4, 5]), &sparse);
    let row = &textures.frames[0].patterns_z[0].patterns_y[0].patterns_x;
    assert_eq!(row[0].layers[0].texture.rgba_bytes, vec![0u8; 4096]);
    assert_eq!(row[1].layers[0].texture.rgba_bytes, [1u8, 2, 3, 255].repeat(1024));
    assert_eq!(row[2].layers[0].texture.rgba_bytes, [4u8, 5, 6, 255].repeat(1024));
    sparse.remove(&1);
    let textures = get_item_textures(&shape([1, 1, 1, 1, 1, 1, 1], vec![5]), &sparse);
    assert_eq!(only(&textures).rgba_bytes, vec![0u8; 4096]);
}

#[test]
fn textures_are_numbered_by_frame_then_z_then_y_then_x() {
    let ids: Vec<u16> = (0..2 * 2 * 2 * 3).map(|i| 2 + (i % 3) as u16).collect();
    let textures = get_item_textures(&shape([1, 1, 1, 3, 2, 2, 2], ids), &sprites());
    assert_eq!(textures.frames.len(), 2);
    let colours = [[255u8, 0, 0, 255], [0, 255, 0, 255], [0, 0, 255, 255]];
    let mut index = 0;
    for f in 0..2 {
        assert_eq!(textures.frames[f].patterns_z.len(), 2);
        for z in 0..2 {
            assert_eq!(textures.frames[f].patterns_z[z].patterns_y.len(), 2);
            for y in 0..2 {
                assert_eq!(textures.frames[f].patterns_z[z].patterns_y[y].patterns_x.len(), 3);
                for x in 0..3 {
                    let b = TexturesGetBuilder::new().frame(f).pattern_z(z).pattern_y(y).pattern_x(x);
                    assert_eq!(pixel(textures.get(b), 0, 0), colours[index % 3]);
                    index += 1;
                }
            }
        }
    }
    assert_eq!(textures.get_all().len(), 24);
}

#[test]
fn an_item_without_frames_has_no_textures() {
    let textures = get_item_textures(&shape([1, 1, 1, 1, 1, 1, 0], vec![]), &sprites());
    assert!(textures.frames.is_empty());
    let textures = get_item_textures(&shape([0, 1, 1, 1, 1, 1, 1], vec![]), &sprites());
    let texture = only(&textures);
    assert_eq!((texture.width, texture.height), (0, 32));
    assert!(texture.rgba_bytes.is_empty());
    let written = general_purpose::STANDARD.decode(&texture.image).unwrap();
    assert!(image::load_from_memory(&written).is_err());
}

#[test]
fn the_preview_is_the_png_of_the_image_in_base64() {
    let textures = get_item_textures(&shape([2, 1, 1, 1, 1, 1, 1], vec![2, 3]), &sprites());
    let texture = only(&textures);
    assert!(texture.image.starts_with("iVBORw0KGgo"));
    let png = general_purpose::STANDARD.decode(&texture.image).unwrap();
    assert_eq!(&png[..8], &[137, 80, 78, 71, 13, 10, 26, 10]);
    let decoded = image::load_from_memory(&png).unwrap().into_rgba8();
    assert_eq!((decoded.width(), decoded.height()), (64, 32));
    assert_eq!(decoded.into_raw(), texture.rgba_bytes);
    assert_eq!(preview(&texture.rgba_bytes, 64, 32).as_ref(), Some(&texture.image));
    let other = preview(&[7u8, 7, 7, 255].repeat(4), 2, 2).unwrap();
    assert_ne!(other, texture.image);
    let refused = preview(&vec![], 0, 5).unwrap();
    assert!(image::load_from_memory(&general_purpose::STANDARD.decode(&refused).unwrap()).is_err());
}

#[test]
fn an_item_record_becomes_an_item_with_textures() {
    let record = dat::Item {
        id: 321,
        minimap_color: Some(5),
        ground: true,
        stackable: false,
        splash: true,
        fluid_container: false,
        draw_offset: Offset { x: 1, y: 2 },
        height_offset: Offset { x: 3, y: 3 },
        textures: shape([1, 1, 1, 1, 1, 1, 1], vec![4]),
    };
    let item = assemble_item(&record, &sprites()).unwrap();
    assert_eq!(item.id, 321);
    assert_eq!(item.name, None);
    assert!(item.ground && item.splash && !item.stackable && !item.fluid_container);
    assert_eq!(item.draw_offset, Offset { x: 1, y: 2 });
    assert_eq!(item.height_offset, Offset { x: 3, y: 3 });
    assert_eq!(item.texture().rgba_bytes, [0u8, 0, 255, 255].repeat(1024));
    assert_eq!(item.all_textures().len(), 1);
}

#[test]
fn a_thing_becomes_an_entity_and_the_last_attribute_of_a_kind_wins() {
    let entity = thing_to_entity(&thing(vec![
        Attribute::Count(1),
        Attribute::Item(10),
        Attribute::Count(2),
        Attribute::Fluid(3),
        Attribute::Item(11),
    ]));
    assert_eq!(entity.attributes.item, Some(ItemId(11)));
    assert_eq!(entity.attributes.count, Some(Count(2)));
    assert_eq!(entity.attributes.fluid, Some(Fluid(3)));
    assert!(entity.attributes.container.is_none());
    assert_eq!(thing_to_entity(&thing(vec![])).attributes.len(), 0);
}

#[test]
fn containers_become_containers_of_entities() {
    let inner = thing(vec![
        Attribute::Item(3),
        Attribute::Container(vec![thing(vec![Attribute::Item(4), Attribute::Count(9)])]),
    ]);
    let outer = thing(vec![
        Attribute::Item(1),
        Attribute::Container(vec![thing(vec![Attribute::Item(2)]), inner]),
    ]);
    let entity = thing_to_entity(&outer);
    assert_eq!(entity.attributes.item, Some(ItemId(1)));
    let inside = &entity.attributes.container.as_ref().unwrap().0;
    assert_eq!(inside.len(), 2);
    assert_eq!(inside[0].attributes.item, Some(ItemId(2)));
    assert!(inside[0].attributes.container.is_none());
    assert_eq!(inside[1].attributes.item, Some(ItemId(3)));
    let deeper = &inside[1].attributes.container.as_ref().unwrap().0;
    assert_eq!(deeper.len(), 1);
    assert_eq!(deeper[0].attributes.item, Some(ItemId(4)));
    assert_eq!(deeper[0].attributes.count, Some(Count(9)));
    assert_eq!(things_to_entities(&vec![]).len(), 0);
}

fn map_tile(x: u16, y: u16, z: u8, ids: &[u16]) -> Tile {
    Tile {
        position: MapPosition { x, y, z },
        things: ids.iter().map(|id| thing(vec![Attribute::Item(*id)])).collect(),
    }
}

#[test]
fn a_map_tile_becomes_a_placed_tile() {
    let (position, tile) = assemble_tile(&map_tile(5, 6, 7, &[100, 200]));
    assert_eq!(position, Position(5, 6, 7));
    assert_eq!(tile.attributes.len(), 0);
    assert_eq!(tile.entities.len(), 2);
    assert_eq!(tile.entities[0].attributes.item, Some(ItemId(100)));
    assert_eq!(tile.entities[1].attributes.item, Some(ItemId(200)));
    let placed = assemble_tiles(&vec![map_tile(1, 1, 1, &[]), map_tile(2, 2, 2, &[7])]);
    assert_eq!(placed.len(), 2);
    assert_eq!(placed[0].0, Position(1, 1, 1));
    assert_eq!(placed[1].0, Position(2, 2, 2));
    assert_eq!(placed[1].1.entities[0].attributes.item, Some(ItemId(7)));
}

#[test]
fn the_world_holds_one_tile_for_each_position() {
    let map = TileMap {
        width: 10,
        height: 20,
        tiles: vec![
            map_tile(5, 5, 7, &[100]),
            map_tile(6, 5, 7, &[101, 102]),
            map_tile(5, 5, 7, &[103]),
        ],
    };
    let world = assemble_world(&map);
    assert_eq!((world.get_width(), world.get_height()), (10, 20));
    assert_eq!(world.tiles().len(), 2);
    assert_eq!(
        world.get_tile(&Position(5, 5, 7)).unwrap().entities[0].attributes.item,
        Some(ItemId(103))
    );
    assert_eq!(world.get_tile(&Position(6, 5, 7)).unwrap().entities.len(), 2);
    assert_eq!(world.get_areas().len(), 1);
    assert_eq!(
        world.get_areas()[0].get_tiles(),
        &vec![Position(5, 5, 7), Position(6, 5, 7), Position(5, 5, 7)]
    );
}

fn record(id: u16) -> dat::Item {
    dat::Item {
        id,
        minimap_color: None,
        ground: false,
        stackable: false,
        splash: false,
        fluid_container: false,
        draw_offset: Offset { x: 0, y: 0 },
        height_offset: Offset { x: 0, y: 0 },
        textures: shape([1, 1, 1, 1, 1, 1, 0], vec![]),
    }
}

fn sizes(messages: &[Message]) -> Vec<String> {
    messages
        .iter()
        .map(|m| match m {
            Message::ItemsCount(n) => format!("items count {n}"),
            Message::Items(items) => format!("items {}", items.len()),
            Message::MapTilesCount(n) => format!("tiles count {n}"),
            Message::MapTiles(tiles) => format!("tiles {}", tiles.len()),
            _ => "other".to_string(),
        })
        .collect()
}

#[test]
fn items_are_assembled_in_the_order_of_their_ids() {
    let mut items = HashMap::new();
    for id in [300u16, 100, 65535, 0, 200] {
        items.insert(id, record(id));
    }
    let document = dat::Document { signature: 0, items };
    let assembled = assemble_items(&document, &sprites()).unwrap();
    let ids: Vec<u16> = assembled.iter().map(|i| i.id).collect();
    assert_eq!(ids, vec![0, 100, 200, 300, 65535]);
}

#[test]
fn items_go_out_in_batches_of_a_hundred() {
    let mut items = HashMap::new();
    for id in 0..250u16 {
        items.insert(1000 + id, record(1000 + id));
    }
    let document = dat::Document { signature: 0, items };
    let messages = item_messages(assemble_items(&document, &sprites()).unwrap());
    assert_eq!(sizes(&messages), vec!["items count 250", "items 100", "items 100", "items 50"]);
    let mut next = 1000;
    for message in &messages[1..] {
        let Message::Items(batch) = message else {
            panic!("not a batch");
        };
        for item in batch {
            assert_eq!(item.id, next);
            next += 1;
        }
    }
    assert_eq!(sizes(&item_messages(vec![])), vec!["items count 0"]);
    let exact = item_messages((0..200u16).map(|id| assemble_item(&record(id), &sprites()).unwrap()).collect());
    assert_eq!(sizes(&exact), vec!["items count 200", "items 100", "items 100"]);
    let one = item_messages((0..1u16).map(|id| assemble_item(&record(id), &sprites()).unwrap()).collect());
    assert_eq!(sizes(&one), vec!["items count 1", "items 1"]);
}

#[test]
fn tiles_go_out_in_batches_of_ten_thousand() {
    let tiles: Vec<Tile> =
        (0..20_001u32).map(|i| map_tile((i % 1000) as u16, (i / 1000) as u16, 7, &[])).collect();
    let messages = tile_messages(assemble_tiles(&tiles));
    assert_eq!(
        sizes(&messages),
        vec!["tiles count 20001", "tiles 10000", "tiles 10000", "tiles 1"]
    );
    let Message::MapTiles(last) = &messages[3] else {
        panic!("not a batch");
    };
    assert_eq!(last[0].0, Position(0, 20, 7));
    let Message::MapTiles(first) = &messages[1] else {
        panic!("not a batch");
    };
    assert_eq!(first[0].0, Position(0, 0, 7));
    assert_eq!(first[9_999].0, Position(999, 9, 7));
    assert_eq!(sizes(&tile_messages(vec![])), vec!["tiles count 0"]);
}

#[test]
fn a_record_with_the_wrong_number_of_sprite_ids_is_malformed() {
    let mut bad = record(5);
    bad.textures = shape([1, 1, 1, 1, 1, 1, 1], vec![]);
    assert!(!bad.textures.is_well_formed());
    assert!(matches!(assemble_item(&bad, &sprites()), Err(Error::Malformed)));
    let mut long = record(6);
    long.textures = shape([1, 1, 1, 1, 1, 1, 1], vec![2, 3]);
    assert!(matches!(assemble_item(&long, &sprites()), Err(Error::Malformed)));
    let mut items = HashMap::new();
    items.insert(1, record(1));
    items.insert(5, bad);
    let document = dat::Document { signature: 0, items };
    assert!(matches!(assemble_items(&document, &sprites()), Err(Error::Malformed)));
    assert!(record(1).textures.is_well_formed());
    assert!(shape([2, 3, 1, 1, 1, 1, 2], vec![0; 12]).is_well_formed());
    assert!(!shape([2, 3, 1, 1, 1, 1, 2], vec![0; 11]).is_well_formed());
}
