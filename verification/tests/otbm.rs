use otassets::model::Offset;
use otassets::parse::cursor::ByteCursor;
use otassets::parse::otbm::{
    get_node, Attribute, AttributeCode, Document, NodeType, OtbmParser, Position, Reader, Thing,
};
use otassets::parse::{dat, otb, Error, Parse};
use std::collections::HashMap;

fn escaped(bytes: &[u8]) -> Vec<u8> {
    let mut out = Vec::new();
    for byte in bytes {
        if *byte >= 0xFD {
            out.push(0xFD);
        }
        out.push(*byte);
    }
    out
}

/// A node: the type byte, its body (already escaped where needed) and the
/// end marker.
fn node(kind: u8, body: &[u8]) -> Vec<u8> {
    let mut out = vec![0xFE, kind];
    out.extend_from_slice(body);
    out.push(0xFF);
    out
}

fn u16s(values: &[u16]) -> Vec<u8> {
    let mut out = Vec::new();
    for v in values {
        out.extend_from_slice(&escaped(&v.to_le_bytes()));
    }
    out
}

fn map_file(version: u32, width: u16, height: u16, map_data_body: &[u8]) -> Vec<u8> {
    let mut root = Vec::new();
    root.extend_from_slice(&escaped(&version.to_le_bytes()));
    root.extend_from_slice(&escaped(&width.to_le_bytes()));
    root.extend_from_slice(&escaped(&height.to_le_bytes()));
    root.extend_from_slice(&escaped(&3u32.to_le_bytes()));
    root.extend_from_slice(&escaped(&57u32.to_le_bytes()));
    root.extend_from_slice(&node(0x02, map_data_body));
    let mut out = vec![0u8, 0, 0, 0];
    out.extend_from_slice(&node(0x00, &root));
    out
}

fn area(x: u16, y: u16, z: u8, body: &[u8]) -> Vec<u8> {
    let mut inner = u16s(&[x, y]);
    inner.extend_from_slice(&escaped(&[z]));
    inner.extend_from_slice(body);
    node(0x04, &inner)
}

fn tile(x: u8, y: u8, body: &[u8]) -> Vec<u8> {
    let mut inner = escaped(&[x, y]);
    inner.extend_from_slice(body);
    node(0x05, &inner)
}

fn house_tile(x: u8, y: u8, house: u32, body: &[u8]) -> Vec<u8> {
    let mut inner = escaped(&[x, y]);
    inner.extend_from_slice(&escaped(&house.to_le_bytes()));
    inner.extend_from_slice(body);
    node(0x0E, &inner)
}

fn item(server_id: u16, body: &[u8]) -> Vec<u8> {
    let mut inner = u16s(&[server_id]);
    inner.extend_from_slice(body);
    node(0x06, &inner)
}

fn ground(server_id: u16) -> Vec<u8> {
    let mut out = vec![0x09];
    out.extend_from_slice(&u16s(&[server_id]));
    out
}

fn string(text: &str) -> Vec<u8> {
    let mut out = u16s(&[text.len() as u16]);
    out.extend_from_slice(&escaped(text.as_bytes()));
    out
}

fn index_item(server_id: u16, client_id: u16) -> otb::Item {
    otb::Item {
        group: otb::ItemGroup::Unset,
        flags: 0,
        server_id,
        client_id,
        name: None,
        ground_speed: None,
        sprite_hash: None,
        minimap_color: None,
        max_read_write_chars: None,
        max_read_chars: None,
        light: None,
        stack_order: None,
        trade_as: None,
    }
}

fn index(pairs: &[(u16, u16)]) -> otb::Document {
    let mut items = HashMap::new();
    for (server, client) in pairs {
        items.insert(*server, index_item(*server, *client));
    }
    otb::Document { major_version: 3, minor_version: 57, build_version: 62, items }
}

fn metadata_item(id: u16, stackable: bool, splash: bool, fluid_container: bool) -> dat::Item {
    dat::Item {
        id,
        minimap_color: None,
        ground: false,
        stackable,
        splash,
        fluid_container,
        draw_offset: Offset { x: 0, y: 0 },
        height_offset: Offset { x: 0, y: 0 },
        textures: dat::Textures {
            width: 1,
            height: 1,
            layers: 1,
            patterns_x: 1,
            patterns_y: 1,
            patterns_z: 1,
            frames: 1,
            sprites: vec![0],
        },
    }
}

/// Client ids: 500 is stackable, 501 a splash, 502 a fluid container, 503
/// plain, 504 stackable and a fluid container.
fn metadata() -> dat::Document {
    let mut items = HashMap::new();
    items.insert(500, metadata_item(500, true, false, false));
    items.insert(501, metadata_item(501, false, true, false));
    items.insert(502, metadata_item(502, false, false, true));
    items.insert(503, metadata_item(503, false, false, false));
    items.insert(504, metadata_item(504, true, false, true));
    dat::Document { signature: 0, items }
}

/// Server ids 1500..=1504 stand for the client ids 500..=504; 0xFFFE for
/// 600, which the metadata does not hold.
fn table() -> otb::Document {
    index(&[(1500, 500), (1501, 501), (1502, 502), (1503, 503), (1504, 504), (0xFFFE, 600)])
}

fn parse(bytes: Vec<u8>) -> Result<Document, Error> {
    let dat = metadata();
    let otb = table();
    Reader { data: bytes, dat: &dat, otb: &otb }.parse()
}

fn kinds(thing: &Thing) -> Vec<String> {
    thing
        .attributes
        .iter()
        .map(|a| match a {
            Attribute::Item(id) => format!("item {id}"),
            Attribute::Count(n) => format!("count {n}"),
            Attribute::Fluid(n) => format!("fluid {n}"),
            Attribute::Container(things) => format!("container {}", things.len()),
        })
        .collect()
}

#[test]
fn one_area_with_one_ground_tile() {
    let bytes = map_file(2, 1024, 2048, &area(0, 0, 7, &tile(5, 5, &ground(1503))));
    let document = parse(bytes).unwrap();
    assert_eq!(document.map.width, 1024);
    assert_eq!(document.map.height, 2048);
    assert_eq!(document.map.tiles.len(), 1);
    let tile = &document.map.tiles[0];
    assert_eq!(tile.position, Position { x: 5, y: 5, z: 7 });
    assert_eq!(tile.things.len(), 1);
    assert_eq!(kinds(&tile.things[0]), vec!["item 503"]);
}

#[test]
fn positions_are_area_origin_plus_tile_offset() {
    let mut tiles = tile(1, 2, &ground(1503));
    tiles.extend_from_slice(&tile(255, 0, &[]));
    let mut body = area(1000, 2000, 7, &tiles);
    body.extend_from_slice(&area(0xFFFD, 0xFE00, 0xFF, &tile(2, 255, &[])));
    let document = parse(map_file(2, 1, 1, &body)).unwrap();
    let positions: Vec<Position> = document.map.tiles.iter().map(|t| t.position).collect();
    assert_eq!(
        positions,
        vec![
            Position { x: 1001, y: 2002, z: 7 },
            Position { x: 1255, y: 2000, z: 7 },
            Position { x: 0xFFFF, y: 0xFEFF, z: 0xFF },
        ]
    );
    assert!(document.map.tiles[1].things.is_empty());
}

#[test]
fn a_position_beyond_u16_is_malformed() {
    let body = area(0xFFFE, 0, 7, &tile(2, 0, &[]));
    assert!(matches!(parse(map_file(2, 1, 1, &body)), Err(Error::Malformed)));
    let body = area(0, 0xFF01, 7, &tile(0, 255, &[]));
    assert!(matches!(parse(map_file(2, 1, 1, &body)), Err(Error::Malformed)));
}

#[test]
fn the_last_of_two_grounds_wins_and_comes_first() {
    let mut body = item(1500, &[]);
    body.extend_from_slice(&ground(1501));
    body.extend_from_slice(&item(1502, &[]));
    body.extend_from_slice(&ground(1503));
    let document = parse(map_file(2, 1, 1, &area(0, 0, 7, &tile(0, 0, &body)))).unwrap();
    let things = &document.map.tiles[0].things;
    assert_eq!(things.len(), 3);
    assert_eq!(kinds(&things[0]), vec!["item 503"]);
    assert_eq!(kinds(&things[1]), vec!["item 500"]);
    assert_eq!(kinds(&things[2]), vec!["item 502"]);
}

#[test]
fn tile_flags_and_house_ids_are_passed_over() {
    let mut body = vec![0x03];
    body.extend_from_slice(&escaped(&0xFFFF_FFFEu32.to_le_bytes()));
    body.extend_from_slice(&ground(1503));
    let mut tiles = tile(1, 1, &body);
    tiles.extend_from_slice(&house_tile(2, 2, 0xFDFE_FF01, &ground(1500)));
    let document = parse(map_file(2, 1, 1, &area(10, 10, 3, &tiles))).unwrap();
    assert_eq!(document.map.tiles.len(), 2);
    assert_eq!(document.map.tiles[0].position, Position { x: 11, y: 11, z: 3 });
    assert_eq!(kinds(&document.map.tiles[0].things[0]), vec!["item 503"]);
    assert_eq!(document.map.tiles[1].position, Position { x: 12, y: 12, z: 3 });
    assert_eq!(kinds(&document.map.tiles[1].things[0]), vec!["item 500"]);
}

#[test]
fn a_count_byte_means_what_the_metadata_says() {
    let count = [0x0F, 7u8];
    let mut things = item(1500, &count);
    things.extend_from_slice(&item(1501, &count));
    things.extend_from_slice(&item(1502, &count));
    things.extend_from_slice(&item(1503, &count));
    things.extend_from_slice(&item(1504, &count));
    things.extend_from_slice(&item(0xFFFE, &count));
    let document = parse(map_file(2, 1, 1, &area(0, 0, 7, &tile(0, 0, &things)))).unwrap();
    let things = &document.map.tiles[0].things;
    assert_eq!(kinds(&things[0]), vec!["count 7", "item 500"]);
    assert_eq!(kinds(&things[1]), vec!["fluid 7", "item 501"]);
    assert_eq!(kinds(&things[2]), vec!["fluid 7", "item 502"]);
    assert_eq!(kinds(&things[3]), vec!["item 503"]);
    assert_eq!(kinds(&things[4]), vec!["count 7", "item 504"]);
    assert_eq!(kinds(&things[5]), vec!["item 600"]);
}

#[test]
fn other_attributes_are_passed_over_with_their_payloads() {
    let mut body = vec![0x04];
    body.extend_from_slice(&u16s(&[0xFFFF]));
    body.push(0x05);
    body.extend_from_slice(&u16s(&[1]));
    body.push(0x06);
    body.extend_from_slice(&string("a\u{ff}text"));
    body.push(0x07);
    body.extend_from_slice(&string(""));
    body.push(0x08);
    body.extend_from_slice(&u16s(&[100, 200]));
    body.push(7);
    body.push(0x0A);
    body.extend_from_slice(&u16s(&[3]));
    body.extend_from_slice(&[0x0C, 5, 0x0E, 6]);
    body.push(0x16);
    body.extend_from_slice(&u16s(&[9]));
    body.extend_from_slice(&[0x10, 0x11, 0x80, 0x55]);
    body.extend_from_slice(&[0x0F, 3]);
    let document =
        parse(map_file(2, 1, 1, &area(0, 0, 7, &tile(0, 0, &item(1500, &body))))).unwrap();
    assert_eq!(kinds(&document.map.tiles[0].things[0]), vec!["count 3", "item 500"]);
}

#[test]
fn containers_hold_containers() {
    let innermost = item(1503, &[]);
    let mut middle_body = item(1500, &[0x0F, 2]);
    middle_body.extend_from_slice(&item(1503, &innermost));
    let mut outer_body = vec![0x04];
    outer_body.extend_from_slice(&u16s(&[77]));
    outer_body.extend_from_slice(&item(1503, &middle_body));
    outer_body.extend_from_slice(&item(1501, &[]));
    let document =
        parse(map_file(2, 1, 1, &area(0, 0, 7, &tile(0, 0, &item(1503, &outer_body))))).unwrap();
    let outer = &document.map.tiles[0].things[0];
    assert_eq!(kinds(outer), vec!["item 503", "container 2"]);
    let Attribute::Container(inside) = &outer.attributes[1] else {
        panic!("no container");
    };
    assert_eq!(kinds(&inside[0]), vec!["item 503", "container 2"]);
    assert_eq!(kinds(&inside[1]), vec!["item 501"]);
    let Attribute::Container(deeper) = &inside[0].attributes[1] else {
        panic!("no container");
    };
    assert_eq!(kinds(&deeper[0]), vec!["count 2", "item 500"]);
    assert_eq!(kinds(&deeper[1]), vec!["item 503", "container 1"]);
}

#[test]
fn an_item_attribute_renames_the_item_and_reads_counts_in_version_one() {
    let mut renamed = vec![0x09];
    renamed.extend_from_slice(&u16s(&[1504]));
    renamed.extend_from_slice(&[11, 22]);
    let body = item(1503, &renamed);
    let v1 = parse(map_file(1, 1, 1, &area(0, 0, 7, &tile(0, 0, &body)))).unwrap();
    assert_eq!(
        kinds(&v1.map.tiles[0].things[0]),
        vec!["item 504", "count 11", "fluid 22"]
    );
    let mut plain = vec![0x09];
    plain.extend_from_slice(&u16s(&[1500]));
    let v2 = parse(map_file(2, 1, 1, &area(0, 0, 7, &tile(0, 0, &item(1503, &plain))))).unwrap();
    assert_eq!(kinds(&v2.map.tiles[0].things[0]), vec!["item 500"]);
}

#[test]
fn map_attributes_and_foreign_nodes_are_passed_over() {
    let mut body = vec![0x01];
    body.extend_from_slice(&string("a map"));
    body.push(0x0B);
    body.extend_from_slice(&string("spawns.xml"));
    body.push(0x0D);
    body.extend_from_slice(&string("houses.xml"));
    body.push(0x02);
    body.extend_from_slice(&string("other"));
    body.push(0x33);
    body.extend_from_slice(&area(1, 1, 1, &tile(1, 1, &ground(1503))));
    let town = node(0x0D, &[1, 2, 3, 0xFD, 0xFF]);
    body.extend_from_slice(&node(0x0C, &town));
    let mut second = node(0x07, &[9, 9]);
    second.extend_from_slice(&[0x42]);
    second.extend_from_slice(&tile(2, 2, &node(0x0B, &[1])));
    body.extend_from_slice(&area(1, 1, 2, &second));
    body.extend_from_slice(&node(0x0F, &node(0x10, &[5])));
    let mut bytes = map_file(2, 1, 1, &body);
    bytes.extend_from_slice(&[1, 2, 3]);
    let document = parse(bytes).unwrap();
    let positions: Vec<Position> = document.map.tiles.iter().map(|t| t.position).collect();
    assert_eq!(positions, vec![Position { x: 2, y: 2, z: 1 }, Position { x: 3, y: 3, z: 2 }]);
    assert!(document.map.tiles[1].things.is_empty());
}

#[test]
fn an_unknown_server_id_is_an_unresolved_reference() {
    let body = area(100, 200, 7, &tile(1, 2, &ground(4242)));
    assert!(matches!(
        parse(map_file(2, 1, 1, &body)),
        Err(Error::UnresolvedReference { id: 4242, position: Position { x: 101, y: 202, z: 7 } })
    ));
    let nested = item(1503, &item(9, &[]));
    let body = area(0, 0, 1, &tile(3, 4, &nested));
    assert!(matches!(
        parse(map_file(2, 1, 1, &body)),
        Err(Error::UnresolvedReference { id: 9, position: Position { x: 3, y: 4, z: 1 } })
    ));
}

#[test]
fn truncated_maps_are_truncated() {
    assert!(matches!(parse(vec![0, 0]), Err(Error::Truncated)));
    assert!(matches!(parse(vec![0, 0, 0, 0]), Err(Error::Truncated)));
    let whole = map_file(2, 1, 1, &area(0, 0, 7, &tile(5, 5, &ground(1503))));
    for cut in [5usize, 10, 22, 24, 27, 30, 33, 35] {
        assert!(
            matches!(parse(whole[..cut].to_vec()), Err(Error::Truncated)),
            "cut at {cut}"
        );
    }
    let mut no_map_end = whole.clone();
    no_map_end.truncate(whole.len() - 2);
    assert!(matches!(parse(no_map_end), Err(Error::Truncated)));
    let mut no_root_end = whole.clone();
    no_root_end.truncate(whole.len() - 1);
    assert!(parse(no_root_end).is_ok());
}

#[test]
fn a_wrong_root_or_a_marker_inside_a_number_is_malformed() {
    let mut wrong_root = map_file(2, 1, 1, &[]);
    wrong_root[5] = 0x01;
    assert!(matches!(parse(wrong_root), Err(Error::Malformed)));
    let mut no_start = map_file(2, 1, 1, &[]);
    no_start[4] = 0x00;
    assert!(matches!(parse(no_start), Err(Error::Malformed)));
    let mut no_map_data = vec![0u8, 0, 0, 0];
    let mut root = vec![0u8; 16];
    root.extend_from_slice(&node(0x04, &[]));
    no_map_data.extend_from_slice(&node(0x00, &root));
    assert!(matches!(parse(no_map_data), Err(Error::Malformed)));
    let mut raw_marker = vec![0u8, 0, 0, 0, 0xFE, 0x00, 0xFF, 0, 0, 0];
    raw_marker.extend_from_slice(&[0u8; 12]);
    assert!(matches!(parse(raw_marker), Err(Error::Malformed)));
}

#[test]
fn the_parser_reads_single_pieces() {
    let dat = metadata();
    let otb = table();
    let parser = OtbmParser::new(&dat, &otb, 2);
    let here = Position { x: 1, y: 2, z: 3 };
    let mut cursor = ByteCursor::new(vec![0xDC, 0x05, 0x77]);
    assert_eq!(parser.get_item_id(&mut cursor, here), Ok(500));
    assert_eq!(cursor.remaining(), 1);
    let mut cursor = ByteCursor::new(vec![0x07, 0x00]);
    assert_eq!(
        parser.get_item_id(&mut cursor, here),
        Err(Error::UnresolvedReference { id: 7, position: here })
    );
    let mut cursor = ByteCursor::new(vec![9, 1]);
    assert!(matches!(parser.get_attribute(&mut cursor, 0x0F, 500), Ok(Some(Attribute::Count(9)))));
    assert!(matches!(parser.get_attribute(&mut cursor, 0x0F, 503), Ok(None)));
    assert!(matches!(parser.get_attribute(&mut cursor, 0x0F, 501), Err(Error::Truncated)));
    let mut cursor = ByteCursor::new(vec![0xFE, 0x04, 0xFE, 0x05, 0x00]);
    assert_eq!(get_node(&mut cursor, NodeType::TileArea), Ok(()));
    assert_eq!(get_node(&mut cursor, NodeType::HouseTile), Err(Error::Malformed));
    assert_eq!(get_node(&mut cursor, NodeType::Root), Err(Error::Malformed));
}

#[test]
fn map_codes_decode_to_their_names() {
    assert_eq!(NodeType::from_u8(0x00), Some(NodeType::Root));
    assert_eq!(NodeType::from_u8(0x0E), Some(NodeType::HouseTile));
    assert_eq!(NodeType::from_u8(0x10), Some(NodeType::Waypoint));
    assert_eq!(NodeType::from_u8(0x11), None);
    assert_eq!(AttributeCode::from_u8(0x00), None);
    assert_eq!(AttributeCode::from_u8(0x09), Some(AttributeCode::Item));
    assert_eq!(AttributeCode::from_u8(0x16), Some(AttributeCode::Charges));
    assert_eq!(AttributeCode::from_u8(0x80), Some(AttributeCode::AttributeMap));
    assert_eq!(AttributeCode::from_u8(0x17), None);
}

#[test]
fn deeply_nested_containers_are_read_without_nesting_calls() {
    let depth = 200_000;
    let dat = metadata();
    let otb = table();
    let parser = OtbmParser::new(&dat, &otb, 2);
    let mut bytes = Vec::new();
    for _ in 0..depth {
        bytes.extend_from_slice(&[0xDF, 0x05, 0xFE, 0x06]);
    }
    bytes.extend_from_slice(&[0xDF, 0x05]);
    bytes.extend(std::iter::repeat(0xFF).take(depth + 1));
    let mut cursor = ByteCursor::new(bytes);
    let thing = parser.get_thing(&mut cursor, Position { x: 0, y: 0, z: 0 }).unwrap();
    assert_eq!(cursor.remaining(), 0);
    let mut levels = 0;
    let mut at = &thing;
    loop {
        assert!(matches!(at.attributes[0], Attribute::Item(503)));
        match at.attributes.get(1) {
            Some(Attribute::Container(inside)) => {
                assert_eq!(inside.len(), 1);
                at = &inside[0];
                levels += 1;
            }
            _ => break,
        }
    }
    assert_eq!(levels, depth);
    // Taking so deep a tree apart in the ordinary way would nest calls.
    std::mem::forget(thing);
}
