use otassets::parse::cursor::ByteCursor;
use otassets::parse::otb::{
    read_item, read_root, read_version, Document, ItemAttribute, ItemGroup, ItemType, Light,
    StackOrder,
};
use otassets::parse::tree::{read_node, read_token, skip_rest_of_node, Token};
use otassets::parse::{Error, Parse};

fn escaped(payload: &[u8]) -> Vec<u8> {
    let mut out = Vec::new();
    for byte in payload {
        if *byte >= 0xFD {
            out.push(0xFD);
        }
        out.push(*byte);
    }
    out
}

fn node(payload: &[u8], children: &[Vec<u8>]) -> Vec<u8> {
    let mut out = vec![0xFE];
    out.extend_from_slice(&escaped(payload));
    for child in children {
        out.extend_from_slice(child);
    }
    out.push(0xFF);
    out
}

fn attribute(code: u8, value: &[u8]) -> Vec<u8> {
    let mut out = vec![code];
    out.extend_from_slice(&(value.len() as u16).to_le_bytes());
    out.extend_from_slice(value);
    out
}

fn item_payload(group: u8, flags: u32, attributes: &[Vec<u8>]) -> Vec<u8> {
    let mut out = vec![group];
    out.extend_from_slice(&flags.to_le_bytes());
    for a in attributes {
        out.extend_from_slice(a);
    }
    out
}

fn root_payload(version: Option<(u32, u32, u32)>) -> Vec<u8> {
    let mut out = vec![0u8, 0, 0, 0, 0];
    if let Some((major, minor, build)) = version {
        out.push(0x01);
        out.extend_from_slice(&140u16.to_le_bytes());
        out.extend_from_slice(&major.to_le_bytes());
        out.extend_from_slice(&minor.to_le_bytes());
        out.extend_from_slice(&build.to_le_bytes());
        out.extend_from_slice(&[b'x'; 128]);
    }
    out
}

fn file(root: Vec<u8>) -> Vec<u8> {
    let mut out = vec![0u8, 0, 0, 0];
    out.extend_from_slice(&root);
    out
}

fn parse(bytes: Vec<u8>) -> Result<Document, Error> {
    <Vec<u8> as Parse<Document>>::parse(bytes)
}

fn ids(server: u16, client: u16) -> Vec<Vec<u8>> {
    vec![attribute(0x10, &server.to_le_bytes()), attribute(0x11, &client.to_le_bytes())]
}

#[test]
fn one_ground_item_with_both_ids() {
    let item = node(&item_payload(1, 0, &ids(100, 100)), &[]);
    let bytes = file(node(&root_payload(Some((3, 57, 62))), &[item]));
    let root = read_root(bytes.clone()).unwrap();
    assert_eq!(root.children.len(), 1);
    assert!(root.children[0].children.is_empty());
    let document = parse(bytes).unwrap();
    assert_eq!(document.major_version, 3);
    assert_eq!(document.minor_version, 57);
    assert_eq!(document.build_version, 62);
    assert_eq!(document.items.len(), 1);
    let item = document.items.get(&100).unwrap();
    assert_eq!(item.group, ItemGroup::Ground);
    assert_eq!(item.flags, 0);
    assert_eq!(item.server_id, 100);
    assert_eq!(item.client_id, 100);
    assert_eq!(item.name, None);
    assert_eq!(item.ground_speed, None);
    assert_eq!(item.sprite_hash, None);
    assert_eq!(item.minimap_color, None);
    assert_eq!(item.max_read_write_chars, None);
    assert_eq!(item.max_read_chars, None);
    assert_eq!(item.light, None);
    assert_eq!(item.stack_order, None);
    assert_eq!(item.trade_as, None);
}

#[test]
fn every_attribute_fills_its_field() {
    let mut name = vec![5u8, 0];
    name.extend_from_slice(b"sword");
    let attributes = vec![
        attribute(0x10, &2400u16.to_le_bytes()),
        attribute(0x11, &3264u16.to_le_bytes()),
        attribute(0x12, &name),
        attribute(0x14, &150u16.to_le_bytes()),
        attribute(0x20, &[0xFD, 0xFE, 0xFF, 0x00, 0x01]),
        attribute(0x21, &0x00D7u16.to_le_bytes()),
        attribute(0x22, &512u16.to_le_bytes()),
        attribute(0x23, &256u16.to_le_bytes()),
        attribute(0x2A, &[7, 0, 215, 0]),
        attribute(0x2B, &[2]),
        attribute(0x2D, &2401u16.to_le_bytes()),
    ];
    let item = node(&item_payload(3, 0x0102_0304, &attributes), &[]);
    let document = parse(file(node(&root_payload(Some((1, 2, 3))), &[item]))).unwrap();
    let item = document.items.get(&2400).unwrap();
    assert_eq!(item.group, ItemGroup::Weapon);
    assert_eq!(item.flags, 0x0102_0304);
    assert_eq!(item.server_id, 2400);
    assert_eq!(item.client_id, 3264);
    assert_eq!(item.name, Some("sword".to_string()));
    assert_eq!(item.ground_speed, Some(150));
    assert_eq!(item.sprite_hash, Some(vec![0xFD, 0xFE, 0xFF, 0x00, 0x01]));
    assert_eq!(item.minimap_color, Some(0x00D7));
    assert_eq!(item.max_read_write_chars, Some(512));
    assert_eq!(item.max_read_chars, Some(256));
    assert_eq!(item.light, Some(Light { level: 7, color: 215 }));
    assert_eq!(item.stack_order, Some(StackOrder::Bottom));
    assert_eq!(item.trade_as, Some(2401));
}

#[test]
fn unknown_attributes_are_skipped_by_their_length() {
    let attributes = vec![
        attribute(0x77, &[1, 2, 3, 4, 5, 6, 7]),
        attribute(0x10, &7u16.to_le_bytes()),
        attribute(0x99, &[]),
        attribute(0x11, &8u16.to_le_bytes()),
        attribute(0x2B, &[9]),
    ];
    let item = node(&item_payload(2, 0, &attributes), &[]);
    let document = parse(file(node(&root_payload(None), &[item]))).unwrap();
    let item = document.items.get(&7).unwrap();
    assert_eq!(item.client_id, 8);
    assert_eq!(item.group, ItemGroup::Container);
    assert_eq!(item.stack_order, None);
}

#[test]
fn a_root_without_the_version_attribute_has_version_zero() {
    let item = node(&item_payload(1, 0, &ids(1, 2)), &[]);
    let document = parse(file(node(&root_payload(None), &[item]))).unwrap();
    assert_eq!(
        (document.major_version, document.minor_version, document.build_version),
        (0, 0, 0)
    );
    assert_eq!(document.items.len(), 1);
}

#[test]
fn several_items_and_the_last_one_of_an_id_wins() {
    let items = vec![
        node(&item_payload(1, 0, &ids(10, 1)), &[]),
        node(&item_payload(2, 0, &ids(11, 2)), &[]),
        node(&item_payload(3, 0, &ids(10, 3)), &[]),
    ];
    let document = parse(file(node(&root_payload(Some((1, 1, 1))), &items))).unwrap();
    assert_eq!(document.items.len(), 2);
    assert_eq!(document.items.get(&10).unwrap().client_id, 3);
    assert_eq!(document.items.get(&10).unwrap().group, ItemGroup::Weapon);
    assert_eq!(document.items.get(&11).unwrap().client_id, 2);
}

#[test]
fn a_missing_id_is_malformed() {
    let no_client = node(&item_payload(1, 0, &[attribute(0x10, &5u16.to_le_bytes())]), &[]);
    assert!(matches!(
        parse(file(node(&root_payload(None), &[no_client]))),
        Err(Error::Malformed)
    ));
    let no_server = node(&item_payload(1, 0, &[attribute(0x11, &5u16.to_le_bytes())]), &[]);
    assert!(matches!(
        parse(file(node(&root_payload(None), &[no_server]))),
        Err(Error::Malformed)
    ));
}

#[test]
fn an_unknown_group_is_malformed() {
    let item = node(&item_payload(15, 0, &ids(1, 1)), &[]);
    assert!(matches!(parse(file(node(&root_payload(None), &[item]))), Err(Error::Malformed)));
}

#[test]
fn truncated_streams_and_values_are_truncated() {
    assert!(matches!(parse(vec![0, 0, 0]), Err(Error::Truncated)));
    assert!(matches!(parse(vec![0, 0, 0, 0]), Err(Error::Truncated)));
    let mut open = file(node(&root_payload(None), &[]));
    open.pop();
    assert!(matches!(parse(open), Err(Error::Truncated)));
    let mut escape_at_end = vec![0, 0, 0, 0, 0xFE, 0x00];
    escape_at_end.push(0xFD);
    assert!(matches!(parse(escape_at_end), Err(Error::Truncated)));
    let short_value = node(&item_payload(1, 0, &[attribute(0x10, &[5])]), &[]);
    assert!(matches!(
        parse(file(node(&root_payload(None), &[short_value]))),
        Err(Error::Truncated)
    ));
    let mut cut = item_payload(1, 0, &ids(1, 1));
    cut.extend_from_slice(&[0x20, 9, 0, 1, 2]);
    assert!(matches!(
        parse(file(node(&root_payload(None), &[node(&cut, &[])]))),
        Err(Error::Truncated)
    ));
    assert!(matches!(parse(file(node(&[0, 0, 0], &[]))), Err(Error::Truncated)));
}

#[test]
fn a_file_that_does_not_open_a_node_is_malformed() {
    assert!(matches!(parse(vec![0, 0, 0, 0, 0x00, 0xFF]), Err(Error::Malformed)));
    assert!(matches!(parse(vec![0, 0, 0, 0, 0xFF]), Err(Error::Malformed)));
}

#[test]
fn a_version_attribute_shorter_than_its_numbers_is_malformed() {
    let mut payload = vec![0u8, 0, 0, 0, 0, 0x01];
    payload.extend_from_slice(&8u16.to_le_bytes());
    payload.extend_from_slice(&[0u8; 12]);
    assert!(matches!(parse(file(node(&payload, &[]))), Err(Error::Malformed)));
}

#[test]
fn data_between_children_is_malformed() {
    let item = node(&item_payload(1, 0, &ids(1, 1)), &[]);
    let mut root = vec![0xFE];
    root.extend_from_slice(&root_payload(None));
    root.extend_from_slice(&item);
    root.push(0x42);
    root.extend_from_slice(&item);
    root.push(0xFF);
    assert!(matches!(parse(file(root)), Err(Error::Malformed)));
}

#[test]
fn the_tree_keeps_payloads_unescaped_and_children_nested() {
    let leaf_a = node(&[0xFD, 0x01], &[]);
    let leaf_b = node(&[0xFE, 0xFF], &[]);
    let inner = node(&[0x10], &[leaf_a, leaf_b]);
    let last = node(&[], &[]);
    let stream = node(&[0x00, 0xFF, 0x7F], &[inner, last]);
    let mut cursor = ByteCursor::new(stream);
    assert_eq!(read_token(&mut cursor), Ok(Token::Start));
    let root = read_node(&mut cursor).unwrap();
    assert_eq!(cursor.remaining(), 0);
    assert_eq!(root.payload, vec![0x00, 0xFF, 0x7F]);
    assert_eq!(root.children.len(), 2);
    assert_eq!(root.children[0].payload, vec![0x10]);
    assert_eq!(root.children[0].children.len(), 2);
    assert_eq!(root.children[0].children[0].payload, vec![0xFD, 0x01]);
    assert_eq!(root.children[0].children[1].payload, vec![0xFE, 0xFF]);
    assert!(root.children[1].payload.is_empty());
    assert!(root.children[1].children.is_empty());
}

#[test]
fn tokens_tell_markers_from_escaped_data() {
    let mut cursor = ByteCursor::new(vec![0xFE, 0xFD, 0xFE, 0x41, 0xFD, 0xFD, 0xFF, 0xFD]);
    assert_eq!(read_token(&mut cursor), Ok(Token::Start));
    assert_eq!(read_token(&mut cursor), Ok(Token::Data(0xFE)));
    assert_eq!(read_token(&mut cursor), Ok(Token::Data(0x41)));
    assert_eq!(read_token(&mut cursor), Ok(Token::Data(0xFD)));
    assert_eq!(read_token(&mut cursor), Ok(Token::End));
    assert_eq!(read_token(&mut cursor), Err(Error::Truncated));
}

#[test]
fn skipping_a_node_passes_over_nested_nodes() {
    let inner = node(&[1, 2], &[node(&[0xFF], &[])]);
    let mut stream = node(&[9], &[inner]);
    stream.push(0x55);
    let mut cursor = ByteCursor::new(stream);
    assert_eq!(read_token(&mut cursor), Ok(Token::Start));
    assert_eq!(skip_rest_of_node(&mut cursor), Ok(()));
    assert_eq!(cursor.read_u8(), Ok(0x55));
    let mut open = ByteCursor::new(vec![1, 0xFE, 2, 0xFF]);
    assert_eq!(skip_rest_of_node(&mut open), Err(Error::Truncated));
}

#[test]
fn items_and_versions_are_read_from_single_nodes() {
    let stream = node(&root_payload(Some((9, 8, 7))), &[]);
    let mut cursor = ByteCursor::new(stream);
    assert_eq!(read_token(&mut cursor), Ok(Token::Start));
    let root = read_node(&mut cursor).unwrap();
    assert_eq!(read_version(&root), Ok((9, 8, 7)));
    let stream = node(&item_payload(12, 5, &ids(300, 400)), &[]);
    let mut cursor = ByteCursor::new(stream);
    assert_eq!(read_token(&mut cursor), Ok(Token::Start));
    let item = read_item(&read_node(&mut cursor).unwrap()).unwrap();
    assert_eq!(item.group, ItemGroup::Fluid);
    assert_eq!((item.server_id, item.client_id, item.flags), (300, 400, 5));
}

#[test]
fn index_codes_decode_to_their_names() {
    assert_eq!(ItemGroup::from_u8(0), Some(ItemGroup::Unset));
    assert_eq!(ItemGroup::from_u8(14), Some(ItemGroup::Deprecated));
    assert_eq!(ItemGroup::from_u8(15), None);
    assert_eq!(ItemType::from_u8(4), Some(ItemType::Splash));
    assert_eq!(ItemType::from_u8(6), None);
    assert_eq!(StackOrder::from_u8(3), Some(StackOrder::Top));
    assert_eq!(StackOrder::from_u8(4), None);
    assert_eq!(ItemAttribute::from_u8(0x2A), Some(ItemAttribute::Light));
    assert_eq!(ItemAttribute::from_u8(0x13), None);
}

#[test]
fn deeply_nested_nodes_are_read_without_nesting_calls() {
    let depth = 300_000;
    let mut item = vec![0xFE];
    item.extend_from_slice(&item_payload(1, 0, &ids(9, 10)));
    item.extend(std::iter::repeat(0xFE).take(depth));
    item.extend(std::iter::repeat(0xFF).take(depth));
    item.push(0xFF);
    let bytes = file(node(&root_payload(Some((1, 2, 3))), &[item.clone(), item]));
    let document = parse(bytes.clone()).unwrap();
    assert_eq!(document.items.len(), 1);
    assert_eq!(document.items.get(&9).unwrap().client_id, 10);

    let root = read_root(bytes.clone()).unwrap();
    assert_eq!(root.children.len(), 2);
    let mut levels = 0;
    let mut at = &root.children[1];
    while let Some(child) = at.children.first() {
        levels += 1;
        at = child;
    }
    assert_eq!(levels, depth);
    // Taking so deep a tree apart in the ordinary way would nest calls.
    std::mem::forget(root);

    let mut open = bytes;
    open.truncate(open.len() - depth / 2);
    assert!(matches!(parse(open), Err(Error::Truncated)));
}
