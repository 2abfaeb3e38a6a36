use otassets::model::Offset;
use otassets::parse::dat::{Document, ItemFlag};
use otassets::parse::{Error, Parse};

fn header(items: u16) -> Vec<u8> {
    let mut out = Vec::new();
    out.extend_from_slice(&0x1234_5678u32.to_le_bytes());
    out.extend_from_slice(&items.to_le_bytes());
    out.extend_from_slice(&3u16.to_le_bytes());
    out.extend_from_slice(&4u16.to_le_bytes());
    out.extend_from_slice(&5u16.to_le_bytes());
    out
}

fn shape(dims: [u8; 7], sprites: &[u16]) -> Vec<u8> {
    let mut out = vec![dims[0], dims[1]];
    if dims[0] > 1 || dims[1] > 1 {
        out.push(0x20);
    }
    out.extend_from_slice(&dims[2..]);
    for id in sprites {
        out.extend_from_slice(&id.to_le_bytes());
    }
    out
}

fn parse(bytes: Vec<u8>) -> Result<Document, Error> {
    <Vec<u8> as Parse<Document>>::parse(bytes)
}

#[test]
fn one_ground_item_with_one_sprite() {
    let mut bytes = header(1);
    bytes.extend_from_slice(&[0x00, 150, 0, 0xFF]);
    bytes.extend_from_slice(&shape([1, 1, 1, 1, 1, 1, 1], &[777]));
    let document = parse(bytes).unwrap();
    assert_eq!(document.signature, 0x1234_5678);
    assert_eq!(document.items.len(), 1);
    let item = document.items.get(&100).unwrap();
    assert_eq!(item.id, 100);
    assert!(item.ground);
    assert!(!item.stackable);
    assert!(!item.splash);
    assert!(!item.fluid_container);
    assert_eq!(item.minimap_color, None);
    assert_eq!(item.draw_offset, Offset { x: 0, y: 0 });
    assert_eq!(item.height_offset, Offset { x: 0, y: 0 });
    assert_eq!(item.textures.width, 1);
    assert_eq!(item.textures.height, 1);
    assert_eq!(item.textures.layers, 1);
    assert_eq!(item.textures.patterns_x, 1);
    assert_eq!(item.textures.patterns_y, 1);
    assert_eq!(item.textures.patterns_z, 1);
    assert_eq!(item.textures.frames, 1);
    assert_eq!(item.textures.sprites, vec![777]);
}

#[test]
fn every_flag_with_a_payload_consumes_it() {
    let mut bytes = header(1);
    bytes.extend_from_slice(&[0x05, 0x0C, 0x0B]);
    bytes.extend_from_slice(&[0x1D, 0x34, 0x12]);
    bytes.extend_from_slice(&[0x1A, 0x08, 0x00]);
    bytes.extend_from_slice(&[0x09, 0xFF, 0xFF]);
    bytes.extend_from_slice(&[0x0A, 0xFF, 0xFF]);
    bytes.extend_from_slice(&[0x1E, 0xFF, 0xFF]);
    bytes.extend_from_slice(&[0x16, 0xFF, 0xFF, 0xFF, 0xFF]);
    bytes.extend_from_slice(&[0x19, 0x03, 0x00, 0x04, 0x00]);
    bytes.extend_from_slice(&[0x01, 0x0D, 0x42, 0xFF]);
    bytes.extend_from_slice(&shape([1, 1, 1, 1, 1, 1, 1], &[5]));
    let document = parse(bytes).unwrap();
    let item = document.items.get(&100).unwrap();
    assert!(!item.ground);
    assert!(item.stackable);
    assert!(item.splash);
    assert!(item.fluid_container);
    assert_eq!(item.minimap_color, Some(0x1234));
    assert_eq!(item.height_offset, Offset { x: 8, y: 8 });
    assert_eq!(item.draw_offset, Offset { x: 3, y: 4 });
    assert_eq!(item.textures.sprites, vec![5]);
}

#[test]
fn ids_count_up_from_one_hundred() {
    let mut bytes = header(3);
    for n in 0..3u16 {
        bytes.push(0xFF);
        bytes.extend_from_slice(&shape([1, 1, 1, 1, 1, 1, 1], &[n + 10]));
    }
    bytes.extend_from_slice(&[1, 2, 3]);
    let document = parse(bytes).unwrap();
    assert_eq!(document.items.len(), 3);
    for n in 0..3u16 {
        let item = document.items.get(&(100 + n)).unwrap();
        assert_eq!(item.id, 100 + n);
        assert_eq!(item.textures.sprites, vec![n + 10]);
    }
    assert!(document.items.get(&99).is_none());
    assert!(document.items.get(&103).is_none());
}

#[test]
fn wide_or_tall_items_skip_one_byte_and_read_the_product_of_their_dimensions() {
    let sprites: Vec<u16> = (0..2 * 3 * 2 * 2 * 1 * 1 * 2).collect();
    let mut bytes = header(1);
    bytes.push(0xFF);
    bytes.extend_from_slice(&shape([2, 3, 2, 2, 1, 1, 2], &sprites));
    let document = parse(bytes).unwrap();
    let textures = &document.items.get(&100).unwrap().textures;
    assert_eq!(
        (textures.width, textures.height, textures.layers),
        (2, 3, 2)
    );
    assert_eq!(
        (textures.patterns_x, textures.patterns_y, textures.patterns_z, textures.frames),
        (2, 1, 1, 2)
    );
    assert_eq!(textures.sprites.len(), 48);
    assert_eq!(textures.sprites, sprites);
}

#[test]
fn a_dimension_of_zero_means_no_sprites() {
    let mut bytes = header(1);
    bytes.push(0xFF);
    bytes.extend_from_slice(&shape([1, 1, 0, 1, 1, 1, 1], &[]));
    let document = parse(bytes).unwrap();
    assert!(document.items.get(&100).unwrap().textures.sprites.is_empty());
}

#[test]
fn fewer_sprite_ids_than_declared_is_malformed() {
    let mut bytes = header(1);
    bytes.push(0xFF);
    bytes.extend_from_slice(&shape([2, 2, 1, 1, 1, 1, 1], &[1, 2, 3]));
    assert!(matches!(parse(bytes), Err(Error::Malformed)));
    let mut odd = header(1);
    odd.push(0xFF);
    odd.extend_from_slice(&shape([1, 1, 1, 1, 1, 1, 1], &[]));
    odd.push(0x01);
    assert!(matches!(parse(odd), Err(Error::Malformed)));
}

#[test]
fn a_sprite_count_beyond_u16_is_malformed() {
    let mut bytes = header(1);
    bytes.push(0xFF);
    bytes.extend_from_slice(&[255, 255, 0, 255, 1, 1, 1, 1]);
    bytes.extend_from_slice(&vec![0u8; 200_000]);
    assert!(matches!(parse(bytes), Err(Error::Malformed)));
}

#[test]
fn truncated_documents_are_truncated() {
    assert!(matches!(parse(vec![]), Err(Error::Truncated)));
    assert!(matches!(parse(header(0)[..11].to_vec()), Err(Error::Truncated)));
    assert!(matches!(parse(header(1)), Err(Error::Truncated)));
    let mut in_flags = header(1);
    in_flags.extend_from_slice(&[0x1D, 0x01]);
    assert!(matches!(parse(in_flags), Err(Error::Truncated)));
    let mut in_shape = header(1);
    in_shape.extend_from_slice(&[0xFF, 1, 1, 1]);
    assert!(matches!(parse(in_shape), Err(Error::Truncated)));
}

#[test]
fn an_empty_table_is_fine() {
    let document = parse(header(0)).unwrap();
    assert!(document.items.is_empty());
}

#[test]
fn an_item_id_beyond_u16_is_malformed() {
    let mut bytes = header(65_437);
    for _ in 0..65_437u32 {
        bytes.push(0xFF);
        bytes.extend_from_slice(&[1, 1, 0, 1, 1, 1, 1]);
    }
    assert!(matches!(parse(bytes), Err(Error::Malformed)));
    let mut fits = header(65_436);
    for _ in 0..65_436u32 {
        fits.push(0xFF);
        fits.extend_from_slice(&[1, 1, 0, 1, 1, 1, 1]);
    }
    let document = parse(fits).unwrap();
    assert_eq!(document.items.len(), 65_436);
    assert!(document.items.contains_key(&65_535));
}

#[test]
fn flag_codes_decode_to_their_flags() {
    assert_eq!(ItemFlag::from_u8(0x00), Some(ItemFlag::Ground));
    assert_eq!(ItemFlag::from_u8(0x05), Some(ItemFlag::Stackable));
    assert_eq!(ItemFlag::from_u8(0x1D), Some(ItemFlag::MinimapColor));
    assert_eq!(ItemFlag::from_u8(0x1F), Some(ItemFlag::Unknown2));
    assert_eq!(ItemFlag::from_u8(0x20), None);
    assert_eq!(ItemFlag::from_u8(0xFE), None);
}
