//! The rules by which a renderer picks, orders and places what it draws:
//! which floors are visible, in which order tiles are drawn, where a tile's
//! quad lies, and where an item's texture lies in the texture atlas.

use vstd::prelude::*;
use crate::model::position::Position;

verus! {

/// The width of the texture atlas, in pixels.
pub const ATLAS_WIDTH: u16 = 16384;

/// The height of the texture atlas, in pixels.
pub const ATLAS_HEIGHT: u16 = 16384;

/// The side of a tile, in pixels.
pub const TILE_SIZE: u16 = 32;

/// The side of the cell that one item has in the atlas, in pixels.
pub const TEXTURE_SIZE: u16 = 128;

/// The border around a texture in its cell, in pixels.
pub const TEXTURE_PADDING: u16 = 32;

/// The number of cells in one row of the atlas.
pub const TEXTURES_IN_ROW: u16 = 128;

/// The ground floor.
pub const FLOOR_LEVEL: u8 = 7;

/// A rectangle by two corners: `a` is the upper left, `b` the lower right.
#[derive(Debug, Clone, Copy, PartialEq, Eq, Structural)]
pub struct Quad {
    pub x_a: i32,
    pub y_a: i32,
    pub x_b: i32,
    pub y_b: i32,
}

/// Whether the floor `z` is drawn when the viewer stands on the floor
/// `current_level`: from the ground floor or above it, every floor from the
/// viewer's down to the ground floor; from below, every floor from the
/// first one under the ground floor down to the viewer's.
pub open spec fn visible(z: u8, current_level: u8) -> bool {
    if current_level <= FLOOR_LEVEL {
        current_level <= z <= FLOOR_LEVEL
    } else {
        FLOOR_LEVEL < z <= current_level
    }
}

/// Whether the floor `z` is drawn: see [`visible`].
pub fn is_visible(z: u8, current_level: u8) -> (b: bool)
    ensures
        b == visible(z, current_level),
{
    if current_level <= FLOOR_LEVEL {
        z >= current_level && z <= FLOOR_LEVEL
    } else {
        z > FLOOR_LEVEL && z <= current_level
    }
}

/// The tile at `a` is drawn before the tile at `b`: floors with a higher
/// number first, and on one floor in the order of positions.
pub open spec fn drawn_before(a: Position, b: Position) -> bool {
    if a.z == b.z {
        a.precedes(&b)
    } else {
        b.z < a.z
    }
}

/// Whether the tile at `a` is drawn before the tile at `b`: see
/// [`drawn_before`].
pub fn draws_before(a: &Position, b: &Position) -> (r: bool)
    ensures
        r == drawn_before(*a, *b),
{
    if a.z == b.z {
        a.key() < b.key()
    } else {
        b.z < a.z
    }
}

/// The drawing order is a strict total order: no tile is drawn before
/// itself, of two tiles at different positions exactly one is drawn first,
/// and the order is transitive.
pub proof fn lemma_drawing_order(a: Position, b: Position, c: Position)
    ensures
        !drawn_before(a, a),
        drawn_before(a, b) || drawn_before(b, a) || a == b,
        !(drawn_before(a, b) && drawn_before(b, a)),
        drawn_before(a, b) && drawn_before(b, c) ==> drawn_before(a, c),
{
    Position::lemma_order_total(a, b, c);
    Position::lemma_order_by_floor_row_column(a, b);
    Position::lemma_order_by_floor_row_column(b, c);
    Position::lemma_order_by_floor_row_column(a, c);
}

/// The quad, in tiles, of something drawn at `position` with a texture of
/// the given size in pixels. A floor below the viewer's is shifted by one
/// tile on both axes for each floor; the lower right corner is the lower
/// right corner of the tile, and the quad reaches up and left from there
/// by the size of the texture in whole tiles.
pub open spec fn tile_quad(position: Position, current_level: u8, width: u16, height: u16) -> Quad {
    let x_b = position.x + 1 + (position.z - current_level);
    let y_b = position.y + 1 + (position.z - current_level);
    Quad {
        x_a: (x_b - width / TILE_SIZE) as i32,
        y_a: (y_b - height / TILE_SIZE) as i32,
        x_b: x_b as i32,
        y_b: y_b as i32,
    }
}

/// The quad of something drawn at `position`: see [`tile_quad`]. The
/// position must not lie on a floor above the viewer's.
pub fn position_quad(position: &Position, current_level: u8, width: u16, height: u16) -> (q: Quad)
    requires
        current_level <= position.z,
    ensures
        q == tile_quad(*position, current_level, width, height),
{
    let offset: i32 = (position.z - current_level) as i32;
    let x_b: i32 = position.x as i32 + 1 + offset;
    let y_b: i32 = position.y as i32 + 1 + offset;
    Quad {
        x_a: x_b - (width / TILE_SIZE) as i32,
        y_a: y_b - (height / TILE_SIZE) as i32,
        x_b,
        y_b,
    }
}

/// The cell of the item `id` in the atlas: its column and its row.
pub open spec fn cell_of(id: u16) -> (u16, u16) {
    (id % TEXTURES_IN_ROW, id / TEXTURES_IN_ROW)
}

/// The cell of the item `id` in the atlas: see [`cell_of`].
pub fn atlas_cell(id: u16) -> (cell: (u16, u16))
    ensures
        cell == cell_of(id),
        cell.0 < TEXTURES_IN_ROW,
        cell.1 < 512,
{
    (id % TEXTURES_IN_ROW, id / TEXTURES_IN_ROW)
}

/// The upper left corner of the cell of the item `id`, in pixels of the
/// atlas. The texture is stored there with its border.
pub fn atlas_origin(id: u16) -> (origin: (u16, u16))
    ensures
        origin.0 == cell_of(id).0 * TEXTURE_SIZE,
        origin.1 == cell_of(id).1 * TEXTURE_SIZE,
{
    let (column, row) = atlas_cell(id);
    (column * TEXTURE_SIZE, row * TEXTURE_SIZE)
}

/// The quad, in pixels of the atlas, of the texture of the item `id`
/// without its border.
pub open spec fn texture_quad_of(id: u16, width: u16, height: u16) -> Quad {
    let x_a = cell_of(id).0 * TEXTURE_SIZE + TEXTURE_PADDING;
    let y_a = cell_of(id).1 * TEXTURE_SIZE + TEXTURE_PADDING;
    Quad { x_a: x_a as i32, y_a: y_a as i32, x_b: (x_a + width) as i32, y_b: (y_a + height) as i32 }
}

/// The quad of the texture of the item `id`: see [`texture_quad_of`].
pub fn texture_quad(id: u16, width: u16, height: u16) -> (q: Quad)
    ensures
        q == texture_quad_of(id, width, height),
{
    let (left, top) = atlas_origin(id);
    let x_a: i32 = left as i32 + TEXTURE_PADDING as i32;
    let y_a: i32 = top as i32 + TEXTURE_PADDING as i32;
    Quad { x_a, y_a, x_b: x_a + width as i32, y_b: y_a + height as i32 }
}

/// The two triangles of a quad as six corners, each an x and a y: the
/// order in which they are handed to the graphics card.
pub fn quad_corners(q: Quad) -> (corners: [i32; 12])
    ensures
        corners@ == seq![
            q.x_a,
            q.y_a,
            q.x_a,
            q.y_b,
            q.x_b,
            q.y_a,
            q.x_b,
            q.y_a,
            q.x_a,
            q.y_b,
            q.x_b,
            q.y_b,
        ],
{
    let corners = [
        q.x_a,
        q.y_a,
        q.x_a,
        q.y_b,
        q.x_b,
        q.y_a,
        q.x_b,
        q.y_a,
        q.x_a,
        q.y_b,
        q.x_b,
        q.y_b,
    ];
    assert(corners@ =~= seq![
        q.x_a,
        q.y_a,
        q.x_a,
        q.y_b,
        q.x_b,
        q.y_a,
        q.x_b,
        q.y_a,
        q.x_a,
        q.y_b,
        q.x_b,
        q.y_b,
    ]);
    corners
}

} // verus!
