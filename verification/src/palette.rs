//! The shared tile palette and the fixed scene colors.
//!
//! Both the projector's wall strips and the minimap's cells key their color
//! off the same table, so the two views can never disagree about what a tile
//! tag looks like.

use vstd::prelude::*;

verus! {

/// The single tag-to-color table. Walkable cells and unknown tags get muted
/// defaults; each wall variant has its own color.
pub open spec fn palette_spec(tag: u8) -> (u8, u8, u8) {
    if tag == 1 {
        (0u8, 82u8, 110u8)
    } else if tag == 2 {
        (50u8, 200u8, 50u8)
    } else if tag == 3 {
        (50u8, 50u8, 200u8)
    } else if tag == 0 {
        (40u8, 40u8, 40u8)
    } else {
        (180u8, 180u8, 180u8)
    }
}

/// The color the projector fills a wall strip with.
pub open spec fn wall_strip_color(tag: u8) -> (u8, u8, u8) {
    palette_spec(tag)
}

/// The color the minimap draws a grid cell with.
pub open spec fn minimap_cell_color(tag: u8) -> (u8, u8, u8) {
    palette_spec(tag)
}

/// The sky half of the background.
pub open spec fn sky_color() -> (u8, u8, u8) {
    (120u8, 180u8, 255u8)
}

/// The floor half of the background.
pub open spec fn floor_color() -> (u8, u8, u8) {
    (218u8, 219u8, 195u8)
}

/// The minimap's goal marker.
pub open spec fn goal_color() -> (u8, u8, u8) {
    (80u8, 200u8, 255u8)
}

/// The minimap's player marker.
pub open spec fn player_color() -> (u8, u8, u8) {
    (255u8, 255u8, 0u8)
}

/// The minimap's heading indicator.
pub open spec fn heading_color() -> (u8, u8, u8) {
    (255u8, 255u8, 255u8)
}

/// Looks a tile tag up in the shared palette.
pub fn tile_color(tag: u8) -> (c: (u8, u8, u8))
    ensures
        c == palette_spec(tag),
{
    if tag == 1 {
        (0, 82, 110)
    } else if tag == 2 {
        (50, 200, 50)
    } else if tag == 3 {
        (50, 50, 200)
    } else if tag == 0 {
        (40, 40, 40)
    } else {
        (180, 180, 180)
    }
}

/// Palette consistency: for every tile tag, the minimap cell color and the
/// projector's wall strip color are the same entry of the one shared table.
pub proof fn lemma_palette_consistency(tag: u8)
    ensures
        minimap_cell_color(tag) == wall_strip_color(tag),
{
}

} // verus!
