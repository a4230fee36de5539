//! Tile vocabulary: the closed set of cell codes shared by the static board,
//! the piece inventory and the beam overlay, with the predicates that classify
//! them.

use vstd::prelude::*;

verus! {

pub const SCREEN_XRES: usize = 368;
pub const SCREEN_XRES_HALF: usize = 184;
pub const SCREEN_YRES: usize = 264;
pub const SCREEN_YRES_HALF: usize = 132;

pub const TILE_SZ: usize = 16;
pub const TILE_SZ_HALF: usize = 8;
pub const TILE_SZ_QTR: usize = 4;

pub const MAP_MAX_WIDTH: usize = 15;
pub const MAP_MAX_HEIGHT: usize = 15;
pub const MAP_SZ: usize = 225;

pub const MAX_PIECES: usize = 24;

pub const CLIPPING_NONE: u8 = 0;
pub const CLIPPING_SOURCE: u8 = 1;
pub const CLIPPING_BLOCK: u8 = 5;
pub const CLIPPING_ORB: u8 = 6;

pub const REFLECTOR_INVALID: u16 = 0;
pub const REFLECTOR_TL: u16 = 17;
pub const REFLECTOR_TR: u16 = 18;
pub const REFLECTOR_BL: u16 = 19;
pub const REFLECTOR_BR: u16 = 20;
pub const REFLECTOR_D: u16 = 21;
pub const REFLECTOR_L: u16 = 22;
pub const REFLECTOR_U: u16 = 23;
pub const REFLECTOR_R: u16 = 24;

pub const SOURCE_U: u16 = 33;
pub const SOURCE_D: u16 = 34;
pub const SOURCE_L: u16 = 35;
pub const SOURCE_R: u16 = 36;

/// Distance from a source code to the stop code of the same direction; the
/// emitter paints its own cell with that stop.
pub const SOURCE_TO_STOP: u16 = 10;

/// Distance from a tile code to its highlighted variant in the tile sheet.
pub const HIGHLIGHT: u16 = 8;

/// Distance from a source code to the icon shown over a hovered or armed source.
pub const SOURCE_TO_ICON: u16 = 4;

pub const BURST: u16 = 57;

pub const BEAM_H: u16 = 41;
pub const BEAM_V: u16 = 42;
pub const BEAM_STOP_U: u16 = 43;
pub const BEAM_STOP_D: u16 = 44;
pub const BEAM_STOP_L: u16 = 45;
pub const BEAM_STOP_R: u16 = 46;

pub const BEAM_SPLIT_INVALID: u16 = 0;
pub const BEAM_SPLIT_TL: u16 = 49;
pub const BEAM_SPLIT_TR: u16 = 50;
pub const BEAM_SPLIT_BL: u16 = 51;
pub const BEAM_SPLIT_BR: u16 = 52;
pub const BEAM_SPLIT_D: u16 = 53;
pub const BEAM_SPLIT_L: u16 = 54;
pub const BEAM_SPLIT_U: u16 = 55;
pub const BEAM_SPLIT_R: u16 = 56;
pub const BEAM_SPLIT_X: u16 = 47;

pub const GRID: u16 = 2;
pub const FLOOR: u16 = 3;
pub const FLOOR_ODD: u16 = 4;
pub const BLOCK: u16 = 5;
pub const ORB: u16 = 6;
pub const ORB_ACTIVE: u16 = 7;

/// Byte of a decoded level map that marks a cell where a block may appear.
pub const MARK_BLOCK: u8 = 46;
/// Byte of a decoded level map that marks an orb.
pub const MARK_ORB: u8 = 111;

pub const HOLDING_INVALID: u8 = 24;
pub const INVENTORY_IDX_INVALID: u8 = 24;
pub const BOARD_IDX_INVALID: u8 = 255;

pub const MENU_HOVER_INVALID: u8 = 255;
pub const MENU_HOVER_UNDO: u8 = 0;
pub const MENU_HOVER_REDO: u8 = 1;
pub const MENU_HOVER_ROTATE: u8 = 2;
pub const MENU_HOVER_FLIP_H: u8 = 3;
pub const MENU_HOVER_FLIP_V: u8 = 4;
pub const MENU_HOVER_NEXT: u8 = 5;
pub const MENU_HOVER_RESET: u8 = 6;
pub const MENU_HOVER_TRASH: u8 = 7;

pub const EVENT_INVALID: u8 = 0;
pub const EVENT_INPUT_MOUSE_BUTTON_DOWN: u8 = 1;
pub const EVENT_INPUT_MOUSE_BUTTON_UP: u8 = 2;
pub const EVENT_INPUT_KEYBOARD_RELEASED_ESCAPE: u8 = 120;

/// One of the four edge sources.
pub open spec fn spec_is_source(c: u16) -> bool {
    SOURCE_U <= c <= SOURCE_R
}

/// One of the eight reflector orientations, which are also the piece codes.
pub open spec fn spec_is_reflector(c: u16) -> bool {
    REFLECTOR_TL <= c <= REFLECTOR_R
}

/// One of the nine split codes of the beam overlay, the crossover included.
pub open spec fn spec_is_split(c: u16) -> bool {
    c == BEAM_SPLIT_X || (BEAM_SPLIT_TL <= c <= BEAM_SPLIT_R)
}

/// A code of the beam overlay alphabet: a straight beam, a stop or a split.
pub open spec fn spec_is_beam(c: u16) -> bool {
    (BEAM_H <= c <= BEAM_STOP_R) || spec_is_split(c)
}

/// One of the two floor variants, the only cells that take a piece.
pub open spec fn spec_is_floor(c: u16) -> bool {
    c == FLOOR || c == FLOOR_ODD
}

/// Whether the code is one of the four edge sources.
#[verifier::when_used_as_spec(spec_is_source)]
pub fn is_source(c: u16) -> (r: bool)
    ensures
        r == spec_is_source(c),
{
    SOURCE_U <= c && c <= SOURCE_R
}

/// Whether the code is one of the eight reflector orientations.
#[verifier::when_used_as_spec(spec_is_reflector)]
pub fn is_reflector(c: u16) -> (r: bool)
    ensures
        r == spec_is_reflector(c),
{
    REFLECTOR_TL <= c && c <= REFLECTOR_R
}

/// Whether the code is one of the nine split codes.
#[verifier::when_used_as_spec(spec_is_split)]
pub fn is_split(c: u16) -> (r: bool)
    ensures
        r == spec_is_split(c),
{
    c == BEAM_SPLIT_X || (BEAM_SPLIT_TL <= c && c <= BEAM_SPLIT_R)
}

/// Whether the code belongs to the beam overlay: a straight beam, a stop or a split.
#[verifier::when_used_as_spec(spec_is_beam)]
pub fn is_beam(c: u16) -> (r: bool)
    ensures
        r == spec_is_beam(c),
{
    (BEAM_H <= c && c <= BEAM_STOP_R) || is_split(c)
}

/// Whether the code is one of the two floor variants.
#[verifier::when_used_as_spec(spec_is_floor)]
pub fn is_floor(c: u16) -> (r: bool)
    ensures
        r == spec_is_floor(c),
{
    c == FLOOR || c == FLOOR_ODD
}

/// The stop code with which an emitter of the given source code paints its own
/// cell.
pub open spec fn spec_stop_for_source(c: u16) -> u16
    recommends
        spec_is_source(c),
{
    (c + SOURCE_TO_STOP) as u16
}

/// The stop code with which an emitter of the given source code paints its
/// own cell.
#[verifier::when_used_as_spec(spec_stop_for_source)]
pub fn stop_for_source(c: u16) -> (r: u16)
    requires
        is_source(c),
    ensures
        r == spec_stop_for_source(c),
        BEAM_STOP_U <= r <= BEAM_STOP_R,
        r - BEAM_STOP_U == c - SOURCE_U,
{
    c + SOURCE_TO_STOP
}

/// The canonical piece code of an inventory slot: the orientations
/// TL, TR, U, L, BL, BR, R, D, repeated every eight slots.
pub open spec fn spec_slot_tile(slot: int) -> u16 {
    let k = slot % 8;
    if k == 0 {
        REFLECTOR_TL
    } else if k == 1 {
        REFLECTOR_TR
    } else if k == 2 {
        REFLECTOR_U
    } else if k == 3 {
        REFLECTOR_L
    } else if k == 4 {
        REFLECTOR_BL
    } else if k == 5 {
        REFLECTOR_BR
    } else if k == 6 {
        REFLECTOR_R
    } else {
        REFLECTOR_D
    }
}

/// The piece code of an inventory slot.
pub fn slot_tile(slot: usize) -> (r: u16)
    ensures
        r == spec_slot_tile(slot as int),
        is_reflector(r),
{
    let k: usize = slot % 8;
    if k == 0 {
        REFLECTOR_TL
    } else if k == 1 {
        REFLECTOR_TR
    } else if k == 2 {
        REFLECTOR_U
    } else if k == 3 {
        REFLECTOR_L
    } else if k == 4 {
        REFLECTOR_BL
    } else if k == 5 {
        REFLECTOR_BR
    } else if k == 6 {
        REFLECTOR_R
    } else {
        REFLECTOR_D
    }
}

} // verus!
