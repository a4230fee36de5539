//! What the surface shows of the state: the tiles of the menus and of the
//! inventory, and the sprites that follow the pointer and mark the source.
//! Everything here reads the state and changes nothing.

use vstd::prelude::*;
use vstd::arithmetic::div_mod::lemma_fundamental_div_mod;
use crate::enums::{
    slot_tile, spec_slot_tile, BOARD_IDX_INVALID, GRID, HIGHLIGHT, MENU_HOVER_NEXT, MENU_HOVER_RESET, MENU_HOVER_TRASH, SOURCE_TO_ICON,
};
use crate::game::{GameData, GameDataHeap};
use crate::ui::over_start;

verus! {

/// The tile of the start button at rest.
pub const START_TILE: u16 = 7;
/// The tile of the button that leads on while it blinks.
pub const NEXT_BLINK_TILE: u16 = 15;

/// The tile of the button `k` of the upper menu at rest: undo, redo, quarter
/// turn, the two flips, and the button that leads on.
pub open spec fn spec_menu_rest(k: int) -> u16 {
    if k < 3 {
        (k + 1) as u16
    } else {
        (k + 2) as u16
    }
}

/// The tile that the button `k` of the upper menu shows. A hovered button is
/// highlighted if it can be used: the button that leads on while the level
/// is complete and not the last, every other button while the level is not
/// complete. The button that leads on blinks while the level is complete and
/// not the last.
pub open spec fn spec_menu_tile(cache: &GameData, k: int) -> u16 {
    let hover = cache.ui_data.menu_hover_idx;
    let usable = if k == MENU_HOVER_NEXT {
        cache.level_complete && !cache.final_level
    } else {
        !cache.level_complete
    };
    if k == MENU_HOVER_NEXT && cache.level_complete && !cache.final_level && cache.ui_data.win_timer > 31 {
        NEXT_BLINK_TILE
    } else if hover == k && usable {
        (spec_menu_rest(k) + HIGHLIGHT) as u16
    } else {
        spec_menu_rest(k)
    }
}

/// The six tiles of the upper menu.
pub fn menu_tiles(cache: &GameData) -> (tiles: Vec<u16>)
    ensures
        tiles@ == Seq::new(6, |k: int| spec_menu_tile(cache, k)),
{
    let mut tiles: Vec<u16> = vec![1, 2, 3, 5, 6, 7];
    let hover: u8 = cache.ui_data.menu_hover_idx;
    if hover < 6 {
        let usable: bool = if hover == MENU_HOVER_NEXT {
            cache.level_complete && !cache.final_level
        } else {
            !cache.level_complete
        };
        if usable {
            tiles[hover as usize] = tiles[hover as usize] + HIGHLIGHT;
        }
    }
    if cache.level_complete && !cache.final_level && cache.ui_data.win_timer > 31 {
        tiles[MENU_HOVER_NEXT as usize] = NEXT_BLINK_TILE;
    }
    assert(tiles@ =~= Seq::new(6, |k: int| spec_menu_tile(cache, k)));
    tiles
}

/// The tile that the button `k` of the lower menu shows: the reset button,
/// a gap, and the bin; a hovered button is highlighted.
pub open spec fn spec_menu2_tile(cache: &GameData, k: int) -> u16 {
    let hover = cache.ui_data.menu_hover_idx;
    if k == 0 {
        if hover == MENU_HOVER_RESET {
            12
        } else {
            4
        }
    } else if k == 1 {
        0
    } else if hover == MENU_HOVER_TRASH {
        16
    } else {
        8
    }
}

/// The three tiles of the lower menu.
pub fn menu2_tiles(cache: &GameData) -> (tiles: Vec<u16>)
    ensures
        tiles@ == Seq::new(3, |k: int| spec_menu2_tile(cache, k)),
{
    let mut tiles: Vec<u16> = vec![4, 0, 8];
    if cache.ui_data.menu_hover_idx == MENU_HOVER_RESET {
        tiles[0] = 4 + HIGHLIGHT;
    } else if cache.ui_data.menu_hover_idx == MENU_HOVER_TRASH {
        tiles[2] = 8 + HIGHLIGHT;
    }
    assert(tiles@ =~= Seq::new(3, |k: int| spec_menu2_tile(cache, k)));
    tiles
}

/// How many slots the inventory shows: the pieces in play, if they are
/// eight, sixteen or twenty-four, and none else.
pub open spec fn spec_shown_slots(num_pcs: u8) -> int {
    if num_pcs == 8 || num_pcs == 16 || num_pcs == 24 {
        num_pcs as int
    } else {
        0
    }
}

/// The tile that the slot `k` of the inventory shows: nothing if its piece
/// stands on the board or is in hand, else the piece, highlighted if the slot
/// is hovered.
pub open spec fn spec_inventory_tile(cache: &GameData, k: int) -> u16 {
    if cache.pieces@[k].board_idx != BOARD_IDX_INVALID || cache.ui_data.holding_idx == k {
        0
    } else if cache.ui_data.inventory_idx == k {
        (spec_slot_tile(k) + HIGHLIGHT) as u16
    } else {
        spec_slot_tile(k)
    }
}

/// The tiles of the pieces in the inventory.
pub fn inventory_tiles(cache: &GameData, heap: &GameDataHeap) -> (tiles: Vec<u16>)
    ensures
        tiles@ == Seq::new(
            spec_shown_slots(heap.scene_data.num_pcs) as nat,
            |k: int| spec_inventory_tile(cache, k),
        ),
{
    let npcs: u8 = heap.scene_data.num_pcs;
    let shown: usize = if npcs == 8 || npcs == 16 || npcs == 24 {
        npcs as usize
    } else {
        0
    };
    let mut tiles: Vec<u16> = Vec::new();
    let mut k: usize = 0;
    while k < shown
        invariant
            shown <= 24,
            k <= shown,
            tiles@ == Seq::new(k as nat, |i: int| spec_inventory_tile(cache, i)),
        decreases shown - k,
    {
        let tile: u16 = if cache.pieces[k].board_idx != BOARD_IDX_INVALID || cache.ui_data.holding_idx as usize
            == k {
            0
        } else if cache.ui_data.inventory_idx as usize == k {
            slot_tile(k) + HIGHLIGHT
        } else {
            slot_tile(k)
        };
        tiles.push(tile);
        assert(tiles@ =~= Seq::new((k + 1) as nat, |i: int| spec_inventory_tile(cache, i)));
        k += 1;
    }
    tiles
}

/// The tiles of the empty inventory grid: one for each slot shown.
pub fn inventory_grid(heap: &GameDataHeap) -> (tiles: Vec<u16>)
    ensures
        tiles@ == Seq::new(heap.scene_data.num_pcs as nat, |k: int| GRID),
{
    let tiles = vec![GRID; heap.scene_data.num_pcs as usize];
    assert(tiles@ =~= Seq::new(heap.scene_data.num_pcs as nat, |k: int| GRID));
    tiles
}

/// A sprite: its tile and where its corner stands on the screen.
#[derive(Clone, Copy, Debug, PartialEq)]
pub struct Sprite {
    pub tile: u16,
    pub x: i32,
    pub y: i32,
}

/// The column and the row of a cell are no larger than its index.
proof fn lemma_cell_on_screen(cell: int, sz: int)
    requires
        0 <= cell,
        0 < sz,
    ensures
        0 <= cell % sz <= cell,
        0 <= cell / sz <= cell,
{
    lemma_fundamental_div_mod(cell, sz);
    assert(0 <= cell / sz && sz * (cell / sz) >= cell / sz) by (nonlinear_arith)
        requires
            cell == sz * (cell / sz) + cell % sz,
            0 <= cell % sz < sz,
            0 <= cell,
            0 < sz,
    ;
}

/// A piece is in hand.
pub open spec fn holds_piece(cache: &GameData) -> bool {
    cache.ui_data.holding_idx < 24
}

/// The sprite of the piece in hand: the piece highlighted, centred on the
/// pointer, or standing on the hovered floor cell.
pub open spec fn spec_holding_sprite(cache: &GameData, heap: &GameDataHeap, mx: i32, my: i32) -> Sprite {
    let tile = (cache.pieces@[cache.ui_data.holding_idx as int].tile + HIGHLIGHT) as u16;
    let cell = cache.ui_data.board_idx as int;
    let sz = heap.scene_data.sz as int;
    if cache.ui_data.board_idx != BOARD_IDX_INVALID {
        Sprite {
            tile,
            x: ((cell % sz) * 16 + cache.ui_data.board_left) as i32,
            y: ((cell / sz) * 16 + cache.ui_data.board_top) as i32,
        }
    } else {
        Sprite { tile, x: (mx - 8) as i32, y: (my - 8) as i32 }
    }
}

/// The sprite of the piece in hand, if a piece is in hand.
pub fn holding_sprite(cache: &GameData, heap: &GameDataHeap, mx: i32, my: i32) -> (r: Option<Sprite>)
    requires
        heap.scene_data.sz > 0,
        -10000 <= cache.ui_data.board_left <= 10000,
        -10000 <= cache.ui_data.board_top <= 10000,
        cache.ui_data.holding_idx < 24 ==> cache.pieces@[cache.ui_data.holding_idx as int].tile <= 0xff00,
        mx >= i32::MIN + 8,
        my >= i32::MIN + 8,
    ensures
        r == if holds_piece(cache) {
            Some(spec_holding_sprite(cache, heap, mx, my))
        } else {
            None
        },
{
    let holding: u8 = cache.ui_data.holding_idx;
    if holding >= 24 {
        return None;
    }
    let tile: u16 = cache.pieces[holding as usize].tile + HIGHLIGHT;
    let cell: u8 = cache.ui_data.board_idx;
    if cell != BOARD_IDX_INVALID {
        let sz: usize = heap.scene_data.sz;
        proof {
            lemma_cell_on_screen(cell as int, sz as int);
        }
        let xx: i32 = (cell as usize % sz) as i32;
        let yy: i32 = (cell as usize / sz) as i32;
        Some(Sprite { tile, x: xx * 16 + cache.ui_data.board_left, y: yy * 16 + cache.ui_data.board_top })
    } else {
        Some(Sprite { tile, x: mx - 8, y: my - 8 })
    }
}

/// The source that is marked: the emitter while a beam is armed, else the
/// hovered source.
pub open spec fn spec_marked_source(cache: &GameData) -> u8 {
    if cache.ui_data.beam_origin != BOARD_IDX_INVALID {
        cache.ui_data.beam_origin
    } else {
        cache.ui_data.source_hover
    }
}

/// The sprite over the marked source: the icon of its direction, on its
/// cell.
pub open spec fn spec_source_sprite(cache: &GameData, heap: &GameDataHeap) -> Sprite {
    let cell = spec_marked_source(cache) as int;
    let sz = heap.scene_data.sz as int;
    Sprite {
        tile: (heap.scene_data.tilemap@[cell] + SOURCE_TO_ICON) as u16,
        x: (cache.ui_data.board_left + (cell % sz) * 16) as i32,
        y: (cache.ui_data.board_top + (cell / sz) * 16) as i32,
    }
}

/// The sprite over the marked source, if a source of the board is marked.
pub fn source_sprite(cache: &GameData, heap: &GameDataHeap) -> (r: Option<Sprite>)
    requires
        heap.scene_data.sz > 0,
        -10000 <= cache.ui_data.board_left <= 10000,
        -10000 <= cache.ui_data.board_top <= 10000,
    ensures
        r == if spec_marked_source(cache) != BOARD_IDX_INVALID && spec_marked_source(cache)
            < heap.scene_data.tilemap@.len() && heap.scene_data.tilemap@[spec_marked_source(cache) as int] <= 0xff00 {
            Some(spec_source_sprite(cache, heap))
        } else {
            None
        },
{
    let cell: u8 = if cache.ui_data.beam_origin != BOARD_IDX_INVALID {
        cache.ui_data.beam_origin
    } else {
        cache.ui_data.source_hover
    };
    if cell == BOARD_IDX_INVALID || cell as usize >= heap.scene_data.tilemap.len() {
        return None;
    }
    let tile: u16 = heap.scene_data.tilemap[cell as usize];
    if tile > 0xff00 {
        return None;
    }
    let sz: usize = heap.scene_data.sz;
    proof {
        lemma_cell_on_screen(cell as int, sz as int);
    }
    let xx: i32 = (cell as usize % sz) as i32;
    let yy: i32 = (cell as usize / sz) as i32;
    Some(Sprite { tile: tile + SOURCE_TO_ICON, x: cache.ui_data.board_left + xx * 16, y: cache.ui_data.board_top + yy * 16 })
}

/// The tile of the start button of the main menu: highlighted under the
/// pointer, and for half of each round of its blinking.
pub fn start_tile(cache: &GameData, mx: i32, my: i32) -> (tile: u16)
    ensures
        tile == if over_start(mx, my) || cache.ui_data.win_timer > 127 {
            (START_TILE + HIGHLIGHT) as u16
        } else {
            START_TILE
        },
{
    if over_start(mx, my) || cache.ui_data.win_timer > 127 {
        START_TILE + HIGHLIGHT
    } else {
        START_TILE
    }
}

/// Whether the beam is shown: as long as it has any strength left.
pub fn beam_visible(cache: &GameData) -> (r: bool)
    ensures
        r == (cache.ui_data.beam_alpha > 0),
{
    cache.ui_data.beam_alpha > 0
}

} // verus!
