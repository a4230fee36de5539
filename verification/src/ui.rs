//! The mouse-driven surface of the game: what the pointer hovers, what a
//! click does, when the beam runs, and when the level is won.

use vstd::prelude::*;
use crate::beam::{lemma_settle, settle, settle_overlay};
use crate::enums::{
    is_floor, is_source, spec_is_floor, spec_is_source, spec_stop_for_source, stop_for_source,
    BOARD_IDX_INVALID, CLIPPING_ORB, HOLDING_INVALID, INVENTORY_IDX_INVALID, MENU_HOVER_FLIP_H,
    MENU_HOVER_FLIP_V, MENU_HOVER_INVALID, MENU_HOVER_NEXT, MENU_HOVER_REDO, MENU_HOVER_RESET,
    MENU_HOVER_ROTATE, MENU_HOVER_TRASH, MENU_HOVER_UNDO, ORB, ORB_ACTIVE,
};
use crate::game::{wf, GameData, GameDataHeap};
use crate::game_state::{
    can_advance, entered, entry_sound, flip_h, flip_v, has_next_level, history_redo, history_undo, ledger,
    ledger_shaped, level_ok, next_level, pickup_piece, pieces_canonical, place_piece, redone, reset_level,
    rotate, same_set, started_over, swap_piece, trash_level, turned, undone, was_reset, went_on, PieceData,
    Shuffle,
};
use crate::grid::{count, count_code, interior, lemma_cell, lemma_count_le};
use crate::rng::random_below;
use crate::scene::{
    board_sound, cleared_positions, clipping_of, law_clipping_is_pure, lemma_clipping_len, lemma_clipping_orb,
    lemma_reflectors_len, positions_of, reflectors_upto, reset_scene, update_clipping,
};
use crate::transform::{positions_on_board, Turn};

verus! {

pub const MENU_INVALID: u8 = 0;
pub const MENU_MAIN: u8 = 1;
pub const MENU_GAME: u8 = 2;
pub const MENU_NOTIFICATION_POPUP: u8 = 19;

pub const TRANSITION_MODE_INVALID: u8 = 0;
pub const TRANSITION_MODE_FLASH: u8 = 1;

/// Ticks of the flash between two screens.
pub const TRANSITION_TICKS: u16 = 600;
/// Ticks for which clicks are ignored after one was taken.
pub const CLICK_DELAY: u8 = 30;
/// The opacity of a freshly armed beam, in twentieths.
pub const BEAM_ALPHA_FULL: u8 = 20;
/// The opacity of the blackout at the start of a flash, in thirtieths.
pub const BLACKOUT_FULL: u8 = 30;

/// The state of the surface: what is hovered and held, the beam, the menu
/// that is shown, the timers, and where the board and the menu stand.
#[derive(Clone, Debug, PartialEq)]
pub struct UIData {
    pub click_delay: u8,
    pub holding_idx: u8,
    pub inventory_idx: u8,
    pub board_idx: u8,
    pub menu_hover_idx: u8,
    pub source_hover: u8,
    pub beam_origin: u8,
    /// The opacity of the beam in twentieths: 20 is opaque, 0 is gone.
    pub beam_alpha: u8,
    pub beam_hold: bool,
    pub menu: u8,
    pub win_timer: u8,
    pub transition_mode: u8,
    pub transition_timer: u16,
    pub transition_offsets: [u8; 88],
    pub board_left: i32,
    pub board_top: i32,
    pub menu_left: i32,
    pub menu_top: i32,
}

impl UIData {
    /// The surface before the first tick: at the main menu, nothing hovered,
    /// nothing in hand, no beam, no flash.
    pub open spec fn fresh(&self) -> bool {
        &&& self.click_delay == 0
        &&& self.holding_idx == HOLDING_INVALID
        &&& self.inventory_idx == INVENTORY_IDX_INVALID
        &&& self.board_idx == BOARD_IDX_INVALID
        &&& self.menu_hover_idx == MENU_HOVER_INVALID
        &&& self.source_hover == BOARD_IDX_INVALID
        &&& self.beam_origin == BOARD_IDX_INVALID
        &&& self.beam_alpha == 0
        &&& !self.beam_hold
        &&& self.menu == MENU_MAIN
        &&& self.win_timer == 0
        &&& self.transition_mode == TRANSITION_MODE_INVALID
        &&& self.transition_timer == 0
        &&& self.board_left == 48
        &&& self.board_top == 48
    }

    /// The surface before the first tick.
    pub fn new() -> (r: UIData)
        ensures
            r.fresh(),
            r.menu_left == 0,
            r.menu_top == 0,
            forall|i: int| 0 <= i < 88 ==> r.transition_offsets[i] == 0,
    {
        UIData {
            click_delay: 0,
            holding_idx: HOLDING_INVALID,
            inventory_idx: INVENTORY_IDX_INVALID,
            board_idx: BOARD_IDX_INVALID,
            menu_hover_idx: MENU_HOVER_INVALID,
            source_hover: BOARD_IDX_INVALID,
            beam_origin: BOARD_IDX_INVALID,
            beam_alpha: 0,
            beam_hold: false,
            menu: MENU_MAIN,
            win_timer: 0,
            transition_mode: TRANSITION_MODE_INVALID,
            transition_timer: 0,
            transition_offsets: [0u8; 88],
            board_left: 48,
            board_top: 48,
            menu_left: 0,
            menu_top: 0,
        }
    }
}

/// Starts the surface over: at the main menu, nothing hovered, nothing in
/// hand, no beam, no flash.
pub fn initialize(cache: &mut GameData)
    ensures
        final(cache).ui_data.fresh(),
        final(cache).ui_data.menu_left == old(cache).ui_data.menu_left,
        final(cache).ui_data.menu_top == old(cache).ui_data.menu_top,
        final(cache).ui_data.transition_offsets == old(cache).ui_data.transition_offsets,
        final(cache).pieces == old(cache).pieces,
        final(cache).player_data == old(cache).player_data,
        final(cache).frame == old(cache).frame,
        final(cache).ready == old(cache).ready,
        final(cache).quit_requested == old(cache).quit_requested,
        final(cache).level_complete == old(cache).level_complete,
        final(cache).blackout_alpha == old(cache).blackout_alpha,
        final(cache).final_level == old(cache).final_level,
        final(cache).history_idx == old(cache).history_idx,
{
    cache.ui_data.click_delay = 0;
    cache.ui_data.holding_idx = HOLDING_INVALID;
    cache.ui_data.inventory_idx = INVENTORY_IDX_INVALID;
    cache.ui_data.board_idx = BOARD_IDX_INVALID;
    cache.ui_data.menu_hover_idx = MENU_HOVER_INVALID;
    cache.ui_data.source_hover = BOARD_IDX_INVALID;
    cache.ui_data.beam_origin = BOARD_IDX_INVALID;
    cache.ui_data.beam_alpha = 0;
    cache.ui_data.beam_hold = false;
    cache.ui_data.menu = MENU_MAIN;
    cache.ui_data.transition_mode = TRANSITION_MODE_INVALID;
    cache.ui_data.transition_timer = 0;
    cache.ui_data.win_timer = 0;
    cache.ui_data.board_left = 48;
    cache.ui_data.board_top = 48;
}

/// Where the board and the menu column stand on the screen.
#[derive(Clone, Debug, PartialEq)]
pub struct Layout {
    pub board_left: i32,
    pub board_top: i32,
    pub menu_left: i32,
    pub menu_top: i32,
}

/// The layout for a board of side `sz` and an inventory of `num_pcs` pieces:
/// board and menu column together are centred on the screen.
pub open spec fn spec_layout(sz: int, num_pcs: int) -> Layout {
    Layout {
        board_left: (184 - (5 + sz) * 16 / 2) as i32,
        board_top: (132 - (sz * 8 - 8)) as i32,
        menu_left: (184 - (5 + sz) * 16 / 2 + (sz + 1) * 16) as i32,
        menu_top: (132 - (4 * num_pcs + 74) / 2 + 8) as i32,
    }
}

/// Computes the layout.
pub fn layout(sz: usize, num_pcs: u8) -> (l: Layout)
    requires
        3 <= sz <= 15,
        num_pcs <= 24,
    ensures
        l == spec_layout(sz as int, num_pcs as int),
        24 <= l.board_left <= 120,
        20 <= l.board_top <= 116,
        88 <= l.menu_left <= 280,
        55 <= l.menu_top <= 103,
{
    let uiwidth: i32 = (5 + sz as i32) * 16;
    let uiheight: i32 = 4 * (num_pcs as i32) + 74;
    let board_left: i32 = 184 - uiwidth / 2;
    Layout {
        board_left,
        board_top: 132 - (sz as i32 * 8 - 8),
        menu_left: board_left + (sz as i32 + 1) * 16,
        menu_top: 132 - uiheight / 2 + 8,
    }
}

/// Strictly inside the rectangle whose corner is `(left, top)`.
pub open spec fn spec_within(mx: int, my: int, left: int, top: int, width: int, height: int) -> bool {
    left < mx < left + width && top < my < top + height
}

/// Whether the point lies strictly inside the rectangle.
#[verifier::when_used_as_spec(spec_within_i32)]
pub fn within(mx: i32, my: i32, left: i32, top: i32, width: i32, height: i32) -> (r: bool)
    requires
        0 <= left <= 1000,
        0 <= top <= 1000,
        0 <= width <= 1000,
        0 <= height <= 1000,
    ensures
        r == spec_within(mx as int, my as int, left as int, top as int, width as int, height as int),
{
    left < mx && mx < left + width && top < my && my < top + height
}

/// `within`, as specifications see it.
pub open spec fn spec_within_i32(mx: i32, my: i32, left: i32, top: i32, width: i32, height: i32) -> bool {
    spec_within(mx as int, my as int, left as int, top as int, width as int, height as int)
}

/// The menu button under the pointer. The six buttons of the upper menu
/// stand in two rows of three; of the lower menu, only the first and the last
/// button count, and only while the level is not complete. With a piece in
/// hand no button counts.
pub open spec fn spec_menu_hover(l: Layout, holding: u8, level_complete: bool, mx: int, my: int) -> u8 {
    let left = l.menu_left + 5;
    let top = l.menu_top as int;
    if holding != HOLDING_INVALID {
        MENU_HOVER_INVALID
    } else if spec_within(mx, my, left, top, 54, 36) {
        ((my - top) / 18 * 3 + (mx - left) / 18) as u8
    } else if spec_within(mx, my, left, top + 45, 54, 18) && !level_complete && (mx - left) / 18 == 0 {
        MENU_HOVER_RESET
    } else if spec_within(mx, my, left, top + 45, 54, 18) && !level_complete && (mx - left) / 18 == 2 {
        MENU_HOVER_TRASH
    } else {
        MENU_HOVER_INVALID
    }
}

/// Finds the menu button under the pointer.
pub fn menu_hover(l: &Layout, holding: u8, level_complete: bool, mx: i32, my: i32) -> (r: u8)
    requires
        0 <= l.menu_left <= 900,
        0 <= l.menu_top <= 900,
    ensures
        r == spec_menu_hover(*l, holding, level_complete, mx as int, my as int),
        r == MENU_HOVER_INVALID || r <= 7,
{
    let left: i32 = l.menu_left + 5;
    let top: i32 = l.menu_top;
    if holding != HOLDING_INVALID {
        return MENU_HOVER_INVALID;
    }
    if within(mx, my, left, top, 54, 36) {
        let xx: i32 = (mx - left) / 18;
        let yy: i32 = (my - top) / 18;
        return (yy * 3 + xx) as u8;
    }
    if within(mx, my, left, top + 45, 54, 18) && !level_complete {
        let xx: i32 = (mx - left) / 18;
        if xx == 0 {
            return MENU_HOVER_RESET;
        } else if xx == 2 {
            return MENU_HOVER_TRASH;
        }
    }
    MENU_HOVER_INVALID
}

/// The floor cell under the pointer: the interior cell whose square of
/// sixteen pixels holds the pointer, if it shows floor.
pub open spec fn spec_board_hover(l: Layout, tilemap: Seq<u16>, sz: int, mx: int, my: int) -> u8 {
    let left = l.board_left as int;
    let top = l.board_top as int;
    let idx = (1 + (my - top - 16) / 16) * sz + (mx - left - 16) / 16 + 1;
    if spec_within(mx, my, left + 16, top + 16, 16 * sz - 32, 16 * sz - 32) && spec_is_floor(tilemap[idx]) {
        idx as u8
    } else {
        BOARD_IDX_INVALID
    }
}

/// Finds the floor cell under the pointer.
pub fn board_hover(l: &Layout, tilemap: &Vec<u16>, sz: usize, mx: i32, my: i32) -> (r: u8)
    requires
        3 <= sz <= 15,
        tilemap.len() == sz * sz,
        0 <= l.board_left <= 900,
        0 <= l.board_top <= 900,
    ensures
        r == spec_board_hover(*l, tilemap@, sz as int, mx as int, my as int),
        r != BOARD_IDX_INVALID ==> interior(sz as int, r as int) && spec_is_floor(tilemap[r as int]),
{
    let left: i32 = l.board_left;
    let top: i32 = l.board_top;
    let side: i32 = 16 * (sz as i32) - 32;
    if within(mx, my, left + 16, top + 16, side, side) {
        let xx: usize = ((mx - left - 16) / 16) as usize;
        let yy: usize = ((my - top - 16) / 16) as usize;
        proof {
            lemma_cell(sz as int, xx + 1, yy + 1);
        }
        assert((1 + yy) * sz <= 225) by (nonlinear_arith)
            requires
                yy + 1 < sz,
                sz <= 15,
        ;
        let idx: usize = (1 + yy) * sz + xx + 1;
        if is_floor(tilemap[idx]) {
            return idx as u8;
        }
    }
    BOARD_IDX_INVALID
}

/// The inventory slot under the pointer, if its piece is in the inventory.
/// The slots stand in rows of four, sixteen pixels apart.
pub open spec fn spec_inventory_hover(l: Layout, positions: Seq<u8>, num_pcs: int, mx: int, my: int) -> u8 {
    let left = l.menu_left as int;
    let top = l.menu_top + 74;
    let idx = (my - top) / 16 * 4 + (mx - left) / 16;
    if spec_within(mx, my, left, top, 64, 4 * num_pcs) && positions[idx] == BOARD_IDX_INVALID {
        idx as u8
    } else {
        INVENTORY_IDX_INVALID
    }
}

/// Finds the inventory slot under the pointer.
pub fn inventory_hover(l: &Layout, cache: &GameData, num_pcs: u8, mx: i32, my: i32) -> (r: u8)
    requires
        num_pcs == 8 || num_pcs == 16 || num_pcs == 24,
        0 <= l.menu_left <= 900,
        0 <= l.menu_top <= 900,
    ensures
        r == spec_inventory_hover(*l, positions_of(cache.pieces@), num_pcs as int, mx as int, my as int),
        r != INVENTORY_IDX_INVALID ==> r < num_pcs && cache.pieces@[r as int].board_idx == BOARD_IDX_INVALID,
{
    let left: i32 = l.menu_left;
    let top: i32 = l.menu_top + 74;
    if within(mx, my, left, top, 64, 4 * (num_pcs as i32)) {
        let xx: i32 = (mx - left) / 16;
        let yy: i32 = (my - top) / 16;
        let idx: usize = (yy * 4 + xx) as usize;
        if cache.pieces[idx].board_idx == BOARD_IDX_INVALID {
            return idx as u8;
        }
    }
    INVENTORY_IDX_INVALID
}

/// The source under the pointer: the cell whose square of sixteen pixels
/// holds the pointer, if it shows a source, no beam is armed and no piece is
/// in hand.
pub open spec fn spec_source_hover(
    l: Layout,
    tilemap: Seq<u16>,
    sz: int,
    beam_origin: u8,
    holding: u8,
    mx: int,
    my: int,
) -> u8 {
    let left = l.board_left as int;
    let top = l.board_top as int;
    let idx = (my - top) / 16 * sz + (mx - left) / 16;
    if beam_origin == BOARD_IDX_INVALID && holding == HOLDING_INVALID && spec_within(
        mx,
        my,
        left,
        top,
        16 * sz,
        16 * sz,
    ) && spec_is_source(tilemap[idx]) {
        idx as u8
    } else {
        BOARD_IDX_INVALID
    }
}

/// Finds the source under the pointer.
pub fn source_hover(
    l: &Layout,
    tilemap: &Vec<u16>,
    sz: usize,
    beam_origin: u8,
    holding: u8,
    mx: i32,
    my: i32,
) -> (r: u8)
    requires
        3 <= sz <= 15,
        tilemap.len() == sz * sz,
        0 <= l.board_left <= 900,
        0 <= l.board_top <= 900,
    ensures
        r == spec_source_hover(*l, tilemap@, sz as int, beam_origin, holding, mx as int, my as int),
        r != BOARD_IDX_INVALID ==> r < sz * sz && spec_is_source(tilemap[r as int]),
{
    let left: i32 = l.board_left;
    let top: i32 = l.board_top;
    let side: i32 = 16 * (sz as i32);
    if beam_origin == BOARD_IDX_INVALID && holding == HOLDING_INVALID && within(mx, my, left, top, side, side) {
        let xx: usize = ((mx - left) / 16) as usize;
        let yy: usize = ((my - top) / 16) as usize;
        proof {
            lemma_cell(sz as int, xx as int, yy as int);
        }
        assert(yy * sz <= 225) by (nonlinear_arith)
            requires
                yy < sz,
                sz <= 15,
        ;
        let idx: usize = yy * sz + xx;
        if is_source(tilemap[idx]) {
            return idx as u8;
        }
    }
    BOARD_IDX_INVALID
}

/// An overlay with the emitter's cell painted: the emitter shows the stop of
/// its own direction.
pub open spec fn seeded(beams: Seq<u16>, tilemap: Seq<u16>, origin: int) -> Seq<u16> {
    beams.update(origin, spec_stop_for_source(tilemap[origin]))
}

/// The overlay that the engine makes of a board, its pieces and an emitter,
/// starting from an empty overlay.
pub open spec fn overlay_of(tilemap: Seq<u16>, pieces: Seq<PieceData>, npcs: int, n: int, origin: int) -> Seq<u16> {
    settle(
        seeded(Seq::new(tilemap.len(), |i: int| 0u16), tilemap, origin),
        clipping_of(tilemap, pieces, npcs),
        n,
        origin,
    )
}

/// The beam is decided by the board, the pieces in play and the emitter:
/// two states that agree on those show the same overlay.
pub proof fn law_overlay_is_determined(
    t_a: Seq<u16>,
    pieces_a: Seq<PieceData>,
    t_b: Seq<u16>,
    pieces_b: Seq<PieceData>,
    npcs: int,
    n: int,
    origin: int,
)
    requires
        t_a =~= t_b,
        0 <= npcs <= pieces_a.len(),
        npcs <= pieces_b.len(),
        forall|k: int|
            0 <= k < npcs ==> (#[trigger] pieces_a[k]).board_idx == pieces_b[k].board_idx && pieces_a[k].tile
                == pieces_b[k].tile,
    ensures
        overlay_of(t_a, pieces_a, npcs, n, origin) == overlay_of(t_b, pieces_b, npcs, n, origin),
{
    law_clipping_is_pure(t_a, pieces_a, t_b, pieces_b, npcs);
}

/// An overlay in which only orbs are lit.
pub open spec fn lit_on_orbs(beams: Seq<u16>, tilemap: Seq<u16>) -> bool {
    &&& beams.len() == tilemap.len()
    &&& forall|i: int| 0 <= i < beams.len() && #[trigger] beams[i] == ORB_ACTIVE ==> tilemap[i] == ORB
}

/// The engine lights nothing but orbs: on a sound board with the canonical
/// pieces, the overlay that it makes has only orbs lit, and so no more lit
/// cells than the board has orbs.
pub proof fn law_lit_orbs_bounded(
    tilemap: Seq<u16>,
    pieces: Seq<PieceData>,
    npcs: int,
    n: int,
    origin: int,
    goals: int,
)
    requires
        3 <= n,
        board_sound(tilemap, n, goals),
        pieces_canonical(pieces),
        0 <= npcs <= 24,
        0 <= origin < n * n,
        spec_is_source(tilemap[origin]),
    ensures
        lit_on_orbs(overlay_of(tilemap, pieces, npcs, n, origin), tilemap),
        count(overlay_of(tilemap, pieces, npcs, n, origin), ORB_ACTIVE) <= goals,
{
    let start = seeded(Seq::new(tilemap.len(), |i: int| 0u16), tilemap, origin);
    let clipping = clipping_of(tilemap, pieces, npcs);
    let end = settle(start, clipping, n, origin);
    lemma_settle(start, clipping, n, origin);
    lemma_clipping_len(tilemap, pieces, npcs);
    assert forall|i: int| 0 <= i < end.len() && #[trigger] end[i] == ORB_ACTIVE implies tilemap[i] == ORB by {
        assert(start[i] != ORB_ACTIVE);
        assert(clipping[i] == CLIPPING_ORB);
        lemma_clipping_orb(tilemap, pieces, npcs, i);
    }
    lemma_count_le(end, ORB_ACTIVE, tilemap, ORB);
}

/// Runs the engine for the emitter `origin`: recomputes the clipping map,
/// empties the overlay, paints the emitter's cell, and lets the beam spread
/// until nothing changes.
pub fn run_beam(cache: &mut GameData, heap: &mut GameDataHeap, origin: usize)
    requires
        old(heap).scene_data.shaped(),
        old(heap).scene_data.num_pcs <= 24,
        origin < old(heap).scene_data.sz2,
        spec_is_source(old(heap).scene_data.tilemap@[origin as int]),
    ensures
        *final(cache) == *old(cache),
        final(heap).scene_data.clipping@ == clipping_of(
            old(heap).scene_data.tilemap@,
            old(cache).pieces@,
            old(heap).scene_data.num_pcs as int,
        ),
        final(heap).scene_data.beams@ == overlay_of(
            old(heap).scene_data.tilemap@,
            old(cache).pieces@,
            old(heap).scene_data.num_pcs as int,
            old(heap).scene_data.sz as int,
            origin as int,
        ),
        final(heap).scene_data.shaped(),
        final(heap).scene_data.tilemap == old(heap).scene_data.tilemap,
        final(heap).scene_data.reflectors == old(heap).scene_data.reflectors,
        final(heap).scene_data.sz == old(heap).scene_data.sz,
        final(heap).scene_data.sz2 == old(heap).scene_data.sz2,
        final(heap).scene_data.num_goals == old(heap).scene_data.num_goals,
        final(heap).scene_data.num_pcs == old(heap).scene_data.num_pcs,
        final(heap).level_data == old(heap).level_data,
        final(heap).history == old(heap).history,
        old(heap).scene_data.wf() && pieces_canonical(old(cache).pieces@) ==> lit_on_orbs(
            final(heap).scene_data.beams@,
            final(heap).scene_data.tilemap@,
        ) && count(final(heap).scene_data.beams@, ORB_ACTIVE) <= final(heap).scene_data.num_goals,
{
    update_clipping(cache, heap);
    let tile: u16 = heap.scene_data.tilemap[origin];
    let sz2: usize = heap.scene_data.sz2;
    let mut beams: Vec<u16> = vec![0u16; sz2];
    assert(beams@ =~= Seq::new(heap.scene_data.tilemap@.len(), |i: int| 0u16));
    beams[origin] = stop_for_source(tile);
    let sz: usize = heap.scene_data.sz;
    settle_overlay(&mut beams, &heap.scene_data.clipping, sz, origin);
    heap.scene_data.beams = beams;
    proof {
        if old(heap).scene_data.wf() && pieces_canonical(old(cache).pieces@) {
            law_lit_orbs_bounded(
                old(heap).scene_data.tilemap@,
                old(cache).pieces@,
                old(heap).scene_data.num_pcs as int,
                sz as int,
                origin as int,
                old(heap).scene_data.num_goals as int,
            );
        }
    }
}

/// The pointer is on the start button of the main menu.
pub open spec fn spec_over_start(mx: i32, my: i32) -> bool {
    176 <= mx < 192 && 150 <= my < 166
}

/// Whether the pointer is on the start button of the main menu.
#[verifier::when_used_as_spec(spec_over_start)]
pub fn over_start(mx: i32, my: i32) -> (r: bool)
    ensures
        r == spec_over_start(mx, my),
{
    mx >= 176 && mx < 192 && my >= 150 && my < 166
}

/// The timer that makes a button blink, one tick on: it counts down and
/// starts over from `top`.
pub open spec fn blinked(timer: u8, top: u8) -> u8 {
    if timer > 0 {
        (timer - 1) as u8
    } else {
        top
    }
}

/// One tick of the main menu: the start button blinks unless the pointer is
/// on it.
pub fn update_main(cache: &mut GameData, mx: i32, my: i32)
    ensures
        final(cache).same_but_ui(old(cache)),
        final(cache).ui_data == (UIData {
            win_timer: if over_start(mx, my) {
                old(cache).ui_data.win_timer
            } else {
                blinked(old(cache).ui_data.win_timer, 255)
            },
            ..old(cache).ui_data
        }),
{
    if !over_start(mx, my) {
        if cache.ui_data.win_timer > 0 {
            cache.ui_data.win_timer -= 1;
        } else {
            cache.ui_data.win_timer = 255;
        }
    }
}

/// The surface after a flash was started: the flash runs, one tick of it is
/// gone, and everything else is as it was, the offsets of the flash aside.
pub open spec fn flashing(before: UIData, after: UIData) -> bool {
    &&& after == (UIData {
        transition_mode: TRANSITION_MODE_FLASH,
        transition_timer: (TRANSITION_TICKS - 1) as u16,
        transition_offsets: after.transition_offsets,
        ..before
    })
    &&& forall|i: int| 0 <= i < 88 ==> after.transition_offsets[i] < 255
}

/// Starts the flash between two screens: draws its offsets, blacks the
/// screen out, and lets the first tick of it pass.
pub fn transition(cache: &mut GameData, heap: &mut GameDataHeap)
    ensures
        flashing(old(cache).ui_data, final(cache).ui_data),
        final(cache).blackout_alpha == BLACKOUT_FULL,
        final(cache).frame == old(cache).frame,
        final(cache).ready == old(cache).ready,
        final(cache).quit_requested == old(cache).quit_requested,
        final(cache).player_data == old(cache).player_data,
        final(cache).pieces == old(cache).pieces,
        final(cache).level_complete == old(cache).level_complete,
        final(cache).final_level == old(cache).final_level,
        final(cache).history_idx == old(cache).history_idx,
        *final(heap) == *old(heap),
{
    cache.ui_data.transition_mode = TRANSITION_MODE_FLASH;
    cache.ui_data.transition_timer = TRANSITION_TICKS - 1;
    cache.blackout_alpha = BLACKOUT_FULL;
    let mut i: usize = 0;
    while i < 88
        invariant
            i <= 88,
            cache.ui_data == (UIData {
                transition_mode: TRANSITION_MODE_FLASH,
                transition_timer: (TRANSITION_TICKS - 1) as u16,
                transition_offsets: cache.ui_data.transition_offsets,
                ..old(cache).ui_data
            }),
            forall|j: int| 0 <= j < i ==> cache.ui_data.transition_offsets[j] < 255,
            cache.blackout_alpha == BLACKOUT_FULL,
            cache.frame == old(cache).frame,
            cache.ready == old(cache).ready,
            cache.quit_requested == old(cache).quit_requested,
            cache.player_data == old(cache).player_data,
            cache.pieces == old(cache).pieces,
            cache.level_complete == old(cache).level_complete,
            cache.final_level == old(cache).final_level,
            cache.history_idx == old(cache).history_idx,
        decreases 88 - i,
    {
        cache.ui_data.transition_offsets[i] = random_below(255) as u8;
        i += 1;
    }
}

/// What the last tick of the flash at the main menu leaves behind where a
/// level can be entered: the game is in play, and the first level was gone
/// on to, for some draws.
pub open spec fn entered_game(
    before: &GameData,
    before_heap: &GameDataHeap,
    after: &GameData,
    after_heap: &GameDataHeap,
) -> bool {
    let mid = GameData {
        ui_data: UIData {
            transition_timer: 0,
            transition_mode: TRANSITION_MODE_INVALID,
            menu: MENU_GAME,
            ..before.ui_data
        },
        ..*before
    };
    exists|pick: usize, mask: Seq<bool>, coins: Shuffle| went_on(&mid, before_heap, after, after_heap, pick, mask, coins)
}

/// What a tick of the flash leaves behind. With no tick left nothing
/// changes. Else one tick is gone. With the last tick the flash ends; at the
/// main menu, if the catalog has a level to enter, the game goes over to
/// play and enters it.
pub open spec fn flash_ticked(
    before: &GameData,
    before_heap: &GameDataHeap,
    after: &GameData,
    after_heap: &GameDataHeap,
) -> bool {
    let ui = before.ui_data;
    if ui.transition_timer == 0 {
        *after == *before && *after_heap == *before_heap
    } else if ui.transition_timer > 1 {
        &&& after.same_but_ui(before)
        &&& after.ui_data == (UIData { transition_timer: (ui.transition_timer - 1) as u16, ..ui })
        &&& *after_heap == *before_heap
    } else if ui.menu == MENU_MAIN && can_advance(before.player_data, before_heap.level_data@) {
        entered_game(before, before_heap, after, after_heap)
    } else {
        &&& after.same_but_ui(before)
        &&& after.ui_data == (UIData { transition_timer: 0, transition_mode: TRANSITION_MODE_INVALID, ..ui })
        &&& *after_heap == *before_heap
    }
}

/// One tick of the flash between two screens.
pub fn update_transition(cache: &mut GameData, heap: &mut GameDataHeap)
    requires
        wf(old(cache), old(heap)),
    ensures
        flash_ticked(old(cache), old(heap), final(cache), final(heap)),
        wf(final(cache), final(heap)),
{
    if 0 < cache.ui_data.transition_timer {
        cache.ui_data.transition_timer -= 1;
        if 0 == cache.ui_data.transition_timer {
            cache.ui_data.transition_mode = TRANSITION_MODE_INVALID;
            if MENU_MAIN == cache.ui_data.menu && has_next_level(cache, heap) {
                cache.ui_data.menu = MENU_GAME;
                let ghost mid = *cache;
                next_level(cache, heap);
                proof {
                    let pick_mask_coins = choose|pick: usize, mask: Seq<bool>, coins: Shuffle|
                        went_on(&mid, old(heap), cache, heap, pick, mask, coins);
                    assert(went_on(
                        &mid,
                        old(heap),
                        cache,
                        heap,
                        pick_mask_coins.0,
                        pick_mask_coins.1,
                        pick_mask_coins.2,
                    ));
                    assert(mid.pieces == old(cache).pieces);
                    lemma_dark(heap.scene_data.beams@);
                }
            }
        }
    }
}

/// The level is won: the board has orbs, and as many cells of the overlay are
/// lit as the board has orbs.
pub open spec fn won(beams: Seq<u16>, goals: int) -> bool {
    goals > 0 && count(beams, ORB_ACTIVE) == goals
}

/// What winning the level leaves behind: the level is complete, every piece
/// in play is back in the inventory, the beam is disarmed, and the flash
/// runs.
pub open spec fn win_taken(before: &GameData, before_heap: &GameDataHeap, after: &GameData, after_heap: &GameDataHeap) -> bool {
    &&& after.level_complete
    &&& same_set(after.pieces@, before.pieces@)
    &&& positions_of(after.pieces@) == cleared_positions(
        positions_of(before.pieces@),
        before_heap.scene_data.num_pcs as int,
    )
    &&& flashing(
        UIData {
            win_timer: 0,
            beam_hold: false,
            beam_origin: BOARD_IDX_INVALID,
            beam_alpha: 0,
            ..before.ui_data
        },
        after.ui_data,
    )
    &&& after.blackout_alpha == BLACKOUT_FULL
    &&& after.frame == before.frame
    &&& after.ready == before.ready
    &&& after.quit_requested == before.quit_requested
    &&& after.player_data == before.player_data
    &&& after.final_level == before.final_level
    &&& after.history_idx == before.history_idx
    &&& *after_heap == *before_heap
}

/// What the check for a win leaves behind: nothing changes unless the level
/// was not complete and is won; then the win is taken.
pub open spec fn win_checked(before: &GameData, before_heap: &GameDataHeap, after: &GameData, after_heap: &GameDataHeap) -> bool {
    if !before.level_complete && won(before_heap.scene_data.beams@, before_heap.scene_data.num_goals as int) {
        win_taken(before, before_heap, after, after_heap)
    } else {
        *after == *before && *after_heap == *before_heap
    }
}

/// Checks whether the beam has lit every orb, and completes the level if it
/// has. A level that is complete is not completed again, and a board without
/// orbs is never won.
pub fn check_win(cache: &mut GameData, heap: &mut GameDataHeap)
    requires
        old(heap).scene_data.num_pcs <= 24,
    ensures
        win_checked(old(cache), old(heap), final(cache), final(heap)),
{
    if cache.level_complete {
        return ;
    }
    let nactive: usize = count_code(&heap.scene_data.beams, ORB_ACTIVE);
    if heap.scene_data.num_goals > 0 && nactive == heap.scene_data.num_goals as usize {
        reset_scene(cache, heap);
        cache.ui_data.win_timer = 0;
        cache.ui_data.beam_hold = false;
        cache.ui_data.beam_origin = BOARD_IDX_INVALID;
        cache.ui_data.beam_alpha = 0;
        transition(cache, heap);
        cache.level_complete = true;
    }
}

/// A beam can be armed: a source of the board is hovered and no piece is in
/// hand.
pub open spec fn can_arm(cache: &GameData, heap: &GameDataHeap) -> bool {
    &&& cache.ui_data.click_delay == 0
    &&& cache.ui_data.menu == MENU_GAME
    &&& !cache.level_complete
    &&& cache.ui_data.source_hover != BOARD_IDX_INVALID
    &&& cache.ui_data.holding_idx == HOLDING_INVALID
    &&& cache.ui_data.source_hover < heap.scene_data.tilemap@.len()
    &&& spec_is_source(heap.scene_data.tilemap@[cache.ui_data.source_hover as int])
}

/// What arming the beam leaves behind: the hovered source is the emitter, the
/// beam is held at full strength, the clipping map is that of the board and
/// the pieces, and the overlay is the one that the engine makes of them.
pub open spec fn armed(before: &GameData, before_heap: &GameDataHeap, after: &GameData, after_heap: &GameDataHeap) -> bool {
    let origin = before.ui_data.source_hover;
    let scene = before_heap.scene_data;
    &&& after.same_but_ui(before)
    &&& after.ui_data == (UIData {
        beam_origin: origin,
        beam_hold: true,
        beam_alpha: BEAM_ALPHA_FULL,
        ..before.ui_data
    })
    &&& after_heap.scene_data.beams@ == overlay_of(
        scene.tilemap@,
        before.pieces@,
        scene.num_pcs as int,
        scene.sz as int,
        origin as int,
    )
    &&& after_heap.scene_data.clipping@ == clipping_of(scene.tilemap@, before.pieces@, scene.num_pcs as int)
    &&& count(after_heap.scene_data.beams@, ORB_ACTIVE) <= scene.num_goals
    &&& after_heap.scene_data.tilemap == scene.tilemap
    &&& after_heap.scene_data.reflectors == scene.reflectors
    &&& after_heap.scene_data.sz == scene.sz
    &&& after_heap.scene_data.sz2 == scene.sz2
    &&& after_heap.scene_data.num_goals == scene.num_goals
    &&& after_heap.scene_data.num_pcs == scene.num_pcs
    &&& after_heap.level_data == before_heap.level_data
    &&& after_heap.history == before_heap.history
}

/// The mouse button went down: over a source, with nothing in hand, this arms
/// the beam and runs the engine. Returns whether the event was taken.
pub fn click_down(cache: &mut GameData, heap: &mut GameDataHeap) -> (consumed: bool)
    requires
        wf(old(cache), old(heap)),
    ensures
        consumed == can_arm(old(cache), old(heap)),
        consumed ==> armed(old(cache), old(heap), final(cache), final(heap)),
        !consumed ==> *final(cache) == *old(cache) && *final(heap) == *old(heap),
        wf(final(cache), final(heap)),
{
    if cache.ui_data.click_delay > 0 {
        return false;
    }
    if MENU_GAME != cache.ui_data.menu {
        return false;
    }
    if cache.level_complete {
        return false;
    }
    let origin: u8 = cache.ui_data.source_hover;
    if BOARD_IDX_INVALID == origin || HOLDING_INVALID != cache.ui_data.holding_idx {
        return false;
    }
    if origin as usize >= heap.scene_data.tilemap.len() || !is_source(heap.scene_data.tilemap[origin as usize]) {
        return false;
    }
    cache.ui_data.beam_origin = origin;
    cache.ui_data.beam_hold = true;
    cache.ui_data.beam_alpha = BEAM_ALPHA_FULL;
    run_beam(cache, heap, origin as usize);
    proof {
        lemma_kept_level(old(cache), old(heap), cache, heap);
    }
    true
}

/// A state whose board, pieces, ledger and counts are those of a level in
/// play, with maps of the right size, is a level in play.
pub proof fn lemma_kept_level(before: &GameData, before_heap: &GameDataHeap, after: &GameData, after_heap: &GameDataHeap)
    requires
        level_ok(before, before_heap),
        after.pieces == before.pieces,
        after.history_idx == before.history_idx,
        after_heap.history == before_heap.history,
        after_heap.scene_data.tilemap == before_heap.scene_data.tilemap,
        after_heap.scene_data.sz == before_heap.scene_data.sz,
        after_heap.scene_data.num_goals == before_heap.scene_data.num_goals,
        after_heap.scene_data.num_pcs == before_heap.scene_data.num_pcs,
        after_heap.scene_data.shaped(),
    ensures
        level_ok(after, after_heap),
{
}

/// An overlay without a lit cell.
pub proof fn lemma_dark(beams: Seq<u16>)
    requires
        forall|i: int| 0 <= i < beams.len() ==> #[trigger] beams[i] != ORB_ACTIVE,
    ensures
        count(beams, ORB_ACTIVE) == 0,
    decreases beams.len(),
{
    if beams.len() > 0 {
        lemma_dark(beams.drop_last());
    }
}

/// What a click of the mouse does.
#[derive(Clone, Copy, Debug, PartialEq, Eq)]
pub enum Click {
    /// Clicks are held off for a while after one was taken.
    Ignored,
    /// At the main menu, on the start button, with no flash running: the
    /// flash that leads into the game starts.
    Start,
    /// At the main menu, anywhere else or during the flash.
    MainMenu,
    /// On an inventory slot whose piece is in the inventory: the piece is
    /// taken in hand.
    Take { slot: u8 },
    /// With a piece in hand, on a free floor cell: the piece is placed.
    Place { slot: u8, cell: u8 },
    /// With a piece in hand, on the cell of another piece: the two change
    /// places, and the other piece is in hand.
    Swap { slot: u8, cell: u8, other: u8 },
    /// With nothing in hand, on the cell of a piece: the piece is picked up.
    Pickup { cell: u8, other: u8 },
    /// With nothing in hand, on a free floor cell.
    Missed,
    /// With nothing in hand, on a button of the menu.
    Menu { button: u8 },
    /// Anywhere else: what is in hand goes back to the inventory.
    Drop,
    /// With the level complete, on the button that leads on, while there is a
    /// level to go on to.
    Next,
    /// With the level complete, anywhere else.
    Idle,
}

/// The slot of the first piece in play that stands on the cell, or 24.
pub open spec fn piece_at(positions: Seq<u8>, npcs: int, cell: u8) -> int
    decreases npcs,
{
    if npcs <= 0 {
        24
    } else if piece_at(positions, npcs - 1, cell) < 24 {
        piece_at(positions, npcs - 1, cell)
    } else if positions[npcs - 1] == cell {
        npcs - 1
    } else {
        24
    }
}

/// What `piece_at` finds stands on the cell, and where it finds nothing no
/// piece in play stands there.
pub proof fn lemma_piece_at(positions: Seq<u8>, npcs: int, cell: u8)
    requires
        0 <= npcs <= 24,
    ensures
        piece_at(positions, npcs, cell) == 24 || (0 <= piece_at(positions, npcs, cell) < npcs && positions[piece_at(
            positions,
            npcs,
            cell,
        )] == cell),
        piece_at(positions, npcs, cell) == 24 ==> forall|k: int| 0 <= k < npcs ==> positions[k] != cell,
    decreases npcs,
{
    if npcs > 0 {
        lemma_piece_at(positions, npcs - 1, cell);
    }
}

/// Finds the first piece in play that stands on the cell.
pub fn find_piece(cache: &GameData, npcs: u8, cell: u8) -> (r: u8)
    requires
        npcs <= 24,
    ensures
        r == piece_at(positions_of(cache.pieces@), npcs as int, cell),
{
    let mut i: u8 = 0;
    while i < npcs
        invariant
            i <= npcs <= 24,
            piece_at(positions_of(cache.pieces@), i as int, cell) == 24,
        decreases npcs - i,
    {
        if cache.pieces[i as usize].board_idx == cell {
            proof {
                lemma_found(positions_of(cache.pieces@), i as int, npcs as int, cell);
            }
            return i;
        }
        i += 1;
    }
    24
}

/// A piece that is the first on its cell among the first slots is the first
/// among more slots.
pub proof fn lemma_found(positions: Seq<u8>, i: int, npcs: int, cell: u8)
    requires
        0 <= i < npcs <= 24,
        piece_at(positions, i, cell) == 24,
        positions[i] == cell,
    ensures
        piece_at(positions, npcs, cell) == i,
    decreases npcs - i,
{
    if i + 1 < npcs {
        lemma_found(positions, i, npcs - 1, cell);
    }
}

/// The hovered inventory slot, if it still holds a piece that can be taken.
pub open spec fn slot_offered(cache: &GameData, heap: &GameDataHeap) -> bool {
    let slot = cache.ui_data.inventory_idx;
    slot < heap.scene_data.num_pcs && cache.pieces@[slot as int].board_idx == BOARD_IDX_INVALID
}

/// The hovered cell, if it still is an interior floor cell.
pub open spec fn cell_offered(cache: &GameData, heap: &GameDataHeap) -> bool {
    let cell = cache.ui_data.board_idx;
    interior(heap.scene_data.sz as int, cell as int) && spec_is_floor(heap.scene_data.tilemap@[cell as int])
}

/// A piece in play is in hand.
pub open spec fn in_hand(cache: &GameData, heap: &GameDataHeap) -> bool {
    cache.ui_data.holding_idx < heap.scene_data.num_pcs
}

/// What a click does in a given state. The first case that applies decides.
pub open spec fn decided(cache: &GameData, heap: &GameDataHeap, mx: i32, my: i32) -> Click {
    let ui = cache.ui_data;
    let other = piece_at(positions_of(cache.pieces@), heap.scene_data.num_pcs as int, ui.board_idx);
    if ui.click_delay > 0 {
        Click::Ignored
    } else if ui.menu == MENU_MAIN {
        if ui.transition_mode == TRANSITION_MODE_INVALID && over_start(mx, my) {
            Click::Start
        } else {
            Click::MainMenu
        }
    } else if cache.level_complete {
        if ui.menu_hover_idx == MENU_HOVER_NEXT && can_advance(cache.player_data, heap.level_data@) {
            Click::Next
        } else {
            Click::Idle
        }
    } else if slot_offered(cache, heap) {
        Click::Take { slot: ui.inventory_idx }
    } else if cell_offered(cache, heap) {
        if in_hand(cache, heap) {
            if other == 24 {
                Click::Place { slot: ui.holding_idx, cell: ui.board_idx }
            } else {
                Click::Swap { slot: ui.holding_idx, cell: ui.board_idx, other: other as u8 }
            }
        } else if other == 24 {
            Click::Missed
        } else {
            Click::Pickup { cell: ui.board_idx, other: other as u8 }
        }
    } else if !in_hand(cache, heap) && ui.menu_hover_idx != MENU_HOVER_INVALID {
        Click::Menu { button: ui.menu_hover_idx }
    } else {
        Click::Drop
    }
}

/// Decides what a click does.
pub fn decide_click(cache: &GameData, heap: &GameDataHeap, mx: i32, my: i32) -> (c: Click)
    requires
        wf(cache, heap),
    ensures
        c == decided(cache, heap, mx, my),
{
    if cache.ui_data.click_delay > 0 {
        return Click::Ignored;
    }
    if MENU_MAIN == cache.ui_data.menu {
        if TRANSITION_MODE_INVALID == cache.ui_data.transition_mode && over_start(mx, my) {
            return Click::Start;
        }
        return Click::MainMenu;
    }
    if cache.level_complete {
        if MENU_HOVER_NEXT == cache.ui_data.menu_hover_idx && has_next_level(cache, heap) {
            return Click::Next;
        }
        return Click::Idle;
    }
    let npcs: u8 = heap.scene_data.num_pcs;
    let sz: usize = heap.scene_data.sz;
    assert(sz * sz <= 225 && sz * sz >= 2 * sz) by (nonlinear_arith)
        requires
            3 <= sz <= 15,
    ;
    let slot: u8 = cache.ui_data.inventory_idx;
    if slot < npcs && cache.pieces[slot as usize].board_idx == BOARD_IDX_INVALID {
        return Click::Take { slot };
    }
    let cell: u8 = cache.ui_data.board_idx;
    let at: usize = cell as usize;
    let holding: u8 = cache.ui_data.holding_idx;
    let inside: bool = at >= sz && at < heap.scene_data.sz2 - sz && 0 < at % sz && at % sz < sz - 1;
    if inside && is_floor(heap.scene_data.tilemap[at]) {
        let other = find_piece(cache, npcs, cell);
        proof {
            lemma_piece_at(positions_of(cache.pieces@), npcs as int, cell);
        }
        if holding < npcs {
            if other == 24 {
                return Click::Place { slot: holding, cell };
            }
            return Click::Swap { slot: holding, cell, other };
        }
        if other == 24 {
            return Click::Missed;
        }
        return Click::Pickup { cell, other };
    }
    if !(holding < npcs) && MENU_HOVER_INVALID != cache.ui_data.menu_hover_idx {
        return Click::Menu { button: cache.ui_data.menu_hover_idx };
    }
    Click::Drop
}

/// Whether the click is taken.
pub open spec fn consumes(c: Click) -> bool {
    match c {
        Click::Ignored => false,
        Click::Missed => false,
        Click::Idle => false,
        _ => true,
    }
}

/// The state with another piece in hand, or none.
pub open spec fn holding(cache: &GameData, slot: u8) -> GameData {
    GameData { ui_data: UIData { holding_idx: slot, ..cache.ui_data }, ..*cache }
}

/// What the button of the menu does to the state of a level in play.
pub open spec fn menu_done(
    button: u8,
    before: &GameData,
    before_heap: &GameDataHeap,
    after: &GameData,
    after_heap: &GameDataHeap,
) -> bool {
    if button == MENU_HOVER_UNDO {
        undone(before, before_heap, after, after_heap)
    } else if button == MENU_HOVER_REDO {
        redone(before, before_heap, after, after_heap)
    } else if button == MENU_HOVER_ROTATE {
        turned(Turn::Rotate, before, before_heap, after, after_heap)
    } else if button == MENU_HOVER_FLIP_H {
        turned(Turn::FlipH, before, before_heap, after, after_heap)
    } else if button == MENU_HOVER_FLIP_V {
        turned(Turn::FlipV, before, before_heap, after, after_heap)
    } else if button == MENU_HOVER_RESET {
        was_reset(before, before_heap, after, after_heap)
    } else if button == MENU_HOVER_TRASH {
        exists|pick: usize, mask: Seq<bool>| started_over(before, before_heap, after, after_heap, pick, mask)
    } else {
        *after == *before && *after_heap == *before_heap
    }
}

/// What the click itself leaves behind, before the beam is let go.
pub open spec fn acted(
    c: Click,
    before: &GameData,
    before_heap: &GameDataHeap,
    after: &GameData,
    after_heap: &GameDataHeap,
) -> bool {
    let positions = positions_of(before.pieces@);
    let tilemap = before_heap.scene_data.tilemap@;
    match c {
        Click::Ignored => *after == *before && *after_heap == *before_heap,
        Click::MainMenu => *after == *before && *after_heap == *before_heap,
        Click::Missed => *after == *before && *after_heap == *before_heap,
        Click::Idle => *after == *before && *after_heap == *before_heap,
        Click::Start => {
            &&& flashing(before.ui_data, after.ui_data)
            &&& after.blackout_alpha == BLACKOUT_FULL
            &&& after.frame == before.frame
            &&& after.ready == before.ready
            &&& after.quit_requested == before.quit_requested
            &&& after.player_data == before.player_data
            &&& after.pieces == before.pieces
            &&& after.level_complete == before.level_complete
            &&& after.final_level == before.final_level
            &&& after.history_idx == before.history_idx
            &&& *after_heap == *before_heap
        },
        Click::Take { slot } => *after == holding(before, slot) && *after_heap == *before_heap,
        Click::Drop => *after == holding(before, HOLDING_INVALID) && *after_heap == *before_heap,
        Click::Place { slot, cell } => {
            &&& entered(
                &holding(before, HOLDING_INVALID),
                before_heap,
                after,
                after_heap,
                positions.update(slot as int, cell),
                tilemap,
            )
            &&& after_heap.scene_data == before_heap.scene_data
        },
        Click::Swap { slot, cell, other } => {
            &&& entered(
                &holding(before, other),
                before_heap,
                after,
                after_heap,
                positions.update(slot as int, cell).update(other as int, BOARD_IDX_INVALID),
                tilemap,
            )
            &&& after_heap.scene_data == before_heap.scene_data
        },
        Click::Pickup { cell, other } => {
            &&& entered(
                &holding(before, other),
                before_heap,
                after,
                after_heap,
                positions.update(other as int, BOARD_IDX_INVALID),
                tilemap,
            )
            &&& after_heap.scene_data == before_heap.scene_data
        },
        Click::Menu { button } => menu_done(button, before, before_heap, after, after_heap),
        Click::Next => exists|pick: usize, mask: Seq<bool>, coins: Shuffle|
            went_on(before, before_heap, after, after_heap, pick, mask, coins),
    }
}

/// Does what the click was decided to do.
pub fn apply_click(cache: &mut GameData, heap: &mut GameDataHeap, c: Click, mx: i32, my: i32)
    requires
        wf(old(cache), old(heap)),
        c == decided(old(cache), old(heap), mx, my),
    ensures
        acted(c, old(cache), old(heap), final(cache), final(heap)),
        wf(final(cache), final(heap)),
{
    let ghost positions = positions_of(cache.pieces@);
    let ghost n = heap.scene_data.sz as int;
    proof {
        if cache.ui_data.menu == MENU_GAME {
            assert(n * n <= 225) by (nonlinear_arith)
                requires
                    3 <= n <= 15,
            ;
            lemma_piece_at(positions, heap.scene_data.num_pcs as int, cache.ui_data.board_idx);
            lemma_level_shapes(cache, heap);
        }
    }
    match c {
        Click::Ignored => {},
        Click::MainMenu => {},
        Click::Missed => {},
        Click::Idle => {},
        Click::Start => {
            transition(cache, heap);
        },
        Click::Take { slot } => {
            cache.ui_data.holding_idx = slot;
            proof {
                lemma_kept_level(old(cache), old(heap), cache, heap);
            }
        },
        Click::Drop => {
            cache.ui_data.holding_idx = HOLDING_INVALID;
            proof {
                lemma_kept_level(old(cache), old(heap), cache, heap);
            }
        },
        Click::Place { slot, cell } => {
            cache.ui_data.holding_idx = HOLDING_INVALID;
            proof {
                lemma_kept_level(old(cache), old(heap), cache, heap);
                assert(interior(n, cell as int));
                assert forall|k: int| 0 <= k < 24 implies (#[trigger] cache.pieces@[k]).board_idx != cell by {
                    assert(positions[k] == cache.pieces@[k].board_idx);
                    if k < heap.scene_data.num_pcs {
                        assert(positions[k] != cell);
                    } else {
                        assert(positions[k] == BOARD_IDX_INVALID);
                    }
                }
            }
            place_piece(cache, heap, slot, cell);
        },
        Click::Swap { slot, cell, other } => {
            cache.ui_data.holding_idx = other;
            proof {
                lemma_kept_level(old(cache), old(heap), cache, heap);
                assert(positions[other as int] == cell);
                assert(interior(n, cell as int));
            }
            swap_piece(cache, heap, slot, cell, other as usize);
        },
        Click::Pickup { cell, other } => {
            cache.ui_data.holding_idx = other;
            proof {
                lemma_kept_level(old(cache), old(heap), cache, heap);
            }
            pickup_piece(cache, heap, other as usize);
        },
        Click::Menu { button } => {
            if button == MENU_HOVER_UNDO {
                history_undo(cache, heap);
            } else if button == MENU_HOVER_REDO {
                history_redo(cache, heap);
            } else if button == MENU_HOVER_ROTATE {
                rotate(cache, heap);
            } else if button == MENU_HOVER_FLIP_H {
                flip_h(cache, heap);
            } else if button == MENU_HOVER_FLIP_V {
                flip_v(cache, heap);
            } else if button == MENU_HOVER_RESET {
                reset_level(cache, heap);
            } else if button == MENU_HOVER_TRASH {
                trash_level(cache, heap);
            }
        },
        Click::Next => {
            next_level(cache, heap);
        },
    }
    proof {
        let beams = heap.scene_data.beams@;
        if forall|i: int| 0 <= i < beams.len() ==> #[trigger] beams[i] != ORB_ACTIVE {
            lemma_dark(beams);
        }
    }
}

/// In a level in play the ledger has the shape of the board, and every piece
/// stands on the board or in the inventory.
pub proof fn lemma_level_shapes(cache: &GameData, heap: &GameDataHeap)
    requires
        level_ok(cache, heap),
    ensures
        ledger_shaped(ledger(heap.history@), heap.scene_data.tilemap@.len() as int),
        positions_on_board(positions_of(cache.pieces@), heap.scene_data.sz as int),
        heap.scene_data.num_pcs <= 24,
{
    let n = heap.scene_data.sz as int;
    let entries = ledger(heap.history@);
    assert forall|i: int| 0 <= i < entries.len() implies (#[trigger] entries[i]).pieces.len() == 24
        && entries[i].tilemap.len() == heap.scene_data.tilemap@.len() by {
        assert(entry_sound(
            entries[i],
            n,
            heap.scene_data.num_goals as int,
            heap.scene_data.num_pcs as int,
        ));
    }
    let p = positions_of(cache.pieces@);
    assert forall|k: int| 0 <= k < 24 implies #[trigger] p[k] == BOARD_IDX_INVALID || p[k] < n * n by {
        if p[k] != BOARD_IDX_INVALID {
            assert(interior(n, p[k] as int));
        }
    }
}

/// The state with clicks held off for the full delay.
pub open spec fn delayed(cache: &GameData) -> GameData {
    GameData { ui_data: UIData { click_delay: CLICK_DELAY, ..cache.ui_data }, ..*cache }
}

/// The state with the beam no longer held.
pub open spec fn released(cache: &GameData) -> GameData {
    GameData { ui_data: UIData { beam_hold: false, ..cache.ui_data }, ..*cache }
}

/// What the end of a click in the game leaves behind: clicks are held off if
/// the click was taken; if the beam was held, the win is checked; the beam is
/// let go unless the level is complete; and the clipping map is that of the
/// board and the pieces.
pub open spec fn let_go(
    taken: bool,
    before: &GameData,
    before_heap: &GameDataHeap,
    after: &GameData,
    after_heap: &GameDataHeap,
) -> bool {
    let first = if taken {
        delayed(before)
    } else {
        *before
    };
    exists|mid: GameData, mid_heap: GameDataHeap|
        {
            &&& if first.ui_data.beam_hold {
                win_checked(&first, before_heap, &mid, &mid_heap)
            } else {
                mid == first && mid_heap == *before_heap
            }
            &&& *after == if mid.level_complete {
                mid
            } else {
                released(&mid)
            }
            &&& clipped(&mid, &mid_heap, after_heap)
        }
}

/// The large state after the clipping map was recomputed: the clipping map
/// is that of the board and the pieces, and nothing else has changed.
pub open spec fn clipped(cache: &GameData, before_heap: &GameDataHeap, after_heap: &GameDataHeap) -> bool {
    let scene = before_heap.scene_data;
    &&& after_heap.scene_data.clipping@ == clipping_of(scene.tilemap@, cache.pieces@, scene.num_pcs as int)
    &&& after_heap.scene_data.tilemap == scene.tilemap
    &&& after_heap.scene_data.reflectors == scene.reflectors
    &&& after_heap.scene_data.beams == scene.beams
    &&& after_heap.scene_data.sz == scene.sz
    &&& after_heap.scene_data.sz2 == scene.sz2
    &&& after_heap.scene_data.num_goals == scene.num_goals
    &&& after_heap.scene_data.num_pcs == scene.num_pcs
    &&& after_heap.level_data == before_heap.level_data
    &&& after_heap.history == before_heap.history
}

/// What a click leaves behind: what the click itself does, and then, in the
/// game, the end of the click. At the main menu only the start of the flash
/// holds clicks off.
pub open spec fn clicked(
    before: &GameData,
    before_heap: &GameDataHeap,
    after: &GameData,
    after_heap: &GameDataHeap,
    mx: i32,
    my: i32,
) -> bool {
    let c = decided(before, before_heap, mx, my);
    exists|mid: GameData, mid_heap: GameDataHeap|
        {
            &&& acted(c, before, before_heap, &mid, &mid_heap)
            &&& match c {
                Click::Ignored => *after == mid && *after_heap == mid_heap,
                Click::MainMenu => *after == mid && *after_heap == mid_heap,
                Click::Start => *after == delayed(&mid) && *after_heap == mid_heap,
                _ => let_go(consumes(c), &mid, &mid_heap, after, after_heap),
            }
        }
}

/// Ends a click in the game.
fn finish_click(cache: &mut GameData, heap: &mut GameDataHeap, taken: bool)
    requires
        wf(old(cache), old(heap)),
        old(cache).ui_data.menu == MENU_GAME,
    ensures
        let_go(taken, old(cache), old(heap), final(cache), final(heap)),
        wf(final(cache), final(heap)),
{
    proof {
        lemma_level_shapes(cache, heap);
    }
    if taken {
        cache.ui_data.click_delay = CLICK_DELAY;
    }
    if cache.ui_data.beam_hold {
        check_win(cache, heap);
    }
    let ghost mid = *cache;
    let ghost mid_heap = *heap;
    if !cache.level_complete {
        cache.ui_data.beam_hold = false;
    }
    proof {
        let p = positions_of(cache.pieces@);
        let prior = positions_of(old(cache).pieces@);
        if cache.level_complete && !old(cache).level_complete {
            assert forall|k: int| 0 <= k < 24 implies #[trigger] p[k] == BOARD_IDX_INVALID by {
                if k >= heap.scene_data.num_pcs {
                    assert(prior[k] == BOARD_IDX_INVALID);
                }
            }
        } else {
            assert(cache.pieces == old(cache).pieces);
        }
    }
    update_clipping(cache, heap);
    proof {
        assert(clipped(&mid, &mid_heap, heap));
    }
}

/// The mouse button went up. Returns whether the event was taken.
pub fn click(cache: &mut GameData, heap: &mut GameDataHeap, mx: i32, my: i32) -> (consumed: bool)
    requires
        wf(old(cache), old(heap)),
    ensures
        consumed == consumes(decided(old(cache), old(heap), mx, my)),
        clicked(old(cache), old(heap), final(cache), final(heap), mx, my),
        wf(final(cache), final(heap)),
{
    let c = decide_click(cache, heap, mx, my);
    apply_click(cache, heap, c, mx, my);
    let ghost mid = *cache;
    let ghost mid_heap = *heap;
    assert(acted(c, old(cache), old(heap), &mid, &mid_heap));
    match c {
        Click::Ignored => false,
        Click::MainMenu => true,
        Click::Start => {
            cache.ui_data.click_delay = CLICK_DELAY;
            true
        },
        Click::Missed => {
            finish_click(cache, heap, false);
            false
        },
        Click::Idle => {
            finish_click(cache, heap, false);
            false
        },
        _ => {
            finish_click(cache, heap, true);
            true
        },
    }
}

/// The surface after its hovers and timers were brought up to date for a
/// tick of the game, with the pointer at `(mx, my)`: clicks are held off one
/// tick less, the blinking of the button that leads on goes on while the
/// level is complete and not the last, and the hovers are those of the
/// pointer. While the level is complete only the menu is hovered.
pub open spec fn hovered(cache: &GameData, heap: &GameDataHeap, mx: i32, my: i32) -> UIData {
    let ui = cache.ui_data;
    let scene = heap.scene_data;
    let l = spec_layout(scene.sz as int, scene.num_pcs as int);
    let common = UIData {
        board_left: l.board_left,
        board_top: l.board_top,
        menu_left: l.menu_left,
        menu_top: l.menu_top,
        click_delay: if ui.click_delay > 0 {
            (ui.click_delay - 1) as u8
        } else {
            0
        },
        menu_hover_idx: spec_menu_hover(l, ui.holding_idx, cache.level_complete, mx as int, my as int),
        win_timer: if cache.level_complete && !cache.final_level {
            blinked(ui.win_timer, 64)
        } else {
            ui.win_timer
        },
        ..ui
    };
    if cache.level_complete {
        common
    } else {
        UIData {
            board_idx: spec_board_hover(l, scene.tilemap@, scene.sz as int, mx as int, my as int),
            inventory_idx: spec_inventory_hover(
                l,
                positions_of(cache.pieces@),
                scene.num_pcs as int,
                mx as int,
                my as int,
            ),
            source_hover: spec_source_hover(
                l,
                scene.tilemap@,
                scene.sz as int,
                ui.beam_origin,
                ui.holding_idx,
                mx as int,
                my as int,
            ),
            ..common
        }
    }
}

/// The surface with the board and the menu column laid out.
pub open spec fn laid_out(cache: &GameData, heap: &GameDataHeap) -> UIData {
    let l = spec_layout(heap.scene_data.sz as int, heap.scene_data.num_pcs as int);
    UIData {
        board_left: l.board_left,
        board_top: l.board_top,
        menu_left: l.menu_left,
        menu_top: l.menu_top,
        ..cache.ui_data
    }
}

/// The blackout one tick fainter.
pub open spec fn faded_blackout(alpha: u8) -> u8 {
    if alpha > 0 {
        (alpha - 1) as u8
    } else {
        0
    }
}

/// The emitter can be run: it is a source of the board.
pub open spec fn emitter_ok(cache: &GameData, heap: &GameDataHeap) -> bool {
    &&& cache.ui_data.beam_origin != BOARD_IDX_INVALID
    &&& cache.ui_data.beam_origin < heap.scene_data.tilemap@.len()
    &&& spec_is_source(heap.scene_data.tilemap@[cache.ui_data.beam_origin as int])
}

/// The surface after a tick of the beam: a beam that is held keeps its
/// strength; one that was let go loses a twentieth, and is disarmed with the
/// last.
pub open spec fn beam_faded(ui: UIData) -> UIData {
    if ui.beam_hold {
        ui
    } else if ui.beam_alpha <= 1 {
        UIData { beam_origin: BOARD_IDX_INVALID, beam_alpha: 0, ..ui }
    } else {
        UIData { beam_alpha: (ui.beam_alpha - 1) as u8, ..ui }
    }
}

/// What a tick of the game leaves behind, with the pointer at `(mx, my)`.
/// The hovers and timers are brought up to date and the blackout fades.
/// Unless the level is complete, the layer of the placed pieces is drawn
/// anew; and while a beam is armed, the clipping map is recomputed, the
/// overlay is made anew by the engine, and the beam fades. An emitter that is
/// no source of the board is disarmed.
pub open spec fn game_ticked(
    before: &GameData,
    before_heap: &GameDataHeap,
    after: &GameData,
    after_heap: &GameDataHeap,
    mx: i32,
    my: i32,
) -> bool {
    let ui = hovered(before, before_heap, mx, my);
    let scene = before_heap.scene_data;
    &&& after.frame == before.frame
    &&& after.ready == before.ready
    &&& after.quit_requested == before.quit_requested
    &&& after.player_data == before.player_data
    &&& after.pieces == before.pieces
    &&& after.level_complete == before.level_complete
    &&& after.final_level == before.final_level
    &&& after.history_idx == before.history_idx
    &&& after.blackout_alpha == faded_blackout(before.blackout_alpha)
    &&& after_heap.level_data == before_heap.level_data
    &&& after_heap.history == before_heap.history
    &&& after_heap.scene_data.tilemap == scene.tilemap
    &&& after_heap.scene_data.sz == scene.sz
    &&& after_heap.scene_data.sz2 == scene.sz2
    &&& after_heap.scene_data.num_goals == scene.num_goals
    &&& after_heap.scene_data.num_pcs == scene.num_pcs
    &&& if before.level_complete {
        &&& after.ui_data == ui
        &&& after_heap.scene_data == scene
    } else {
        &&& after_heap.scene_data.reflectors@ == reflectors_upto(scene.sz2 as nat, before.pieces@, scene.num_pcs as int)
        &&& if emitter_ok(before, before_heap) {
            &&& after.ui_data == beam_faded(ui)
            &&& after_heap.scene_data.clipping@ == clipping_of(scene.tilemap@, before.pieces@, scene.num_pcs as int)
            &&& after_heap.scene_data.beams@ == overlay_of(
                scene.tilemap@,
                before.pieces@,
                scene.num_pcs as int,
                scene.sz as int,
                ui.beam_origin as int,
            )
        } else {
            &&& after.ui_data == (UIData {
                beam_origin: BOARD_IDX_INVALID,
                beam_alpha: if ui.beam_origin == BOARD_IDX_INVALID {
                    ui.beam_alpha
                } else {
                    0
                },
                ..ui
            })
            &&& after_heap.scene_data.clipping == scene.clipping
            &&& after_heap.scene_data.beams == scene.beams
        }
    }
}

/// Draws the layer of the placed pieces anew.
pub fn draw_reflectors(cache: &GameData, heap: &mut GameDataHeap)
    requires
        old(heap).scene_data.num_pcs <= 24,
    ensures
        final(heap).scene_data.reflectors@ == reflectors_upto(
            old(heap).scene_data.sz2 as nat,
            cache.pieces@,
            old(heap).scene_data.num_pcs as int,
        ),
        final(heap).scene_data.tilemap == old(heap).scene_data.tilemap,
        final(heap).scene_data.clipping == old(heap).scene_data.clipping,
        final(heap).scene_data.beams == old(heap).scene_data.beams,
        final(heap).scene_data.sz == old(heap).scene_data.sz,
        final(heap).scene_data.sz2 == old(heap).scene_data.sz2,
        final(heap).scene_data.num_goals == old(heap).scene_data.num_goals,
        final(heap).scene_data.num_pcs == old(heap).scene_data.num_pcs,
        final(heap).level_data == old(heap).level_data,
        final(heap).history == old(heap).history,
{
    let sz2: usize = heap.scene_data.sz2;
    let npcs: usize = heap.scene_data.num_pcs as usize;
    let mut layer: Vec<u16> = vec![0u16; sz2];
    assert(layer@ =~= reflectors_upto(sz2 as nat, cache.pieces@, 0));
    let mut k: usize = 0;
    while k < npcs
        invariant
            npcs <= 24,
            k <= npcs,
            layer.len() == sz2,
            layer@ == reflectors_upto(sz2 as nat, cache.pieces@, k as int),
        decreases npcs - k,
    {
        let b: usize = cache.pieces[k].board_idx as usize;
        if cache.pieces[k].board_idx != BOARD_IDX_INVALID && b < sz2 {
            layer[b] = cache.pieces[k].tile;
        }
        k += 1;
    }
    heap.scene_data.reflectors = layer;
}

/// One tick of the game, at a quarter of the rate of the surface.
pub fn update_game(cache: &mut GameData, heap: &mut GameDataHeap, mx: i32, my: i32)
    requires
        wf(old(cache), old(heap)),
        old(cache).ui_data.menu == MENU_GAME,
    ensures
        game_ticked(old(cache), old(heap), final(cache), final(heap), mx, my),
        wf(final(cache), final(heap)),
{
    proof {
        lemma_level_shapes(cache, heap);
    }
    let sz: usize = heap.scene_data.sz;
    let npcs: u8 = heap.scene_data.num_pcs;
    let l = layout(sz, npcs);
    cache.ui_data.board_left = l.board_left;
    cache.ui_data.board_top = l.board_top;
    cache.ui_data.menu_left = l.menu_left;
    cache.ui_data.menu_top = l.menu_top;
    if cache.ui_data.click_delay > 0 {
        cache.ui_data.click_delay -= 1;
    }
    cache.ui_data.menu_hover_idx = menu_hover(&l, cache.ui_data.holding_idx, cache.level_complete, mx, my);
    if cache.level_complete && !cache.final_level {
        if cache.ui_data.win_timer > 0 {
            cache.ui_data.win_timer -= 1;
        } else {
            cache.ui_data.win_timer = 64;
        }
    }
    if cache.blackout_alpha > 0 {
        cache.blackout_alpha -= 1;
    }
    if cache.level_complete {
        proof {
            lemma_kept_level(old(cache), old(heap), cache, heap);
        }
        return ;
    }
    cache.ui_data.board_idx = board_hover(&l, &heap.scene_data.tilemap, sz, mx, my);
    cache.ui_data.inventory_idx = inventory_hover(&l, cache, npcs, mx, my);
    draw_reflectors(cache, heap);
    proof {
        lemma_reflectors_len(heap.scene_data.sz2 as nat, cache.pieces@, npcs as int);
    }
    cache.ui_data.source_hover = source_hover(
        &l,
        &heap.scene_data.tilemap,
        sz,
        cache.ui_data.beam_origin,
        cache.ui_data.holding_idx,
        mx,
        my,
    );
    let origin: u8 = cache.ui_data.beam_origin;
    if BOARD_IDX_INVALID != origin {
        if (origin as usize) < heap.scene_data.tilemap.len() && is_source(heap.scene_data.tilemap[origin as usize]) {
            run_beam(cache, heap, origin as usize);
            if !cache.ui_data.beam_hold {
                if cache.ui_data.beam_alpha <= 1 {
                    cache.ui_data.beam_origin = BOARD_IDX_INVALID;
                    cache.ui_data.beam_alpha = 0;
                } else {
                    cache.ui_data.beam_alpha -= 1;
                }
            }
        } else {
            cache.ui_data.beam_origin = BOARD_IDX_INVALID;
            cache.ui_data.beam_alpha = 0;
        }
    }
    proof {
        lemma_kept_level(old(cache), old(heap), cache, heap);
    }
}

/// What a tick of the surface leaves behind and returns, with the pointer
/// at `(mx, my)`. Only every second frame counts. At the main menu the
/// start button blinks. While a flash runs, a tick of it passes and the tick
/// reports it. In the game the board is laid out, and every fourth tick is a
/// tick of the game.
pub open spec fn ticked(
    before: &GameData,
    before_heap: &GameDataHeap,
    after: &GameData,
    after_heap: &GameDataHeap,
    mx: i32,
    my: i32,
    busy: bool,
) -> bool {
    let mid = main_ticked(before, mx, my);
    if before.frame % 2 != 0 {
        !busy && *after == *before && *after_heap == *before_heap
    } else if mid.ui_data.transition_mode != TRANSITION_MODE_INVALID {
        busy && flash_ticked(&mid, before_heap, after, after_heap)
    } else if mid.ui_data.menu != MENU_GAME {
        !busy && *after == mid && *after_heap == *before_heap
    } else if mid.frame % 8 != 0 {
        &&& !busy
        &&& after.same_but_ui(&mid)
        &&& after.ui_data == laid_out(&mid, before_heap)
        &&& *after_heap == *before_heap
    } else {
        !busy && game_ticked(&mid, before_heap, after, after_heap, mx, my)
    }
}

/// The state after the tick of the main menu, where the game stands there:
/// the start button blinks unless the pointer is on it.
pub open spec fn main_ticked(before: &GameData, mx: i32, my: i32) -> GameData {
    if before.ui_data.menu == MENU_MAIN && !over_start(mx, my) {
        GameData {
            ui_data: UIData { win_timer: blinked(before.ui_data.win_timer, 255), ..before.ui_data },
            ..*before
        }
    } else {
        *before
    }
}

/// One tick of the surface. Returns whether a flash is running.
pub fn update(cache: &mut GameData, heap: &mut GameDataHeap, mx: i32, my: i32) -> (busy: bool)
    requires
        wf(old(cache), old(heap)),
    ensures
        ticked(old(cache), old(heap), final(cache), final(heap), mx, my, busy),
        wf(final(cache), final(heap)),
{
    if 0 != cache.frame % 2 {
        return false;
    }
    if MENU_MAIN == cache.ui_data.menu {
        update_main(cache, mx, my);
    }
    assert(*cache == main_ticked(old(cache), mx, my));
    if TRANSITION_MODE_INVALID != cache.ui_data.transition_mode {
        update_transition(cache, heap);
        return true;
    }
    if MENU_GAME != cache.ui_data.menu {
        return false;
    }
    if 0 != cache.frame % 8 {
        proof {
            lemma_level_shapes(cache, heap);
        }
        let l = layout(heap.scene_data.sz, heap.scene_data.num_pcs);
        cache.ui_data.board_left = l.board_left;
        cache.ui_data.board_top = l.board_top;
        cache.ui_data.menu_left = l.menu_left;
        cache.ui_data.menu_top = l.menu_top;
        proof {
            lemma_kept_level(old(cache), old(heap), cache, heap);
        }
        return false;
    }
    update_game(cache, heap, mx, my);
    false
}

} // verus!
