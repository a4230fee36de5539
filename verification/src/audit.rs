//! The state of the game put to the test: whether a board, a set of pieces, a
//! ledger, a catalog and the whole state are as every entry point of the game
//! expects them.

use vstd::prelude::*;
use crate::codec::block_is_wf;
use crate::enums::{
    is_floor, slot_tile, BOARD_IDX_INVALID, HOLDING_INVALID, ORB, ORB_ACTIVE, SOURCE_D, SOURCE_L, SOURCE_R,
    SOURCE_U,
};
use crate::game::{playing, wf, GameData, GameDataHeap};
use crate::game_state::{
    all_home, block_views, entry_sound, get_positions, ledger, ledger_sound, level_ok,
    pieces_canonical, HistoryData, LevelData,
};
use crate::grid::{count_code, interior};
use crate::scene::{board_sound, edge_code, pieces_sound, positions_of, SceneData};
use crate::ui::{MENU_GAME, MENU_MAIN};

verus! {

/// Whether the cell lies off the border.
pub fn is_interior(n: usize, idx: usize) -> (r: bool)
    requires
        3 <= n <= 15,
    ensures
        r == interior(n as int, idx as int),
{
    assert(n * n <= 225 && n * n >= 2 * n) by (nonlinear_arith)
        requires
            3 <= n <= 15,
    ;
    idx >= n && idx < n * n - n && 0 < idx % n && idx % n < n - 1
}

/// What the border cell shows on every board.
pub fn edge_code_of(n: usize, idx: usize) -> (r: u16)
    requires
        3 <= n <= 15,
    ensures
        r == edge_code(n as int, idx as int),
{
    let x: usize = idx % n;
    let y: usize = idx / n;
    if (x == 0 || x == n - 1) && (y == 0 || y == n - 1) {
        0
    } else if y == 0 {
        SOURCE_D
    } else if y == n - 1 {
        SOURCE_U
    } else if x == 0 {
        SOURCE_R
    } else if x == n - 1 {
        SOURCE_L
    } else {
        0
    }
}

/// Whether the tilemap is a sound board of side `n` with `goals` orbs.
pub fn board_is_sound(t: &Vec<u16>, n: usize, goals: usize) -> (r: bool)
    requires
        3 <= n <= 15,
    ensures
        r == board_sound(t@, n as int, goals as int),
{
    assert(n * n <= 225) by (nonlinear_arith)
        requires
            3 <= n <= 15,
    ;
    if t.len() != n * n {
        return false;
    }
    let mut i: usize = 0;
    while i < t.len()
        invariant
            3 <= n <= 15,
            t.len() == n * n,
            i <= t.len(),
            forall|j: int| 0 <= j < i && !interior(n as int, j) ==> #[trigger] t[j] == edge_code(n as int, j),
        decreases t.len() - i,
    {
        if !is_interior(n, i) && t[i] != edge_code_of(n, i) {
            return false;
        }
        i += 1;
    }
    count_code(t, ORB) == goals
}

/// Whether the pieces are sound on the board: each in the inventory or on an
/// interior floor cell, only the first `npcs` in play, no two on one cell.
pub fn pieces_are_sound(positions: &Vec<u8>, t: &Vec<u16>, n: usize, npcs: usize) -> (r: bool)
    requires
        3 <= n <= 15,
        t.len() == n * n,
    ensures
        r == pieces_sound(positions@, t@, n as int, npcs as int),
{
    assert(n * n <= 225 && n * n >= 2 * n) by (nonlinear_arith)
        requires
            3 <= n <= 15,
    ;
    if positions.len() != 24 {
        return false;
    }
    let mut k: usize = 0;
    while k < 24
        invariant
            3 <= n <= 15,
            t.len() == n * n,
            positions.len() == 24,
            k <= 24,
            forall|i: int|
                0 <= i < k && #[trigger] positions[i] != BOARD_IDX_INVALID ==> i < npcs && interior(
                    n as int,
                    positions[i] as int,
                ) && is_floor(t[positions[i] as int]),
            forall|i: int, j: int|
                0 <= i < j < k && #[trigger] positions[i] != BOARD_IDX_INVALID && #[trigger] positions[j]
                    != BOARD_IDX_INVALID ==> positions[i] != positions[j],
        decreases 24 - k,
    {
        let b: u8 = positions[k];
        if b != BOARD_IDX_INVALID {
            if k >= npcs || !is_interior(n, b as usize) {
                return false;
            }
            if !is_floor(t[b as usize]) {
                return false;
            }
            let mut i: usize = 0;
            while i < k
                invariant
                    positions.len() == 24,
                    i <= k < 24,
                    b == positions[k as int],
                    b != BOARD_IDX_INVALID,
                    forall|j: int| 0 <= j < i ==> #[trigger] positions[j] != b,
                decreases k - i,
            {
                if positions[i] == b {
                    return false;
                }
                i += 1;
            }
        }
        k += 1;
    }
    true
}

/// Whether the inventory is the canonical one.
pub fn pieces_are_canonical(cache: &GameData) -> (r: bool)
    ensures
        r == pieces_canonical(cache.pieces@),
{
    let mut k: usize = 0;
    while k < 24
        invariant
            k <= 24,
            forall|i: int|
                0 <= i < k ==> (#[trigger] cache.pieces@[i]).tile == crate::enums::spec_slot_tile(i)
                    && cache.pieces@[i].home == i,
        decreases 24 - k,
    {
        if cache.pieces[k].tile != slot_tile(k) || cache.pieces[k].home as usize != k {
            return false;
        }
        k += 1;
    }
    true
}

/// Whether every entry of the ledger is sound for a scene of side `n` with
/// `goals` orbs and `npcs` pieces.
pub fn ledger_is_sound(history: &Vec<HistoryData>, n: usize, goals: usize, npcs: usize) -> (r: bool)
    requires
        3 <= n <= 15,
    ensures
        r == ledger_sound(ledger(history@), n as int, goals as int, npcs as int),
{
    let ghost entries = ledger(history@);
    let mut i: usize = 0;
    while i < history.len()
        invariant
            3 <= n <= 15,
            i <= history.len(),
            entries == ledger(history@),
            forall|j: int| 0 <= j < i ==> entry_sound(#[trigger] entries[j], n as int, goals as int, npcs as int),
        decreases history.len() - i,
    {
        assert(entries[i as int] == history[i as int]@);
        if !board_is_sound(&history[i].tilemap, n, goals) {
            return false;
        }
        if !pieces_are_sound(&history[i].pieces, &history[i].tilemap, n, npcs) {
            return false;
        }
        i += 1;
    }
    true
}

/// Whether the scene is well formed.
pub fn scene_is_wf(scene: &SceneData) -> (r: bool)
    ensures
        r == scene.wf(),
{
    if scene.sz < 3 || scene.sz > 15 {
        return false;
    }
    let n: usize = scene.sz;
    assert(n * n <= 225) by (nonlinear_arith)
        requires
            3 <= n <= 15,
    ;
    let len: usize = n * n;
    if scene.sz2 != len || scene.tilemap.len() != len || scene.clipping.len() != len || scene.reflectors.len()
        != len || scene.beams.len() != len {
        return false;
    }
    if !(scene.num_pcs == 8 || scene.num_pcs == 16 || scene.num_pcs == 24) {
        return false;
    }
    board_is_sound(&scene.tilemap, n, scene.num_goals as usize)
}

/// Whether the state is that of a level in play.
pub fn level_is_ok(cache: &GameData, heap: &GameDataHeap) -> (r: bool)
    ensures
        r == level_ok(cache, heap),
{
    if !scene_is_wf(&heap.scene_data) || !pieces_are_canonical(cache) {
        return false;
    }
    let n: usize = heap.scene_data.sz;
    let npcs: usize = heap.scene_data.num_pcs as usize;
    let positions = get_positions(cache);
    if !pieces_are_sound(&positions, &heap.scene_data.tilemap, n, npcs) {
        return false;
    }
    if cache.history_idx >= heap.history.len() {
        return false;
    }
    ledger_is_sound(&heap.history, n, heap.scene_data.num_goals as usize, npcs)
}

/// Whether the catalog can be played.
pub fn catalog_is_ok(level_data: &LevelData) -> (r: bool)
    ensures
        r == level_data.wf(),
{
    let ghost catalog = level_data@;
    let mut l: usize = 0;
    while l < level_data.options.len()
        invariant
            l <= level_data.options.len(),
            catalog == level_data@,
            forall|i: int|
                0 <= i < l ==> (#[trigger] catalog[i]).len() > 0 && forall|o: int|
                    0 <= o < catalog[i].len() ==> (#[trigger] catalog[i][o]).wf() && catalog[i][o].sz
                        == catalog[i][0].sz && catalog[i][o].npcs == catalog[i][0].npcs,
        decreases level_data.options.len() - l,
    {
        let pool = &level_data.options[l];
        assert(catalog[l as int] == block_views(pool@));
        if pool.len() == 0 {
            return false;
        }
        let mut o: usize = 0;
        while o < pool.len()
            invariant
                o <= pool.len(),
                pool.len() > 0,
                l < level_data.options.len(),
                catalog == level_data@,
                catalog[l as int] == block_views(pool@),
                forall|j: int|
                    0 <= j < o ==> (#[trigger] catalog[l as int][j]).wf() && catalog[l as int][j].sz
                        == catalog[l as int][0].sz && catalog[l as int][j].npcs == catalog[l as int][0].npcs,
            decreases pool.len() - o,
        {
            assert(catalog[l as int][o as int] == pool[o as int]@);
            assert(catalog[l as int][0] == pool[0]@);
            if !block_is_wf(&pool[o]) || pool[o].sz != pool[0].sz || pool[o].npcs != pool[0].npcs {
                proof {
                    let b = catalog[l as int][o as int];
                    assert(!(b.wf() && b.sz == catalog[l as int][0].sz && b.npcs == catalog[l as int][0].npcs));
                    assert(catalog[l as int].len() == pool.len());
                }
                return false;
            }
            o += 1;
        }
        l += 1;
    }
    true
}

/// Whether every piece is in the inventory.
pub fn all_are_home(cache: &GameData) -> (r: bool)
    ensures
        r == all_home(positions_of(cache.pieces@)),
{
    let mut k: usize = 0;
    while k < 24
        invariant
            k <= 24,
            forall|i: int| 0 <= i < k ==> #[trigger] positions_of(cache.pieces@)[i] == BOARD_IDX_INVALID,
        decreases 24 - k,
    {
        assert(positions_of(cache.pieces@)[k as int] == cache.pieces@[k as int].board_idx);
        if cache.pieces[k].board_idx != BOARD_IDX_INVALID {
            return false;
        }
        k += 1;
    }
    true
}

/// Whether a level is in play.
pub fn is_playing(cache: &GameData, heap: &GameDataHeap) -> (r: bool)
    requires
        heap.level_data.wf(),
    ensures
        r == playing(cache, heap),
{
    if !level_is_ok(cache, heap) {
        return false;
    }
    let p = &cache.player_data;
    let ghost catalog = heap.level_data@;
    if p.level < 1 || p.level > heap.level_data.options.len() || p.sub_level > 1 {
        return false;
    }
    let pool = &heap.level_data.options[p.level - 1];
    assert(catalog[p.level - 1] == block_views(pool@));
    if p.level_option >= pool.len() {
        return false;
    }
    assert(catalog[p.level - 1][p.level_option as int] == pool[p.level_option as int]@);
    if heap.scene_data.num_pcs as usize != pool[p.level_option].npcs {
        return false;
    }
    if count_code(&heap.scene_data.beams, ORB_ACTIVE) > heap.scene_data.num_goals as usize {
        return false;
    }
    !cache.level_complete || all_are_home(cache)
}

/// Whether the state is as every entry point of the game expects it.
pub fn is_wf(cache: &GameData, heap: &GameDataHeap) -> (r: bool)
    ensures
        r == wf(cache, heap),
{
    if !catalog_is_ok(&heap.level_data) || !pieces_are_canonical(cache) {
        return false;
    }
    if cache.ui_data.holding_idx > HOLDING_INVALID {
        return false;
    }
    if cache.ui_data.menu == MENU_MAIN {
        all_are_home(cache) && cache.player_data.level == 0
    } else if cache.ui_data.menu == MENU_GAME {
        is_playing(cache, heap)
    } else {
        false
    }
}

} // verus!
