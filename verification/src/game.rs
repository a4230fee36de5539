//! The game as its host sees it: the two halves of its state, and the entry
//! points that the host calls.

use vstd::prelude::*;
use crate::codec::{parsed, LevelFileError};
use crate::enums::{
    slot_tile, spec_slot_tile, BOARD_IDX_INVALID, EVENT_INPUT_KEYBOARD_RELEASED_ESCAPE, ORB_ACTIVE,
    EVENT_INPUT_MOUSE_BUTTON_DOWN, EVENT_INPUT_MOUSE_BUTTON_UP, HOLDING_INVALID,
};
use crate::game_state::{
    all_home, block_at, cursor_ok, grouped, level_ok, pieces_canonical, BlockView, HistoryData, LevelData,
    PieceData, PlayerData,
};
use crate::grid::count;
use crate::scene::{positions_of, SceneData};
use crate::ui::{armed, can_arm, clicked, consumes, decided, ticked, UIData, MENU_GAME, MENU_MAIN};

verus! {

/// The large half of the state: the scene, the catalog and the ledger.
#[derive(Clone, Debug, PartialEq)]
pub struct GameDataHeap {
    pub scene_data: SceneData,
    pub level_data: LevelData,
    pub history: Vec<HistoryData>,
}

/// The small half of the state: what every tick touches.
#[derive(Clone, Debug, PartialEq)]
pub struct GameData {
    pub frame: u8,
    pub ready: bool,
    pub quit_requested: bool,
    pub player_data: PlayerData,
    pub ui_data: UIData,
    pub pieces: [PieceData; 24],
    pub level_complete: bool,
    pub blackout_alpha: u8,
    pub final_level: bool,
    pub history_idx: usize,
}

impl GameData {
    /// Everything but the pieces and the history cursor is the same in both.
    pub open spec fn rest_same(&self, other: &GameData) -> bool {
        &&& self.frame == other.frame
        &&& self.ready == other.ready
        &&& self.quit_requested == other.quit_requested
        &&& self.player_data == other.player_data
        &&& self.ui_data == other.ui_data
        &&& self.level_complete == other.level_complete
        &&& self.blackout_alpha == other.blackout_alpha
        &&& self.final_level == other.final_level
    }

    /// Everything but the pieces, the history cursor and the player's
    /// cursor is the same in both.
    pub open spec fn rest_same_but_player(&self, other: &GameData) -> bool {
        &&& self.frame == other.frame
        &&& self.ready == other.ready
        &&& self.quit_requested == other.quit_requested
        &&& self.ui_data == other.ui_data
        &&& self.level_complete == other.level_complete
        &&& self.blackout_alpha == other.blackout_alpha
        &&& self.final_level == other.final_level
    }

    /// Everything but the state of the surface is the same in both.
    pub open spec fn same_but_ui(&self, other: &GameData) -> bool {
        &&& self.frame == other.frame
        &&& self.ready == other.ready
        &&& self.quit_requested == other.quit_requested
        &&& self.player_data == other.player_data
        &&& self.pieces == other.pieces
        &&& self.level_complete == other.level_complete
        &&& self.blackout_alpha == other.blackout_alpha
        &&& self.final_level == other.final_level
        &&& self.history_idx == other.history_idx
    }

    /// Everything but the pieces is the same in both.
    pub open spec fn same_but_pieces(&self, other: &GameData) -> bool {
        &&& self.rest_same(other)
        &&& self.history_idx == other.history_idx
    }
}

/// A level is in play: the state of the level is sound, the cursor points
/// at a block of the catalog, which has as many pieces as the scene, the
/// overlay has no more lit cells than the board has orbs, and a level that
/// is complete has every piece back in the inventory.
pub open spec fn playing(cache: &GameData, heap: &GameDataHeap) -> bool {
    &&& level_ok(cache, heap)
    &&& cursor_ok(cache.player_data, heap.level_data@)
    &&& heap.scene_data.num_pcs == block_at(cache.player_data, heap.level_data@).npcs
    &&& count(heap.scene_data.beams@, ORB_ACTIVE) <= heap.scene_data.num_goals
    &&& cache.level_complete ==> all_home(positions_of(cache.pieces@))
}

/// The state of the game as every entry point finds and leaves it: the
/// catalog can be played, the inventory is the canonical one, and the game
/// stands at the main menu, with every piece in the inventory and the cursor
/// before the first level, or a level is in play.
pub open spec fn wf(cache: &GameData, heap: &GameDataHeap) -> bool {
    &&& heap.level_data.wf()
    &&& pieces_canonical(cache.pieces@)
    &&& cache.ui_data.holding_idx <= HOLDING_INVALID
    &&& cache.ui_data.menu == MENU_MAIN || cache.ui_data.menu == MENU_GAME
    &&& cache.ui_data.menu == MENU_MAIN ==> all_home(positions_of(cache.pieces@)) && cache.player_data.level == 0
    &&& cache.ui_data.menu == MENU_GAME ==> playing(cache, heap)
}

impl GameData {
    /// The small state before anything was loaded: at the main menu, with the
    /// canonical inventory and every piece in it.
    pub fn new() -> (r: GameData)
        ensures
            r.frame == 0,
            !r.ready,
            !r.quit_requested,
            !r.level_complete,
            !r.final_level,
            r.blackout_alpha == 0,
            r.history_idx == 0,
            r.player_data.level == 0,
            r.player_data.sub_level == 0,
            r.player_data.level_option == 0,
            r.player_data.level_displayed == 0,
            r.ui_data.fresh(),
            pieces_canonical(r.pieces@),
            all_home(positions_of(r.pieces@)),
    {
        let blank = PieceData { tile: 0, board_idx: BOARD_IDX_INVALID, active: false, home: 0 };
        let mut r = GameData {
            frame: 0,
            ready: false,
            quit_requested: false,
            player_data: PlayerData { level: 0, sub_level: 0, level_option: 0, level_displayed: 0 },
            ui_data: UIData::new(),
            pieces: [blank; 24],
            level_complete: false,
            blackout_alpha: 0,
            final_level: false,
            history_idx: 0,
        };
        let mut i: usize = 0;
        while i < 24
            invariant
                i <= 24,
                r.frame == 0,
                !r.ready,
                !r.quit_requested,
                !r.level_complete,
                !r.final_level,
                r.blackout_alpha == 0,
                r.history_idx == 0,
                r.player_data.level == 0,
                r.player_data.sub_level == 0,
                r.player_data.level_option == 0,
                r.player_data.level_displayed == 0,
                r.ui_data.fresh(),
                forall|k: int| 0 <= k < 24 ==> (#[trigger] r.pieces@[k]).board_idx == BOARD_IDX_INVALID,
                forall|k: int|
                    0 <= k < i ==> (#[trigger] r.pieces@[k]).tile == spec_slot_tile(k) && r.pieces@[k].home == k,
            decreases 24 - i,
        {
            r.pieces[i].tile = slot_tile(i);
            r.pieces[i].home = i as u8;
            i += 1;
        }
        r
    }
}

impl Default for GameDataHeap {
    /// The large state before anything was loaded: no scene, no catalog, no
    /// ledger.
    fn default() -> (r: GameDataHeap)
        ensures
            r.scene_data.sz == 1,
            r.scene_data.sz2 == 1,
            r.scene_data.tilemap@.len() == 0,
            r.level_data@.len() == 0,
            r.level_data.wf(),
            r.history@.len() == 0,
    {
        GameDataHeap { scene_data: SceneData::empty(), level_data: LevelData::new(), history: Vec::new() }
    }
}

/// What a successful start of the game leaves behind: the catalog of the
/// level file, and the game at the main menu, nothing hovered, nothing in
/// hand, no level complete, the ledger's cursor at the start.
pub open spec fn started(
    before: &GameData,
    before_heap: &GameDataHeap,
    after: &GameData,
    after_heap: &GameDataHeap,
    blocks: Seq<BlockView>,
) -> bool {
    &&& after_heap.level_data@ == grouped(blocks)
    &&& after_heap.scene_data == before_heap.scene_data
    &&& after_heap.history == before_heap.history
    &&& after.ui_data.fresh()
    &&& !after.level_complete
    &&& !after.final_level
    &&& after.history_idx == 0
    &&& after.blackout_alpha == 0
    &&& after.player_data.level == 0
    &&& after.player_data.sub_level == 0
    &&& after.player_data.level_displayed == 0
    &&& after.frame == before.frame
    &&& after.ready == before.ready
    &&& after.quit_requested == before.quit_requested
}

/// Starts the game from the text of a level file. A file with a line that
/// is refused changes nothing and gives the first such line and the reason.
pub fn initialize(cache: &mut GameData, heap: &mut GameDataHeap, text: &Vec<u8>) -> (r: Result<(), LevelFileError>)
    ensures
        match r {
            Ok(_) => parsed(text@).is_ok() && started(
                old(cache),
                old(heap),
                final(cache),
                final(heap),
                parsed(text@).unwrap(),
            ) && wf(final(cache), final(heap)),
            Err(e) => parsed(text@) == Err::<Seq<BlockView>, LevelFileError>(e) && *final(cache) == *old(cache)
                && *final(heap) == *old(heap),
        },
{
    match crate::game_state::initialize(cache, heap, text) {
        Ok(_) => {},
        Err(e) => {
            return Err(e);
        },
    }
    cache.level_complete = false;
    cache.final_level = false;
    cache.history_idx = 0;
    cache.blackout_alpha = 0;
    crate::ui::initialize(cache);
    Ok(())
}

/// Whether the player has asked to quit.
pub fn quit_requested(cache: &mut GameData) -> (r: bool)
    ensures
        r == old(cache).quit_requested,
        *final(cache) == *old(cache),
{
    cache.quit_requested
}

/// Lets go of the scene, the catalog and the ledger.
pub fn shutdown(cache: &mut GameData, heap: &mut GameDataHeap)
    ensures
        *final(cache) == *old(cache),
        final(heap).scene_data.sz == 1,
        final(heap).scene_data.sz2 == 1,
        final(heap).scene_data.tilemap@.len() == 0,
        final(heap).level_data@.len() == 0,
        final(heap).history@.len() == 0,
{
    *heap = GameDataHeap::default();
}

/// What an input event leaves behind and whether it was taken, with the
/// pointer at `(mx, my)`: the release of the escape key asks to quit, the
/// release of the mouse button is a click, the press of the mouse button
/// arms the beam where it can, and any other event is passed over.
pub open spec fn handled(
    before: &GameData,
    before_heap: &GameDataHeap,
    after: &GameData,
    after_heap: &GameDataHeap,
    event_id: u8,
    mx: i32,
    my: i32,
    consumed: bool,
) -> bool {
    if event_id == EVENT_INPUT_KEYBOARD_RELEASED_ESCAPE {
        consumed && *after == (GameData { quit_requested: true, ..*before }) && *after_heap == *before_heap
    } else if event_id == EVENT_INPUT_MOUSE_BUTTON_UP {
        consumed == consumes(decided(before, before_heap, mx, my)) && clicked(
            before,
            before_heap,
            after,
            after_heap,
            mx,
            my,
        )
    } else if event_id == EVENT_INPUT_MOUSE_BUTTON_DOWN {
        &&& consumed == can_arm(before, before_heap)
        &&& consumed ==> armed(before, before_heap, after, after_heap)
        &&& !consumed ==> *after == *before && *after_heap == *before_heap
    } else {
        !consumed && *after == *before && *after_heap == *before_heap
    }
}

/// Handles one input event.
pub fn event(cache: &mut GameData, heap: &mut GameDataHeap, event_id: u8, mx: i32, my: i32) -> (consumed: bool)
    requires
        wf(old(cache), old(heap)),
    ensures
        handled(old(cache), old(heap), final(cache), final(heap), event_id, mx, my, consumed),
        wf(final(cache), final(heap)),
{
    if EVENT_INPUT_KEYBOARD_RELEASED_ESCAPE == event_id {
        cache.quit_requested = true;
        proof {
            if cache.ui_data.menu == MENU_GAME {
                crate::ui::lemma_kept_level(old(cache), old(heap), cache, heap);
            }
        }
        true
    } else if EVENT_INPUT_MOUSE_BUTTON_UP == event_id {
        crate::ui::click(cache, heap, mx, my)
    } else if EVENT_INPUT_MOUSE_BUTTON_DOWN == event_id {
        crate::ui::click_down(cache, heap)
    } else {
        false
    }
}

/// The frame counter one frame on: it runs round 128 frames.
pub open spec fn next_frame(frame: u8) -> u8 {
    ((frame + 1) % 128) as u8
}

/// The state at the start of a tick: the frame counter has gone on, and a
/// game that was not ready is ready with the last frame of the round.
pub open spec fn framed(before: &GameData) -> GameData {
    GameData {
        frame: next_frame(before.frame),
        ready: before.ready || next_frame(before.frame) == 127,
        ..*before
    }
}

/// What a tick leaves behind and returns, with the pointer at `(mx, my)`:
/// the frame counter goes on; a game that was not ready does nothing else;
/// a game that was ready ticks its surface.
pub open spec fn updated(
    before: &GameData,
    before_heap: &GameDataHeap,
    after: &GameData,
    after_heap: &GameDataHeap,
    mx: i32,
    my: i32,
    busy: bool,
) -> bool {
    if !before.ready {
        !busy && *after == framed(before) && *after_heap == *before_heap
    } else {
        ticked(&framed(before), before_heap, after, after_heap, mx, my, busy)
    }
}

/// One tick of the game. Returns whether a flash is running.
pub fn update(cache: &mut GameData, heap: &mut GameDataHeap, mx: i32, my: i32) -> (busy: bool)
    requires
        wf(old(cache), old(heap)),
    ensures
        updated(old(cache), old(heap), final(cache), final(heap), mx, my, busy),
        wf(final(cache), final(heap)),
{
    cache.frame = ((cache.frame as u16 + 1) % 128) as u8;
    proof {
        if cache.ui_data.menu == MENU_GAME {
            crate::ui::lemma_kept_level(old(cache), old(heap), cache, heap);
        }
    }
    if !cache.ready {
        if 127 == cache.frame {
            cache.ready = true;
        }
        proof {
            if cache.ui_data.menu == MENU_GAME {
                crate::ui::lemma_kept_level(old(cache), old(heap), cache, heap);
            }
        }
        return false;
    }
    assert(*cache == framed(old(cache)));
    crate::ui::update(cache, heap, mx, my)
}

} // verus!
