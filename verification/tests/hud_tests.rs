use mirrorb::enums::{BOARD_IDX_INVALID, HOLDING_INVALID, MENU_HOVER_NEXT, MENU_HOVER_RESET, MENU_HOVER_TRASH};
use mirrorb::game::{initialize, GameData, GameDataHeap};
use mirrorb::game_state::{next_level_with, place_piece, Shuffle};
use mirrorb::hud::{
    beam_visible, holding_sprite, inventory_grid, inventory_tiles, menu2_tiles, menu_tiles, source_sprite,
    start_tile, Sprite,
};
use mirrorb::ui::{update_game, MENU_GAME};

fn playing(text: &str) -> (GameData, GameDataHeap) {
    let mut cache = GameData::new();
    let mut heap = GameDataHeap::default();
    initialize(&mut cache, &mut heap, &text.as_bytes().to_vec()).unwrap();
    let cells = heap.level_data.options[0][0].map.len();
    let still = Shuffle { flip_h: false, flip_v: false, rotate_a: false, rotate_b: false, rotate_c: false };
    next_level_with(&mut cache, &mut heap, 0, &vec![false; cells], &still);
    cache.ui_data.menu = MENU_GAME;
    update_game(&mut cache, &mut heap, 0, 0);
    (cache, heap)
}

#[test]
fn menu_tiles_highlight_the_hovered_button() {
    let (mut cache, _heap) = playing("8,5,1,M.K\n16,5,1,M.K\n");
    assert!(!cache.final_level);
    assert_eq!(menu_tiles(&cache), vec![1, 2, 3, 5, 6, 7]);
    cache.ui_data.menu_hover_idx = 0;
    assert_eq!(menu_tiles(&cache), vec![9, 2, 3, 5, 6, 7]);
    cache.ui_data.menu_hover_idx = 4;
    assert_eq!(menu_tiles(&cache), vec![1, 2, 3, 5, 14, 7]);
    // the button that leads on is dead while the level is not complete
    cache.ui_data.menu_hover_idx = MENU_HOVER_NEXT;
    assert_eq!(menu_tiles(&cache), vec![1, 2, 3, 5, 6, 7]);
    cache.level_complete = true;
    assert_eq!(menu_tiles(&cache), vec![1, 2, 3, 5, 6, 15]);
    // and every other button is dead while it is
    cache.ui_data.menu_hover_idx = 1;
    assert_eq!(menu_tiles(&cache), vec![1, 2, 3, 5, 6, 7]);
    cache.ui_data.menu_hover_idx = MENU_HOVER_RESET;
    assert_eq!(menu_tiles(&cache), vec![1, 2, 3, 5, 6, 7]);
}

#[test]
fn menu_tiles_blink_the_button_that_leads_on() {
    let (mut cache, _heap) = playing("8,5,1,M.K\n16,5,1,M.K\n");
    cache.level_complete = true;
    cache.ui_data.win_timer = 32;
    assert_eq!(menu_tiles(&cache), vec![1, 2, 3, 5, 6, 15]);
    cache.ui_data.win_timer = 31;
    assert_eq!(menu_tiles(&cache), vec![1, 2, 3, 5, 6, 7]);
    cache.ui_data.win_timer = 64;
    cache.final_level = true;
    cache.ui_data.menu_hover_idx = MENU_HOVER_NEXT;
    assert_eq!(menu_tiles(&cache), vec![1, 2, 3, 5, 6, 7]);
}

#[test]
fn menu2_tiles_highlight_reset_and_bin() {
    let (mut cache, _heap) = playing("8,5,1,M.K\n");
    assert_eq!(menu2_tiles(&cache), vec![4, 0, 8]);
    cache.ui_data.menu_hover_idx = MENU_HOVER_RESET;
    assert_eq!(menu2_tiles(&cache), vec![12, 0, 8]);
    cache.ui_data.menu_hover_idx = MENU_HOVER_TRASH;
    assert_eq!(menu2_tiles(&cache), vec![4, 0, 16]);
    cache.ui_data.menu_hover_idx = 2;
    assert_eq!(menu2_tiles(&cache), vec![4, 0, 8]);
}

#[test]
fn inventory_tiles_show_the_pieces_at_home() {
    let (mut cache, mut heap) = playing("8,5,1,M.K\n");
    assert_eq!(inventory_tiles(&cache, &heap), vec![17, 18, 23, 22, 19, 20, 24, 21]);
    assert_eq!(inventory_grid(&heap), vec![2; 8]);
    place_piece(&mut cache, &mut heap, 1, 6);
    cache.ui_data.holding_idx = 3;
    cache.ui_data.inventory_idx = 6;
    assert_eq!(inventory_tiles(&cache, &heap), vec![17, 0, 23, 0, 19, 20, 32, 21]);
    // a hovered slot without its piece shows nothing
    cache.ui_data.inventory_idx = 1;
    assert_eq!(inventory_tiles(&cache, &heap), vec![17, 0, 23, 0, 19, 20, 24, 21]);
    let (cache, heap) = playing("24,5,1,M.K\n");
    let tiles = inventory_tiles(&cache, &heap);
    assert_eq!(tiles.len(), 24);
    assert_eq!(&tiles[16..], &[17, 18, 23, 22, 19, 20, 24, 21]);
    assert_eq!(inventory_grid(&heap).len(), 24);
}

#[test]
fn inventory_tiles_of_an_odd_piece_count_are_none() {
    let (cache, mut heap) = playing("8,5,1,M.K\n");
    heap.scene_data.num_pcs = 9;
    assert_eq!(inventory_tiles(&cache, &heap), Vec::<u16>::new());
    assert_eq!(inventory_grid(&heap), vec![2; 9]);
}

#[test]
fn holding_sprite_follows_the_pointer_or_snaps_to_the_cell() {
    let (mut cache, heap) = playing("8,5,1,M.K\n");
    assert_eq!(cache.ui_data.holding_idx, HOLDING_INVALID);
    assert_eq!(holding_sprite(&cache, &heap, 50, 60), None);
    cache.ui_data.holding_idx = 4;
    assert_eq!(holding_sprite(&cache, &heap, 50, 60), Some(Sprite { tile: 27, x: 42, y: 52 }));
    cache.ui_data.board_idx = 17;
    // the cell (2, 3) of the board whose corner stands at (104, 100)
    assert_eq!(holding_sprite(&cache, &heap, 50, 60), Some(Sprite { tile: 27, x: 136, y: 148 }));
}

#[test]
fn source_sprite_marks_the_emitter_or_the_hovered_source() {
    let (mut cache, heap) = playing("8,5,1,M.K\n");
    assert_eq!(source_sprite(&cache, &heap), None);
    cache.ui_data.source_hover = 10;
    assert_eq!(source_sprite(&cache, &heap), Some(Sprite { tile: 40, x: 104, y: 132 }));
    cache.ui_data.beam_origin = 3;
    assert_eq!(source_sprite(&cache, &heap), Some(Sprite { tile: 38, x: 152, y: 100 }));
    cache.ui_data.source_hover = BOARD_IDX_INVALID;
    cache.ui_data.beam_origin = 200;
    assert_eq!(source_sprite(&cache, &heap), None);
}

#[test]
fn start_tile_lights_up_under_the_pointer_and_while_blinking() {
    let (mut cache, _heap) = playing("8,5,1,M.K\n");
    assert_eq!(start_tile(&cache, 0, 0), 7);
    assert_eq!(start_tile(&cache, 180, 155), 15);
    cache.ui_data.win_timer = 128;
    assert_eq!(start_tile(&cache, 0, 0), 15);
    cache.ui_data.win_timer = 127;
    assert_eq!(start_tile(&cache, 0, 0), 7);
}

#[test]
fn beam_is_visible_while_it_has_strength() {
    let (mut cache, _heap) = playing("8,5,1,M.K\n");
    assert!(!beam_visible(&cache));
    cache.ui_data.beam_alpha = 1;
    assert!(beam_visible(&cache));
}
