use mirrorb::codec::{LevelFileError, LineError};
use mirrorb::enums::{slot_tile, BLOCK, BOARD_IDX_INVALID, HOLDING_INVALID, ORB};
use mirrorb::game::{initialize, GameData, GameDataHeap};
use mirrorb::game_state::{
    advance_cursor, draw_shuffle, get_positions, has_next_level, load_level, next_level, next_level_with,
    place_piece, trash_level, trash_level_with, Block, LevelData, PlayerData, Shuffle,
};
use mirrorb::grid::count_code;
use mirrorb::scene::{base_clip_of, build_scene_with, draw_mask};
use mirrorb::transform::{turn_tiles, Turn};
use mirrorb::ui::{MENU_GAME, MENU_MAIN};

// five pools: one block, two blocks, one block, three blocks, two blocks
const CATALOG: &str = "8,5,1,M.K\n8,5,2,L..K\n8,5,2,K..L\n16,5,1,M.K\n\
16,7,2,ZJ.A.J\n16,7,2,ZJ.B.I\n16,7,2,ZJ.C.H\n24,7,2,ZJ.A.J\n24,7,2,ZJ.B.I\n";

fn still() -> Shuffle {
    Shuffle { flip_h: false, flip_v: false, rotate_a: false, rotate_b: false, rotate_c: false }
}

fn at_menu(text: &str) -> (GameData, GameDataHeap) {
    let mut cache = GameData::new();
    let mut heap = GameDataHeap::default();
    initialize(&mut cache, &mut heap, &text.as_bytes().to_vec()).unwrap();
    (cache, heap)
}

fn home() -> Vec<u8> {
    vec![BOARD_IDX_INVALID; 24]
}

fn block(npcs: usize, sz: usize, norbs: usize) -> Block {
    Block { sz, norbs, npcs, map: vec![b'x'; sz * sz] }
}

#[test]
fn new_game_state_is_empty() {
    let cache = GameData::new();
    assert_eq!((cache.frame, cache.ready, cache.quit_requested), (0, false, false));
    assert_eq!((cache.level_complete, cache.final_level, cache.history_idx), (false, false, 0));
    assert_eq!(cache.player_data, PlayerData { level: 0, sub_level: 0, level_option: 0, level_displayed: 0 });
    assert_eq!(cache.ui_data.menu, MENU_MAIN);
    for k in 0..24 {
        assert_eq!(cache.pieces[k].tile, slot_tile(k));
        assert_eq!(cache.pieces[k].board_idx, BOARD_IDX_INVALID);
        assert_eq!(cache.pieces[k].home as usize, k);
        assert!(!cache.pieces[k].active);
    }
    let heap = GameDataHeap::default();
    assert_eq!(heap.level_data, LevelData::new());
    assert_eq!(heap.history.len(), 0);
    assert_eq!((heap.scene_data.sz, heap.scene_data.sz2, heap.scene_data.tilemap.len()), (1, 1, 0));
    let empty = Block::empty();
    assert_eq!((empty.sz, empty.norbs, empty.npcs, empty.map.len()), (0, 0, 0, 0));
}

#[test]
fn block_duplicate_copies_the_block() {
    let b = Block { sz: 5, norbs: 1, npcs: 8, map: b"xxxxxxxxxxxxxoxxxxxxxxxxx".to_vec() };
    assert_eq!(b.duplicate(), b);
}

#[test]
fn from_blocks_starts_a_pool_wherever_the_tag_changes() {
    let blocks = vec![
        block(8, 5, 1),
        block(8, 5, 2),
        block(8, 5, 2),
        block(16, 5, 2),
        block(16, 7, 2),
        block(8, 5, 1),
        block(8, 5, 1),
        block(8, 5, 1),
    ];
    let catalog = LevelData::from_blocks(&blocks);
    let sizes: Vec<usize> = catalog.options.iter().map(|pool| pool.len()).collect();
    assert_eq!(sizes, vec![1, 2, 1, 1, 3]);
    let flat: Vec<Block> = catalog.options.iter().flatten().cloned().collect();
    assert_eq!(flat, blocks);
    assert_eq!(catalog.level_count(), 7);
    assert_eq!(LevelData::from_blocks(&vec![]).options.len(), 0);
    assert_eq!(LevelData::new().level_count(), 0);
}

#[test]
fn initialize_reads_the_catalog_and_lays_out_the_inventory() {
    let mut cache = GameData::new();
    let mut heap = GameDataHeap::default();
    cache.pieces[3].board_idx = 7;
    cache.pieces[3].tile = 0;
    cache.level_complete = true;
    cache.final_level = true;
    cache.history_idx = 4;
    cache.blackout_alpha = 9;
    cache.player_data = PlayerData { level: 3, sub_level: 1, level_option: 2, level_displayed: 5 };
    cache.ui_data.menu = MENU_GAME;
    cache.ui_data.holding_idx = 3;
    assert_eq!(initialize(&mut cache, &mut heap, &CATALOG.as_bytes().to_vec()), Ok(()));
    let sizes: Vec<usize> = heap.level_data.options.iter().map(|pool| pool.len()).collect();
    assert_eq!(sizes, vec![1, 2, 1, 3, 2]);
    assert_eq!(heap.level_data.level_count(), 8);
    assert_eq!(get_positions(&cache), home());
    for k in 0..24 {
        assert_eq!(cache.pieces[k].tile, slot_tile(k));
    }
    assert_eq!((cache.level_complete, cache.final_level, cache.history_idx, cache.blackout_alpha), (false, false, 0, 0));
    assert_eq!((cache.player_data.level, cache.player_data.sub_level, cache.player_data.level_displayed), (0, 0, 0));
    assert_eq!(cache.ui_data.menu, MENU_MAIN);
    assert_eq!(cache.ui_data.holding_idx, HOLDING_INVALID);
}

#[test]
fn initialize_refuses_a_bad_file_and_changes_nothing() {
    let (mut cache, mut heap) = at_menu(CATALOG);
    cache.frame = 5;
    let before = (cache.clone(), heap.clone());
    let bad = "8,5,1,M.K\n8,5,1,M.K.\n";
    assert_eq!(
        initialize(&mut cache, &mut heap, &bad.as_bytes().to_vec()),
        Err(LevelFileError { line: 1, kind: LineError::Length })
    );
    assert_eq!((cache.clone(), heap.clone()), before);
    assert_eq!(
        mirrorb::game_state::initialize(&mut cache, &mut heap, &b"8,5\n".to_vec()),
        Err(LevelFileError { line: 0, kind: LineError::FieldCount })
    );
    assert_eq!((cache, heap), before);
}

#[test]
fn cursor_walks_through_levels_and_sub_levels() {
    let (mut cache, mut heap) = at_menu(CATALOG);
    let mut seen = vec![];
    // the pick is used where a new pool opens; it is the last option of the pool here
    let picks = [9usize, 1, 9, 0, 9, 2, 9, 1, 9];
    for pick in picks {
        assert!(has_next_level(&cache, &heap));
        advance_cursor(&mut cache, &heap, pick);
        let p = &cache.player_data;
        seen.push((p.level, p.sub_level, p.level_option, p.level_displayed, cache.final_level));
    }
    assert_eq!(
        seen,
        vec![
            (1, 0, 0, 1, false),
            (2, 0, 1, 2, false),
            (2, 1, 0, 3, false),
            (3, 0, 0, 4, false),
            (3, 1, 0, 5, false),
            (4, 0, 2, 6, false),
            (4, 1, 0, 7, false),
            (5, 0, 1, 8, false),
            (5, 1, 0, 9, true),
        ]
    );
    // behind the last sub-level of the last pool there is no level
    assert!(!has_next_level(&cache, &heap));
    let (mut none, mut none_heap) = at_menu("\n");
    assert!(!has_next_level(&none, &none_heap));
    none.player_data.level = 1;
    assert!(!has_next_level(&none, &none_heap));
    none_heap.level_data = heap.level_data.clone();
    heap.level_data = LevelData::new();
    assert!(!has_next_level(&cache, &heap));
}

#[test]
fn last_pool_of_one_block_is_final_at_once() {
    let (mut cache, heap) = at_menu("8,5,1,M.K\n16,5,1,M.K\n");
    advance_cursor(&mut cache, &heap, 0);
    assert!(!cache.final_level);
    advance_cursor(&mut cache, &heap, 0);
    assert_eq!((cache.player_data.level, cache.player_data.sub_level), (2, 0));
    assert!(cache.final_level);
    // the second sub-level plays the same block once more
    assert!(has_next_level(&cache, &heap));
    advance_cursor(&mut cache, &heap, 0);
    assert_eq!((cache.player_data.level, cache.player_data.sub_level, cache.player_data.level_option), (2, 1, 0));
    assert_eq!(cache.player_data.level_displayed, 3);
    assert!(!has_next_level(&cache, &heap));
}

#[test]
fn load_level_builds_and_shuffles_the_board() {
    let (mut cache, mut heap) = at_menu("8,7,1,HaU.R\n");
    advance_cursor(&mut cache, &heap, 0);
    let block = heap.level_data.options[0][0].duplicate();
    let mut mask = vec![false; 49];
    mask[8] = true;
    let plain = build_scene_with(&block, &mask);
    assert_eq!((plain.tilemap[8], plain.tilemap[30]), (BLOCK, ORB));
    let coins = Shuffle { flip_h: true, flip_v: false, rotate_a: true, rotate_b: false, rotate_c: true };
    cache.level_complete = true;
    heap.history.push(mirrorb::game_state::HistoryData::new());
    cache.history_idx = 3;
    load_level(&mut cache, &mut heap, &mask, &coins);
    let mut expected = turn_tiles(Turn::FlipH, &plain.tilemap, 7);
    expected = turn_tiles(Turn::Rotate, &expected, 7);
    expected = turn_tiles(Turn::Rotate, &expected, 7);
    assert_eq!(heap.scene_data.tilemap, expected);
    assert_ne!(heap.scene_data.tilemap, plain.tilemap);
    let clipping: Vec<u8> = expected.iter().map(|&t| base_clip_of(t)).collect();
    assert_eq!(heap.scene_data.clipping, clipping);
    assert_eq!(heap.scene_data.beams, vec![0; 49]);
    assert_eq!(heap.scene_data.reflectors, vec![0; 49]);
    assert_eq!((heap.scene_data.sz, heap.scene_data.sz2, heap.scene_data.num_pcs, heap.scene_data.num_goals), (7, 49, 8, 1));
    assert!(!cache.level_complete);
    assert_eq!((heap.history.len(), cache.history_idx), (1, 0));
    assert_eq!(heap.history[0].tilemap, expected);
    assert_eq!(heap.history[0].pieces, home());
}

#[test]
fn next_level_with_takes_the_draws_it_is_given() {
    let (mut cache, mut heap) = at_menu(CATALOG);
    next_level_with(&mut cache, &mut heap, 0, &vec![false; 25], &still());
    assert_eq!(cache.player_data, PlayerData { level: 1, sub_level: 0, level_option: 0, level_displayed: 1 });
    assert_eq!(heap.scene_data.tilemap[13], ORB);
    next_level_with(&mut cache, &mut heap, 1, &vec![false; 25], &still());
    assert_eq!(cache.player_data, PlayerData { level: 2, sub_level: 0, level_option: 1, level_displayed: 2 });
    // the second block of the second pool has its orbs at 11 and 12
    assert_eq!((heap.scene_data.tilemap[11], heap.scene_data.tilemap[12]), (ORB, ORB));
    assert_eq!(heap.scene_data.num_goals, 2);
    next_level_with(&mut cache, &mut heap, 7, &vec![false; 25], &still());
    // the pick is not used inside a pool: the option after the current one is taken
    assert_eq!(cache.player_data, PlayerData { level: 2, sub_level: 1, level_option: 0, level_displayed: 3 });
    assert_eq!((heap.scene_data.tilemap[12], heap.scene_data.tilemap[13]), (ORB, ORB));
}

#[test]
fn next_level_draws_within_the_pool() {
    for _ in 0..40 {
        let (mut cache, mut heap) = at_menu(CATALOG);
        let mut shown = vec![];
        while has_next_level(&cache, &heap) {
            next_level(&mut cache, &mut heap);
            let p = &cache.player_data;
            let pool = &heap.level_data.options[p.level - 1];
            assert!(p.level_option < pool.len());
            if p.level == 1 {
                assert_eq!(p.level_option, 0);
            }
            let block = &pool[p.level_option];
            assert_eq!(heap.scene_data.sz, block.sz);
            assert_eq!(heap.scene_data.num_pcs as usize, block.npcs);
            assert_eq!(heap.scene_data.num_goals as usize, block.norbs);
            assert_eq!(count_code(&heap.scene_data.tilemap, ORB), block.norbs);
            assert_eq!(count_code(&heap.scene_data.tilemap, BLOCK), 0);
            assert_eq!((heap.history.len(), cache.history_idx), (1, 0));
            assert_eq!(heap.history[0].tilemap, heap.scene_data.tilemap);
            assert_eq!(get_positions(&cache), home());
            assert!(!cache.level_complete);
            shown.push(p.level_displayed);
        }
        assert_eq!(shown, (1..=9).collect::<Vec<usize>>());
        assert!(cache.final_level);
    }
}

#[test]
fn next_level_shuffles_the_board_now_and_then() {
    let mut boards = vec![];
    for _ in 0..60 {
        let (mut cache, mut heap) = at_menu("8,7,1,ZD.R\n");
        next_level(&mut cache, &mut heap);
        if !boards.contains(&heap.scene_data.tilemap) {
            boards.push(heap.scene_data.tilemap.clone());
        }
    }
    // the orb sits off every axis of the board, so the eight placings of the board all differ
    assert!(boards.len() > 1 && boards.len() <= 8);
}

#[test]
fn draws_are_what_they_say() {
    let map = b"..x.o.xx..".to_vec();
    let mut taken = 0;
    for _ in 0..200 {
        let mask = draw_mask(&map);
        assert_eq!(mask.len(), map.len());
        for i in [2, 4, 6, 7] {
            assert!(!mask[i]);
        }
        taken += mask.iter().filter(|&&m| m).count();
    }
    // 1200 candidates at three in ten
    assert!(taken > 200 && taken < 520);
    let mut heads = 0;
    for _ in 0..200 {
        let coins = draw_shuffle();
        for coin in [coins.flip_h, coins.flip_v, coins.rotate_a, coins.rotate_b, coins.rotate_c] {
            if coin {
                heads += 1;
            }
        }
    }
    assert!(heads > 350 && heads < 650);
}

#[test]
fn trash_level_with_starts_the_level_over() {
    let (mut cache, mut heap) = at_menu(CATALOG);
    next_level_with(&mut cache, &mut heap, 0, &vec![false; 25], &still());
    next_level_with(&mut cache, &mut heap, 0, &vec![false; 25], &still());
    cache.ui_data.menu = MENU_GAME;
    place_piece(&mut cache, &mut heap, 0, 6);
    place_piece(&mut cache, &mut heap, 1, 7);
    assert_eq!(heap.history.len(), 3);
    let player = cache.player_data.clone();
    trash_level_with(&mut cache, &mut heap, 1, &vec![false; 25]);
    assert_eq!(cache.player_data, PlayerData { level_option: 1, ..player });
    assert_eq!((heap.scene_data.tilemap[11], heap.scene_data.tilemap[12]), (ORB, ORB));
    assert_eq!(get_positions(&cache), home());
    assert_eq!((heap.history.len(), cache.history_idx), (1, 0));
    assert_eq!(heap.history[0].tilemap, heap.scene_data.tilemap);
    let block = heap.level_data.options[1][1].duplicate();
    assert_eq!(heap.scene_data, build_scene_with(&block, &vec![false; 25]));
}

#[test]
fn trash_level_draws_an_option_of_the_pool() {
    let (mut cache, mut heap) = at_menu(CATALOG);
    for _ in 0..5 {
        next_level_with(&mut cache, &mut heap, 0, &vec![false; 49], &still());
    }
    assert_eq!(cache.player_data.level, 3);
    next_level_with(&mut cache, &mut heap, 0, &vec![false; 49], &still());
    assert_eq!(cache.player_data.level, 4);
    let mut seen = vec![];
    for _ in 0..80 {
        place_piece(&mut cache, &mut heap, 2, 8);
        trash_level(&mut cache, &mut heap);
        assert!(cache.player_data.level_option < 3);
        assert_eq!(cache.player_data.level, 4);
        assert_eq!(get_positions(&cache), home());
        assert_eq!(heap.history.len(), 1);
        if !seen.contains(&cache.player_data.level_option) {
            seen.push(cache.player_data.level_option);
        }
    }
    assert!(seen.len() > 1);
}
