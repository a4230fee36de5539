use mirrorb::enums::{
    is_beam, is_floor, is_reflector, is_source, is_split, slot_tile, stop_for_source, BEAM_H, BEAM_SPLIT_R,
    BEAM_SPLIT_TL, BEAM_SPLIT_X, BEAM_STOP_D, BEAM_STOP_L, BEAM_STOP_R, BEAM_STOP_U, BEAM_V, BLOCK,
    BOARD_IDX_INVALID, BURST, CLIPPING_BLOCK, CLIPPING_NONE, CLIPPING_ORB, CLIPPING_SOURCE, FLOOR, FLOOR_ODD, ORB,
    ORB_ACTIVE, REFLECTOR_BL, REFLECTOR_BR, REFLECTOR_D, REFLECTOR_L, REFLECTOR_R, REFLECTOR_TL, REFLECTOR_TR,
    REFLECTOR_U, SOURCE_D, SOURCE_L, SOURCE_R, SOURCE_U,
};
use mirrorb::game::{GameData, GameDataHeap};
use mirrorb::game_state::Block;
use mirrorb::grid::count_code;
use mirrorb::scene::{base_clip_of, build_scene, build_scene_with, reset_scene, update_clipping, SceneData};
use mirrorb::transform::{
    flip_h_slot, flip_v_slot, rotate_slot, turn_cell, turn_positions, turn_tiles, unrotate_slot, unturn_cell,
    unturn_slot, Turn,
};

fn block5(map: &str) -> Block {
    Block { sz: 5, norbs: 0, npcs: 8, map: map.as_bytes().to_vec() }
}

fn plain5() -> Block {
    block5("xxxxxxxxxxxxxoxxxxxxxxxxx")
}

fn candidates7(npcs: usize, orbs: &[usize]) -> Block {
    let mut map = vec![b'.'; 49];
    for &i in orbs {
        map[i] = b'o';
    }
    Block { sz: 7, norbs: orbs.len(), npcs, map }
}

fn home() -> Vec<u8> {
    vec![BOARD_IDX_INVALID; 24]
}

#[test]
fn code_predicates_sort_the_codes() {
    for c in 0..=u16::MAX {
        assert_eq!(is_source(c), (33..=36).contains(&c));
        assert_eq!(is_reflector(c), (17..=24).contains(&c));
        assert_eq!(is_split(c), c == 47 || (49..=56).contains(&c));
        assert_eq!(is_beam(c), (41..=47).contains(&c) || (49..=56).contains(&c));
        assert_eq!(is_floor(c), c == 3 || c == 4);
    }
    assert!(!is_beam(BURST));
    assert!(!is_beam(ORB_ACTIVE));
}

#[test]
fn stop_for_source_keeps_the_direction() {
    assert_eq!(stop_for_source(SOURCE_U), BEAM_STOP_U);
    assert_eq!(stop_for_source(SOURCE_D), BEAM_STOP_D);
    assert_eq!(stop_for_source(SOURCE_L), BEAM_STOP_L);
    assert_eq!(stop_for_source(SOURCE_R), BEAM_STOP_R);
}

#[test]
fn slot_tile_lays_out_the_inventory() {
    let first = [
        REFLECTOR_TL,
        REFLECTOR_TR,
        REFLECTOR_U,
        REFLECTOR_L,
        REFLECTOR_BL,
        REFLECTOR_BR,
        REFLECTOR_R,
        REFLECTOR_D,
    ];
    for k in 0..24 {
        assert_eq!(slot_tile(k), first[k % 8]);
    }
    assert_eq!(
        (0..24).map(slot_tile).collect::<Vec<u16>>(),
        vec![17, 18, 23, 22, 19, 20, 24, 21, 17, 18, 23, 22, 19, 20, 24, 21, 17, 18, 23, 22, 19, 20, 24, 21]
    );
}

#[test]
fn new_scene_is_zeroed() {
    let scene = SceneData::new(4);
    assert_eq!(scene.sz, 4);
    assert_eq!(scene.sz2, 16);
    assert_eq!(scene.tilemap, vec![0; 16]);
    assert_eq!(scene.clipping, vec![0; 16]);
    assert_eq!(scene.reflectors, vec![0; 16]);
    assert_eq!(scene.beams, vec![0; 16]);
    assert_eq!((scene.num_goals, scene.num_pcs), (0, 0));
    let empty = SceneData::empty();
    assert_eq!((empty.sz, empty.sz2, empty.tilemap.len()), (1, 1, 0));
}

#[test]
fn build_scene_with_lays_out_the_board() {
    let scene = build_scene_with(&plain5(), &vec![false; 25]);
    let expected = vec![
        0, 34, 34, 34, 0,
        36, 3, 4, 3, 35,
        36, 4, 3, 6, 35,
        36, 3, 4, 3, 35,
        0, 33, 33, 33, 0,
    ];
    assert_eq!(scene.tilemap, expected);
    assert_eq!((scene.sz, scene.sz2, scene.num_goals, scene.num_pcs), (5, 25, 1, 8));
    assert_eq!(scene.reflectors, vec![0; 25]);
    assert_eq!(scene.beams, vec![0; 25]);
}

#[test]
fn build_scene_with_gives_the_first_clipping_map() {
    let scene = build_scene_with(&block5("xxxxxx.xxxxxxoxxxxxxxxxxx"), &vec![true; 25]);
    let expected = vec![
        5, 1, 1, 1, 5,
        1, 5, 0, 0, 1,
        1, 0, 0, 6, 1,
        1, 0, 0, 0, 1,
        5, 1, 1, 1, 5,
    ];
    assert_eq!(scene.clipping, expected);
    assert_eq!(scene.tilemap[6], BLOCK);
}

#[test]
fn build_scene_with_takes_blocks_where_the_mask_says() {
    let block = block5("......o..................");
    let none = build_scene_with(&block, &vec![false; 25]);
    let all = build_scene_with(&block, &vec![true; 25]);
    for y in 0..5 {
        for x in 0..5 {
            let i = y * 5 + x;
            let inside = (1..4).contains(&x) && (1..4).contains(&y);
            if i == 6 {
                assert_eq!(none.tilemap[i], ORB);
                assert_eq!(all.tilemap[i], ORB);
            } else if inside {
                assert_eq!(none.tilemap[i], FLOOR + ((x + y) % 2) as u16);
                assert_eq!(all.tilemap[i], BLOCK);
            } else {
                // a candidate on the border is never taken
                assert_eq!(none.tilemap[i], all.tilemap[i]);
            }
        }
    }
    assert_eq!(none.num_goals, 1);
    assert_eq!(all.num_goals, 1);
}

#[test]
fn build_scene_with_ignores_the_mask_off_the_candidates() {
    let scene = build_scene_with(&plain5(), &vec![true; 25]);
    assert_eq!(scene.tilemap, build_scene_with(&plain5(), &vec![false; 25]).tilemap);
}

#[test]
fn build_scene_keeps_the_board_sound_whatever_is_drawn() {
    let block = candidates7(16, &[8, 36]);
    for _ in 0..50 {
        let scene = build_scene(&block);
        assert_eq!(scene.tilemap.len(), 49);
        assert_eq!(scene.num_pcs, 16);
        assert_eq!(scene.num_goals as usize, count_code(&scene.tilemap, ORB));
        assert_eq!(scene.num_goals, 2);
        for y in 0..7 {
            for x in 0..7 {
                let t = scene.tilemap[y * 7 + x];
                let corner = (x == 0 || x == 6) && (y == 0 || y == 6);
                if corner {
                    assert_eq!(t, 0);
                } else if y == 0 {
                    assert_eq!(t, SOURCE_D);
                } else if y == 6 {
                    assert_eq!(t, SOURCE_U);
                } else if x == 0 {
                    assert_eq!(t, SOURCE_R);
                } else if x == 6 {
                    assert_eq!(t, SOURCE_L);
                } else {
                    assert!(t == ORB || t == BLOCK || t == FLOOR + ((x + y) % 2) as u16);
                }
                assert_eq!(scene.clipping[y * 7 + x], base_clip_of(t));
            }
        }
    }
}

#[test]
fn build_scene_draws_blocks_now_and_then() {
    let block = Block { sz: 15, norbs: 0, npcs: 8, map: vec![b'.'; 225] };
    let scene = build_scene(&block);
    let blocks = count_code(&scene.tilemap, BLOCK);
    // 169 candidates at three in ten: all taken or none taken is out of the question
    assert!(blocks > 0 && blocks < 169);
}

#[test]
fn base_clip_of_sorts_the_tiles() {
    assert_eq!(base_clip_of(0), CLIPPING_BLOCK);
    assert_eq!(base_clip_of(BLOCK), CLIPPING_BLOCK);
    assert_eq!(base_clip_of(ORB), CLIPPING_ORB);
    assert_eq!(base_clip_of(FLOOR), CLIPPING_NONE);
    assert_eq!(base_clip_of(FLOOR_ODD), CLIPPING_NONE);
    for s in [SOURCE_U, SOURCE_D, SOURCE_L, SOURCE_R] {
        assert_eq!(base_clip_of(s), CLIPPING_SOURCE);
    }
    assert_eq!(base_clip_of(REFLECTOR_TL), CLIPPING_NONE);
}

fn state5() -> (GameData, GameDataHeap) {
    let cache = GameData::new();
    let mut heap = GameDataHeap::default();
    heap.scene_data = build_scene_with(&plain5(), &vec![false; 25]);
    (cache, heap)
}

#[test]
fn update_clipping_enters_the_placed_pieces() {
    let (mut cache, mut heap) = state5();
    cache.pieces[0].board_idx = 6;
    cache.pieces[7].board_idx = 18;
    cache.pieces[8].board_idx = 12; // not in play with eight pieces
    update_clipping(&mut cache, &mut heap);
    let expected = vec![
        5, 1, 1, 1, 5,
        1, 17, 0, 0, 1,
        1, 0, 0, 6, 1,
        1, 0, 0, 21, 1,
        5, 1, 1, 1, 5,
    ];
    assert_eq!(heap.scene_data.clipping, expected);
}

#[test]
fn update_clipping_is_made_of_board_and_pieces_alone() {
    let (mut cache, mut heap) = state5();
    cache.pieces[3].board_idx = 11;
    update_clipping(&mut cache, &mut heap);
    let first = heap.scene_data.clipping.clone();
    heap.scene_data.beams = vec![BEAM_H; 25];
    heap.scene_data.reflectors = vec![REFLECTOR_U; 25];
    heap.scene_data.clipping = vec![9; 25];
    cache.ui_data.beam_origin = 10;
    cache.frame = 77;
    update_clipping(&mut cache, &mut heap);
    assert_eq!(heap.scene_data.clipping, first);
    update_clipping(&mut cache, &mut heap);
    assert_eq!(heap.scene_data.clipping, first);
    assert_eq!(heap.scene_data.beams, vec![BEAM_H; 25]);
}

#[test]
fn reset_scene_empties_the_board() {
    let (mut cache, mut heap) = state5();
    cache.pieces[0].board_idx = 6;
    cache.pieces[7].board_idx = 18;
    cache.pieces[12].board_idx = 7;
    let before = heap.clone();
    reset_scene(&mut cache, &mut heap);
    for k in 0..8 {
        assert_eq!(cache.pieces[k].board_idx, BOARD_IDX_INVALID);
    }
    // only the pieces in play are touched
    assert_eq!(cache.pieces[12].board_idx, 7);
    assert_eq!(heap, before);
    for k in 0..24 {
        assert_eq!(cache.pieces[k].tile, slot_tile(k));
        assert_eq!(cache.pieces[k].home as usize, k);
    }
}

#[test]
fn turn_cell_moves_the_coordinates() {
    // (x, y) = (1, 2) on a board of side 5
    assert_eq!(turn_cell(Turn::FlipH, 5, 11), 13);
    assert_eq!(turn_cell(Turn::FlipV, 5, 11), 11);
    assert_eq!(turn_cell(Turn::FlipV, 5, 6), 16);
    // the quarter turn sends (x, y) to (n-1-y, x)
    assert_eq!(turn_cell(Turn::Rotate, 5, 11), 7);
    assert_eq!(turn_cell(Turn::Rotate, 5, 6), 8);
    assert_eq!(unturn_cell(Turn::Rotate, 5, 7), 11);
    for n in 3..=15 {
        for b in 0..n * n {
            assert_eq!(turn_cell(Turn::Rotate, n, b), n - 1 - b / n + (b % n) * n);
            for turn in [Turn::FlipH, Turn::FlipV, Turn::Rotate] {
                assert_eq!(unturn_cell(turn, n, turn_cell(turn, n, b)), b);
                assert_eq!(turn_cell(turn, n, unturn_cell(turn, n, b)), b);
            }
        }
    }
}

#[test]
fn slot_maps_are_the_documented_permutations() {
    let h = [1, 0, 2, 6, 5, 4, 3, 7];
    let v = [4, 5, 7, 3, 0, 1, 6, 2];
    let r = [1, 5, 6, 2, 0, 4, 7, 3];
    for k in 0..24 {
        let base = k - k % 8;
        assert_eq!(flip_h_slot(k), base + h[k % 8]);
        assert_eq!(flip_v_slot(k), base + v[k % 8]);
        assert_eq!(rotate_slot(k), base + r[k % 8]);
        assert_eq!(unrotate_slot(rotate_slot(k)), k);
        assert_eq!(rotate_slot(unrotate_slot(k)), k);
        assert_eq!(unturn_slot(Turn::FlipH, k), flip_h_slot(k));
        assert_eq!(unturn_slot(Turn::FlipV, k), flip_v_slot(k));
        assert_eq!(unturn_slot(Turn::Rotate, k), unrotate_slot(k));
    }
}

#[test]
fn slot_maps_follow_the_orientations() {
    // what shows top-left shows top-right after a quarter turn clockwise, and so on
    let turned = [
        (REFLECTOR_TL, REFLECTOR_TR),
        (REFLECTOR_TR, REFLECTOR_BR),
        (REFLECTOR_BR, REFLECTOR_BL),
        (REFLECTOR_BL, REFLECTOR_TL),
        (REFLECTOR_U, REFLECTOR_R),
        (REFLECTOR_R, REFLECTOR_D),
        (REFLECTOR_D, REFLECTOR_L),
        (REFLECTOR_L, REFLECTOR_U),
    ];
    let flipped_h = [
        (REFLECTOR_TL, REFLECTOR_TR),
        (REFLECTOR_BL, REFLECTOR_BR),
        (REFLECTOR_L, REFLECTOR_R),
        (REFLECTOR_U, REFLECTOR_U),
        (REFLECTOR_D, REFLECTOR_D),
    ];
    let flipped_v = [
        (REFLECTOR_TL, REFLECTOR_BL),
        (REFLECTOR_TR, REFLECTOR_BR),
        (REFLECTOR_U, REFLECTOR_D),
        (REFLECTOR_L, REFLECTOR_L),
        (REFLECTOR_R, REFLECTOR_R),
    ];
    for k in 0..24 {
        let tile = slot_tile(k);
        assert!(turned.contains(&(tile, slot_tile(rotate_slot(k)))));
        let h = slot_tile(flip_h_slot(k));
        assert!(flipped_h.contains(&(tile, h)) || flipped_h.contains(&(h, tile)));
        let v = slot_tile(flip_v_slot(k));
        assert!(flipped_v.contains(&(tile, v)) || flipped_v.contains(&(v, tile)));
    }
}

fn numbered(n: usize) -> Vec<u16> {
    (0..n * n).map(|i| 100 + i as u16).collect()
}

#[test]
fn turn_tiles_moves_the_interior_only() {
    let t = numbered(4);
    let h = vec![
        100, 101, 102, 103,
        104, 106, 105, 107,
        108, 110, 109, 111,
        112, 113, 114, 115,
    ];
    let v = vec![
        100, 101, 102, 103,
        104, 109, 110, 107,
        108, 105, 106, 111,
        112, 113, 114, 115,
    ];
    let r = vec![
        100, 101, 102, 103,
        104, 109, 105, 107,
        108, 110, 106, 111,
        112, 113, 114, 115,
    ];
    assert_eq!(turn_tiles(Turn::FlipH, &t, 4), h);
    assert_eq!(turn_tiles(Turn::FlipV, &t, 4), v);
    assert_eq!(turn_tiles(Turn::Rotate, &t, 4), r);
}

#[test]
fn turn_positions_moves_pieces_and_slots() {
    let mut p = home();
    p[0] = 11; // top-left piece at (1, 2) on a board of side 5
    p[10] = 8; // the third piece of the second group at (3, 1)
    let h = turn_positions(Turn::FlipH, &p, 5);
    let mut expected = home();
    expected[1] = 13;
    expected[10] = 6;
    assert_eq!(h, expected);
    let v = turn_positions(Turn::FlipV, &p, 5);
    let mut expected = home();
    expected[4] = 11;
    expected[15] = 18;
    assert_eq!(v, expected);
    let r = turn_positions(Turn::Rotate, &p, 5);
    let mut expected = home();
    expected[1] = 7;
    expected[14] = 18;
    assert_eq!(r, expected);
}

fn sample_positions(n: usize) -> Vec<u8> {
    let mut p = home();
    let mut cell = n + 1;
    for k in [0usize, 3, 5, 9, 14, 22] {
        p[k] = cell as u8;
        cell += 1;
        if cell % n == n - 1 {
            cell += 2;
        }
        if cell >= n * n - n {
            break;
        }
    }
    p
}

#[test]
fn flips_undo_themselves() {
    for n in 3..=15 {
        let t = numbered(n);
        let p = sample_positions(n);
        for turn in [Turn::FlipH, Turn::FlipV] {
            assert_eq!(turn_tiles(turn, &turn_tiles(turn, &t, n), n), t);
            assert_eq!(turn_positions(turn, &turn_positions(turn, &p, n), n), p);
        }
    }
}

#[test]
fn four_quarter_turns_come_back() {
    for n in 3..=15 {
        let mut t = numbered(n);
        let mut p = sample_positions(n);
        for _ in 0..4 {
            t = turn_tiles(Turn::Rotate, &t, n);
            p = turn_positions(Turn::Rotate, &p, n);
        }
        assert_eq!(t, numbered(n));
        assert_eq!(p, sample_positions(n));
        let once = turn_tiles(Turn::Rotate, &numbered(n), n);
        if n > 3 {
            assert_ne!(once, numbered(n));
        }
    }
}

#[test]
fn both_flips_make_two_quarter_turns() {
    for n in 3..=15 {
        let t = numbered(n);
        let p = sample_positions(n);
        let flipped = turn_tiles(Turn::FlipH, &turn_tiles(Turn::FlipV, &t, n), n);
        let turned = turn_tiles(Turn::Rotate, &turn_tiles(Turn::Rotate, &t, n), n);
        assert_eq!(flipped, turned);
        let flipped = turn_positions(Turn::FlipH, &turn_positions(Turn::FlipV, &p, n), n);
        let turned = turn_positions(Turn::Rotate, &turn_positions(Turn::Rotate, &p, n), n);
        assert_eq!(flipped, turned);
        let other = turn_tiles(Turn::FlipV, &turn_tiles(Turn::FlipH, &t, n), n);
        assert_eq!(other, turned_tiles_twice(&t, n));
    }
}

fn turned_tiles_twice(t: &Vec<u16>, n: usize) -> Vec<u16> {
    turn_tiles(Turn::Rotate, &turn_tiles(Turn::Rotate, t, n), n)
}

#[test]
fn transforms_keep_the_orbs() {
    let block = candidates7(8, &[8, 17, 36]);
    let scene = build_scene_with(&block, &vec![true; 49]);
    assert_eq!(count_code(&scene.tilemap, ORB), 3);
    for turn in [Turn::FlipH, Turn::FlipV, Turn::Rotate] {
        let after = turn_tiles(turn, &scene.tilemap, 7);
        assert_eq!(count_code(&after, ORB), 3);
        assert_eq!(count_code(&after, BLOCK), count_code(&scene.tilemap, BLOCK));
        assert_ne!(after, scene.tilemap);
        // the border stays
        for i in 0..49 {
            let (x, y) = (i % 7, i / 7);
            if x == 0 || x == 6 || y == 0 || y == 6 {
                assert_eq!(after[i], scene.tilemap[i]);
            }
        }
    }
}

#[test]
fn count_code_counts() {
    assert_eq!(count_code(&vec![], 7), 0);
    assert_eq!(count_code(&vec![7, 1, 7, 7, 0], 7), 3);
    assert_eq!(count_code(&vec![BEAM_H, BEAM_V, BEAM_SPLIT_X, BEAM_SPLIT_R, BEAM_SPLIT_TL, BEAM_STOP_L], ORB_ACTIVE), 0);
}
