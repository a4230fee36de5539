use mirrorb::beam::{apply_rule, first_change, read_inflow, settle_overlay, Inflow};
use mirrorb::enums::{
    BEAM_H, BEAM_SPLIT_BL, BEAM_SPLIT_BR, BEAM_SPLIT_D, BEAM_SPLIT_L, BEAM_SPLIT_R, BEAM_SPLIT_TL, BEAM_SPLIT_TR,
    BEAM_SPLIT_U, BEAM_SPLIT_X, BEAM_STOP_D, BEAM_STOP_L, BEAM_STOP_R, BEAM_STOP_U, BEAM_V, BOARD_IDX_INVALID,
    CLIPPING_BLOCK, CLIPPING_NONE, CLIPPING_ORB, CLIPPING_SOURCE, ORB_ACTIVE, REFLECTOR_BL, REFLECTOR_BR,
    REFLECTOR_D, REFLECTOR_L, REFLECTOR_R, REFLECTOR_TL, REFLECTOR_TR, REFLECTOR_U,
};
use mirrorb::game::{initialize, GameData, GameDataHeap};
use mirrorb::game_state::{flip_h, next_level_with, place_piece, Shuffle};
use mirrorb::grid::count_code;
use mirrorb::ui::{check_win, click, click_down, run_beam, update_game, MENU_GAME, TRANSITION_MODE_FLASH};

fn still() -> Shuffle {
    Shuffle { flip_h: false, flip_v: false, rotate_a: false, rotate_b: false, rotate_c: false }
}

// A game in the first level of the given level file, with no block taken and the board not shuffled.
fn playing(text: &str) -> (GameData, GameDataHeap) {
    let mut cache = GameData::new();
    let mut heap = GameDataHeap::default();
    initialize(&mut cache, &mut heap, &text.as_bytes().to_vec()).unwrap();
    let cells = heap.level_data.options[0][0].map.len();
    next_level_with(&mut cache, &mut heap, 0, &vec![false; cells], &still());
    cache.ui_data.menu = MENU_GAME;
    (cache, heap)
}

fn arm(cache: &mut GameData, heap: &mut GameDataHeap, origin: u8) {
    cache.ui_data.source_hover = origin;
    assert!(click_down(cache, heap));
}

fn quiet(own: u16, clip: u8) -> Inflow {
    Inflow {
        own,
        clip,
        up: false,
        down: false,
        left: false,
        right: false,
        split_v: false,
        split_h: false,
        beam_v: false,
        beam_h: false,
    }
}

#[test]
fn rule_leaves_a_cell_without_inflow_alone() {
    for clip in 0..=255u8 {
        assert_eq!(apply_rule(&quiet(0, clip)), None);
    }
    for own in [BEAM_H, BEAM_V, BEAM_SPLIT_X, BEAM_STOP_L, ORB_ACTIVE, BEAM_SPLIT_TL] {
        assert_eq!(apply_rule(&quiet(own, CLIPPING_NONE)), None);
    }
}

#[test]
fn rule_crosses_a_straight_beam() {
    let mut f = quiet(BEAM_H, CLIPPING_NONE);
    f.up = true;
    assert_eq!(apply_rule(&f), Some(BEAM_SPLIT_X));
    let mut f = quiet(BEAM_H, CLIPPING_NONE);
    f.left = true;
    f.right = true;
    assert_eq!(apply_rule(&f), None);
    let mut f = quiet(BEAM_V, CLIPPING_NONE);
    f.right = true;
    assert_eq!(apply_rule(&f), Some(BEAM_SPLIT_X));
    let mut f = quiet(BEAM_V, CLIPPING_NONE);
    f.up = true;
    f.down = true;
    assert_eq!(apply_rule(&f), None);
    // nothing but a straight beam is ever repainted
    let mut f = quiet(BEAM_SPLIT_X, CLIPPING_NONE);
    f.up = true;
    f.left = true;
    assert_eq!(apply_rule(&f), None);
    let mut f = quiet(BEAM_STOP_U, CLIPPING_BLOCK);
    f.left = true;
    assert_eq!(apply_rule(&f), None);
}

#[test]
fn rule_paints_open_floor_by_the_order_of_its_cases() {
    let mut f = quiet(0, CLIPPING_NONE);
    f.up = true;
    assert_eq!(apply_rule(&f), Some(BEAM_V));
    f.left = true;
    // the emitter beside the cell goes before the emitter above it
    assert_eq!(apply_rule(&f), Some(BEAM_H));
    f.beam_v = true;
    assert_eq!(apply_rule(&f), Some(BEAM_V));
    f.beam_h = true;
    assert_eq!(apply_rule(&f), Some(BEAM_H));
    f.split_h = true;
    assert_eq!(apply_rule(&f), Some(BEAM_H));
    f.split_v = true;
    assert_eq!(apply_rule(&f), Some(BEAM_V));
}

#[test]
fn rule_stops_the_beam_at_a_block() {
    for clip in [CLIPPING_BLOCK, CLIPPING_SOURCE] {
        let mut f = quiet(0, clip);
        f.up = true;
        assert_eq!(apply_rule(&f), Some(BEAM_STOP_U));
        f.down = true;
        assert_eq!(apply_rule(&f), Some(BEAM_STOP_D));
        f.left = true;
        assert_eq!(apply_rule(&f), Some(BEAM_STOP_L));
        f.right = true;
        assert_eq!(apply_rule(&f), Some(BEAM_STOP_R));
    }
}

#[test]
fn rule_lights_an_orb_from_any_side() {
    for side in 0..4 {
        let mut f = quiet(0, CLIPPING_ORB);
        match side {
            0 => f.up = true,
            1 => f.down = true,
            2 => f.left = true,
            _ => f.right = true,
        }
        assert_eq!(apply_rule(&f), Some(ORB_ACTIVE));
    }
}

#[test]
fn rule_gives_each_reflector_its_split_from_the_sides_it_accepts() {
    // for each reflector: its split, and whether it accepts from up, down, left, right
    let table = [
        (REFLECTOR_BL, BEAM_SPLIT_BL, [true, false, false, true]),
        (REFLECTOR_BR, BEAM_SPLIT_BR, [true, false, true, false]),
        (REFLECTOR_TL, BEAM_SPLIT_TL, [false, true, false, true]),
        (REFLECTOR_TR, BEAM_SPLIT_TR, [false, true, true, false]),
        (REFLECTOR_D, BEAM_SPLIT_D, [true, false, false, false]),
        (REFLECTOR_U, BEAM_SPLIT_U, [false, true, false, false]),
        (REFLECTOR_L, BEAM_SPLIT_L, [false, false, false, true]),
        (REFLECTOR_R, BEAM_SPLIT_R, [false, false, true, false]),
    ];
    for (reflector, split, accepts) in table {
        for side in 0..4 {
            let mut f = quiet(0, reflector as u8);
            match side {
                0 => f.up = true,
                1 => f.down = true,
                2 => f.left = true,
                _ => f.right = true,
            }
            let expected = if accepts[side] { Some(split) } else { None };
            assert_eq!(apply_rule(&f), expected);
        }
    }
}

#[test]
fn read_inflow_looks_at_the_four_neighbours() {
    let mut beams = vec![0u16; 25];
    let clipping = vec![0u8; 25];
    beams[7] = BEAM_V; // above the centre
    beams[11] = BEAM_SPLIT_TL; // left of the centre, opens to the right
    beams[13] = BEAM_SPLIT_TL; // right of the centre, does not open to the left
    let f = read_inflow(&beams, &clipping, 5, 17, 12);
    assert_eq!(f.own, 0);
    assert!(f.up && f.beam_v && !f.split_v);
    assert!(f.left && f.split_h && !f.beam_h);
    assert!(!f.right);
    // the emitter below the cell counts as inflow from below
    assert!(f.down);
    let f = read_inflow(&beams, &clipping, 5, 2, 12);
    assert!(!f.down);
}

#[test]
fn first_change_finds_the_first_cell_in_row_major_order() {
    let beams = vec![0u16; 25];
    let clipping = vec![0u8; 25];
    // an emitter in the top row feeds the cell below it
    assert_eq!(first_change(&beams, &clipping, 5, 2), Some((7, BEAM_V)));
    // an emitter on the left edge feeds the cell beside it
    assert_eq!(first_change(&beams, &clipping, 5, 10), Some((11, BEAM_H)));
    // an emitter in a corner feeds nothing
    assert_eq!(first_change(&beams, &clipping, 5, 0), None);
    // with two candidates the one with the smaller index is taken
    let mut beams = vec![0u16; 25];
    beams[12] = BEAM_SPLIT_X;
    assert_eq!(first_change(&beams, &clipping, 5, 0), Some((7, BEAM_V)));
}

#[test]
fn settle_overlay_runs_a_beam_across_the_board() {
    let mut beams = vec![0u16; 25];
    beams[10] = BEAM_STOP_R;
    let clipping = vec![0u8; 25];
    settle_overlay(&mut beams, &clipping, 5, 10);
    let mut expected = vec![0u16; 25];
    expected[10] = BEAM_STOP_R;
    expected[11] = BEAM_H;
    expected[12] = BEAM_H;
    expected[13] = BEAM_H;
    assert_eq!(beams, expected);
    // run again, the engine changes nothing
    settle_overlay(&mut beams, &clipping, 5, 10);
    assert_eq!(beams, expected);
    assert_eq!(first_change(&beams, &clipping, 5, 10), None);
}

#[test]
fn scenario_beam_runs_straight_into_the_orb_and_wins() {
    // side 5, emitter at (0, 2) pointing right, orb at (3, 2), no pieces
    let (mut cache, mut heap) = playing("8,5,1,M.K\n");
    arm(&mut cache, &mut heap, 10);
    let beams = &heap.scene_data.beams;
    assert_eq!(beams[10], BEAM_STOP_R);
    assert_eq!(beams[11], BEAM_H);
    assert_eq!(beams[12], BEAM_H);
    assert_eq!(beams[13], ORB_ACTIVE);
    assert_eq!(beams.iter().filter(|&&c| c != 0).count(), 4);
    assert!(!cache.level_complete);
    assert!(click(&mut cache, &mut heap, 112, 140));
    assert!(cache.level_complete);
    assert_eq!(cache.ui_data.transition_mode, TRANSITION_MODE_FLASH);
    assert_eq!(cache.ui_data.beam_origin, BOARD_IDX_INVALID);
}

#[test]
fn scenario_reflector_turns_the_beam_down_onto_the_orb() {
    // side 7, emitter at (0, 2) pointing right, the top-right reflector at (2, 2), orb at (2, 4)
    let (mut cache, mut heap) = playing("8,7,1,ZD.R\n");
    assert_eq!(heap.scene_data.tilemap[30], 6);
    place_piece(&mut cache, &mut heap, 1, 16);
    arm(&mut cache, &mut heap, 14);
    let beams = &heap.scene_data.beams;
    assert_eq!(beams[15], BEAM_H);
    assert_eq!(beams[16], BEAM_SPLIT_TR);
    assert_eq!(beams[23], BEAM_V);
    assert_eq!(beams[30], ORB_ACTIVE);
    assert_eq!(beams[14], BEAM_STOP_R);
    assert_eq!(beams.iter().filter(|&&c| c != 0).count(), 5);
}

#[test]
fn scenario_reflector_hit_from_a_side_it_does_not_accept_stays_dark() {
    // the bottom-left reflector accepts from above and from the right only
    let (mut cache, mut heap) = playing("8,7,1,ZD.R\n");
    place_piece(&mut cache, &mut heap, 4, 16);
    arm(&mut cache, &mut heap, 14);
    let beams = &heap.scene_data.beams;
    assert_eq!(beams[15], BEAM_H);
    assert_eq!(beams[16], 0);
    assert_eq!(beams[30], 0);
    // from above it is accepted, and the beam leaves to the right
    let (mut cache, mut heap) = playing("8,7,1,ZD.R\n");
    place_piece(&mut cache, &mut heap, 4, 16);
    arm(&mut cache, &mut heap, 2);
    let beams = &heap.scene_data.beams;
    assert_eq!(beams[9], BEAM_V);
    assert_eq!(beams[16], BEAM_SPLIT_BL);
    assert_eq!(&beams[17..20], &[BEAM_H, BEAM_H, BEAM_H]);
    assert_eq!(beams[23], 0);
}

#[test]
fn scenario_two_paths_cross_in_one_cell() {
    // side 7, orbs at (1, 5) and (3, 5); the splitter at (3, 2) sends the beam up and down,
    // two reflectors lead the upper half round and down across the beam of the emitter
    let (mut cache, mut heap) = playing("8,7,2,ZJ.A.J\n");
    place_piece(&mut cache, &mut heap, 6, 17);
    place_piece(&mut cache, &mut heap, 1, 10);
    place_piece(&mut cache, &mut heap, 0, 8);
    arm(&mut cache, &mut heap, 14);
    let beams = heap.scene_data.beams.clone();
    let mut expected = vec![0u16; 49];
    expected[14] = BEAM_STOP_R;
    expected[15] = BEAM_SPLIT_X;
    expected[16] = BEAM_H;
    expected[17] = BEAM_SPLIT_R;
    expected[10] = BEAM_SPLIT_TR;
    expected[9] = BEAM_H;
    expected[8] = BEAM_SPLIT_TL;
    expected[22] = BEAM_V;
    expected[29] = BEAM_V;
    expected[36] = ORB_ACTIVE;
    expected[24] = BEAM_V;
    expected[31] = BEAM_V;
    expected[38] = ORB_ACTIVE;
    assert_eq!(beams, expected);
    assert_eq!(count_code(&beams, BEAM_SPLIT_X), 1);
    assert_eq!(count_code(&beams, ORB_ACTIVE), 2);
    assert!(click(&mut cache, &mut heap, 0, 0));
    assert!(cache.level_complete);
}

#[test]
fn scenario_board_without_orbs_is_never_won() {
    let (mut cache, mut heap) = playing("8,5,0,Y\n");
    assert_eq!(heap.scene_data.num_goals, 0);
    for origin in [1u8, 2, 3, 5, 10, 15, 9, 14, 19, 21, 22, 23] {
        arm(&mut cache, &mut heap, origin);
        assert_eq!(count_code(&heap.scene_data.beams, ORB_ACTIVE), 0);
        check_win(&mut cache, &mut heap);
        assert!(!cache.level_complete);
        click(&mut cache, &mut heap, 0, 0);
        assert!(!cache.level_complete);
        cache.ui_data.click_delay = 0;
    }
}

#[test]
fn lit_orbs_never_outnumber_the_orbs() {
    let (mut cache, mut heap) = playing("8,7,2,ZJ.A.J\n");
    place_piece(&mut cache, &mut heap, 6, 17);
    for origin in [1u8, 2, 3, 4, 5, 7, 14, 21, 28, 35, 13, 20, 27, 34, 41, 43, 44, 45, 46, 47] {
        cache.ui_data.click_delay = 0;
        cache.ui_data.beam_origin = BOARD_IDX_INVALID;
        arm(&mut cache, &mut heap, origin);
        assert!(count_code(&heap.scene_data.beams, ORB_ACTIVE) <= 2);
        for (i, &c) in heap.scene_data.beams.iter().enumerate() {
            if c == ORB_ACTIVE {
                assert_eq!(heap.scene_data.tilemap[i], 6);
            }
        }
    }
}

#[test]
fn same_board_pieces_and_emitter_give_the_same_overlay() {
    let (mut a, mut a_heap) = playing("8,7,2,ZJ.A.J\n");
    let (mut b, mut b_heap) = playing("8,7,2,ZJ.A.J\n");
    for (cache, heap) in [(&mut a, &mut a_heap), (&mut b, &mut b_heap)] {
        place_piece(cache, heap, 6, 17);
        place_piece(cache, heap, 1, 10);
    }
    // what differs between the two is nothing that the beam looks at
    b.ui_data.win_timer = 9;
    b.frame = 64;
    b_heap.scene_data.reflectors = vec![7; 49];
    arm(&mut a, &mut a_heap, 14);
    arm(&mut b, &mut b_heap, 14);
    assert_eq!(a_heap.scene_data.beams, b_heap.scene_data.beams);
    assert_eq!(a_heap.scene_data.clipping, b_heap.scene_data.clipping);
    // and the engine run again on its own overlay changes nothing
    let before = a_heap.scene_data.beams.clone();
    run_beam(&mut a, &mut a_heap, 14);
    assert_eq!(a_heap.scene_data.beams, before);
}

fn mirror_code(c: u16) -> u16 {
    match c {
        BEAM_STOP_L => BEAM_STOP_R,
        BEAM_STOP_R => BEAM_STOP_L,
        BEAM_SPLIT_TL => BEAM_SPLIT_TR,
        BEAM_SPLIT_TR => BEAM_SPLIT_TL,
        BEAM_SPLIT_BL => BEAM_SPLIT_BR,
        BEAM_SPLIT_BR => BEAM_SPLIT_BL,
        BEAM_SPLIT_L => BEAM_SPLIT_R,
        BEAM_SPLIT_R => BEAM_SPLIT_L,
        other => other,
    }
}

fn mirrored(beams: &Vec<u16>, n: usize) -> Vec<u16> {
    (0..n * n).map(|j| mirror_code(beams[j / n * n + (n - 1 - j % n)])).collect()
}

#[test]
fn flipped_board_shows_the_flipped_overlay() {
    let (mut a, mut a_heap) = playing("8,7,2,ZJ.A.J\n");
    place_piece(&mut a, &mut a_heap, 6, 17);
    place_piece(&mut a, &mut a_heap, 1, 10);
    place_piece(&mut a, &mut a_heap, 0, 8);
    let mut b = a.clone();
    let mut b_heap = a_heap.clone();
    flip_h(&mut b, &mut b_heap);
    arm(&mut a, &mut a_heap, 14);
    // the emitter at (0, 2) lies at (6, 2) after the flip
    arm(&mut b, &mut b_heap, 20);
    assert_eq!(b_heap.scene_data.beams, mirrored(&a_heap.scene_data.beams, 7));
    assert_eq!(count_code(&b_heap.scene_data.beams, ORB_ACTIVE), 2);
}

#[test]
fn beam_fades_in_twenty_ticks_once_let_go() {
    let (mut cache, mut heap) = playing("8,5,1,L.L\n");
    arm(&mut cache, &mut heap, 10);
    assert_eq!(cache.ui_data.beam_alpha, 20);
    assert!(cache.ui_data.beam_hold);
    // held, the beam keeps its strength
    update_game(&mut cache, &mut heap, 0, 0);
    assert_eq!(cache.ui_data.beam_alpha, 20);
    cache.ui_data.beam_hold = false;
    for tick in 1..20u8 {
        update_game(&mut cache, &mut heap, 0, 0);
        assert_eq!(cache.ui_data.beam_alpha, 20 - tick);
        assert_eq!(cache.ui_data.beam_origin, 10);
    }
    update_game(&mut cache, &mut heap, 0, 0);
    assert_eq!(cache.ui_data.beam_alpha, 0);
    assert_eq!(cache.ui_data.beam_origin, BOARD_IDX_INVALID);
}

#[test]
fn block_lit_from_two_sides_shows_the_side_found_first() {
    // side 7 with a block at (3, 4); the splitter at (3, 2) sends one half of the beam down the
    // column onto the block, the other half is led round by three reflectors and reaches the
    // block along the row
    let mut cache = GameData::new();
    let mut heap = GameDataHeap::default();
    initialize(&mut cache, &mut heap, &b"8,7,0,ZEaQ\n".to_vec()).unwrap();
    let mut mask = vec![false; 49];
    mask[31] = true;
    next_level_with(&mut cache, &mut heap, 0, &mask, &still());
    cache.ui_data.menu = MENU_GAME;
    assert_eq!(heap.scene_data.tilemap[31], 5);
    place_piece(&mut cache, &mut heap, 6, 17);
    place_piece(&mut cache, &mut heap, 1, 10);
    place_piece(&mut cache, &mut heap, 0, 8);
    place_piece(&mut cache, &mut heap, 4, 29);
    let mut flipped = cache.clone();
    let mut flipped_heap = heap.clone();
    flip_h(&mut flipped, &mut flipped_heap);
    arm(&mut cache, &mut heap, 14);
    arm(&mut flipped, &mut flipped_heap, 20);
    let beams = &heap.scene_data.beams;
    assert_eq!((beams[24], beams[30]), (BEAM_V, BEAM_H));
    // both halves have arrived when the scan comes to the block: the side beside it goes first
    assert_eq!(beams[31], BEAM_STOP_L);
    let across = &flipped_heap.scene_data.beams;
    assert_eq!((across[24], across[32]), (BEAM_V, BEAM_H));
    // on the flipped board the scan comes to the block before the second half has arrived
    assert_eq!(across[31], BEAM_STOP_U);
    // everywhere else the overlay is the mirror image
    let mut image = mirrored(beams, 7);
    assert_eq!(image[31], BEAM_STOP_R);
    image[31] = across[31];
    assert_eq!(*across, image);
}

#[test]
fn smallest_board_has_one_cell_for_the_beam() {
    // side 3: the orb in the middle is lit from any of the four sources
    for origin in [1u8, 3, 5, 7] {
        let (mut cache, mut heap) = playing("8,3,1,D.D\n");
        assert_eq!(heap.scene_data.tilemap, vec![0, 34, 0, 36, 6, 35, 0, 33, 0]);
        arm(&mut cache, &mut heap, origin);
        assert_eq!(heap.scene_data.beams[4], ORB_ACTIVE);
        assert_eq!(count_code(&heap.scene_data.beams, 0), 7);
        assert!(click(&mut cache, &mut heap, 0, 0));
        assert!(cache.level_complete);
    }
}

#[test]
fn largest_board_carries_the_beam_from_edge_to_edge() {
    let row = "O"; // fifteen cells of floor
    let text = format!("24,15,0,{}\n", row.repeat(15));
    let (mut cache, mut heap) = playing(&text);
    assert_eq!(heap.scene_data.tilemap.len(), 225);
    // the source at (0, 7) sends the beam along the row to the source across, which it does not reach into
    arm(&mut cache, &mut heap, 105);
    let beams = &heap.scene_data.beams;
    assert_eq!(beams[105], BEAM_STOP_R);
    for x in 1..14 {
        assert_eq!(beams[105 + x], BEAM_H);
    }
    assert_eq!(beams[119], 0);
    assert_eq!(beams.iter().filter(|&&c| c != 0).count(), 14);
    // a piece in the last interior column turns it down to the bottom row
    cache.ui_data.click_delay = 0;
    cache.ui_data.beam_origin = BOARD_IDX_INVALID;
    place_piece(&mut cache, &mut heap, 1, 118);
    arm(&mut cache, &mut heap, 105);
    let beams = &heap.scene_data.beams;
    assert_eq!(beams[118], BEAM_SPLIT_TR);
    for y in 8..14 {
        assert_eq!(beams[y * 15 + 13], BEAM_V);
    }
    assert_eq!(beams[14 * 15 + 13], 0);
}

#[test]
fn block_and_source_stop_the_beam_and_show_its_side() {
    let mut cache = GameData::new();
    let mut heap = GameDataHeap::default();
    initialize(&mut cache, &mut heap, &b"8,5,0,LaL\n".to_vec()).unwrap();
    next_level_with(&mut cache, &mut heap, 0, &vec![true; 25], &still());
    cache.ui_data.menu = MENU_GAME;
    assert_eq!(heap.scene_data.tilemap[12], 5);
    for (origin, stop) in [(2u8, BEAM_STOP_U), (22, BEAM_STOP_D), (10, BEAM_STOP_L), (14, BEAM_STOP_R)] {
        cache.ui_data.click_delay = 0;
        cache.ui_data.beam_origin = BOARD_IDX_INVALID;
        arm(&mut cache, &mut heap, origin);
        assert_eq!(heap.scene_data.beams[12], stop);
        assert_eq!(heap.scene_data.beams.iter().filter(|&&c| c != 0).count(), 3);
    }
}
