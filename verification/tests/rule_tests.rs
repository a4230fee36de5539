use mirrorb::beam::{apply_rule, first_change, read_inflow, settle_overlay};
use mirrorb::enums::{
    BEAM_H, BEAM_SPLIT_BL, BEAM_SPLIT_BR, BEAM_SPLIT_D, BEAM_SPLIT_L, BEAM_SPLIT_R, BEAM_SPLIT_TL, BEAM_SPLIT_TR,
    BEAM_SPLIT_U, BEAM_SPLIT_X, BEAM_STOP_D, BEAM_STOP_L, BEAM_STOP_R, BEAM_STOP_U, BEAM_V, BLOCK, ORB, ORB_ACTIVE,
    REFLECTOR_BL, REFLECTOR_BR, REFLECTOR_D, REFLECTOR_L, REFLECTOR_R, REFLECTOR_TL, REFLECTOR_TR, REFLECTOR_U,
};

// The rule of the engine written out neighbour by neighbour and code by code.
fn by_the_book(beams: &[u16], clipping: &[u8], n: usize, orig: usize, idx: usize) -> Option<u16> {
    let (up, down, left, right) = (idx - n, idx + n, idx - 1, idx + 1);
    let (bu, bd, bl, br) = (beams[up], beams[down], beams[left], beams[right]);
    let clipped = clipping[idx] as u16;
    let any = |code: u16, cells: &[u16]| cells.contains(&code);
    let from_up = any(bu, &[BEAM_V, BEAM_SPLIT_X, BEAM_SPLIT_TL, BEAM_SPLIT_TR, BEAM_SPLIT_L, BEAM_SPLIT_R])
        || orig == up;
    let from_down = any(bd, &[BEAM_V, BEAM_SPLIT_X, BEAM_SPLIT_BL, BEAM_SPLIT_BR, BEAM_SPLIT_L, BEAM_SPLIT_R])
        || orig == down;
    let from_left = any(bl, &[BEAM_H, BEAM_SPLIT_X, BEAM_SPLIT_TL, BEAM_SPLIT_BL, BEAM_SPLIT_U, BEAM_SPLIT_D])
        || orig == left;
    let from_right = any(br, &[BEAM_H, BEAM_SPLIT_X, BEAM_SPLIT_BR, BEAM_SPLIT_TR, BEAM_SPLIT_U, BEAM_SPLIT_D])
        || orig == right;
    let mut tile = None;
    if 0 != beams[idx] {
        if BEAM_H == beams[idx] && (from_up || from_down) {
            tile = Some(BEAM_SPLIT_X);
        } else if BEAM_V == beams[idx] && (from_left || from_right) {
            tile = Some(BEAM_SPLIT_X);
        }
        return tile;
    }
    if 0 == clipped {
        if up == orig || down == orig {
            tile = Some(BEAM_V);
        }
        if left == orig || right == orig {
            tile = Some(BEAM_H);
        }
        if BEAM_V == bu || BEAM_V == bd || BEAM_SPLIT_X == bu || BEAM_SPLIT_X == bd {
            tile = Some(BEAM_V);
        }
        if BEAM_H == bl || BEAM_H == br || BEAM_SPLIT_X == bl || BEAM_SPLIT_X == br {
            tile = Some(BEAM_H);
        }
        if BEAM_SPLIT_BL == bl
            || BEAM_SPLIT_TL == bl
            || BEAM_SPLIT_BR == br
            || BEAM_SPLIT_TR == br
            || BEAM_SPLIT_U == bl
            || BEAM_SPLIT_D == bl
            || BEAM_SPLIT_U == br
            || BEAM_SPLIT_D == br
        {
            tile = Some(BEAM_H);
        }
        if BEAM_SPLIT_BL == bd
            || BEAM_SPLIT_TL == bu
            || BEAM_SPLIT_BR == bd
            || BEAM_SPLIT_TR == bu
            || BEAM_SPLIT_L == bu
            || BEAM_SPLIT_R == bu
            || BEAM_SPLIT_L == bd
            || BEAM_SPLIT_R == bd
        {
            tile = Some(BEAM_V);
        }
    } else if BLOCK == clipped || 1 == clipped {
        if from_up {
            tile = Some(BEAM_STOP_U);
        }
        if from_down {
            tile = Some(BEAM_STOP_D);
        }
        if from_left {
            tile = Some(BEAM_STOP_L);
        }
        if from_right {
            tile = Some(BEAM_STOP_R);
        }
    } else if ORB == clipped {
        if from_up || from_down || from_left || from_right {
            tile = Some(ORB_ACTIVE);
        }
    } else if REFLECTOR_BL == clipped {
        if from_up || from_right {
            tile = Some(BEAM_SPLIT_BL);
        }
    } else if REFLECTOR_BR == clipped {
        if from_up || from_left {
            tile = Some(BEAM_SPLIT_BR);
        }
    } else if REFLECTOR_TL == clipped {
        if from_down || from_right {
            tile = Some(BEAM_SPLIT_TL);
        }
    } else if REFLECTOR_TR == clipped {
        if from_down || from_left {
            tile = Some(BEAM_SPLIT_TR);
        }
    } else if REFLECTOR_D == clipped {
        if from_up {
            tile = Some(BEAM_SPLIT_D);
        }
    } else if REFLECTOR_L == clipped {
        if from_right {
            tile = Some(BEAM_SPLIT_L);
        }
    } else if REFLECTOR_U == clipped {
        if from_down {
            tile = Some(BEAM_SPLIT_U);
        }
    } else if REFLECTOR_R == clipped {
        if from_left {
            tile = Some(BEAM_SPLIT_R);
        }
    }
    tile
}

fn draw(seed: &mut u64, below: usize) -> usize {
    *seed = seed.wrapping_mul(6364136223846793005).wrapping_add(1442695040888963407);
    ((*seed >> 33) as usize) % below
}

const CODES: [u16; 19] =
    [0, 0, 0, 7, 41, 42, 43, 44, 45, 46, 47, 49, 50, 51, 52, 53, 54, 55, 56];
const CLASSES: [u8; 16] = [0, 0, 0, 1, 5, 6, 17, 18, 19, 20, 21, 22, 23, 24, 2, 99];

#[test]
fn rule_agrees_with_the_rule_written_out_on_drawn_boards() {
    let mut seed = 7u64;
    for round in 0..3000 {
        let n = 3 + round % 6;
        let beams: Vec<u16> = (0..n * n).map(|_| CODES[draw(&mut seed, CODES.len())]).collect();
        let clipping: Vec<u8> = (0..n * n).map(|_| CLASSES[draw(&mut seed, CLASSES.len())]).collect();
        let orig = draw(&mut seed, n * n + 3);
        let mut first = None;
        for y in 1..n - 1 {
            for x in 1..n - 1 {
                let idx = y * n + x;
                let expected = by_the_book(&beams, &clipping, n, orig, idx);
                let f = read_inflow(&beams, &clipping, n, orig, idx);
                assert_eq!(apply_rule(&f), expected);
                if first.is_none() {
                    first = expected.map(|v| (idx, v));
                }
            }
        }
        assert_eq!(first_change(&beams, &clipping, n, orig), first);
    }
}

#[test]
fn engine_comes_to_rest_on_drawn_boards() {
    let mut seed = 99u64;
    for round in 0..300 {
        let n = 3 + round % 13;
        let clipping: Vec<u8> = (0..n * n).map(|_| CLASSES[draw(&mut seed, CLASSES.len())]).collect();
        let edge: Vec<usize> = (0..n * n)
            .filter(|i| {
                let (x, y) = (i % n, i / n);
                (x == 0 || x == n - 1) != (y == 0 || y == n - 1)
            })
            .collect();
        let orig = edge[draw(&mut seed, edge.len())];
        let mut beams = vec![0u16; n * n];
        beams[orig] = BEAM_STOP_R;
        // the engine step by step, by the rule written out
        let mut slow = beams.clone();
        let mut steps = 0;
        loop {
            let mut change = None;
            'scan: for y in 1..n - 1 {
                for x in 1..n - 1 {
                    let idx = y * n + x;
                    if let Some(v) = by_the_book(&slow, &clipping, n, orig, idx) {
                        change = Some((idx, v));
                        break 'scan;
                    }
                }
            }
            match change {
                Some((idx, v)) => slow[idx] = v,
                None => break,
            }
            steps += 1;
            assert!(steps <= 2 * n * n);
        }
        settle_overlay(&mut beams, &clipping, n, orig);
        assert_eq!(beams, slow);
        assert_eq!(first_change(&beams, &clipping, n, orig), None);
        for y in 0..n {
            for x in 0..n {
                if x == 0 || x == n - 1 || y == 0 || y == n - 1 {
                    let i = y * n + x;
                    assert_eq!(beams[i], if i == orig { BEAM_STOP_R } else { 0 });
                }
            }
        }
    }
}
