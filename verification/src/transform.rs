//! The three board transforms as mathematics: where each sends a cell, what
//! it does to a tilemap and to the positions of the pieces, and the laws that
//! relate them.
//!
//! A transform moves the interior cells of the tilemap and leaves the border
//! alone. A piece moves with its cell and changes its inventory slot to the
//! slot of the orientation that it shows after the move.

use vstd::prelude::*;
use crate::enums::BOARD_IDX_INVALID;
use crate::grid::{cell, count, interior, lemma_cell, lemma_count_permuted, lemma_xy};

verus! {

/// Where the horizontal flip sends the cell `b`: `(x, y)` to `(n-1-x, y)`.
pub open spec fn flip_h_at(n: int, b: int) -> int {
    cell(n, n - 1 - b % n, b / n)
}

/// Where the vertical flip sends the cell `b`: `(x, y)` to `(x, n-1-y)`.
pub open spec fn flip_v_at(n: int, b: int) -> int {
    cell(n, b % n, n - 1 - b / n)
}

/// Where the quarter turn clockwise sends the cell `b`: `(x, y)` to
/// `(n-1-y, x)`.
pub open spec fn rotate_at(n: int, b: int) -> int {
    cell(n, n - 1 - b / n, b % n)
}

/// The cell that the quarter turn clockwise sends to `b`.
pub open spec fn unrotate_at(n: int, b: int) -> int {
    cell(n, b / n, n - 1 - b % n)
}

/// The horizontal flip of a cell of the board is a cell of the board, with
/// the column mirrored and the row kept.
pub proof fn lemma_flip_h_at(n: int, b: int)
    requires
        n > 0,
        0 <= b < n * n,
    ensures
        0 <= flip_h_at(n, b) < n * n,
        flip_h_at(n, b) % n == n - 1 - b % n,
        flip_h_at(n, b) / n == b / n,
        interior(n, flip_h_at(n, b)) == interior(n, b),
{
    lemma_xy(n, b);
    lemma_cell(n, n - 1 - b % n, b / n);
}

/// The vertical flip of a cell of the board is a cell of the board, with the
/// row mirrored and the column kept.
pub proof fn lemma_flip_v_at(n: int, b: int)
    requires
        n > 0,
        0 <= b < n * n,
    ensures
        0 <= flip_v_at(n, b) < n * n,
        flip_v_at(n, b) % n == b % n,
        flip_v_at(n, b) / n == n - 1 - b / n,
        interior(n, flip_v_at(n, b)) == interior(n, b),
{
    lemma_xy(n, b);
    lemma_cell(n, b % n, n - 1 - b / n);
}

/// The quarter turn of a cell of the board is a cell of the board, in the
/// column of the mirrored row and the row of the column.
pub proof fn lemma_rotate_at(n: int, b: int)
    requires
        n > 0,
        0 <= b < n * n,
    ensures
        0 <= rotate_at(n, b) < n * n,
        rotate_at(n, b) % n == n - 1 - b / n,
        rotate_at(n, b) / n == b % n,
        interior(n, rotate_at(n, b)) == interior(n, b),
        rotate_at(n, b) == n - 1 - b / n + (b % n) * n,
{
    lemma_xy(n, b);
    lemma_cell(n, n - 1 - b / n, b % n);
}

/// The quarter turn backwards of a cell of the board is a cell of the board.
pub proof fn lemma_unrotate_at(n: int, b: int)
    requires
        n > 0,
        0 <= b < n * n,
    ensures
        0 <= unrotate_at(n, b) < n * n,
        unrotate_at(n, b) % n == b / n,
        unrotate_at(n, b) / n == n - 1 - b % n,
        interior(n, unrotate_at(n, b)) == interior(n, b),
{
    lemma_xy(n, b);
    lemma_cell(n, b / n, n - 1 - b % n);
}

/// How the three cell maps compose: each flip undoes itself, the quarter
/// turn and the turn backwards undo each other, four quarter turns come back
/// to the start, and the two flips together, in either order, make two
/// quarter turns.
pub proof fn lemma_cell_maps(n: int, b: int)
    requires
        n > 0,
        0 <= b < n * n,
    ensures
        flip_h_at(n, flip_h_at(n, b)) == b,
        flip_v_at(n, flip_v_at(n, b)) == b,
        rotate_at(n, unrotate_at(n, b)) == b,
        unrotate_at(n, rotate_at(n, b)) == b,
        rotate_at(n, rotate_at(n, rotate_at(n, rotate_at(n, b)))) == b,
        unrotate_at(n, unrotate_at(n, unrotate_at(n, unrotate_at(n, b)))) == b,
        flip_h_at(n, flip_v_at(n, b)) == rotate_at(n, rotate_at(n, b)),
        flip_v_at(n, flip_h_at(n, b)) == rotate_at(n, rotate_at(n, b)),
        flip_v_at(n, flip_h_at(n, b)) == unrotate_at(n, unrotate_at(n, b)),
{
    lemma_xy(n, b);
    lemma_flip_h_at(n, b);
    lemma_flip_h_at(n, flip_h_at(n, b));
    lemma_flip_v_at(n, b);
    lemma_flip_v_at(n, flip_v_at(n, b));
    lemma_flip_h_at(n, flip_v_at(n, b));
    lemma_flip_v_at(n, flip_h_at(n, b));
    lemma_unrotate_at(n, b);
    lemma_rotate_at(n, unrotate_at(n, b));
    let r1 = rotate_at(n, b);
    lemma_rotate_at(n, b);
    lemma_unrotate_at(n, r1);
    let r2 = rotate_at(n, r1);
    lemma_rotate_at(n, r1);
    let r3 = rotate_at(n, r2);
    lemma_rotate_at(n, r2);
    lemma_rotate_at(n, r3);
    let u1 = unrotate_at(n, b);
    let u2 = unrotate_at(n, u1);
    lemma_unrotate_at(n, u1);
    let u3 = unrotate_at(n, u2);
    lemma_unrotate_at(n, u2);
    lemma_unrotate_at(n, u3);
}

/// The tilemap after the horizontal flip.
pub open spec fn flip_h_tiles(t: Seq<u16>, n: int) -> Seq<u16> {
    Seq::new(
        t.len(),
        |j: int|
            if interior(n, j) {
                t[flip_h_at(n, j)]
            } else {
                t[j]
            },
    )
}

/// The tilemap after the vertical flip.
pub open spec fn flip_v_tiles(t: Seq<u16>, n: int) -> Seq<u16> {
    Seq::new(
        t.len(),
        |j: int|
            if interior(n, j) {
                t[flip_v_at(n, j)]
            } else {
                t[j]
            },
    )
}

/// The tilemap after the quarter turn clockwise: the interior cell `j` shows
/// what the cell that is sent to `j` showed.
pub open spec fn rotate_tiles(t: Seq<u16>, n: int) -> Seq<u16> {
    Seq::new(
        t.len(),
        |j: int|
            if interior(n, j) {
                t[unrotate_at(n, j)]
            } else {
                t[j]
            },
    )
}

/// The slot that the horizontal flip gives the piece of slot `k`: within each
/// group of eight, top-left and top-right, left and right, bottom-left and
/// bottom-right change places.
pub open spec fn spec_flip_h_slot(k: int) -> int {
    let j = k % 8;
    k - j + if j == 0 {
        1int
    } else if j == 1 {
        0
    } else if j == 3 {
        6
    } else if j == 6 {
        3
    } else if j == 4 {
        5
    } else if j == 5 {
        4
    } else {
        j
    }
}

/// The slot that the vertical flip gives the piece of slot `k`: within each
/// group of eight, top-left and bottom-left, top-right and bottom-right, up
/// and down change places.
pub open spec fn spec_flip_v_slot(k: int) -> int {
    let j = k % 8;
    k - j + if j == 0 {
        4int
    } else if j == 4 {
        0
    } else if j == 1 {
        5
    } else if j == 5 {
        1
    } else if j == 2 {
        7
    } else if j == 7 {
        2
    } else {
        j
    }
}

/// The slot that the quarter turn gives the piece of slot `k`: within each
/// group of eight, the corners go round top-left, top-right, bottom-right,
/// bottom-left, and the walls go round up, right, down, left.
pub open spec fn spec_rotate_slot(k: int) -> int {
    let j = k % 8;
    k - j + if j == 0 {
        1int
    } else if j == 1 {
        5
    } else if j == 5 {
        4
    } else if j == 4 {
        0
    } else if j == 2 {
        6
    } else if j == 6 {
        7
    } else if j == 7 {
        3
    } else {
        2
    }
}

/// The slot whose piece the quarter turn moves to slot `k`.
pub open spec fn spec_unrotate_slot(k: int) -> int {
    let j = k % 8;
    k - j + if j == 1 {
        0int
    } else if j == 5 {
        1
    } else if j == 4 {
        5
    } else if j == 0 {
        4
    } else if j == 6 {
        2
    } else if j == 7 {
        6
    } else if j == 3 {
        7
    } else {
        3
    }
}

/// The slot that the horizontal flip gives the piece of slot `k`.
pub fn flip_h_slot(k: usize) -> (r: usize)
    requires
        k < 24,
    ensures
        r == spec_flip_h_slot(k as int),
        r < 24,
{
    let j: usize = k % 8;
    let to: usize = if j == 0 {
        1
    } else if j == 1 {
        0
    } else if j == 3 {
        6
    } else if j == 6 {
        3
    } else if j == 4 {
        5
    } else if j == 5 {
        4
    } else {
        j
    };
    k - j + to
}

/// The slot that the vertical flip gives the piece of slot `k`.
pub fn flip_v_slot(k: usize) -> (r: usize)
    requires
        k < 24,
    ensures
        r == spec_flip_v_slot(k as int),
        r < 24,
{
    let j: usize = k % 8;
    let to: usize = if j == 0 {
        4
    } else if j == 4 {
        0
    } else if j == 1 {
        5
    } else if j == 5 {
        1
    } else if j == 2 {
        7
    } else if j == 7 {
        2
    } else {
        j
    };
    k - j + to
}

/// The slot that the quarter turn gives the piece of slot `k`.
pub fn rotate_slot(k: usize) -> (r: usize)
    requires
        k < 24,
    ensures
        r == spec_rotate_slot(k as int),
        r < 24,
{
    let j: usize = k % 8;
    let to: usize = if j == 0 {
        1
    } else if j == 1 {
        5
    } else if j == 5 {
        4
    } else if j == 4 {
        0
    } else if j == 2 {
        6
    } else if j == 6 {
        7
    } else if j == 7 {
        3
    } else {
        2
    };
    k - j + to
}

/// The slot whose piece the quarter turn moves to slot `k`.
pub fn unrotate_slot(k: usize) -> (r: usize)
    requires
        k < 24,
    ensures
        r == spec_unrotate_slot(k as int),
        r < 24,
{
    let j: usize = k % 8;
    let to: usize = if j == 1 {
        0
    } else if j == 5 {
        1
    } else if j == 4 {
        5
    } else if j == 0 {
        4
    } else if j == 6 {
        2
    } else if j == 7 {
        6
    } else if j == 3 {
        7
    } else {
        3
    };
    k - j + to
}

/// How the slot maps compose, as the cell maps do; each keeps a slot within
/// its group of eight.
pub proof fn lemma_slot_maps(k: int)
    requires
        0 <= k < 24,
    ensures
        0 <= spec_flip_h_slot(k) < 24,
        0 <= spec_flip_v_slot(k) < 24,
        0 <= spec_rotate_slot(k) < 24,
        0 <= spec_unrotate_slot(k) < 24,
        spec_flip_h_slot(k) / 8 == k / 8,
        spec_flip_v_slot(k) / 8 == k / 8,
        spec_rotate_slot(k) / 8 == k / 8,
        spec_unrotate_slot(k) / 8 == k / 8,
        spec_flip_h_slot(spec_flip_h_slot(k)) == k,
        spec_flip_v_slot(spec_flip_v_slot(k)) == k,
        spec_rotate_slot(spec_unrotate_slot(k)) == k,
        spec_unrotate_slot(spec_rotate_slot(k)) == k,
        spec_unrotate_slot(spec_unrotate_slot(spec_unrotate_slot(spec_unrotate_slot(k)))) == k,
        spec_flip_v_slot(spec_flip_h_slot(k)) == spec_unrotate_slot(spec_unrotate_slot(k)),
        spec_flip_h_slot(spec_flip_v_slot(k)) == spec_unrotate_slot(spec_unrotate_slot(k)),
{
}

/// Where a transform that sends the cell `b` to `to` puts a piece: a piece in
/// the inventory stays there.
pub open spec fn moved(b: u8, to: int) -> u8 {
    if b == BOARD_IDX_INVALID {
        b
    } else {
        to as u8
    }
}

/// The positions of the pieces, slot by slot, after the horizontal flip.
pub open spec fn flip_h_positions(p: Seq<u8>, n: int) -> Seq<u8> {
    Seq::new(p.len(), |k: int| moved(p[spec_flip_h_slot(k)], flip_h_at(n, p[spec_flip_h_slot(k)] as int)))
}

/// The positions of the pieces, slot by slot, after the vertical flip.
pub open spec fn flip_v_positions(p: Seq<u8>, n: int) -> Seq<u8> {
    Seq::new(p.len(), |k: int| moved(p[spec_flip_v_slot(k)], flip_v_at(n, p[spec_flip_v_slot(k)] as int)))
}

/// The positions of the pieces, slot by slot, after the quarter turn.
pub open spec fn rotate_positions(p: Seq<u8>, n: int) -> Seq<u8> {
    Seq::new(p.len(), |k: int| moved(p[spec_unrotate_slot(k)], rotate_at(n, p[spec_unrotate_slot(k)] as int)))
}

/// Positions of twenty-four pieces, each in the inventory or on a cell of the
/// board.
pub open spec fn positions_on_board(p: Seq<u8>, n: int) -> bool {
    &&& p.len() == 24
    &&& forall|k: int| 0 <= k < 24 ==> #[trigger] p[k] == BOARD_IDX_INVALID || p[k] < n * n
}

/// The horizontal flip of a tilemap keeps how often each code occurs.
pub proof fn law_flip_h_keeps_counts(t: Seq<u16>, n: int, c: u16)
    requires
        n > 0,
        t.len() == n * n,
    ensures
        count(flip_h_tiles(t, n), c) == count(t, c),
{
    let g = |j: int|
        if interior(n, j) {
            flip_h_at(n, j)
        } else {
            j
        };
    assert forall|j: int| 0 <= j < n * n implies 0 <= #[trigger] g(j) < n * n && flip_h_tiles(t, n)[j] == t[g(j)]
        && g(g(j)) == j by {
        lemma_flip_h_at(n, j);
        lemma_cell_maps(n, j);
    }
    lemma_count_permuted(t, flip_h_tiles(t, n), g, g, c);
}

/// The vertical flip of a tilemap keeps how often each code occurs.
pub proof fn law_flip_v_keeps_counts(t: Seq<u16>, n: int, c: u16)
    requires
        n > 0,
        t.len() == n * n,
    ensures
        count(flip_v_tiles(t, n), c) == count(t, c),
{
    let g = |j: int|
        if interior(n, j) {
            flip_v_at(n, j)
        } else {
            j
        };
    assert forall|j: int| 0 <= j < n * n implies 0 <= #[trigger] g(j) < n * n && flip_v_tiles(t, n)[j] == t[g(j)]
        && g(g(j)) == j by {
        lemma_flip_v_at(n, j);
        lemma_cell_maps(n, j);
    }
    lemma_count_permuted(t, flip_v_tiles(t, n), g, g, c);
}

/// The quarter turn of a tilemap keeps how often each code occurs.
pub proof fn law_rotate_keeps_counts(t: Seq<u16>, n: int, c: u16)
    requires
        n > 0,
        t.len() == n * n,
    ensures
        count(rotate_tiles(t, n), c) == count(t, c),
{
    let g = |j: int|
        if interior(n, j) {
            unrotate_at(n, j)
        } else {
            j
        };
    let h = |j: int|
        if interior(n, j) {
            rotate_at(n, j)
        } else {
            j
        };
    assert forall|j: int| 0 <= j < n * n implies 0 <= #[trigger] g(j) < n * n && rotate_tiles(t, n)[j] == t[g(j)]
        && h(g(j)) == j by {
        lemma_unrotate_at(n, j);
        lemma_cell_maps(n, j);
    }
    assert forall|i: int| 0 <= i < n * n implies 0 <= #[trigger] h(i) < n * n && g(h(i)) == i by {
        lemma_rotate_at(n, i);
        lemma_cell_maps(n, i);
    }
    lemma_count_permuted(t, rotate_tiles(t, n), g, h, c);
}

/// Flipping horizontally twice gives back the tilemap and the positions.
pub proof fn law_flip_h_twice(t: Seq<u16>, p: Seq<u8>, n: int)
    requires
        0 < n <= 15,
        t.len() == n * n,
        positions_on_board(p, n),
    ensures
        flip_h_tiles(flip_h_tiles(t, n), n) == t,
        flip_h_positions(flip_h_positions(p, n), n) == p,
{
    assert(n * n <= 225) by (nonlinear_arith)
        requires
            0 < n <= 15,
    ;
    assert forall|j: int| 0 <= j < n * n implies flip_h_tiles(flip_h_tiles(t, n), n)[j] == t[j] by {
        lemma_flip_h_at(n, j);
        lemma_cell_maps(n, j);
    }
    assert(flip_h_tiles(flip_h_tiles(t, n), n) =~= t);
    assert forall|k: int| 0 <= k < 24 implies flip_h_positions(flip_h_positions(p, n), n)[k] == p[k] by {
        lemma_slot_maps(k);
        lemma_slot_maps(spec_flip_h_slot(k));
        if p[k] != BOARD_IDX_INVALID {
            lemma_flip_h_at(n, p[k] as int);
            lemma_cell_maps(n, p[k] as int);
        }
    }
    assert(flip_h_positions(flip_h_positions(p, n), n) =~= p);
}

/// Flipping vertically twice gives back the tilemap and the positions.
pub proof fn law_flip_v_twice(t: Seq<u16>, p: Seq<u8>, n: int)
    requires
        0 < n <= 15,
        t.len() == n * n,
        positions_on_board(p, n),
    ensures
        flip_v_tiles(flip_v_tiles(t, n), n) == t,
        flip_v_positions(flip_v_positions(p, n), n) == p,
{
    assert(n * n <= 225) by (nonlinear_arith)
        requires
            0 < n <= 15,
    ;
    assert forall|j: int| 0 <= j < n * n implies flip_v_tiles(flip_v_tiles(t, n), n)[j] == t[j] by {
        lemma_flip_v_at(n, j);
        lemma_cell_maps(n, j);
    }
    assert(flip_v_tiles(flip_v_tiles(t, n), n) =~= t);
    assert forall|k: int| 0 <= k < 24 implies flip_v_positions(flip_v_positions(p, n), n)[k] == p[k] by {
        lemma_slot_maps(k);
        lemma_slot_maps(spec_flip_v_slot(k));
        if p[k] != BOARD_IDX_INVALID {
            lemma_flip_v_at(n, p[k] as int);
            lemma_cell_maps(n, p[k] as int);
        }
    }
    assert(flip_v_positions(flip_v_positions(p, n), n) =~= p);
}

/// Two quarter turns of the positions: every piece has moved two slots on and
/// its cell has turned twice.
pub proof fn lemma_rotate_positions_twice(p: Seq<u8>, n: int, k: int)
    requires
        0 < n <= 15,
        positions_on_board(p, n),
        0 <= k < 24,
    ensures
        positions_on_board(rotate_positions(p, n), n),
        rotate_positions(rotate_positions(p, n), n)[k] == moved(
            p[spec_unrotate_slot(spec_unrotate_slot(k))],
            rotate_at(n, rotate_at(n, p[spec_unrotate_slot(spec_unrotate_slot(k))] as int)),
        ),
{
    assert(n * n <= 225) by (nonlinear_arith)
        requires
            0 < n <= 15,
    ;
    assert forall|i: int| 0 <= i < 24 implies #[trigger] rotate_positions(p, n)[i] == BOARD_IDX_INVALID
        || rotate_positions(p, n)[i] < n * n by {
        lemma_slot_maps(i);
        let b = p[spec_unrotate_slot(i)];
        if b != BOARD_IDX_INVALID {
            lemma_rotate_at(n, b as int);
        }
    }
    lemma_slot_maps(k);
    let k1 = spec_unrotate_slot(k);
    lemma_slot_maps(k1);
    let b = p[spec_unrotate_slot(k1)];
    if b != BOARD_IDX_INVALID {
        lemma_rotate_at(n, b as int);
    }
}

/// Four quarter turns give back the tilemap and the positions.
pub proof fn law_rotate_four_times(t: Seq<u16>, p: Seq<u8>, n: int)
    requires
        0 < n <= 15,
        t.len() == n * n,
        positions_on_board(p, n),
    ensures
        rotate_tiles(rotate_tiles(rotate_tiles(rotate_tiles(t, n), n), n), n) == t,
        rotate_positions(rotate_positions(rotate_positions(rotate_positions(p, n), n), n), n) == p,
{
    assert(n * n <= 225) by (nonlinear_arith)
        requires
            0 < n <= 15,
    ;
    let round_t = rotate_tiles(rotate_tiles(rotate_tiles(rotate_tiles(t, n), n), n), n);
    assert forall|j: int| 0 <= j < n * n implies round_t[j] == t[j] by {
        let u1 = unrotate_at(n, j);
        let u2 = unrotate_at(n, u1);
        let u3 = unrotate_at(n, u2);
        lemma_unrotate_at(n, j);
        lemma_unrotate_at(n, u1);
        lemma_unrotate_at(n, u2);
        lemma_unrotate_at(n, u3);
        lemma_cell_maps(n, j);
    }
    assert(round_t =~= t);
    let turned_p = rotate_positions(rotate_positions(p, n), n);
    let round_p = rotate_positions(rotate_positions(turned_p, n), n);
    assert forall|k: int| 0 <= k < 24 implies round_p[k] == p[k] by {
        lemma_rotate_positions_twice(p, n, 0);
        lemma_rotate_positions_twice(rotate_positions(p, n), n, 0);
        lemma_rotate_positions_twice(turned_p, n, k);
        let twin = spec_unrotate_slot(spec_unrotate_slot(k));
        lemma_slot_maps(k);
        lemma_slot_maps(spec_unrotate_slot(k));
        lemma_rotate_positions_twice(p, n, twin);
        lemma_slot_maps(twin);
        lemma_slot_maps(spec_unrotate_slot(twin));
        let b = p[k];
        if b != BOARD_IDX_INVALID {
            lemma_rotate_at(n, b as int);
            lemma_rotate_at(n, rotate_at(n, b as int));
            lemma_cell_maps(n, b as int);
        }
    }
    assert(round_p =~= p);
}

/// The horizontal flip of the vertical flip is two quarter turns, of the
/// tilemap and of the positions.
pub proof fn law_flips_make_half_turn(t: Seq<u16>, p: Seq<u8>, n: int)
    requires
        0 < n <= 15,
        t.len() == n * n,
        positions_on_board(p, n),
    ensures
        flip_h_tiles(flip_v_tiles(t, n), n) == rotate_tiles(rotate_tiles(t, n), n),
        flip_h_positions(flip_v_positions(p, n), n) == rotate_positions(rotate_positions(p, n), n),
{
    assert(n * n <= 225) by (nonlinear_arith)
        requires
            0 < n <= 15,
    ;
    let lhs = flip_h_tiles(flip_v_tiles(t, n), n);
    let rhs = rotate_tiles(rotate_tiles(t, n), n);
    assert forall|j: int| 0 <= j < n * n implies lhs[j] == rhs[j] by {
        lemma_flip_h_at(n, j);
        lemma_unrotate_at(n, j);
        lemma_cell_maps(n, j);
    }
    assert(lhs =~= rhs);
    let pl = flip_h_positions(flip_v_positions(p, n), n);
    let pr = rotate_positions(rotate_positions(p, n), n);
    assert forall|k: int| 0 <= k < 24 implies pl[k] == pr[k] by {
        lemma_rotate_positions_twice(p, n, k);
        lemma_slot_maps(k);
        lemma_slot_maps(spec_flip_h_slot(k));
        let b = p[spec_flip_v_slot(spec_flip_h_slot(k))];
        if b != BOARD_IDX_INVALID {
            lemma_flip_v_at(n, b as int);
            lemma_cell_maps(n, b as int);
        }
    }
    assert(pl =~= pr);
}

/// After the quarter turn, the piece that stood on the cell `b` in slot `k`
/// stands on the cell `n-1 - b/n + (b mod n)*n`, in the slot that the turn
/// gives to slot `k`.
pub proof fn law_rotate_piece(p: Seq<u8>, n: int, k: int)
    requires
        0 < n <= 15,
        positions_on_board(p, n),
        0 <= k < 24,
        p[k] != BOARD_IDX_INVALID,
    ensures
        rotate_positions(p, n)[spec_rotate_slot(k)] == n - 1 - p[k] / (n as u8) + (p[k] % (n as u8)) * n,
{
    assert(n * n <= 225) by (nonlinear_arith)
        requires
            0 < n <= 15,
    ;
    lemma_slot_maps(k);
    lemma_rotate_at(n, p[k] as int);
}

/// One of the three board transforms.
#[derive(Clone, Copy, Debug, PartialEq)]
pub enum Turn {
    FlipH,
    FlipV,
    Rotate,
}

/// Where the transform sends the cell `b`.
pub open spec fn to_cell(turn: Turn, n: int, b: int) -> int {
    match turn {
        Turn::FlipH => flip_h_at(n, b),
        Turn::FlipV => flip_v_at(n, b),
        Turn::Rotate => rotate_at(n, b),
    }
}

/// The cell that the transform sends to `b`.
pub open spec fn from_cell(turn: Turn, n: int, b: int) -> int {
    match turn {
        Turn::FlipH => flip_h_at(n, b),
        Turn::FlipV => flip_v_at(n, b),
        Turn::Rotate => unrotate_at(n, b),
    }
}

/// The slot whose piece the transform moves to slot `k`.
pub open spec fn from_slot(turn: Turn, k: int) -> int {
    match turn {
        Turn::FlipH => spec_flip_h_slot(k),
        Turn::FlipV => spec_flip_v_slot(k),
        Turn::Rotate => spec_unrotate_slot(k),
    }
}

/// The tilemap after the transform.
pub open spec fn turned_tiles(turn: Turn, t: Seq<u16>, n: int) -> Seq<u16> {
    match turn {
        Turn::FlipH => flip_h_tiles(t, n),
        Turn::FlipV => flip_v_tiles(t, n),
        Turn::Rotate => rotate_tiles(t, n),
    }
}

/// The positions of the pieces after the transform.
pub open spec fn turned_positions(turn: Turn, p: Seq<u8>, n: int) -> Seq<u8> {
    match turn {
        Turn::FlipH => flip_h_positions(p, n),
        Turn::FlipV => flip_v_positions(p, n),
        Turn::Rotate => rotate_positions(p, n),
    }
}

/// What all three transforms have in common: each sends the cells of the
/// board to cells of the board, interior to interior, and can be undone;
/// the tilemap and the positions after it are read off the cell map and the
/// slot map.
pub proof fn lemma_turn(turn: Turn, n: int, b: int)
    requires
        n > 0,
        0 <= b < n * n,
    ensures
        0 <= to_cell(turn, n, b) < n * n,
        0 <= from_cell(turn, n, b) < n * n,
        interior(n, to_cell(turn, n, b)) == interior(n, b),
        interior(n, from_cell(turn, n, b)) == interior(n, b),
        from_cell(turn, n, to_cell(turn, n, b)) == b,
        to_cell(turn, n, from_cell(turn, n, b)) == b,
{
    lemma_flip_h_at(n, b);
    lemma_flip_v_at(n, b);
    lemma_rotate_at(n, b);
    lemma_unrotate_at(n, b);
    lemma_cell_maps(n, b);
}

/// The tilemap and the positions after a transform, cell by cell and slot by
/// slot.
pub proof fn lemma_turned(turn: Turn, t: Seq<u16>, p: Seq<u8>, n: int)
    ensures
        turned_tiles(turn, t, n).len() == t.len(),
        turned_positions(turn, p, n).len() == p.len(),
        forall|j: int|
            0 <= j < t.len() ==> #[trigger] turned_tiles(turn, t, n)[j] == if interior(n, j) {
                t[from_cell(turn, n, j)]
            } else {
                t[j]
            },
        forall|k: int|
            0 <= k < p.len() ==> #[trigger] turned_positions(turn, p, n)[k] == moved(
                p[from_slot(turn, k)],
                to_cell(turn, n, p[from_slot(turn, k)] as int),
            ),
{
}

/// A transform keeps how often each code occurs in the tilemap.
pub proof fn law_turn_keeps_counts(turn: Turn, t: Seq<u16>, n: int, c: u16)
    requires
        n > 0,
        t.len() == n * n,
    ensures
        count(turned_tiles(turn, t, n), c) == count(t, c),
{
    law_flip_h_keeps_counts(t, n, c);
    law_flip_v_keeps_counts(t, n, c);
    law_rotate_keeps_counts(t, n, c);
}

/// Computes where the transform sends the cell `b`.
pub fn turn_cell(turn: Turn, n: usize, b: usize) -> (r: usize)
    requires
        3 <= n <= 15,
        b < n * n,
    ensures
        r == to_cell(turn, n as int, b as int),
        r < n * n,
{
    proof {
        lemma_xy(n as int, b as int);
        lemma_turn(turn, n as int, b as int);
    }
    assert(n * n <= 225) by (nonlinear_arith)
        requires
            3 <= n <= 15,
    ;
    let x: usize = b % n;
    let y: usize = b / n;
    assert(y * n <= 225 && x * n <= 225 && (n - 1 - y) * n <= 225) by (nonlinear_arith)
        requires
            x < n,
            y < n,
            3 <= n <= 15,
    ;
    match turn {
        Turn::FlipH => y * n + (n - 1 - x),
        Turn::FlipV => (n - 1 - y) * n + x,
        Turn::Rotate => x * n + (n - 1 - y),
    }
}

/// Computes the cell that the transform sends to `b`.
pub fn unturn_cell(turn: Turn, n: usize, b: usize) -> (r: usize)
    requires
        3 <= n <= 15,
        b < n * n,
    ensures
        r == from_cell(turn, n as int, b as int),
        r < n * n,
{
    proof {
        lemma_xy(n as int, b as int);
        lemma_turn(turn, n as int, b as int);
    }
    assert(n * n <= 225) by (nonlinear_arith)
        requires
            3 <= n <= 15,
    ;
    let x: usize = b % n;
    let y: usize = b / n;
    assert(y * n <= 225 && (n - 1 - x) * n <= 225 && (n - 1 - y) * n <= 225) by (nonlinear_arith)
        requires
            x < n,
            y < n,
            3 <= n <= 15,
    ;
    match turn {
        Turn::FlipH => y * n + (n - 1 - x),
        Turn::FlipV => (n - 1 - y) * n + x,
        Turn::Rotate => (n - 1 - x) * n + y,
    }
}

/// Computes the slot whose piece the transform moves to slot `k`.
pub fn unturn_slot(turn: Turn, k: usize) -> (r: usize)
    requires
        k < 24,
    ensures
        r == from_slot(turn, k as int),
        r < 24,
{
    match turn {
        Turn::FlipH => flip_h_slot(k),
        Turn::FlipV => flip_v_slot(k),
        Turn::Rotate => unrotate_slot(k),
    }
}

/// Computes the tilemap after a transform.
pub fn turn_tiles(turn: Turn, t: &Vec<u16>, n: usize) -> (r: Vec<u16>)
    requires
        3 <= n <= 15,
        t.len() == n * n,
    ensures
        r@ == turned_tiles(turn, t@, n as int),
        r.len() == t.len(),
{
    assert(n * n <= 225 && n * n >= 2 * n) by (nonlinear_arith)
        requires
            3 <= n <= 15,
    ;
    let len: usize = t.len();
    let mut r: Vec<u16> = Vec::new();
    let mut j: usize = 0;
    proof {
        lemma_turned(turn, t@, Seq::empty(), n as int);
    }
    while j < len
        invariant
            3 <= n <= 15,
            len == n * n,
            len == t.len(),
            len >= 2 * n,
            j <= len,
            r.len() == j,
            forall|i: int| 0 <= i < j ==> r@[i] == #[trigger] turned_tiles(turn, t@, n as int)[i],
        decreases len - j,
    {
        let x: usize = j % n;
        let inside: bool = j >= n && j < len - n && 0 < x && x < n - 1;
        if inside {
            let src = unturn_cell(turn, n, j);
            r.push(t[src]);
        } else {
            r.push(t[j]);
        }
        j += 1;
    }
    assert(r@ =~= turned_tiles(turn, t@, n as int));
    r
}

/// Computes the positions of the pieces after a transform.
pub fn turn_positions(turn: Turn, p: &Vec<u8>, n: usize) -> (r: Vec<u8>)
    requires
        3 <= n <= 15,
        positions_on_board(p@, n as int),
    ensures
        r@ == turned_positions(turn, p@, n as int),
        r.len() == 24,
{
    assert(n * n <= 225) by (nonlinear_arith)
        requires
            3 <= n <= 15,
    ;
    let mut r: Vec<u8> = Vec::new();
    let mut k: usize = 0;
    proof {
        lemma_turned(turn, Seq::empty(), p@, n as int);
    }
    while k < 24
        invariant
            3 <= n <= 15,
            n * n <= 225,
            positions_on_board(p@, n as int),
            k <= 24,
            r.len() == k,
            forall|i: int| 0 <= i < k ==> r@[i] == #[trigger] turned_positions(turn, p@, n as int)[i],
        decreases 24 - k,
    {
        let from = unturn_slot(turn, k);
        let b: u8 = p[from];
        if b == BOARD_IDX_INVALID {
            r.push(b);
        } else {
            let to = turn_cell(turn, n, b as usize);
            r.push(to as u8);
        }
        k += 1;
    }
    assert(r@ =~= turned_positions(turn, p@, n as int));
    r
}

} // verus!
