//! The beam on the mirrored board. Mirroring a board left to right mirrors
//! what the engine's rule does to every cell. The engine scans the cells in
//! a fixed order, which mirroring does not keep; what it arrives at is
//! nevertheless the mirror image, as long as no block is lit from two sides
//! at once: only there does the order of the scan show in the result.

use vstd::prelude::*;
use crate::beam::{
    cell_rule, inflow, lemma_next_change, lemma_settle, lemma_step_lowers, next_change, potential, rule, settle, settled,
    spec_feeds_down, spec_feeds_left, spec_feeds_right, spec_feeds_up, spec_splits_down, spec_splits_left,
    spec_splits_right, spec_splits_up, step, Inflow,
};
use crate::enums::{
    BEAM_H, BEAM_SPLIT_BL, BEAM_SPLIT_BR, BEAM_SPLIT_L, BEAM_SPLIT_R, BEAM_SPLIT_TL, BEAM_SPLIT_TR, BEAM_SPLIT_X,
    BEAM_STOP_D, BEAM_STOP_L, BEAM_STOP_R, BEAM_STOP_U, BEAM_V, CLIPPING_BLOCK, CLIPPING_NONE, CLIPPING_ORB,
    CLIPPING_SOURCE, ORB_ACTIVE,
};
use crate::enums::{spec_is_source, spec_slot_tile, BOARD_IDX_INVALID};
use crate::game_state::{pieces_canonical, PieceData};
use crate::grid::{interior, lemma_cell, lemma_xy};
use crate::scene::{
    base_clip, board_sound, clipping_of, clipping_upto, edge_code, lemma_clipping_len, pieces_sound, positions_of,
};
use crate::transform::{
    flip_h_at, flip_h_positions, flip_h_tiles, lemma_cell_maps, lemma_flip_h_at, lemma_slot_maps, spec_flip_h_slot,
};
use crate::ui::{lemma_piece_at, overlay_of, piece_at, seeded};

verus! {

/// The overlay code that the mirror shows for a code: left and right change
/// places.
pub open spec fn mirror_code(c: u16) -> u16 {
    if c == BEAM_STOP_L {
        BEAM_STOP_R
    } else if c == BEAM_STOP_R {
        BEAM_STOP_L
    } else if c == BEAM_SPLIT_TL {
        BEAM_SPLIT_TR
    } else if c == BEAM_SPLIT_TR {
        BEAM_SPLIT_TL
    } else if c == BEAM_SPLIT_BL {
        BEAM_SPLIT_BR
    } else if c == BEAM_SPLIT_BR {
        BEAM_SPLIT_BL
    } else if c == BEAM_SPLIT_L {
        BEAM_SPLIT_R
    } else if c == BEAM_SPLIT_R {
        BEAM_SPLIT_L
    } else {
        c
    }
}

/// The clipping class that the mirror shows for a class: the reflectors
/// change as their pieces do under the horizontal flip.
pub open spec fn mirror_clip(c: u8) -> u8 {
    if c == 17 {
        18
    } else if c == 18 {
        17
    } else if c == 19 {
        20
    } else if c == 20 {
        19
    } else if c == 22 {
        24
    } else if c == 24 {
        22
    } else {
        c
    }
}

/// The inflow that the mirror shows for an inflow.
pub open spec fn mirror_inflow(f: Inflow) -> Inflow {
    Inflow {
        own: mirror_code(f.own),
        clip: mirror_clip(f.clip),
        up: f.up,
        down: f.down,
        left: f.right,
        right: f.left,
        split_v: f.split_v,
        split_h: f.split_h,
        beam_v: f.beam_v,
        beam_h: f.beam_h,
    }
}

/// What the mirror shows of what the rule gives.
pub open spec fn mirror_paint(r: Option<u16>) -> Option<u16> {
    match r {
        Some(c) => Some(mirror_code(c)),
        None => None,
    }
}

/// A cell that stops the beam is fed from its left and from its right at
/// once: the one case in which the rule prefers a side.
pub open spec fn pinched(f: Inflow) -> bool {
    f.own == 0 && (f.clip == CLIPPING_BLOCK || f.clip == CLIPPING_SOURCE) && f.left && f.right
}

/// Mirroring a code twice gives the code. A mirrored code opens up and down
/// as the code does, and to the left where the code opens to the right.
pub proof fn lemma_mirror_code(c: u16)
    ensures
        mirror_code(mirror_code(c)) == c,
        (mirror_code(c) == 0) == (c == 0),
        (mirror_code(c) == BEAM_H) == (c == BEAM_H),
        (mirror_code(c) == BEAM_V) == (c == BEAM_V),
        (mirror_code(c) == BEAM_SPLIT_X) == (c == BEAM_SPLIT_X),
        (mirror_code(c) == ORB_ACTIVE) == (c == ORB_ACTIVE),
        spec_feeds_down(mirror_code(c)) == spec_feeds_down(c),
        spec_feeds_up(mirror_code(c)) == spec_feeds_up(c),
        spec_feeds_left(mirror_code(c)) == spec_feeds_right(c),
        spec_feeds_right(mirror_code(c)) == spec_feeds_left(c),
        spec_splits_down(mirror_code(c)) == spec_splits_down(c),
        spec_splits_up(mirror_code(c)) == spec_splits_up(c),
        spec_splits_left(mirror_code(c)) == spec_splits_right(c),
        spec_splits_right(mirror_code(c)) == spec_splits_left(c),
{
}

/// Mirroring a clipping class twice gives the class.
pub proof fn lemma_mirror_clip(c: u8)
    ensures
        mirror_clip(mirror_clip(c)) == c,
{
}

/// The rule on the mirrored inflow gives the mirrored code, unless the cell
/// is pinched.
pub proof fn lemma_rule_mirror(f: Inflow)
    requires
        !pinched(f),
    ensures
        rule(mirror_inflow(f)) == mirror_paint(rule(f)),
{
}

/// The overlay that the mirror shows: every cell shows the mirrored code of
/// the cell across.
pub open spec fn mirrored(beams: Seq<u16>, n: int) -> Seq<u16> {
    Seq::new(beams.len(), |j: int| mirror_code(beams[flip_h_at(n, j)]))
}

/// The clipping map that the mirror shows.
pub open spec fn mirrored_clipping(clipping: Seq<u8>, n: int) -> Seq<u8> {
    Seq::new(clipping.len(), |j: int| mirror_clip(clipping[flip_h_at(n, j)]))
}

/// The neighbours of the mirror image of an interior cell are the mirror
/// images of its neighbours, left and right changed.
pub proof fn lemma_flip_neighbours(n: int, idx: int)
    requires
        n >= 3,
        interior(n, idx),
    ensures
        0 <= idx - n,
        idx + n < n * n,
        interior(n, flip_h_at(n, idx)),
        flip_h_at(n, idx - 1) == flip_h_at(n, idx) + 1,
        flip_h_at(n, idx + 1) == flip_h_at(n, idx) - 1,
        flip_h_at(n, idx - n) == flip_h_at(n, idx) - n,
        flip_h_at(n, idx + n) == flip_h_at(n, idx) + n,
        flip_h_at(n, flip_h_at(n, idx)) == idx,
{
    assert(0 <= idx < n * n) by (nonlinear_arith)
        requires
            n <= idx < n * n - n,
            n >= 3,
    ;
    lemma_xy(n, idx);
    let x = idx % n;
    let y = idx / n;
    lemma_flip_h_at(n, idx);
    lemma_cell_maps(n, idx);
    lemma_cell(n, x - 1, y);
    lemma_cell(n, x + 1, y);
    lemma_cell(n, x, y - 1);
    lemma_cell(n, x, y + 1);
    lemma_cell(n, n - 1 - x, y);
    lemma_cell(n, n - x, y);
    lemma_cell(n, n - 2 - x, y);
    lemma_cell(n, n - 1 - x, y - 1);
    lemma_cell(n, n - 1 - x, y + 1);
    assert((y - 1) * n == y * n - n && (y + 1) * n == y * n + n) by (nonlinear_arith);
}

/// The inflow of the mirror image of a cell on the mirrored board, with the
/// emitter mirrored, is the mirrored inflow of the cell.
pub proof fn lemma_inflow_mirror(beams: Seq<u16>, clipping: Seq<u8>, n: int, origin: int, idx: int)
    requires
        n >= 3,
        beams.len() == n * n,
        clipping.len() == n * n,
        0 <= origin < n * n,
        interior(n, idx),
    ensures
        inflow(mirrored(beams, n), mirrored_clipping(clipping, n), n, flip_h_at(n, origin), flip_h_at(n, idx))
            == mirror_inflow(inflow(beams, clipping, n, origin, idx)),
{
    lemma_flip_neighbours(n, idx);
    let m = flip_h_at(n, idx);
    lemma_flip_neighbours(n, m);
    lemma_cell_maps(n, origin);
    lemma_flip_h_at(n, origin);
    lemma_flip_h_at(n, idx - 1);
    lemma_flip_h_at(n, idx + 1);
    lemma_flip_h_at(n, idx - n);
    lemma_flip_h_at(n, idx + n);
    lemma_cell_maps(n, idx - 1);
    lemma_cell_maps(n, idx + 1);
    lemma_cell_maps(n, idx - n);
    lemma_cell_maps(n, idx + n);
    lemma_mirror_code(beams[idx]);
    lemma_mirror_code(beams[idx - 1]);
    lemma_mirror_code(beams[idx + 1]);
    lemma_mirror_code(beams[idx - n]);
    lemma_mirror_code(beams[idx + n]);
    let mb = mirrored(beams, n);
    assert(mb[m] == mirror_code(beams[idx]));
    assert(mb[m + 1] == mirror_code(beams[idx - 1]));
    assert(mb[m - 1] == mirror_code(beams[idx + 1]));
    assert(mb[m - n] == mirror_code(beams[idx - n]));
    assert(mb[m + n] == mirror_code(beams[idx + n]));
    assert(mirrored_clipping(clipping, n)[m] == mirror_clip(clipping[idx]));
}

/// One code may yet become the other: an unpainted cell may take any code,
/// and a straight beam may become the crossover.
pub open spec fn below(a: u16, b: u16) -> bool {
    a == 0 || a == b || ((a == BEAM_H || a == BEAM_V) && b == BEAM_SPLIT_X)
}

/// Every cell of the first overlay may yet become what it is in the second.
pub open spec fn covered(s: Seq<u16>, t: Seq<u16>) -> bool {
    &&& s.len() == t.len()
    &&& forall|j: int| 0 <= j < s.len() ==> below(#[trigger] s[j], t[j])
}

/// The second inflow is that of the same cell on an overlay that covers the
/// overlay of the first: every side that feeds the first feeds the second.
pub open spec fn fed_no_less(f: Inflow, g: Inflow) -> bool {
    &&& f.clip == g.clip
    &&& below(f.own, g.own)
    &&& f.up ==> g.up
    &&& f.down ==> g.down
    &&& f.left ==> g.left
    &&& f.right ==> g.right
    &&& f.split_v ==> g.split_v
    &&& f.split_h ==> g.split_h
    &&& f.beam_v ==> g.beam_v
    &&& f.beam_h ==> g.beam_h
}

/// What a code feeds, the code that covers it feeds too.
pub proof fn lemma_below_feeds(a: u16, b: u16)
    requires
        below(a, b),
    ensures
        spec_feeds_down(a) ==> spec_feeds_down(b),
        spec_feeds_up(a) ==> spec_feeds_up(b),
        spec_feeds_left(a) ==> spec_feeds_left(b),
        spec_feeds_right(a) ==> spec_feeds_right(b),
        spec_splits_down(a) ==> spec_splits_down(b),
        spec_splits_up(a) ==> spec_splits_up(b),
        spec_splits_left(a) ==> spec_splits_left(b),
        spec_splits_right(a) ==> spec_splits_right(b),
        a == BEAM_V || a == BEAM_SPLIT_X ==> b == BEAM_V || b == BEAM_SPLIT_X,
        a == BEAM_H || a == BEAM_SPLIT_X ==> b == BEAM_H || b == BEAM_SPLIT_X,
{
}

/// On an overlay that covers another, every interior cell is fed no less.
pub proof fn lemma_inflow_covered(s: Seq<u16>, t: Seq<u16>, clipping: Seq<u8>, n: int, origin: int, idx: int)
    requires
        n >= 3,
        s.len() == n * n,
        covered(s, t),
        interior(n, idx),
    ensures
        fed_no_less(inflow(s, clipping, n, origin, idx), inflow(t, clipping, n, origin, idx)),
{
    lemma_flip_neighbours(n, idx);
    assert(below(s[idx], t[idx]));
    assert(below(s[idx - 1], t[idx - 1]));
    assert(below(s[idx + 1], t[idx + 1]));
    assert(below(s[idx - n], t[idx - n]));
    assert(below(s[idx + n], t[idx + n]));
    lemma_below_feeds(s[idx - 1], t[idx - 1]);
    lemma_below_feeds(s[idx + 1], t[idx + 1]);
    lemma_below_feeds(s[idx - n], t[idx - n]);
    lemma_below_feeds(s[idx + n], t[idx + n]);
}

/// The side that a stop code names feeds the cell.
pub open spec fn side_feeds(f: Inflow) -> bool {
    ||| f.own == BEAM_STOP_U && f.up
    ||| f.own == BEAM_STOP_D && f.down
    ||| f.own == BEAM_STOP_L && f.left
    ||| f.own == BEAM_STOP_R && f.right
}

/// The code of a cell is one that the rule can have given it: a cell is
/// unpainted, or open floor shows a straight beam or the crossover, or a
/// block or a source shows the stop of a side that feeds it, or an orb is
/// lit, or a reflector shows its split.
pub open spec fn fits(f: Inflow) -> bool {
    ||| f.own == 0
    ||| f.clip == CLIPPING_NONE && (f.own == BEAM_H || f.own == BEAM_V || f.own == BEAM_SPLIT_X)
    ||| (f.clip == CLIPPING_BLOCK || f.clip == CLIPPING_SOURCE) && side_feeds(f)
    ||| f.clip == CLIPPING_ORB && f.own == ORB_ACTIVE
    ||| 17 <= f.clip <= 24 && f.own == f.clip + 32
}

/// A cell that stops the beam is fed from one side at most.
pub open spec fn fed_once(f: Inflow) -> bool {
    f.clip == CLIPPING_BLOCK || f.clip == CLIPPING_SOURCE ==> {
        &&& !(f.up && f.down)
        &&& !(f.up && f.left)
        &&& !(f.up && f.right)
        &&& !(f.down && f.left)
        &&& !(f.down && f.right)
        &&& !(f.left && f.right)
    }
}

/// Every interior cell of the overlay holds a code that fits it.
pub open spec fn typed(beams: Seq<u16>, clipping: Seq<u8>, n: int, origin: int) -> bool {
    forall|j: int| interior(n, j) ==> fits(#[trigger] inflow(beams, clipping, n, origin, j))
}

/// No interior cell that stops the beam is fed from two sides.
pub open spec fn stops_fed_once(beams: Seq<u16>, clipping: Seq<u8>, n: int, origin: int) -> bool {
    forall|j: int| interior(n, j) ==> fed_once(#[trigger] inflow(beams, clipping, n, origin, j))
}

/// What the rule gives fits the cell, covers what the cell held, and goes on
/// fitting when the cell is fed more.
pub proof fn lemma_rule_fits(f: Inflow, g: Inflow)
    requires
        rule(f).is_some(),
        fits(f),
        fed_no_less(f, g),
        g.own == rule(f).unwrap(),
    ensures
        fits(g),
        below(f.own, g.own),
{
}

/// A code that fits goes on fitting when the cell is fed more.
pub proof fn lemma_fits_fed_more(f: Inflow, g: Inflow)
    requires
        fits(f),
        fed_no_less(f, g),
        g.own == f.own,
    ensures
        fits(g),
{
}

/// One change keeps every code fitting, and what it gives covers what was.
pub proof fn lemma_step_typed(beams: Seq<u16>, clipping: Seq<u8>, n: int, origin: int)
    requires
        n >= 3,
        beams.len() == n * n,
        typed(beams, clipping, n, origin),
    ensures
        typed(step(beams, clipping, n, origin), clipping, n, origin),
        covered(beams, step(beams, clipping, n, origin)),
{
    let next = step(beams, clipping, n, origin);
    lemma_next_change(beams, clipping, n, origin, 0);
    let i = next_change(beams, clipping, n, origin, 0);
    if i < n * n {
        let f = inflow(beams, clipping, n, origin, i);
        let v = rule(f).unwrap();
        lemma_rule_fits(f, Inflow { own: v, ..f });
        assert forall|j: int| 0 <= j < beams.len() implies below(#[trigger] beams[j], next[j]) by {}
        assert forall|j: int| interior(n, j) implies fits(#[trigger] inflow(next, clipping, n, origin, j)) by {
            lemma_inflow_covered(beams, next, clipping, n, origin, j);
            let fj = inflow(beams, clipping, n, origin, j);
            let gj = inflow(next, clipping, n, origin, j);
            if j == i {
                lemma_rule_fits(fj, gj);
            } else {
                lemma_flip_neighbours(n, j);
                lemma_fits_fed_more(fj, gj);
            }
        }
    } else {
        assert forall|j: int| 0 <= j < beams.len() implies below(#[trigger] beams[j], next[j]) by {}
    }
}

/// Covering is transitive.
pub proof fn lemma_covered_trans(a: Seq<u16>, b: Seq<u16>, c: Seq<u16>)
    requires
        covered(a, b),
        covered(b, c),
    ensures
        covered(a, c),
{
    assert forall|j: int| 0 <= j < a.len() implies below(#[trigger] a[j], c[j]) by {
        assert(below(a[j], b[j]));
        assert(below(b[j], c[j]));
    }
}

/// Two overlays that cover each other are the same.
pub proof fn lemma_covered_both(a: Seq<u16>, b: Seq<u16>)
    requires
        covered(a, b),
        covered(b, a),
    ensures
        a == b,
{
    assert forall|j: int| 0 <= j < a.len() implies a[j] == b[j] by {
        assert(below(a[j], b[j]));
        assert(below(b[j], a[j]));
    }
    assert(a =~= b);
}

/// The fixed point keeps every code fitting and covers what it started from.
pub proof fn lemma_settle_typed(beams: Seq<u16>, clipping: Seq<u8>, n: int, origin: int)
    requires
        n >= 3,
        beams.len() == n * n,
        typed(beams, clipping, n, origin),
    ensures
        typed(settle(beams, clipping, n, origin), clipping, n, origin),
        covered(beams, settle(beams, clipping, n, origin)),
        settle(beams, clipping, n, origin).len() == n * n,
    decreases potential(beams),
{
    if next_change(beams, clipping, n, origin, 0) >= n * n {
        assert forall|j: int| 0 <= j < beams.len() implies below(#[trigger] beams[j], beams[j]) by {}
    } else {
        let next = step(beams, clipping, n, origin);
        lemma_step_lowers(beams, clipping, n, origin);
        lemma_step_typed(beams, clipping, n, origin);
        lemma_settle_typed(next, clipping, n, origin);
        lemma_covered_trans(beams, next, settle(next, clipping, n, origin));
    }
}

/// The inflow is one that a board can have: what feeds a cell as a split or
/// as a beam feeds it from a side.
pub open spec fn coherent(f: Inflow) -> bool {
    &&& f.split_v ==> f.up || f.down
    &&& f.beam_v ==> f.up || f.down
    &&& f.split_h ==> f.left || f.right
    &&& f.beam_h ==> f.left || f.right
}

/// The inflow of a cell of a board is coherent.
pub proof fn lemma_inflow_coherent(beams: Seq<u16>, clipping: Seq<u8>, n: int, origin: int, idx: int)
    ensures
        coherent(inflow(beams, clipping, n, origin, idx)),
{
}

/// What the rule gives a cell on an overlay is covered by what the cell
/// holds on an overlay that covers the first, is left alone by the rule,
/// holds fitting codes and has no stop fed from two sides.
pub proof fn lemma_rule_dominated(f: Inflow, g: Inflow)
    requires
        coherent(f),
        coherent(g),
        fed_no_less(f, g),
        rule(f).is_some(),
        rule(g).is_none(),
        fits(g),
        fed_once(g),
    ensures
        below(rule(f).unwrap(), g.own),
{
}

/// One change of an overlay stays covered by an overlay that covers it, is
/// left alone by the rule, holds fitting codes and has no stop fed from two
/// sides.
pub proof fn lemma_step_dominated(s: Seq<u16>, t: Seq<u16>, clipping: Seq<u8>, n: int, origin: int)
    requires
        n >= 3,
        s.len() == n * n,
        covered(s, t),
        settled(t, clipping, n, origin),
        typed(t, clipping, n, origin),
        stops_fed_once(t, clipping, n, origin),
    ensures
        covered(step(s, clipping, n, origin), t),
{
    let next = step(s, clipping, n, origin);
    lemma_next_change(s, clipping, n, origin, 0);
    let i = next_change(s, clipping, n, origin, 0);
    if i < n * n {
        lemma_inflow_covered(s, t, clipping, n, origin, i);
        let f = inflow(s, clipping, n, origin, i);
        let g = inflow(t, clipping, n, origin, i);
        assert(cell_rule(t, clipping, n, origin, i).is_none());
        lemma_inflow_coherent(s, clipping, n, origin, i);
        lemma_inflow_coherent(t, clipping, n, origin, i);
        lemma_rule_dominated(f, g);
        assert forall|j: int| 0 <= j < next.len() implies below(#[trigger] next[j], t[j]) by {
            assert(below(s[j], t[j]));
        }
    }
}

/// The fixed point of an overlay stays covered by an overlay that covers it,
/// is left alone by the rule, holds fitting codes and has no stop fed from
/// two sides.
pub proof fn lemma_settle_dominated(s: Seq<u16>, t: Seq<u16>, clipping: Seq<u8>, n: int, origin: int)
    requires
        n >= 3,
        s.len() == n * n,
        covered(s, t),
        settled(t, clipping, n, origin),
        typed(t, clipping, n, origin),
        stops_fed_once(t, clipping, n, origin),
    ensures
        covered(settle(s, clipping, n, origin), t),
    decreases potential(s),
{
    if next_change(s, clipping, n, origin, 0) < n * n {
        lemma_step_lowers(s, clipping, n, origin);
        lemma_step_dominated(s, t, clipping, n, origin);
        lemma_settle_dominated(step(s, clipping, n, origin), t, clipping, n, origin);
    }
}

/// A code that fits a cell fits the mirrored cell when mirrored, and a cell
/// fed from one side at most is so in the mirror.
pub proof fn lemma_fits_mirror(f: Inflow)
    ensures
        fits(f) ==> fits(mirror_inflow(f)),
        fed_once(f) ==> fed_once(mirror_inflow(f)),
        rule(f).is_none() ==> rule(mirror_inflow(f)).is_none(),
{
    if rule(f).is_none() {
        lemma_rule_mirror(f);
    }
}

/// Mirroring twice gives back the overlay and the clipping map.
pub proof fn lemma_mirrored_twice(beams: Seq<u16>, clipping: Seq<u8>, n: int)
    requires
        n >= 3,
        beams.len() == n * n,
        clipping.len() == n * n,
    ensures
        mirrored(mirrored(beams, n), n) == beams,
        mirrored_clipping(mirrored_clipping(clipping, n), n) == clipping,
{
    assert forall|j: int| 0 <= j < n * n implies mirrored(mirrored(beams, n), n)[j] == beams[j] && mirrored_clipping(
        mirrored_clipping(clipping, n),
        n,
    )[j] == clipping[j] by {
        lemma_flip_h_at(n, j);
        lemma_cell_maps(n, j);
        lemma_mirror_code(beams[j]);
        lemma_mirror_clip(clipping[j]);
    }
    assert(mirrored(mirrored(beams, n), n) =~= beams);
    assert(mirrored_clipping(mirrored_clipping(clipping, n), n) =~= clipping);
}

/// The mirror image of an overlay that covers another covers the mirror
/// image of the other.
pub proof fn lemma_covered_mirror(s: Seq<u16>, t: Seq<u16>, n: int)
    requires
        n >= 3,
        s.len() == n * n,
        covered(s, t),
    ensures
        covered(mirrored(s, n), mirrored(t, n)),
{
    assert forall|j: int| 0 <= j < n * n implies below(#[trigger] mirrored(s, n)[j], mirrored(t, n)[j]) by {
        lemma_flip_h_at(n, j);
        assert(below(s[flip_h_at(n, j)], t[flip_h_at(n, j)]));
    }
}

/// What holds of an overlay on a board holds of its mirror image on the
/// mirrored board with the mirrored emitter: that the rule leaves it alone,
/// that its codes fit, and that no stop is fed from two sides.
pub proof fn lemma_mirror_state(beams: Seq<u16>, clipping: Seq<u8>, n: int, origin: int)
    requires
        n >= 3,
        beams.len() == n * n,
        clipping.len() == n * n,
        0 <= origin < n * n,
    ensures
        mirrored(beams, n).len() == n * n,
        mirrored_clipping(clipping, n).len() == n * n,
        0 <= flip_h_at(n, origin) < n * n,
        flip_h_at(n, flip_h_at(n, origin)) == origin,
        settled(beams, clipping, n, origin) ==> settled(
            mirrored(beams, n),
            mirrored_clipping(clipping, n),
            n,
            flip_h_at(n, origin),
        ),
        typed(beams, clipping, n, origin) ==> typed(
            mirrored(beams, n),
            mirrored_clipping(clipping, n),
            n,
            flip_h_at(n, origin),
        ),
        stops_fed_once(beams, clipping, n, origin) ==> stops_fed_once(
            mirrored(beams, n),
            mirrored_clipping(clipping, n),
            n,
            flip_h_at(n, origin),
        ),
{
    let mb = mirrored(beams, n);
    let mc = mirrored_clipping(clipping, n);
    let mo = flip_h_at(n, origin);
    lemma_flip_h_at(n, origin);
    lemma_cell_maps(n, origin);
    assert forall|m: int| interior(n, m) && settled(beams, clipping, n, origin) implies (#[trigger] cell_rule(
        mb,
        mc,
        n,
        mo,
        m,
    )).is_none() by {
        lemma_flip_neighbours(n, m);
        let j = flip_h_at(n, m);
        lemma_inflow_mirror(beams, clipping, n, origin, j);
        lemma_fits_mirror(inflow(beams, clipping, n, origin, j));
        assert(cell_rule(beams, clipping, n, origin, j).is_none());
    }
    assert forall|m: int| interior(n, m) implies {
        &&& typed(beams, clipping, n, origin) ==> fits(#[trigger] inflow(mb, mc, n, mo, m))
        &&& stops_fed_once(beams, clipping, n, origin) ==> fed_once(inflow(mb, mc, n, mo, m))
    } by {
        lemma_flip_neighbours(n, m);
        let j = flip_h_at(n, m);
        lemma_inflow_mirror(beams, clipping, n, origin, j);
        lemma_fits_mirror(inflow(beams, clipping, n, origin, j));
    }
}

/// An overlay covered by one without a stop fed from two sides has no such
/// stop either.
pub proof fn lemma_fed_once_covered(s: Seq<u16>, t: Seq<u16>, clipping: Seq<u8>, n: int, origin: int)
    requires
        n >= 3,
        s.len() == n * n,
        covered(s, t),
        stops_fed_once(t, clipping, n, origin),
    ensures
        stops_fed_once(s, clipping, n, origin),
{
    assert forall|j: int| interior(n, j) implies fed_once(#[trigger] inflow(s, clipping, n, origin, j)) by {
        lemma_inflow_covered(s, t, clipping, n, origin, j);
        assert(fed_once(inflow(t, clipping, n, origin, j)));
    }
}

/// The beam on the mirrored board is the mirror image of the beam: run from
/// the mirrored overlay on the mirrored clipping map with the mirrored
/// emitter, the engine arrives at the mirror image of what it arrives at on
/// the board itself, provided that there no cell that stops the beam is fed
/// from two sides.
pub proof fn law_mirrored_beam(start: Seq<u16>, clipping: Seq<u8>, n: int, origin: int)
    requires
        n >= 3,
        start.len() == n * n,
        clipping.len() == n * n,
        0 <= origin < n * n,
        typed(start, clipping, n, origin),
        stops_fed_once(settle(start, clipping, n, origin), clipping, n, origin),
    ensures
        settle(mirrored(start, n), mirrored_clipping(clipping, n), n, flip_h_at(n, origin)) == mirrored(
            settle(start, clipping, n, origin),
            n,
        ),
{
    let end = settle(start, clipping, n, origin);
    let ms = mirrored(start, n);
    let mc = mirrored_clipping(clipping, n);
    let mo = flip_h_at(n, origin);
    let mend = settle(ms, mc, n, mo);
    // the end on the board, mirrored, is a resting place on the mirrored board
    lemma_settle(start, clipping, n, origin);
    lemma_settle_typed(start, clipping, n, origin);
    lemma_mirror_state(start, clipping, n, origin);
    lemma_mirror_state(end, clipping, n, origin);
    lemma_covered_mirror(start, end, n);
    // so the end on the mirrored board stays covered by it
    lemma_settle_dominated(ms, mirrored(end, n), mc, n, mo);
    // the end on the mirrored board, mirrored back, is a resting place on the board
    lemma_settle(ms, mc, n, mo);
    lemma_settle_typed(ms, mc, n, mo);
    lemma_fed_once_covered(mend, mirrored(end, n), mc, n, mo);
    lemma_mirror_state(mend, mc, n, mo);
    lemma_mirrored_twice(start, clipping, n);
    lemma_covered_mirror(ms, mend, n);
    // so the end on the board stays covered by it
    lemma_settle_dominated(start, mirrored(mend, n), clipping, n, origin);
    lemma_covered_mirror(end, mirrored(mend, n), n);
    lemma_mirrored_twice(mend, mc, n);
    lemma_covered_both(mend, mirrored(end, n));
}

/// The clipping class of a cell: with no two pieces on one cell, a cell on
/// which a piece in play stands has the class of that piece, and any other
/// cell has the class of its tile.
pub proof fn lemma_clipping_at(t: Seq<u16>, pieces: Seq<PieceData>, k: int, c: int)
    requires
        0 <= k <= pieces.len(),
        0 <= c < t.len(),
        c != BOARD_IDX_INVALID,
        forall|i: int, j: int|
            0 <= i < j < k && (#[trigger] pieces[i]).board_idx == c ==> (#[trigger] pieces[j]).board_idx != c,
    ensures
        forall|i: int|
            0 <= i < k && (#[trigger] pieces[i]).board_idx == c ==> clipping_upto(t, pieces, k)[c] == pieces[i].tile as u8,
        (forall|i: int| 0 <= i < k ==> (#[trigger] pieces[i]).board_idx != c) ==> clipping_upto(t, pieces, k)[c]
            == base_clip(t[c]),
    decreases k,
{
    lemma_clipping_len(t, pieces, k);
    if k > 0 {
        lemma_clipping_len(t, pieces, k - 1);
        lemma_clipping_at(t, pieces, k - 1, c);
        assert forall|i: int| 0 <= i < k && (#[trigger] pieces[i]).board_idx == c implies clipping_upto(
            t,
            pieces,
            k,
        )[c] == pieces[i].tile as u8 by {
            if i < k - 1 {
                assert(pieces[k - 1].board_idx != c);
            }
        }
    }
}

/// What the border of a sound board shows in the mirror: the class of a
/// border cell is the class of the border cell across, and the stop of a
/// source is the mirrored stop of the source across.
pub proof fn lemma_edge_mirror(n: int, j: int)
    requires
        n >= 3,
        0 <= j < n * n,
        !interior(n, j),
    ensures
        !interior(n, flip_h_at(n, j)),
        base_clip(edge_code(n, flip_h_at(n, j))) == base_clip(edge_code(n, j)),
        spec_is_source(edge_code(n, j)) ==> spec_is_source(edge_code(n, flip_h_at(n, j))) && (edge_code(
            n,
            flip_h_at(n, j),
        ) + 10) as u16 == mirror_code((edge_code(n, j) + 10) as u16),
{
    lemma_xy(n, j);
    lemma_flip_h_at(n, j);
}

/// The clipping map of the flipped board with the flipped pieces is the
/// mirror image of the clipping map.
pub proof fn lemma_clipping_mirror(
    t: Seq<u16>,
    pieces: Seq<PieceData>,
    flipped: Seq<PieceData>,
    npcs: int,
    n: int,
    goals: int,
)
    requires
        3 <= n <= 15,
        npcs == 8 || npcs == 16 || npcs == 24,
        board_sound(t, n, goals),
        pieces_canonical(pieces),
        pieces_canonical(flipped),
        pieces_sound(positions_of(pieces), t, n, npcs),
        positions_of(flipped) == flip_h_positions(positions_of(pieces), n),
    ensures
        clipping_of(flip_h_tiles(t, n), flipped, npcs) == mirrored_clipping(clipping_of(t, pieces, npcs), n),
{
    let turned_t = flip_h_tiles(t, n);
    let p = positions_of(pieces);
    let turned_p = positions_of(flipped);
    let lhs = clipping_of(turned_t, flipped, npcs);
    let rhs = mirrored_clipping(clipping_of(t, pieces, npcs), n);
    assert(n * n <= 225) by (nonlinear_arith)
        requires
            3 <= n <= 15,
    ;
    lemma_clipping_len(turned_t, flipped, npcs);
    lemma_clipping_len(t, pieces, npcs);
    assert forall|i: int, j: int| 0 <= i < j < npcs && (#[trigger] pieces[i]).board_idx != BOARD_IDX_INVALID implies (
    #[trigger] pieces[j]).board_idx != pieces[i].board_idx by {
        assert(p[i] == pieces[i].board_idx && p[j] == pieces[j].board_idx);
    }
    assert forall|k: int| 0 <= k < 24 implies (#[trigger] turned_p[k] == if p[spec_flip_h_slot(k)] == BOARD_IDX_INVALID {
        BOARD_IDX_INVALID
    } else {
        flip_h_at(n, p[spec_flip_h_slot(k)] as int) as u8
    }) && flipped[k].board_idx == turned_p[k] && ((spec_flip_h_slot(k) < npcs) == (k < npcs)) by {
        lemma_slot_maps(k);
    }
    assert forall|i: int, j: int| 0 <= i < j < npcs && (#[trigger] flipped[i]).board_idx != BOARD_IDX_INVALID implies (
    #[trigger] flipped[j]).board_idx != flipped[i].board_idx by {
        lemma_slot_maps(i);
        lemma_slot_maps(j);
        let a = spec_flip_h_slot(i);
        let b = spec_flip_h_slot(j);
        assert(turned_p[i] == flipped[i].board_idx && turned_p[j] == flipped[j].board_idx);
        if p[b] != BOARD_IDX_INVALID {
            assert(p[a] != BOARD_IDX_INVALID);
            assert(interior(n, p[a] as int) && interior(n, p[b] as int));
            lemma_flip_h_at(n, p[a] as int);
            lemma_flip_h_at(n, p[b] as int);
            lemma_cell_maps(n, p[a] as int);
            lemma_cell_maps(n, p[b] as int);
            if a < b {
                assert(p[a] != p[b]);
            } else {
                assert(p[b] != p[a]);
            }
        }
    }
    assert forall|j: int| 0 <= j < n * n implies lhs[j] == rhs[j] by {
        let c = flip_h_at(n, j);
        lemma_flip_h_at(n, j);
        lemma_cell_maps(n, j);
        lemma_clipping_at(turned_t, flipped, npcs, j);
        lemma_clipping_at(t, pieces, npcs, c);
        lemma_piece_at(turned_p, npcs, j as u8);
        let k = piece_at(turned_p, npcs, j as u8);
        if k < 24 {
            lemma_slot_maps(k);
            let i = spec_flip_h_slot(k);
            assert(flipped[k].board_idx == j);
            assert(p[i] != BOARD_IDX_INVALID);
            assert(interior(n, p[i] as int));
            lemma_flip_h_at(n, p[i] as int);
            lemma_cell_maps(n, p[i] as int);
            assert(pieces[i].board_idx == c);
            assert(flipped[k].tile == spec_slot_tile(k) && pieces[i].tile == spec_slot_tile(i));
        } else {
            assert forall|i: int| 0 <= i < npcs implies (#[trigger] pieces[i]).board_idx != c by {
                lemma_slot_maps(i);
                let twin = spec_flip_h_slot(i);
                assert(p[i] == pieces[i].board_idx);
                if p[i] == c {
                    assert(turned_p[twin] == j);
                }
            }
            assert forall|i: int| 0 <= i < npcs implies (#[trigger] flipped[i]).board_idx != j by {
                assert(turned_p[i] == flipped[i].board_idx);
            }
            if !interior(n, j) {
                lemma_edge_mirror(n, j);
                assert(t[j] == edge_code(n, j));
                assert(t[c] == edge_code(n, c));
            }
        }
    }
    assert(lhs =~= rhs);
}

/// The beam on the flipped board: where the board and its pieces are flipped
/// horizontally and the emitter is taken across, the overlay is the mirror
/// image of the overlay, provided that in the overlay no cell that stops the
/// beam is fed from two sides.
pub proof fn law_flipped_board_flips_beam(
    t: Seq<u16>,
    pieces: Seq<PieceData>,
    flipped: Seq<PieceData>,
    npcs: int,
    n: int,
    origin: int,
    goals: int,
)
    requires
        3 <= n <= 15,
        npcs == 8 || npcs == 16 || npcs == 24,
        board_sound(t, n, goals),
        pieces_canonical(pieces),
        pieces_canonical(flipped),
        pieces_sound(positions_of(pieces), t, n, npcs),
        positions_of(flipped) == flip_h_positions(positions_of(pieces), n),
        0 <= origin < n * n,
        !interior(n, origin),
        spec_is_source(t[origin]),
        stops_fed_once(overlay_of(t, pieces, npcs, n, origin), clipping_of(t, pieces, npcs), n, origin),
    ensures
        overlay_of(flip_h_tiles(t, n), flipped, npcs, n, flip_h_at(n, origin)) == mirrored(
            overlay_of(t, pieces, npcs, n, origin),
            n,
        ),
{
    let turned_t = flip_h_tiles(t, n);
    let across = flip_h_at(n, origin);
    let zeros = Seq::new(t.len(), |i: int| 0u16);
    let start = seeded(zeros, t, origin);
    let start2 = seeded(Seq::new(turned_t.len(), |i: int| 0u16), turned_t, across);
    let clipping = clipping_of(t, pieces, npcs);
    lemma_clipping_len(t, pieces, npcs);
    lemma_clipping_mirror(t, pieces, flipped, npcs, n, goals);
    lemma_flip_h_at(n, origin);
    lemma_cell_maps(n, origin);
    lemma_edge_mirror(n, origin);
    assert(t[origin] == edge_code(n, origin));
    assert(t[across] == edge_code(n, across));
    assert forall|j: int| 0 <= j < n * n implies start2[j] == mirrored(start, n)[j] by {
        lemma_flip_h_at(n, j);
        lemma_cell_maps(n, j);
    }
    assert(start2 =~= mirrored(start, n));
    assert forall|j: int| interior(n, j) implies fits(#[trigger] inflow(start, clipping, n, origin, j)) by {
        lemma_flip_neighbours(n, j);
    }
    law_mirrored_beam(start, clipping, n, origin);
}

} // verus!
