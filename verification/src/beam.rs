//! The beam engine: the rule that decides what one cell of the overlay
//! becomes, the scan that finds the first cell the rule changes, and the
//! iteration of that scan until no cell changes any more.

use vstd::prelude::*;
use crate::grid::interior;
use crate::enums::{
    BEAM_H, BEAM_SPLIT_BL, BEAM_SPLIT_BR, BEAM_SPLIT_D, BEAM_SPLIT_L, BEAM_SPLIT_R, BEAM_SPLIT_TL,
    BEAM_SPLIT_TR, BEAM_SPLIT_U, BEAM_SPLIT_X, BEAM_STOP_D, BEAM_STOP_L, BEAM_STOP_R, BEAM_STOP_U,
    BEAM_V, CLIPPING_BLOCK, CLIPPING_NONE, CLIPPING_ORB, CLIPPING_SOURCE, ORB_ACTIVE, REFLECTOR_BL,
    REFLECTOR_BR, REFLECTOR_D, REFLECTOR_L, REFLECTOR_R, REFLECTOR_TL, REFLECTOR_TR, REFLECTOR_U,
};

verus! {

/// An overlay code that sends the beam on into the cell below it.
pub open spec fn spec_feeds_down(c: u16) -> bool {
    c == BEAM_V || c == BEAM_SPLIT_X || spec_splits_down(c)
}

/// An overlay code that sends the beam on into the cell above it.
pub open spec fn spec_feeds_up(c: u16) -> bool {
    c == BEAM_V || c == BEAM_SPLIT_X || spec_splits_up(c)
}

/// An overlay code that sends the beam on into the cell to its right.
pub open spec fn spec_feeds_right(c: u16) -> bool {
    c == BEAM_H || c == BEAM_SPLIT_X || spec_splits_right(c)
}

/// An overlay code that sends the beam on into the cell to its left.
pub open spec fn spec_feeds_left(c: u16) -> bool {
    c == BEAM_H || c == BEAM_SPLIT_X || spec_splits_left(c)
}

/// The split codes, the crossover aside, that open downwards.
pub open spec fn spec_splits_down(c: u16) -> bool {
    c == BEAM_SPLIT_TL || c == BEAM_SPLIT_TR || c == BEAM_SPLIT_L || c == BEAM_SPLIT_R
}

/// The split codes, the crossover aside, that open upwards.
pub open spec fn spec_splits_up(c: u16) -> bool {
    c == BEAM_SPLIT_BL || c == BEAM_SPLIT_BR || c == BEAM_SPLIT_L || c == BEAM_SPLIT_R
}

/// The split codes, the crossover aside, that open to the right.
pub open spec fn spec_splits_right(c: u16) -> bool {
    c == BEAM_SPLIT_TL || c == BEAM_SPLIT_BL || c == BEAM_SPLIT_U || c == BEAM_SPLIT_D
}

/// The split codes, the crossover aside, that open to the left.
pub open spec fn spec_splits_left(c: u16) -> bool {
    c == BEAM_SPLIT_TR || c == BEAM_SPLIT_BR || c == BEAM_SPLIT_U || c == BEAM_SPLIT_D
}

/// Whether the code is a split, the crossover aside, that opens downwards.
#[verifier::when_used_as_spec(spec_splits_down)]
pub fn splits_down(c: u16) -> (r: bool)
    ensures
        r == spec_splits_down(c),
{
    c == BEAM_SPLIT_TL || c == BEAM_SPLIT_TR || c == BEAM_SPLIT_L || c == BEAM_SPLIT_R
}

/// Whether the code is a split, the crossover aside, that opens upwards.
#[verifier::when_used_as_spec(spec_splits_up)]
pub fn splits_up(c: u16) -> (r: bool)
    ensures
        r == spec_splits_up(c),
{
    c == BEAM_SPLIT_BL || c == BEAM_SPLIT_BR || c == BEAM_SPLIT_L || c == BEAM_SPLIT_R
}

/// Whether the code is a split, the crossover aside, that opens to the right.
#[verifier::when_used_as_spec(spec_splits_right)]
pub fn splits_right(c: u16) -> (r: bool)
    ensures
        r == spec_splits_right(c),
{
    c == BEAM_SPLIT_TL || c == BEAM_SPLIT_BL || c == BEAM_SPLIT_U || c == BEAM_SPLIT_D
}

/// Whether the code is a split, the crossover aside, that opens to the left.
#[verifier::when_used_as_spec(spec_splits_left)]
pub fn splits_left(c: u16) -> (r: bool)
    ensures
        r == spec_splits_left(c),
{
    c == BEAM_SPLIT_TR || c == BEAM_SPLIT_BR || c == BEAM_SPLIT_U || c == BEAM_SPLIT_D
}

/// What the rule needs to know about one cell: its own overlay code, its
/// clipping class, and from which of its four sides a beam comes in. A side
/// counts when the neighbour there is the emitter or holds a code that opens
/// towards the cell; the `split_` fields count only the neighbours that hold a
/// split other than the crossover, the `origin_` fields only the emitter.
#[derive(Clone, Copy, Debug, PartialEq)]
pub struct Inflow {
    pub own: u16,
    pub clip: u8,
    pub up: bool,
    pub down: bool,
    pub left: bool,
    pub right: bool,
    pub split_v: bool,
    pub split_h: bool,
    pub beam_v: bool,
    pub beam_h: bool,
}

/// The inflow of the interior cell `idx`.
pub open spec fn inflow(beams: Seq<u16>, clipping: Seq<u8>, n: int, origin: int, idx: int) -> Inflow
    recommends
        beams.len() == n * n,
        clipping.len() == n * n,
        interior(n, idx),
{
    let bu = beams[idx - n];
    let bd = beams[idx + n];
    let bl = beams[idx - 1];
    let br = beams[idx + 1];
    Inflow {
        own: beams[idx],
        clip: clipping[idx],
        up: spec_feeds_down(bu) || origin == idx - n,
        down: spec_feeds_up(bd) || origin == idx + n,
        left: spec_feeds_right(bl) || origin == idx - 1,
        right: spec_feeds_left(br) || origin == idx + 1,
        split_v: spec_splits_down(bu) || spec_splits_up(bd),
        split_h: spec_splits_right(bl) || spec_splits_left(br),
        beam_v: bu == BEAM_V || bd == BEAM_V || bu == BEAM_SPLIT_X || bd == BEAM_SPLIT_X,
        beam_h: bl == BEAM_H || br == BEAM_H || bl == BEAM_SPLIT_X || br == BEAM_SPLIT_X,
    }
}

/// The rule of the engine for one cell: the code that the cell takes, or
/// `None` where it keeps what it has.
///
/// A painted cell changes only from a straight beam to the crossover, when a
/// beam comes in across it. An unpainted cell is painted by its clipping
/// class: open floor carries the beam on, a block or a source stops it and
/// shows the side it came from, an orb lights up, and a reflector shows its
/// split when the beam comes in from a side that it accepts. Where several
/// sides feed open floor or a block at once, the order written here decides.
pub open spec fn rule(f: Inflow) -> Option<u16> {
    if f.own != 0 {
        if f.own == BEAM_H && (f.up || f.down) {
            Some(BEAM_SPLIT_X)
        } else if f.own == BEAM_V && (f.left || f.right) {
            Some(BEAM_SPLIT_X)
        } else {
            None
        }
    } else if f.clip == CLIPPING_NONE {
        if f.split_v {
            Some(BEAM_V)
        } else if f.split_h {
            Some(BEAM_H)
        } else if f.beam_h {
            Some(BEAM_H)
        } else if f.beam_v {
            Some(BEAM_V)
        } else if f.left || f.right {
            Some(BEAM_H)
        } else if f.up || f.down {
            Some(BEAM_V)
        } else {
            None
        }
    } else if f.clip == CLIPPING_BLOCK || f.clip == CLIPPING_SOURCE {
        if f.right {
            Some(BEAM_STOP_R)
        } else if f.left {
            Some(BEAM_STOP_L)
        } else if f.down {
            Some(BEAM_STOP_D)
        } else if f.up {
            Some(BEAM_STOP_U)
        } else {
            None
        }
    } else if f.clip == CLIPPING_ORB {
        if f.up || f.down || f.left || f.right {
            Some(ORB_ACTIVE)
        } else {
            None
        }
    } else if f.clip as u16 == REFLECTOR_BL {
        if f.up || f.right {
            Some(BEAM_SPLIT_BL)
        } else {
            None
        }
    } else if f.clip as u16 == REFLECTOR_BR {
        if f.up || f.left {
            Some(BEAM_SPLIT_BR)
        } else {
            None
        }
    } else if f.clip as u16 == REFLECTOR_TL {
        if f.down || f.right {
            Some(BEAM_SPLIT_TL)
        } else {
            None
        }
    } else if f.clip as u16 == REFLECTOR_TR {
        if f.down || f.left {
            Some(BEAM_SPLIT_TR)
        } else {
            None
        }
    } else if f.clip as u16 == REFLECTOR_D {
        if f.up {
            Some(BEAM_SPLIT_D)
        } else {
            None
        }
    } else if f.clip as u16 == REFLECTOR_L {
        if f.right {
            Some(BEAM_SPLIT_L)
        } else {
            None
        }
    } else if f.clip as u16 == REFLECTOR_U {
        if f.down {
            Some(BEAM_SPLIT_U)
        } else {
            None
        }
    } else if f.clip as u16 == REFLECTOR_R {
        if f.left {
            Some(BEAM_SPLIT_R)
        } else {
            None
        }
    } else {
        None
    }
}

/// The rule applied to the interior cell `idx` of a board.
pub open spec fn cell_rule(beams: Seq<u16>, clipping: Seq<u8>, n: int, origin: int, idx: int) -> Option<u16> {
    rule(inflow(beams, clipping, n, origin, idx))
}

/// The first cell at or after `from`, in row-major order, that the rule
/// changes; `n * n` where there is none.
pub open spec fn next_change(beams: Seq<u16>, clipping: Seq<u8>, n: int, origin: int, from: int) -> int
    decreases n * n - from,
{
    if from >= n * n {
        n * n
    } else if interior(n, from) && cell_rule(beams, clipping, n, origin, from).is_some() {
        from
    } else {
        next_change(beams, clipping, n, origin, from + 1)
    }
}

/// How far a cell is from its last possible code: an unpainted cell can
/// change twice, a straight beam once, anything else never.
pub open spec fn weight(c: u16) -> nat {
    if c == 0 {
        2
    } else if c == BEAM_H || c == BEAM_V {
        1
    } else {
        0
    }
}

/// The sum of the weights of an overlay, which every change lowers.
pub open spec fn potential(beams: Seq<u16>) -> nat
    decreases beams.len(),
{
    if beams.len() == 0 {
        0
    } else {
        potential(beams.drop_last()) + weight(beams.last())
    }
}

/// The overlay after one change: the first cell that the rule changes takes
/// its new code. An overlay that the rule leaves alone is returned as it is.
pub open spec fn step(beams: Seq<u16>, clipping: Seq<u8>, n: int, origin: int) -> Seq<u16> {
    let i = next_change(beams, clipping, n, origin, 0);
    if i >= n * n {
        beams
    } else {
        beams.update(i, cell_rule(beams, clipping, n, origin, i).unwrap())
    }
}

/// No interior cell is changed by the rule.
pub open spec fn settled(beams: Seq<u16>, clipping: Seq<u8>, n: int, origin: int) -> bool {
    forall|i: int| interior(n, i) ==> (#[trigger] cell_rule(beams, clipping, n, origin, i)).is_none()
}

/// The overlay at the fixed point: change the first cell that the rule
/// changes, start over, and stop when a whole scan changes nothing.
pub open spec fn settle(beams: Seq<u16>, clipping: Seq<u8>, n: int, origin: int) -> Seq<u16>
    decreases potential(beams),
    when n >= 1 && beams.len() == n * n
    via settle_decreases
{
    if next_change(beams, clipping, n, origin, 0) >= n * n {
        beams
    } else {
        settle(step(beams, clipping, n, origin), clipping, n, origin)
    }
}

#[via_fn]
proof fn settle_decreases(beams: Seq<u16>, clipping: Seq<u8>, n: int, origin: int) {
    if next_change(beams, clipping, n, origin, 0) < n * n {
        lemma_step_lowers(beams, clipping, n, origin);
    }
}

/// What `next_change` returns: a cell that the rule changes, with none before
/// it, or `n * n` with none at all from `from` on.
pub proof fn lemma_next_change(beams: Seq<u16>, clipping: Seq<u8>, n: int, origin: int, from: int)
    requires
        0 <= from,
    ensures
        from <= next_change(beams, clipping, n, origin, from) || next_change(beams, clipping, n, origin, from) == n * n,
        next_change(beams, clipping, n, origin, from) <= n * n || from > n * n,
        next_change(beams, clipping, n, origin, from) < n * n ==> interior(
            n,
            next_change(beams, clipping, n, origin, from),
        ) && cell_rule(beams, clipping, n, origin, next_change(beams, clipping, n, origin, from)).is_some(),
        forall|j: int|
            from <= j < next_change(beams, clipping, n, origin, from) && interior(n, j) ==> (#[trigger] cell_rule(
                beams,
                clipping,
                n,
                origin,
                j,
            )).is_none(),
    decreases n * n - from,
{
    if from >= n * n {
    } else if interior(n, from) && cell_rule(beams, clipping, n, origin, from).is_some() {
    } else {
        lemma_next_change(beams, clipping, n, origin, from + 1);
    }
}

/// Replacing one code changes the potential by the difference of the weights.
pub proof fn lemma_potential_update(beams: Seq<u16>, i: int, v: u16)
    requires
        0 <= i < beams.len(),
    ensures
        potential(beams.update(i, v)) + weight(beams[i]) == potential(beams) + weight(v),
    decreases beams.len(),
{
    let after = beams.update(i, v);
    if i == beams.len() - 1 {
        assert(after.drop_last() =~= beams.drop_last());
    } else {
        lemma_potential_update(beams.drop_last(), i, v);
        assert(after.drop_last() =~= beams.drop_last().update(i, v));
    }
}

/// A code that the rule gives weighs less than the code it replaces.
pub proof fn lemma_rule_lowers(f: Inflow)
    requires
        rule(f).is_some(),
    ensures
        weight(rule(f).unwrap()) < weight(f.own),
        rule(f).unwrap() != 0,
{
}

/// A change lowers the potential.
pub proof fn lemma_step_lowers(beams: Seq<u16>, clipping: Seq<u8>, n: int, origin: int)
    requires
        n >= 1,
        beams.len() == n * n,
        next_change(beams, clipping, n, origin, 0) < n * n,
    ensures
        potential(step(beams, clipping, n, origin)) < potential(beams),
        step(beams, clipping, n, origin).len() == beams.len(),
{
    let i = next_change(beams, clipping, n, origin, 0);
    lemma_next_change(beams, clipping, n, origin, 0);
    lemma_rule_lowers(inflow(beams, clipping, n, origin, i));
    lemma_potential_update(beams, i, cell_rule(beams, clipping, n, origin, i).unwrap());
}

/// The fixed point keeps the length of the overlay, is left alone by the rule,
/// and differs from the overlay it started from only at interior cells; a
/// cell that is lit there was lit before or has an orb as its clipping class.
pub proof fn lemma_settle(beams: Seq<u16>, clipping: Seq<u8>, n: int, origin: int)
    requires
        n >= 1,
        beams.len() == n * n,
    ensures
        settle(beams, clipping, n, origin).len() == n * n,
        settled(settle(beams, clipping, n, origin), clipping, n, origin),
        forall|i: int|
            0 <= i < n * n && !interior(n, i) ==> #[trigger] settle(beams, clipping, n, origin)[i] == beams[i],
        forall|i: int|
            0 <= i < n * n && #[trigger] settle(beams, clipping, n, origin)[i] == ORB_ACTIVE ==> beams[i]
                == ORB_ACTIVE || clipping[i] == CLIPPING_ORB,
        forall|i: int|
            0 <= i < n * n && beams[i] != 0 ==> #[trigger] settle(beams, clipping, n, origin)[i] != 0,
    decreases potential(beams),
{
    lemma_next_change(beams, clipping, n, origin, 0);
    let i = next_change(beams, clipping, n, origin, 0);
    if i >= n * n {
        assert forall|j: int| interior(n, j) implies (#[trigger] cell_rule(beams, clipping, n, origin, j)).is_none() by {
            assert(0 <= j < n * n) by (nonlinear_arith)
                requires
                    n <= j < n * n - n,
                    n >= 1,
            ;
        }
    } else {
        let next = step(beams, clipping, n, origin);
        lemma_step_lowers(beams, clipping, n, origin);
        lemma_rule_lowers(inflow(beams, clipping, n, origin, i));
        lemma_settle(next, clipping, n, origin);
        assert forall|j: int| 0 <= j < n * n && beams[j] != 0 implies #[trigger] settle(
            beams,
            clipping,
            n,
            origin,
        )[j] != 0 by {
            assert(next[j] != 0);
        }
    }
}

/// Reads off the board what the rule needs to know about the cell `idx`.
pub fn read_inflow(beams: &Vec<u16>, clipping: &Vec<u8>, n: usize, origin: usize, idx: usize) -> (f: Inflow)
    requires
        3 <= n <= 15,
        beams.len() == n * n,
        clipping.len() == n * n,
        interior(n as int, idx as int),
    ensures
        f == inflow(beams@, clipping@, n as int, origin as int, idx as int),
{
    assert(n * n <= 225) by (nonlinear_arith)
        requires
            3 <= n <= 15,
    ;
    let bu = beams[idx - n];
    let bd = beams[idx + n];
    let bl = beams[idx - 1];
    let br = beams[idx + 1];
    Inflow {
        own: beams[idx],
        clip: clipping[idx],
        up: bu == BEAM_V || bu == BEAM_SPLIT_X || splits_down(bu) || origin == idx - n,
        down: bd == BEAM_V || bd == BEAM_SPLIT_X || splits_up(bd) || origin == idx + n,
        left: bl == BEAM_H || bl == BEAM_SPLIT_X || splits_right(bl) || origin == idx - 1,
        right: br == BEAM_H || br == BEAM_SPLIT_X || splits_left(br) || origin == idx + 1,
        split_v: splits_down(bu) || splits_up(bd),
        split_h: splits_right(bl) || splits_left(br),
        beam_v: bu == BEAM_V || bd == BEAM_V || bu == BEAM_SPLIT_X || bd == BEAM_SPLIT_X,
        beam_h: bl == BEAM_H || br == BEAM_H || bl == BEAM_SPLIT_X || br == BEAM_SPLIT_X,
    }
}

/// The rule of the engine for one cell, given its inflow.
pub fn apply_rule(f: &Inflow) -> (r: Option<u16>)
    ensures
        r == rule(*f),
{
    let reflector: u16 = f.clip as u16;
    if f.own != 0 {
        if f.own == BEAM_H && (f.up || f.down) {
            Some(BEAM_SPLIT_X)
        } else if f.own == BEAM_V && (f.left || f.right) {
            Some(BEAM_SPLIT_X)
        } else {
            None
        }
    } else if f.clip == CLIPPING_NONE {
        if f.split_v {
            Some(BEAM_V)
        } else if f.split_h {
            Some(BEAM_H)
        } else if f.beam_h {
            Some(BEAM_H)
        } else if f.beam_v {
            Some(BEAM_V)
        } else if f.left || f.right {
            Some(BEAM_H)
        } else if f.up || f.down {
            Some(BEAM_V)
        } else {
            None
        }
    } else if f.clip == CLIPPING_BLOCK || f.clip == CLIPPING_SOURCE {
        if f.right {
            Some(BEAM_STOP_R)
        } else if f.left {
            Some(BEAM_STOP_L)
        } else if f.down {
            Some(BEAM_STOP_D)
        } else if f.up {
            Some(BEAM_STOP_U)
        } else {
            None
        }
    } else if f.clip == CLIPPING_ORB {
        if f.up || f.down || f.left || f.right {
            Some(ORB_ACTIVE)
        } else {
            None
        }
    } else if reflector == REFLECTOR_BL {
        if f.up || f.right {
            Some(BEAM_SPLIT_BL)
        } else {
            None
        }
    } else if reflector == REFLECTOR_BR {
        if f.up || f.left {
            Some(BEAM_SPLIT_BR)
        } else {
            None
        }
    } else if reflector == REFLECTOR_TL {
        if f.down || f.right {
            Some(BEAM_SPLIT_TL)
        } else {
            None
        }
    } else if reflector == REFLECTOR_TR {
        if f.down || f.left {
            Some(BEAM_SPLIT_TR)
        } else {
            None
        }
    } else if reflector == REFLECTOR_D {
        if f.up {
            Some(BEAM_SPLIT_D)
        } else {
            None
        }
    } else if reflector == REFLECTOR_L {
        if f.right {
            Some(BEAM_SPLIT_L)
        } else {
            None
        }
    } else if reflector == REFLECTOR_U {
        if f.down {
            Some(BEAM_SPLIT_U)
        } else {
            None
        }
    } else if reflector == REFLECTOR_R {
        if f.left {
            Some(BEAM_SPLIT_R)
        } else {
            None
        }
    } else {
        None
    }
}

/// Scans the interior in row-major order for the first cell that the rule
/// changes, and returns it with its new code.
pub fn first_change(beams: &Vec<u16>, clipping: &Vec<u8>, n: usize, origin: usize) -> (r: Option<(usize, u16)>)
    requires
        3 <= n <= 15,
        beams.len() == n * n,
        clipping.len() == n * n,
    ensures
        r.is_none() <==> next_change(beams@, clipping@, n as int, origin as int, 0) >= n * n,
        r.is_some() ==> r.unwrap().0 == next_change(beams@, clipping@, n as int, origin as int, 0)
            && interior(n as int, r.unwrap().0 as int)
            && Some(r.unwrap().1) == cell_rule(beams@, clipping@, n as int, origin as int, r.unwrap().0 as int),
{
    assert(n * n <= 225 && n * n - n >= n) by (nonlinear_arith)
        requires
            3 <= n <= 15,
    ;
    let end: usize = n * n - n;
    let mut idx: usize = n;
    proof {
        lemma_next_change_skip(beams@, clipping@, n as int, origin as int, 0, n as int);
    }
    while idx < end
        invariant
            3 <= n <= 15,
            beams.len() == n * n,
            clipping.len() == n * n,
            end == n * n - n,
            n <= idx <= end,
            next_change(beams@, clipping@, n as int, origin as int, 0) == next_change(
                beams@,
                clipping@,
                n as int,
                origin as int,
                idx as int,
            ),
        decreases end - idx,
    {
        let x: usize = idx % n;
        if 0 < x && x < n - 1 {
            let f = read_inflow(beams, clipping, n, origin, idx);
            let r = apply_rule(&f);
            if let Some(v) = r {
                return Some((idx, v));
            }
        }
        idx += 1;
    }
    proof {
        lemma_next_change_skip(beams@, clipping@, n as int, origin as int, end as int, (n * n) as int);
    }
    None
}

/// A scan that starts before a stretch without interior cells that the rule
/// changes may as well start behind it.
pub proof fn lemma_next_change_skip(beams: Seq<u16>, clipping: Seq<u8>, n: int, origin: int, from: int, to: int)
    requires
        0 <= from <= to <= n * n,
        forall|j: int|
            from <= j < to && interior(n, j) ==> (#[trigger] cell_rule(beams, clipping, n, origin, j)).is_none(),
    ensures
        next_change(beams, clipping, n, origin, from) == next_change(beams, clipping, n, origin, to),
    decreases to - from,
{
    if from < to {
        lemma_next_change_skip(beams, clipping, n, origin, from + 1, to);
    }
}

/// Runs the engine on an overlay until no cell changes.
pub fn settle_overlay(beams: &mut Vec<u16>, clipping: &Vec<u8>, n: usize, origin: usize)
    requires
        3 <= n <= 15,
        old(beams).len() == n * n,
        clipping.len() == n * n,
    ensures
        final(beams)@ == settle(old(beams)@, clipping@, n as int, origin as int),
        final(beams).len() == n * n,
        settled(final(beams)@, clipping@, n as int, origin as int),
{
    loop
        invariant
            3 <= n <= 15,
            beams.len() == n * n,
            clipping.len() == n * n,
            settle(beams@, clipping@, n as int, origin as int) == settle(
                old(beams)@,
                clipping@,
                n as int,
                origin as int,
            ),
        ensures
            beams@ == settle(old(beams)@, clipping@, n as int, origin as int),
            beams.len() == n * n,
        decreases potential(beams@),
    {
        let change = first_change(beams, clipping, n, origin);
        match change {
            None => {
                break ;
            },
            Some((i, v)) => {
                proof {
                    lemma_step_lowers(beams@, clipping@, n as int, origin as int);
                }
                beams[i] = v;
            },
        }
    }
    proof {
        lemma_settle(old(beams)@, clipping@, n as int, origin as int);
    }
}

} // verus!
