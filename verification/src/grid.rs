//! Arithmetic of a square board stored row by row: cell indices and their
//! coordinates, the interior, and counting the cells that hold a code.

use vstd::prelude::*;
use vstd::arithmetic::div_mod::{
    lemma_fundamental_div_mod, lemma_fundamental_div_mod_converse_div,
    lemma_fundamental_div_mod_converse_mod,
};
use vstd::relations::injective_on;
use vstd::set_lib::lemma_map_size;

verus! {

/// A cell index of an `n` by `n` board that lies off the border.
pub open spec fn interior(n: int, idx: int) -> bool {
    n <= idx < n * n - n && 0 < idx % n < n - 1
}

/// The index of the cell in column `x` of row `y`.
pub open spec fn cell(n: int, x: int, y: int) -> int {
    y * n + x
}

/// One of the four corner cells.
pub open spec fn corner(n: int, idx: int) -> bool {
    idx == 0 || idx == n - 1 || idx == (n - 1) * n || idx == n * n - 1
}

/// The cell of a column and a row lies on the board and has that column and
/// that row; it is interior where neither is the first or the last.
pub proof fn lemma_cell(n: int, x: int, y: int)
    requires
        0 <= x < n,
        0 <= y < n,
    ensures
        0 <= cell(n, x, y) < n * n,
        cell(n, x, y) % n == x,
        cell(n, x, y) / n == y,
        interior(n, cell(n, x, y)) <==> (1 <= x <= n - 2 && 1 <= y <= n - 2),
{
    lemma_fundamental_div_mod_converse_mod(y * n + x, n, y, x);
    lemma_fundamental_div_mod_converse_div(y * n + x, n, y, x);
    assert(0 <= y * n <= n * n - n) by (nonlinear_arith)
        requires
            0 <= y <= n - 1,
            n > 0,
    ;
    assert(y >= 1 ==> y * n >= n) by (nonlinear_arith)
        requires
            n > 0,
    ;
    assert(y <= n - 2 ==> y * n <= n * n - 2 * n) by (nonlinear_arith)
        requires
            n > 0,
    ;
    assert(y == n - 1 ==> y * n == n * n - n) by (nonlinear_arith);
    assert(y == 0 ==> y * n == 0) by (nonlinear_arith);
}

/// Every cell of the board is the cell of its column and its row.
pub proof fn lemma_xy(n: int, idx: int)
    requires
        n > 0,
        0 <= idx < n * n,
    ensures
        0 <= idx % n < n,
        0 <= idx / n < n,
        idx == cell(n, idx % n, idx / n),
        interior(n, idx) <==> (1 <= idx % n <= n - 2 && 1 <= idx / n <= n - 2),
{
    lemma_fundamental_div_mod(idx, n);
    let x = idx % n;
    let y = idx / n;
    assert(n * y == y * n) by (nonlinear_arith);
    assert(0 <= y < n) by (nonlinear_arith)
        requires
            0 <= idx < n * n,
            idx == y * n + x,
            0 <= x < n,
            n > 0,
    ;
    lemma_cell(n, x, y);
}

/// How many cells of `s` hold the code `c`.
pub open spec fn count(s: Seq<u16>, c: u16) -> nat
    decreases s.len(),
{
    if s.len() == 0 {
        0
    } else {
        count(s.drop_last(), c) + if s.last() == c {
            1nat
        } else {
            0nat
        }
    }
}

/// The indices at which `s` holds the code `c`.
pub open spec fn hits(s: Seq<u16>, c: u16) -> Set<int> {
    Set::new(|i: int| 0 <= i < s.len() && s[i] == c)
}

/// The count of a code is the number of indices that hold it.
pub proof fn lemma_count_hits(s: Seq<u16>, c: u16)
    ensures
        hits(s, c).finite(),
        hits(s, c).len() == count(s, c),
        count(s, c) <= s.len(),
    decreases s.len(),
{
    if s.len() == 0 {
        assert(hits(s, c) =~= Set::empty());
    } else {
        let front = s.drop_last();
        lemma_count_hits(front, c);
        let last = s.len() - 1;
        if s.last() == c {
            assert(hits(s, c) =~= hits(front, c).insert(last));
        } else {
            assert(hits(s, c) =~= hits(front, c));
        }
    }
}

/// Where every cell that holds `c` in `a` holds `d` in `b`, `a` holds `c` no
/// more often than `b` holds `d`.
pub proof fn lemma_count_le(a: Seq<u16>, c: u16, b: Seq<u16>, d: u16)
    requires
        a.len() == b.len(),
        forall|i: int| 0 <= i < a.len() && a[i] == c ==> b[i] == d,
    ensures
        count(a, c) <= count(b, d),
    decreases a.len(),
{
    if a.len() > 0 {
        lemma_count_le(a.drop_last(), c, b.drop_last(), d);
    }
}

/// Moving the cells of a sequence around by a permutation of the indices
/// keeps the count of every code.
pub proof fn lemma_count_permuted(a: Seq<u16>, b: Seq<u16>, g: spec_fn(int) -> int, h: spec_fn(int) -> int, c: u16)
    requires
        a.len() == b.len(),
        forall|j: int| 0 <= j < b.len() ==> 0 <= #[trigger] g(j) < a.len() && b[j] == a[g(j)] && h(g(j)) == j,
        forall|i: int| 0 <= i < a.len() ==> 0 <= #[trigger] h(i) < b.len() && g(h(i)) == i,
    ensures
        count(b, c) == count(a, c),
{
    lemma_count_hits(a, c);
    lemma_count_hits(b, c);
    let from = hits(b, c);
    let to = hits(a, c);
    assert forall|i: int| to.contains(i) implies from.map(g).contains(i) by {
        assert(from.contains(h(i)) && g(h(i)) == i);
    }
    assert(from.map(g) =~= to);
    assert(injective_on(g, from)) by {
        assert forall|x1: int, x2: int|
            from.contains(x1) && from.contains(x2) && #[trigger] g(x1) == #[trigger] g(x2) implies x1 == x2 by {
            assert(h(g(x1)) == x1 && h(g(x2)) == x2);
        }
    }
    lemma_map_size(from, to, g);
}

/// Counts the cells of `s` that hold the code `c`.
pub fn count_code(s: &Vec<u16>, c: u16) -> (r: usize)
    ensures
        r == count(s@, c),
{
    let mut r: usize = 0;
    let mut i: usize = 0;
    while i < s.len()
        invariant
            i <= s.len(),
            r == count(s@.take(i as int), c),
            r <= i,
        decreases s.len() - i,
    {
        assert(s@.take(i + 1).drop_last() =~= s@.take(i as int));
        if s[i] == c {
            r += 1;
        }
        i += 1;
    }
    assert(s@.take(s.len() as int) =~= s@);
    r
}

} // verus!
