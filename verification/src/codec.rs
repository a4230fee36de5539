//! The level file: one map per line, as comma-separated fields whose last is
//! the map in a compressed spelling. Decoding undoes the compression in two
//! stages and checks that what comes out is a map that can be played.

use vstd::prelude::*;
use crate::enums::MARK_ORB;
use crate::game_state::{block_views, Block, BlockView};
use crate::grid::interior;

verus! {

/// The number of rewrites of the first stage.
pub const RULES: usize = 37;

/// The sequence `s` with every byte `from` replaced by the bytes `to`.
pub open spec fn replaced(s: Seq<u8>, from: u8, to: Seq<u8>) -> Seq<u8>
    decreases s.len(),
{
    if s.len() == 0 {
        s
    } else if s.last() == from {
        replaced(s.drop_last(), from, to) + to
    } else {
        replaced(s.drop_last(), from, to).push(s.last())
    }
}

/// The rewrite number `i` of the first stage: the byte that is replaced and
/// the two bytes that replace it.
pub open spec fn spec_rule(i: int) -> (u8, u8, u8) {
    if i == 0 {
        // " becomes lA
        (34, 108, 65)
    } else if i == 1 {
        // / becomes .&
        (47, 46, 38)
    } else if i == 2 {
        // | becomes .i
        (124, 46, 105)
    } else if i == 3 {
        // ` becomes cB
        (96, 99, 66)
    } else if i == 4 {
        // ? becomes ~~
        (63, 126, 126)
    } else if i == 5 {
        // > becomes .z
        (62, 46, 122)
    } else if i == 6 {
        // < becomes .h
        (60, 46, 104)
    } else if i == 7 {
        // ; becomes #A
        (59, 35, 65)
    } else if i == 8 {
        // : becomes .F
        (58, 46, 70)
    } else if i == 9 {
        // } becomes kA
        (125, 107, 65)
    } else if i == 10 {
        // { becomes jA
        (123, 106, 65)
    } else if i == 11 {
        // ] becomes bB
        (93, 98, 66)
    } else if i == 12 {
        // [ becomes .g
        (91, 46, 103)
    } else if i == 13 {
        // = becomes $A
        (61, 36, 65)
    } else if i == 14 {
        // _ becomes aB
        (95, 97, 66)
    } else if i == 15 {
        // 0 becomes .!
        (48, 46, 33)
    } else if i == 16 {
        // 9 becomes .f
        (57, 46, 102)
    } else if i == 17 {
        // 8 becomes hA
        (56, 104, 65)
    } else if i == 18 {
        // 7 becomes iA
        (55, 105, 65)
    } else if i == 19 {
        // 6 becomes .E
        (54, 46, 69)
    } else if i == 20 {
        // 5 becomes .D
        (53, 46, 68)
    } else if i == 21 {
        // 4 becomes .~
        (52, 46, 126)
    } else if i == 22 {
        // 2 becomes gA
        (50, 103, 65)
    } else if i == 23 {
        // 1 becomes .e
        (49, 46, 101)
    } else if i == 24 {
        // + becomes .a
        (43, 46, 97)
    } else if i == 25 {
        // - becomes fA
        (45, 102, 65)
    } else if i == 26 {
        // ) becomes dA
        (41, 100, 65)
    } else if i == 27 {
        // ( becomes .C
        (40, 46, 67)
    } else if i == 28 {
        // * becomes cA
        (42, 99, 65)
    } else if i == 29 {
        // & becomes eA
        (38, 101, 65)
    } else if i == 30 {
        // ^ becomes .B
        (94, 46, 66)
    } else if i == 31 {
        // % becomes .b
        (37, 46, 98)
    } else if i == 32 {
        // $ becomes .d
        (36, 46, 100)
    } else if i == 33 {
        // # becomes .c
        (35, 46, 99)
    } else if i == 34 {
        // @ becomes .A
        (64, 46, 65)
    } else if i == 35 {
        // ! becomes bA
        (33, 98, 65)
    } else {
        // ~ becomes aA
        (126, 97, 65)
    }
}

/// The rewrite number `i` of the first stage.
pub fn rule(i: usize) -> (r: (u8, u8, u8))
    requires
        i < RULES,
    ensures
        r == spec_rule(i as int),
{
    if i == 0 {
        // " becomes lA
        (34, 108, 65)
    } else if i == 1 {
        // / becomes .&
        (47, 46, 38)
    } else if i == 2 {
        // | becomes .i
        (124, 46, 105)
    } else if i == 3 {
        // ` becomes cB
        (96, 99, 66)
    } else if i == 4 {
        // ? becomes ~~
        (63, 126, 126)
    } else if i == 5 {
        // > becomes .z
        (62, 46, 122)
    } else if i == 6 {
        // < becomes .h
        (60, 46, 104)
    } else if i == 7 {
        // ; becomes #A
        (59, 35, 65)
    } else if i == 8 {
        // : becomes .F
        (58, 46, 70)
    } else if i == 9 {
        // } becomes kA
        (125, 107, 65)
    } else if i == 10 {
        // { becomes jA
        (123, 106, 65)
    } else if i == 11 {
        // ] becomes bB
        (93, 98, 66)
    } else if i == 12 {
        // [ becomes .g
        (91, 46, 103)
    } else if i == 13 {
        // = becomes $A
        (61, 36, 65)
    } else if i == 14 {
        // _ becomes aB
        (95, 97, 66)
    } else if i == 15 {
        // 0 becomes .!
        (48, 46, 33)
    } else if i == 16 {
        // 9 becomes .f
        (57, 46, 102)
    } else if i == 17 {
        // 8 becomes hA
        (56, 104, 65)
    } else if i == 18 {
        // 7 becomes iA
        (55, 105, 65)
    } else if i == 19 {
        // 6 becomes .E
        (54, 46, 69)
    } else if i == 20 {
        // 5 becomes .D
        (53, 46, 68)
    } else if i == 21 {
        // 4 becomes .~
        (52, 46, 126)
    } else if i == 22 {
        // 2 becomes gA
        (50, 103, 65)
    } else if i == 23 {
        // 1 becomes .e
        (49, 46, 101)
    } else if i == 24 {
        // + becomes .a
        (43, 46, 97)
    } else if i == 25 {
        // - becomes fA
        (45, 102, 65)
    } else if i == 26 {
        // ) becomes dA
        (41, 100, 65)
    } else if i == 27 {
        // ( becomes .C
        (40, 46, 67)
    } else if i == 28 {
        // * becomes cA
        (42, 99, 65)
    } else if i == 29 {
        // & becomes eA
        (38, 101, 65)
    } else if i == 30 {
        // ^ becomes .B
        (94, 46, 66)
    } else if i == 31 {
        // % becomes .b
        (37, 46, 98)
    } else if i == 32 {
        // $ becomes .d
        (36, 46, 100)
    } else if i == 33 {
        // # becomes .c
        (35, 46, 99)
    } else if i == 34 {
        // @ becomes .A
        (64, 46, 65)
    } else if i == 35 {
        // ! becomes bA
        (33, 98, 65)
    } else {
        // ~ becomes aA
        (126, 97, 65)
    }
}

/// The text after the first `k` rewrites of the first stage.
pub open spec fn decompressed_upto(s: Seq<u8>, k: int) -> Seq<u8>
    decreases k,
{
    if k <= 0 {
        s
    } else {
        let r = spec_rule(k - 1);
        replaced(decompressed_upto(s, k - 1), r.0, seq![r.1, r.2])
    }
}

/// The text after the first stage: the rewrites applied one after the other,
/// each to the whole text.
pub open spec fn decompressed(s: Seq<u8>) -> Seq<u8> {
    decompressed_upto(s, RULES as int)
}

/// `k` times the byte `b`.
pub open spec fn run(b: u8, k: int) -> Seq<u8> {
    Seq::new(k as nat, |i: int| b)
}

/// The second stage after the dots were set aside and the first `k` small
/// letters were spelled out: the letter number `k` stands for `k` dots.
pub open spec fn expanded_small(s: Seq<u8>, k: int) -> Seq<u8>
    decreases k,
{
    if k <= 0 {
        replaced(s, 46, seq![95u8])
    } else {
        replaced(expanded_small(s, k - 1), (96 + k) as u8, run(46, k))
    }
}

/// The second stage after all small letters and the first `k` capital
/// letters were spelled out: the letter number `k` stands for `k` times `x`.
pub open spec fn expanded_capital(s: Seq<u8>, k: int) -> Seq<u8>
    decreases k,
{
    if k <= 0 {
        expanded_small(s, 26)
    } else {
        replaced(expanded_capital(s, k - 1), (64 + k) as u8, run(120, k))
    }
}

/// The map after the second stage: the letters spelled out, and what was a
/// dot before turned into the orb marker.
pub open spec fn expanded(s: Seq<u8>) -> Seq<u8> {
    replaced(expanded_capital(s, 26), 95, seq![111u8])
}

/// Appends the bytes `to` to `out`.
fn append(out: &mut Vec<u8>, to: &Vec<u8>)
    ensures
        final(out)@ == old(out)@ + to@,
{
    let mut j: usize = 0;
    while j < to.len()
        invariant
            j <= to.len(),
            out@ == old(out)@ + to@.take(j as int),
        decreases to.len() - j,
    {
        out.push(to[j]);
        assert(out@ =~= old(out)@ + to@.take(j + 1));
        j += 1;
    }
    assert(to@.take(to.len() as int) =~= to@);
}

/// Replaces every byte `from` of `s` by the bytes `to`.
pub fn replace_byte(s: &Vec<u8>, from: u8, to: &Vec<u8>) -> (r: Vec<u8>)
    ensures
        r@ == replaced(s@, from, to@),
{
    let mut out: Vec<u8> = Vec::new();
    let mut i: usize = 0;
    while i < s.len()
        invariant
            i <= s.len(),
            out@ == replaced(s@.take(i as int), from, to@),
        decreases s.len() - i,
    {
        assert(s@.take(i + 1).drop_last() =~= s@.take(i as int));
        if s[i] == from {
            append(&mut out, to);
        } else {
            out.push(s[i]);
        }
        i += 1;
    }
    assert(s@.take(s.len() as int) =~= s@);
    out
}

/// The first stage of decoding: undoes the two-for-one rewrites of the
/// writer, in their fixed order.
pub fn decompress(txt: &Vec<u8>) -> (out: Vec<u8>)
    ensures
        out@ == decompressed(txt@),
{
    let mut out: Vec<u8> = txt.clone();
    let mut k: usize = 0;
    while k < RULES
        invariant
            k <= RULES,
            out@ == decompressed_upto(txt@, k as int),
        decreases RULES - k,
    {
        let r = rule(k);
        let to: Vec<u8> = vec![r.1, r.2];
        assert(to@ =~= seq![r.1, r.2]);
        out = replace_byte(&out, r.0, &to);
        k += 1;
    }
    out
}

/// The second stage of decoding: spells out the run lengths, and gives one
/// byte per cell of the map.
pub fn expand(txt: &Vec<u8>) -> (out: Vec<u8>)
    ensures
        out@ == expanded(txt@),
{
    let underscore: Vec<u8> = vec![95u8];
    assert(underscore@ =~= seq![95u8]);
    let mut out: Vec<u8> = replace_byte(txt, 46, &underscore);
    let mut rhs: Vec<u8> = Vec::new();
    let mut k: u8 = 0;
    while k < 26
        invariant
            k <= 26,
            rhs@ == run(46, k as int),
            out@ == expanded_small(txt@, k as int),
        decreases 26 - k,
    {
        k += 1;
        rhs.push(46);
        assert(rhs@ =~= run(46, k as int));
        out = replace_byte(&out, 96 + k, &rhs);
    }
    let mut rhs: Vec<u8> = Vec::new();
    let mut k: u8 = 0;
    while k < 26
        invariant
            k <= 26,
            rhs@ == run(120, k as int),
            out@ == expanded_capital(txt@, k as int),
        decreases 26 - k,
    {
        k += 1;
        rhs.push(120);
        assert(rhs@ =~= run(120, k as int));
        out = replace_byte(&out, 64 + k, &rhs);
    }
    let orb: Vec<u8> = vec![111u8];
    assert(orb@ =~= seq![111u8]);
    replace_byte(&out, 95, &orb)
}

/// The pieces of `s` between the separators: one more than there are
/// separators.
pub open spec fn split(s: Seq<u8>, sep: u8) -> Seq<Seq<u8>>
    decreases s.len(),
{
    if s.len() == 0 {
        seq![Seq::empty()]
    } else {
        let front = split(s.drop_last(), sep);
        if s.last() == sep {
            front.push(Seq::empty())
        } else {
            front.drop_last().push(front.last().push(s.last()))
        }
    }
}

/// A split has at least one piece.
pub proof fn lemma_split_len(s: Seq<u8>, sep: u8)
    ensures
        split(s, sep).len() >= 1,
    decreases s.len(),
{
    if s.len() > 0 {
        lemma_split_len(s.drop_last(), sep);
    }
}

/// The views of a sequence of byte vectors.
pub open spec fn views(v: Seq<Vec<u8>>) -> Seq<Seq<u8>> {
    Seq::new(v.len(), |i: int| v[i]@)
}

/// Cuts `s` at every separator.
pub fn split_bytes(s: &Vec<u8>, sep: u8) -> (r: Vec<Vec<u8>>)
    ensures
        views(r@) == split(s@, sep),
        r.len() >= 1,
{
    let mut pieces: Vec<Vec<u8>> = Vec::new();
    let mut current: Vec<u8> = Vec::new();
    let mut i: usize = 0;
    while i < s.len()
        invariant
            i <= s.len(),
            split(s@.take(i as int), sep) == views(pieces@).push(current@),
        decreases s.len() - i,
    {
        assert(s@.take(i + 1).drop_last() =~= s@.take(i as int));
        let ghost before = views(pieces@);
        let ghost cur = current@;
        assert(before.push(cur).drop_last() =~= before);
        if s[i] == sep {
            pieces.push(current);
            current = Vec::new();
            assert(views(pieces@) =~= before.push(cur));
        } else {
            current.push(s[i]);
        }
        i += 1;
    }
    assert(s@.take(s.len() as int) =~= s@);
    let ghost before = views(pieces@);
    pieces.push(current);
    assert(views(pieces@) =~= before.push(current@));
    pieces
}

/// The piece number `i` of a text cut at its line feeds, without the
/// carriage return that may stand before its line feed.
pub open spec fn line_at(parts: Seq<Seq<u8>>, i: int) -> Seq<u8> {
    if i + 1 < parts.len() && parts[i].len() > 0 && parts[i].last() == 13 {
        parts[i].drop_last()
    } else {
        parts[i]
    }
}

/// The lines of a text: its pieces between line feeds, each without the
/// carriage return that may stand before its line feed.
pub open spec fn lines(text: Seq<u8>) -> Seq<Seq<u8>> {
    let parts = split(text, 10);
    Seq::new(parts.len(), |i: int| line_at(parts, i))
}

/// Copies the line number `k` out of a text cut at its line feeds.
fn take_line(parts: &Vec<Vec<u8>>, k: usize) -> (line: Vec<u8>)
    requires
        k < parts.len(),
    ensures
        line@ == line_at(views(parts@), k as int),
{
    let mut line: Vec<u8> = parts[k].clone();
    if k + 1 < parts.len() && line.len() > 0 && line[line.len() - 1] == 13 {
        line.pop();
    }
    line
}

/// The number that a sequence of decimal digits spells.
pub open spec fn digits_value(s: Seq<u8>) -> nat
    decreases s.len(),
{
    if s.len() == 0 {
        0
    } else {
        digits_value(s.drop_last()) * 10 + (s.last() - 48) as nat
    }
}

/// Every byte is a decimal digit.
pub open spec fn all_digits(s: Seq<u8>) -> bool {
    forall|i: int| 0 <= i < s.len() ==> 48 <= #[trigger] s[i] <= 57
}

/// The number that a field spells: one or more decimal digits, with a plus
/// sign before them or without, whose value fits the machine word.
pub open spec fn number(s: Seq<u8>) -> Option<usize> {
    let d = if s.len() > 0 && s[0] == 43 {
        s.skip(1)
    } else {
        s
    };
    if d.len() > 0 && all_digits(d) && digits_value(d) <= usize::MAX {
        Some(digits_value(d) as usize)
    } else {
        None
    }
}

/// A number spelled by digits is no smaller than the number spelled by the
/// first of them.
pub proof fn lemma_digits_grow(s: Seq<u8>, i: int)
    requires
        all_digits(s),
        0 <= i <= s.len(),
    ensures
        digits_value(s.take(i)) <= digits_value(s),
    decreases s.len() - i,
{
    if i < s.len() {
        lemma_digits_grow(s, i + 1);
        assert(s.take(i + 1).drop_last() =~= s.take(i));
    } else {
        assert(s.take(i) =~= s);
    }
}

/// Reads a number from a field.
pub fn parse_number(s: &Vec<u8>) -> (r: Option<usize>)
    ensures
        r == number(s@),
{
    let start: usize = if s.len() > 0 && s[0] == 43 {
        1
    } else {
        0
    };
    let ghost d = if s.len() > 0 && s[0] == 43 {
        s@.skip(1)
    } else {
        s@
    };
    if start >= s.len() {
        return None;
    }
    let mut value: usize = 0;
    let mut i: usize = start;
    while i < s.len()
        invariant
            start <= i <= s.len(),
            d == if s.len() > 0 && s[0] == 43 {
                s@.skip(1)
            } else {
                s@
            },
            d.len() == s.len() - start,
            forall|j: int| 0 <= j < d.len() ==> d[j] == s[start + j],
            all_digits(d.take(i - start)),
            value == digits_value(d.take(i - start)),
        decreases s.len() - i,
    {
        let b: u8 = s[i];
        assert(d[i - start] == b);
        if b < 48 || b > 57 {
            assert(!all_digits(d)) by {
                assert(d[i - start] == b);
            }
            return None;
        }
        let digit: usize = (b - 48) as usize;
        assert(d.take(i - start + 1).drop_last() =~= d.take(i - start));
        assert(d.take(i - start + 1).last() == b);
        assert(digits_value(d.take(i - start + 1)) == value * 10 + digit);
        if value > (usize::MAX - digit) / 10 {
            proof {
                assert(value * 10 + digit > usize::MAX);
                if all_digits(d) {
                    lemma_digits_grow(d, i - start + 1);
                }
            }
            return None;
        }
        value = value * 10 + digit;
        i += 1;
    }
    assert(d.take(s.len() - start) =~= d);
    Some(value)
}

/// Why a line of the level file is refused.
#[derive(Clone, Copy, Debug, PartialEq, Eq)]
pub enum LineError {
    /// The line has fewer than four fields.
    FieldCount,
    /// One of the first three fields is no number.
    Number,
    /// The decoded map has not one byte for each cell of the square.
    Length,
    /// The side length or the piece count is out of range, or an orb lies on
    /// the border.
    Layout,
}

/// A line of the level file that was refused, and why. Lines count from
/// zero.
#[derive(Clone, Copy, Debug, PartialEq, Eq)]
pub struct LevelFileError {
    pub line: usize,
    pub kind: LineError,
}

/// What a line of the level file holds: the block that its four fields
/// spell, or the first reason to refuse it.
pub open spec fn parsed_line(line: Seq<u8>) -> Result<BlockView, LineError> {
    let f = split(line, 44);
    if f.len() < 4 {
        Err(LineError::FieldCount)
    } else if number(f[0]).is_none() || number(f[1]).is_none() || number(f[2]).is_none() {
        Err(LineError::Number)
    } else {
        let b = BlockView {
            npcs: number(f[0]).unwrap(),
            sz: number(f[1]).unwrap(),
            norbs: number(f[2]).unwrap(),
            map: expanded(decompressed(f[3])),
        };
        if b.map.len() != b.sz * b.sz {
            Err(LineError::Length)
        } else if !b.wf() {
            Err(LineError::Layout)
        } else {
            Ok(b)
        }
    }
}

/// Whether a block can be built: its side length and piece count are in
/// range, its map is a full square, and every orb lies in the interior.
pub fn block_is_wf(b: &Block) -> (r: bool)
    ensures
        r == b.wf(),
{
    if b.sz < 3 || b.sz > 15 {
        return false;
    }
    let n: usize = b.sz;
    assert(n * n <= 225 && n * n >= 2 * n) by (nonlinear_arith)
        requires
            3 <= n <= 15,
    ;
    if b.map.len() != n * n {
        return false;
    }
    if !(b.npcs == 8 || b.npcs == 16 || b.npcs == 24) {
        return false;
    }
    let len: usize = b.map.len();
    let mut i: usize = 0;
    while i < len
        invariant
            3 <= n <= 15,
            n == b.sz,
            len == n * n,
            len == b.map.len(),
            len >= 2 * n,
            i <= len,
            forall|j: int| 0 <= j < i && #[trigger] b.map[j] == MARK_ORB ==> interior(n as int, j),
        decreases len - i,
    {
        if b.map[i] == MARK_ORB {
            let x: usize = i % n;
            let inside: bool = i >= n && i < len - n && 0 < x && x < n - 1;
            if !inside {
                return false;
            }
        }
        i += 1;
    }
    true
}

/// Whether `len` is the square of `sz`.
pub fn square_of(len: usize, sz: usize) -> (r: bool)
    ensures
        r == (len == sz * sz),
{
    if sz > 0xffff_ffff {
        assert(sz * sz > usize::MAX) by (nonlinear_arith)
            requires
                sz > 0xffff_ffff,
        ;
        false
    } else {
        assert(sz * sz <= 0xffff_ffff * 0xffff_ffff) by (nonlinear_arith)
            requires
                sz <= 0xffff_ffff,
        ;
        (len as u128) == (sz as u128) * (sz as u128)
    }
}

/// Decodes one line of the level file.
pub fn parse_line(line: &Vec<u8>) -> (r: Result<Block, LineError>)
    ensures
        match r {
            Ok(b) => parsed_line(line@) == Ok::<BlockView, LineError>(b@),
            Err(e) => parsed_line(line@) == Err::<BlockView, LineError>(e),
        },
{
    let fields = split_bytes(line, 44);
    let ghost f = split(line@, 44);
    if fields.len() < 4 {
        return Err(LineError::FieldCount);
    }
    assert(f[0] == fields[0]@ && f[1] == fields[1]@ && f[2] == fields[2]@ && f[3] == fields[3]@);
    let npcs = parse_number(&fields[0]);
    let sz = parse_number(&fields[1]);
    let norbs = parse_number(&fields[2]);
    match (npcs, sz, norbs) {
        (Some(npcs), Some(sz), Some(norbs)) => {
            let map = expand(&decompress(&fields[3]));
            let b = Block { sz, norbs, npcs, map };
            if !square_of(b.map.len(), sz) {
                Err(LineError::Length)
            } else if !block_is_wf(&b) {
                Err(LineError::Layout)
            } else {
                Ok(b)
            }
        },
        _ => Err(LineError::Number),
    }
}

/// What the first `k` lines of a level file hold: their blocks in order, or
/// the first line that is refused. Lines of fewer than two bytes are passed
/// over.
pub open spec fn parsed_upto(all: Seq<Seq<u8>>, k: int) -> Result<Seq<BlockView>, LevelFileError>
    decreases k,
{
    if k <= 0 {
        Ok(Seq::empty())
    } else {
        match parsed_upto(all, k - 1) {
            Err(e) => Err(e),
            Ok(blocks) => if all[k - 1].len() < 2 {
                Ok(blocks)
            } else {
                match parsed_line(all[k - 1]) {
                    Ok(b) => Ok(blocks.push(b)),
                    Err(kind) => Err(LevelFileError { line: (k - 1) as usize, kind: kind }),
                }
            },
        }
    }
}

/// What a level file holds.
pub open spec fn parsed(text: Seq<u8>) -> Result<Seq<BlockView>, LevelFileError> {
    parsed_upto(lines(text), lines(text).len() as int)
}

/// Every block of the first `k` lines of a level file can be built.
pub proof fn lemma_parsed_wf(all: Seq<Seq<u8>>, k: int)
    requires
        parsed_upto(all, k).is_ok(),
    ensures
        forall|i: int|
            0 <= i < parsed_upto(all, k).unwrap().len() ==> (#[trigger] parsed_upto(all, k).unwrap()[i]).wf(),
    decreases k,
{
    if k > 0 {
        lemma_parsed_wf(all, k - 1);
    }
}

/// A line that is refused is refused whatever follows it.
pub proof fn lemma_parsed_err(all: Seq<Seq<u8>>, k: int, to: int)
    requires
        parsed_upto(all, k).is_err(),
        k <= to,
    ensures
        parsed_upto(all, to) == parsed_upto(all, k),
    decreases to - k,
{
    if k < to {
        lemma_parsed_err(all, k, to - 1);
    }
}

/// Decodes a level file into its blocks, in the order of the file.
pub fn parse_levels(text: &Vec<u8>) -> (r: Result<Vec<Block>, LevelFileError>)
    ensures
        match r {
            Ok(blocks) => parsed(text@) == Ok::<Seq<BlockView>, LevelFileError>(block_views(blocks@)) && forall|
                i: int,
            | 0 <= i < blocks.len() ==> (#[trigger] blocks[i]).wf(),
            Err(e) => parsed(text@) == Err::<Seq<BlockView>, LevelFileError>(e),
        },
{
    let parts = split_bytes(text, 10);
    let ghost all = lines(text@);
    let mut blocks: Vec<Block> = Vec::new();
    let mut k: usize = 0;
    assert(block_views(blocks@) =~= Seq::empty());
    while k < parts.len()
        invariant
            k <= parts.len(),
            all == lines(text@),
            all.len() == parts.len(),
            forall|i: int| 0 <= i < all.len() ==> #[trigger] all[i] == line_at(views(parts@), i),
            parsed_upto(all, k as int) == Ok::<Seq<BlockView>, LevelFileError>(block_views(blocks@)),
        decreases parts.len() - k,
    {
        let line = take_line(&parts, k);
        assert(line@ == all[k as int]);
        let ghost before = block_views(blocks@);
        assert(parsed_upto(all, k as int) == Ok::<Seq<BlockView>, LevelFileError>(before));
        if line.len() >= 2 {
            match parse_line(&line) {
                Ok(b) => {
                    blocks.push(b);
                    assert(block_views(blocks@) =~= before.push(b@));
                },
                Err(kind) => {
                    proof {
                        assert(parsed_upto(all, k + 1) == Err::<Seq<BlockView>, LevelFileError>(
                            LevelFileError { line: k, kind: kind },
                        ));
                        lemma_parsed_err(all, k + 1, all.len() as int);
                    }
                    return Err(LevelFileError { line: k, kind });
                },
            }
        }
        k += 1;
    }
    proof {
        lemma_parsed_wf(all, all.len() as int);
        let bs = parsed_upto(all, all.len() as int).unwrap();
        assert(bs == block_views(blocks@));
        assert forall|i: int| 0 <= i < blocks.len() implies (#[trigger] blocks[i]).wf() by {
            assert(bs[i] == blocks[i]@);
            assert(bs[i].wf());
        }
    }
    Ok(blocks)
}

} // verus!
