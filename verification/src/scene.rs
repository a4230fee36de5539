//! The scene: the static board of one level with its derived maps, how it is
//! built from a level block, and how the clipping map follows the pieces.

use vstd::prelude::*;
use crate::enums::{
    spec_is_floor, spec_is_source, BLOCK, BOARD_IDX_INVALID, CLIPPING_BLOCK, CLIPPING_NONE, CLIPPING_ORB,
    CLIPPING_SOURCE, FLOOR, FLOOR_ODD, MARK_BLOCK, MARK_ORB, ORB, SOURCE_D, SOURCE_L, SOURCE_R, SOURCE_U,
};
use crate::game::{GameData, GameDataHeap};
use crate::game_state::{same_set, Block, PieceData};
use crate::grid::{corner, count, interior, lemma_cell, lemma_xy};
use crate::rng::random_ratio;
use crate::transform::{
    from_slot, law_turn_keeps_counts, lemma_slot_maps, lemma_turn, lemma_turned, positions_on_board,
    turned_positions, turned_tiles, Turn,
};

verus! {

/// The board of a level: the static tilemap, the clipping map that the beam
/// consults, the layer of the placed pieces, the beam overlay, the side
/// length and its square, and how many orbs and pieces the level has.
#[derive(Clone, Debug, PartialEq)]
pub struct SceneData {
    pub tilemap: Vec<u16>,
    pub clipping: Vec<u8>,
    pub reflectors: Vec<u16>,
    pub beams: Vec<u16>,
    pub sz: usize,
    pub sz2: usize,
    pub num_goals: u8,
    pub num_pcs: u8,
}

/// What a border cell of a board shows: nothing in the corners, and along
/// each edge the source that points into the board.
pub open spec fn edge_code(n: int, idx: int) -> u16 {
    let x = idx % n;
    let y = idx / n;
    if (x == 0 || x == n - 1) && (y == 0 || y == n - 1) {
        0
    } else if y == 0 {
        SOURCE_D
    } else if y == n - 1 {
        SOURCE_U
    } else if x == 0 {
        SOURCE_R
    } else if x == n - 1 {
        SOURCE_L
    } else {
        0
    }
}

/// The floor variant of a cell: the two alternate like a checkerboard.
pub open spec fn floor_code(n: int, idx: int) -> u16 {
    if (idx % n + idx / n) % 2 == 0 {
        FLOOR
    } else {
        FLOOR_ODD
    }
}

/// The tile that the builder puts on the cell `i` of a level map: an orb
/// where the map marks one; else on the border what the border shows; else a
/// block where the map marks a candidate and the mask takes it; else floor.
pub open spec fn built_tile(map: Seq<u8>, mask: Seq<bool>, n: int, i: int) -> u16 {
    if map[i] == MARK_ORB {
        ORB
    } else if !interior(n, i) {
        edge_code(n, i)
    } else if map[i] == MARK_BLOCK && mask[i] {
        BLOCK
    } else {
        floor_code(n, i)
    }
}

/// The tilemap that the builder makes of a level map and a mask.
pub open spec fn built_tilemap(map: Seq<u8>, mask: Seq<bool>, n: int) -> Seq<u16> {
    Seq::new((n * n) as nat, |i: int| built_tile(map, mask, n, i))
}

/// The clipping class of a tile with no piece on it.
pub open spec fn base_clip(tile: u16) -> u8 {
    if tile == ORB {
        CLIPPING_ORB
    } else if tile == 0 || tile == BLOCK {
        CLIPPING_BLOCK
    } else if spec_is_source(tile) {
        CLIPPING_SOURCE
    } else {
        CLIPPING_NONE
    }
}

/// The clipping map of a board with no piece on it.
pub open spec fn base_clipping(t: Seq<u16>) -> Seq<u8> {
    Seq::new(t.len(), |i: int| base_clip(t[i]))
}

/// The clipping map after the first `k` pieces have been entered: a placed
/// piece puts its code on its cell.
pub open spec fn clipping_upto(t: Seq<u16>, pieces: Seq<PieceData>, k: int) -> Seq<u8>
    decreases k,
{
    if k <= 0 {
        base_clipping(t)
    } else {
        let before = clipping_upto(t, pieces, k - 1);
        let p = pieces[k - 1];
        if p.board_idx != BOARD_IDX_INVALID && (p.board_idx as int) < t.len() {
            before.update(p.board_idx as int, p.tile as u8)
        } else {
            before
        }
    }
}

/// The clipping map of a board and the pieces of the first `npcs` slots. It
/// is made of the tilemap and the pieces alone.
pub open spec fn clipping_of(t: Seq<u16>, pieces: Seq<PieceData>, npcs: int) -> Seq<u8> {
    clipping_upto(t, pieces, npcs)
}

/// The layer that shows the placed pieces of the first `k` slots.
pub open spec fn reflectors_upto(len: nat, pieces: Seq<PieceData>, k: int) -> Seq<u16>
    decreases k,
{
    if k <= 0 {
        Seq::new(len, |i: int| 0u16)
    } else {
        let before = reflectors_upto(len, pieces, k - 1);
        let p = pieces[k - 1];
        if p.board_idx != BOARD_IDX_INVALID && (p.board_idx as int) < len {
            before.update(p.board_idx as int, p.tile)
        } else {
            before
        }
    }
}

/// A board as every level shows it: a full square whose border holds nothing
/// but the corners' emptiness and the inward sources, and whose orbs are as
/// many as `goals` says.
pub open spec fn board_sound(t: Seq<u16>, n: int, goals: int) -> bool {
    &&& t.len() == n * n
    &&& forall|i: int| 0 <= i < n * n && !interior(n, i) ==> #[trigger] t[i] == edge_code(n, i)
    &&& count(t, ORB) == goals
}

/// On a sound board the four corners are empty, every other border cell
/// shows a source, and the tilemap has one tile for each cell of the square.
pub proof fn law_sound_border(t: Seq<u16>, n: int, goals: int, i: int)
    requires
        n >= 3,
        board_sound(t, n, goals),
        0 <= i < n * n,
        !interior(n, i),
    ensures
        t.len() == n * n,
        count(t, ORB) == goals,
        corner(n, i) ==> t[i] == 0,
        !corner(n, i) ==> spec_is_source(t[i]),
{
    lemma_xy(n, i);
    lemma_cell(n, 0, 0);
    lemma_cell(n, n - 1, 0);
    lemma_cell(n, 0, n - 1);
    lemma_cell(n, n - 1, n - 1);
    assert((n - 1) * n + (n - 1) == n * n - 1) by (nonlinear_arith);
}

/// The pieces of a board: each is in the inventory or stands on an interior
/// floor cell, only the first `npcs` slots are in play, and no two pieces
/// share a cell.
pub open spec fn pieces_sound(positions: Seq<u8>, t: Seq<u16>, n: int, npcs: int) -> bool {
    &&& positions.len() == 24
    &&& forall|k: int|
        0 <= k < 24 && #[trigger] positions[k] != BOARD_IDX_INVALID ==> k < npcs && interior(n, positions[k] as int)
            && spec_is_floor(t[positions[k] as int])
    &&& forall|j: int, k: int|
        0 <= j < k < 24 && #[trigger] positions[j] != BOARD_IDX_INVALID && #[trigger] positions[k]
            != BOARD_IDX_INVALID ==> positions[j] != positions[k]
}

/// The board indices of the pieces, slot by slot.
pub open spec fn positions_of(pieces: Seq<PieceData>) -> Seq<u8> {
    Seq::new(pieces.len(), |k: int| pieces[k].board_idx)
}

impl SceneData {
    /// The four maps are full squares of the side length.
    pub open spec fn shaped(&self) -> bool {
        &&& 3 <= self.sz <= 15
        &&& self.sz2 == self.sz * self.sz
        &&& self.tilemap.len() == self.sz2
        &&& self.clipping.len() == self.sz2
        &&& self.reflectors.len() == self.sz2
        &&& self.beams.len() == self.sz2
    }

    /// A scene of a level: shaped, with a sound board and an inventory of
    /// eight, sixteen or twenty-four pieces.
    pub open spec fn wf(&self) -> bool {
        &&& self.shaped()
        &&& board_sound(self.tilemap@, self.sz as int, self.num_goals as int)
        &&& (self.num_pcs == 8 || self.num_pcs == 16 || self.num_pcs == 24)
    }

    /// Everything but the tilemap is the same in both.
    pub open spec fn same_but_tilemap(&self, other: &SceneData) -> bool {
        &&& self.clipping == other.clipping
        &&& self.reflectors == other.reflectors
        &&& self.beams == other.beams
        &&& self.sz == other.sz
        &&& self.sz2 == other.sz2
        &&& self.num_goals == other.num_goals
        &&& self.num_pcs == other.num_pcs
    }

    /// A scene of the given side length with every map zeroed.
    pub fn new(sz: usize) -> (r: SceneData)
        requires
            sz * sz <= usize::MAX,
        ensures
            r.sz == sz,
            r.sz2 == sz * sz,
            r.num_goals == 0,
            r.num_pcs == 0,
            r.tilemap@ == Seq::new((sz * sz) as nat, |i: int| 0u16),
            r.clipping@ == Seq::new((sz * sz) as nat, |i: int| 0u8),
            r.reflectors@ == Seq::new((sz * sz) as nat, |i: int| 0u16),
            r.beams@ == Seq::new((sz * sz) as nat, |i: int| 0u16),
    {
        let sz2: usize = sz * sz;
        let r = SceneData {
            tilemap: vec![0u16; sz2],
            clipping: vec![0u8; sz2],
            reflectors: vec![0u16; sz2],
            beams: vec![0u16; sz2],
            sz,
            sz2,
            num_goals: 0,
            num_pcs: 0,
        };
        assert(r.tilemap@ =~= Seq::new((sz * sz) as nat, |i: int| 0u16));
        assert(r.clipping@ =~= Seq::new((sz * sz) as nat, |i: int| 0u8));
        assert(r.reflectors@ =~= Seq::new((sz * sz) as nat, |i: int| 0u16));
        assert(r.beams@ =~= Seq::new((sz * sz) as nat, |i: int| 0u16));
        r
    }

    /// The scene before any level is loaded: no cells at all.
    pub fn empty() -> (r: SceneData)
        ensures
            r.sz == 1,
            r.sz2 == 1,
            r.num_goals == 0,
            r.num_pcs == 0,
            r.tilemap@.len() == 0,
            r.clipping@.len() == 0,
            r.reflectors@.len() == 0,
            r.beams@.len() == 0,
    {
        SceneData {
            tilemap: Vec::new(),
            clipping: Vec::new(),
            reflectors: Vec::new(),
            beams: Vec::new(),
            sz: 1,
            sz2: 1,
            num_goals: 0,
            num_pcs: 0,
        }
    }
}

/// The clipping class of a tile with no piece on it.
pub fn base_clip_of(tile: u16) -> (r: u8)
    ensures
        r == base_clip(tile),
{
    if tile == ORB {
        CLIPPING_ORB
    } else if tile == 0 || tile == BLOCK {
        CLIPPING_BLOCK
    } else if SOURCE_U <= tile && tile <= SOURCE_R {
        CLIPPING_SOURCE
    } else {
        CLIPPING_NONE
    }
}

/// A cell that holds an orb in the clipping map holds one in the tilemap,
/// whatever pieces were entered, as no piece code is the orb's.
pub proof fn lemma_clipping_orb(t: Seq<u16>, pieces: Seq<PieceData>, k: int, c: int)
    requires
        0 <= k <= pieces.len(),
        forall|j: int| 0 <= j < k ==> (#[trigger] pieces[j]).tile as u8 != CLIPPING_ORB,
        0 <= c < t.len(),
        clipping_upto(t, pieces, k)[c] == CLIPPING_ORB,
    ensures
        t[c] == ORB,
        clipping_upto(t, pieces, k).len() == t.len(),
    decreases k,
{
    lemma_clipping_len(t, pieces, k);
    if k > 0 {
        lemma_clipping_len(t, pieces, k - 1);
        lemma_clipping_orb(t, pieces, k - 1, c);
    }
}

/// The clipping map has a class for every cell of the tilemap.
pub proof fn lemma_clipping_len(t: Seq<u16>, pieces: Seq<PieceData>, k: int)
    ensures
        clipping_upto(t, pieces, k).len() == t.len(),
    decreases k,
{
    if k > 0 {
        lemma_clipping_len(t, pieces, k - 1);
    }
}

/// The layer of the placed pieces has a cell for every cell asked for.
pub proof fn lemma_reflectors_len(len: nat, pieces: Seq<PieceData>, k: int)
    ensures
        reflectors_upto(len, pieces, k).len() == len,
    decreases k,
{
    if k > 0 {
        lemma_reflectors_len(len, pieces, k - 1);
    }
}

/// The clipping map is made of the tilemap and of where the pieces of the
/// first slots stand and what they show, and of nothing else: two states
/// that agree on those have the same clipping map.
pub proof fn law_clipping_is_pure(
    t_a: Seq<u16>,
    pieces_a: Seq<PieceData>,
    t_b: Seq<u16>,
    pieces_b: Seq<PieceData>,
    npcs: int,
)
    requires
        t_a =~= t_b,
        0 <= npcs <= pieces_a.len(),
        npcs <= pieces_b.len(),
        forall|k: int|
            0 <= k < npcs ==> (#[trigger] pieces_a[k]).board_idx == pieces_b[k].board_idx && pieces_a[k].tile
                == pieces_b[k].tile,
    ensures
        clipping_of(t_a, pieces_a, npcs) == clipping_of(t_b, pieces_b, npcs),
    decreases npcs,
{
    if npcs > 0 {
        law_clipping_is_pure(t_a, pieces_a, t_b, pieces_b, npcs - 1);
        assert(pieces_a[npcs - 1].board_idx == pieces_b[npcs - 1].board_idx);
    }
}

/// Builds the scene of a block, taking a block candidate where the mask says
/// so.
pub fn build_scene_with(block: &Block, mask: &Vec<bool>) -> (scene: SceneData)
    requires
        block.shaped(),
        mask.len() == block.map.len(),
    ensures
        scene.shaped(),
        scene.sz == block.sz,
        scene.tilemap@ == built_tilemap(block.map@, mask@, block.sz as int),
        scene.clipping@ == base_clipping(scene.tilemap@),
        scene.reflectors@ == Seq::new(scene.sz2 as nat, |i: int| 0u16),
        scene.beams@ == Seq::new(scene.sz2 as nat, |i: int| 0u16),
        scene.num_goals == count(scene.tilemap@, ORB),
        scene.num_pcs == block.npcs,
        block.wf() ==> scene.wf(),
{
    let n: usize = block.sz;
    assert(n * n <= 225 && n * n >= 3 * n) by (nonlinear_arith)
        requires
            3 <= n <= 15,
    ;
    let mut scene = SceneData::new(n);
    let sz2: usize = scene.sz2;
    let mut tiles: Vec<u16> = Vec::new();
    let mut clip: Vec<u8> = Vec::new();
    let mut goals: u8 = 0;
    let mut idx: usize = 0;
    while idx < sz2
        invariant
            3 <= n <= 15,
            sz2 == n * n,
            sz2 <= 225,
            n == block.sz,
            block.map.len() == sz2,
            mask.len() == sz2,
            idx <= sz2,
            tiles@ == Seq::new(idx as nat, |i: int| built_tile(block.map@, mask@, n as int, i)),
            clip@ == base_clipping(tiles@),
            goals == count(tiles@, ORB),
            goals <= idx,
        decreases sz2 - idx,
    {
        let x: usize = idx % n;
        let y: usize = idx / n;
        let inside: bool = idx >= n && idx < sz2 - n && 0 < x && x < n - 1;
        let tile: u16 = if block.map[idx] == MARK_ORB {
            ORB
        } else if !inside {
            if (x == 0 || x == n - 1) && (y == 0 || y == n - 1) {
                0
            } else if y == 0 {
                SOURCE_D
            } else if y == n - 1 {
                SOURCE_U
            } else if x == 0 {
                SOURCE_R
            } else if x == n - 1 {
                SOURCE_L
            } else {
                0
            }
        } else if block.map[idx] == MARK_BLOCK && mask[idx] {
            BLOCK
        } else if (x + y) % 2 == 0 {
            FLOOR
        } else {
            FLOOR_ODD
        };
        if tile == ORB {
            goals += 1;
        }
        let ghost before = tiles@;
        tiles.push(tile);
        clip.push(base_clip_of(tile));
        assert(tiles@.drop_last() =~= before);
        assert(tiles@ =~= Seq::new((idx + 1) as nat, |i: int| built_tile(block.map@, mask@, n as int, i)));
        assert(clip@ =~= base_clipping(tiles@));
        idx += 1;
    }
    assert(tiles@ =~= built_tilemap(block.map@, mask@, n as int));
    scene.tilemap = tiles;
    scene.clipping = clip;
    scene.num_goals = goals;
    scene.num_pcs = block.npcs as u8;
    scene
}

/// Draws a mask for a level map: a candidate cell is taken with probability
/// three in ten, any other cell never.
pub fn draw_mask(map: &Vec<u8>) -> (mask: Vec<bool>)
    ensures
        mask.len() == map.len(),
        forall|i: int| 0 <= i < map.len() && map[i] != MARK_BLOCK ==> !#[trigger] mask[i],
{
    let mut mask: Vec<bool> = Vec::new();
    let mut i: usize = 0;
    while i < map.len()
        invariant
            i <= map.len(),
            mask.len() == i,
            forall|j: int| 0 <= j < i && map[j] != MARK_BLOCK ==> !#[trigger] mask[j],
        decreases map.len() - i,
    {
        let taken: bool = map[i] == MARK_BLOCK && random_ratio(3, 10);
        mask.push(taken);
        i += 1;
    }
    mask
}

/// Builds the scene of a block. Each block candidate of the map is taken
/// with probability three in ten, by a draw of its own.
pub fn build_scene(block: &Block) -> (scene: SceneData)
    requires
        block.shaped(),
    ensures
        scene.shaped(),
        scene.sz == block.sz,
        exists|mask: Seq<bool>|
            mask.len() == block.map.len() && scene.tilemap@ == built_tilemap(block.map@, mask, block.sz as int),
        scene.clipping@ == base_clipping(scene.tilemap@),
        scene.reflectors@ == Seq::new(scene.sz2 as nat, |i: int| 0u16),
        scene.beams@ == Seq::new(scene.sz2 as nat, |i: int| 0u16),
        scene.num_goals == count(scene.tilemap@, ORB),
        scene.num_pcs == block.npcs,
        block.wf() ==> scene.wf(),
{
    let mask = draw_mask(&block.map);
    build_scene_with(block, &mask)
}

/// Recomputes the clipping map from the tilemap and the pieces in play.
pub fn update_clipping(cache: &mut GameData, heap: &mut GameDataHeap)
    requires
        old(heap).scene_data.num_pcs <= 24,
    ensures
        final(heap).scene_data.clipping@ == clipping_of(
            old(heap).scene_data.tilemap@,
            old(cache).pieces@,
            old(heap).scene_data.num_pcs as int,
        ),
        final(heap).scene_data.clipping@.len() == old(heap).scene_data.tilemap@.len(),
        final(heap).scene_data.tilemap == old(heap).scene_data.tilemap,
        final(heap).scene_data.reflectors == old(heap).scene_data.reflectors,
        final(heap).scene_data.beams == old(heap).scene_data.beams,
        final(heap).scene_data.sz == old(heap).scene_data.sz,
        final(heap).scene_data.sz2 == old(heap).scene_data.sz2,
        final(heap).scene_data.num_goals == old(heap).scene_data.num_goals,
        final(heap).scene_data.num_pcs == old(heap).scene_data.num_pcs,
        final(heap).level_data == old(heap).level_data,
        final(heap).history == old(heap).history,
        *final(cache) == *old(cache),
{
    let len: usize = heap.scene_data.tilemap.len();
    let npcs: usize = heap.scene_data.num_pcs as usize;
    let mut clip: Vec<u8> = Vec::new();
    let mut i: usize = 0;
    while i < len
        invariant
            len == heap.scene_data.tilemap.len(),
            i <= len,
            clip@ == Seq::new(i as nat, |j: int| base_clip(heap.scene_data.tilemap@[j])),
        decreases len - i,
    {
        clip.push(base_clip_of(heap.scene_data.tilemap[i]));
        assert(clip@ =~= Seq::new((i + 1) as nat, |j: int| base_clip(heap.scene_data.tilemap@[j])));
        i += 1;
    }
    assert(clip@ =~= base_clipping(heap.scene_data.tilemap@));
    let mut k: usize = 0;
    while k < npcs
        invariant
            npcs <= 24,
            k <= npcs,
            len == heap.scene_data.tilemap.len(),
            clip.len() == len,
            clip@ == clipping_upto(heap.scene_data.tilemap@, cache.pieces@, k as int),
        decreases npcs - k,
    {
        let b: usize = cache.pieces[k].board_idx as usize;
        if cache.pieces[k].board_idx != BOARD_IDX_INVALID && b < len {
            clip[b] = cache.pieces[k].tile as u8;
        }
        k += 1;
    }
    heap.scene_data.clipping = clip;
}

/// The positions after every piece of the first `npcs` slots went back into
/// the inventory.
pub open spec fn cleared_positions(p: Seq<u8>, npcs: int) -> Seq<u8> {
    Seq::new(
        p.len(),
        |k: int|
            if k < npcs {
                BOARD_IDX_INVALID
            } else {
                p[k]
            },
    )
}

/// Takes every piece in play back into the inventory.
pub fn reset_scene(cache: &mut GameData, heap: &mut GameDataHeap)
    requires
        old(heap).scene_data.num_pcs <= 24,
    ensures
        *final(heap) == *old(heap),
        final(cache).same_but_pieces(old(cache)),
        same_set(final(cache).pieces@, old(cache).pieces@),
        positions_of(final(cache).pieces@) == cleared_positions(
            positions_of(old(cache).pieces@),
            old(heap).scene_data.num_pcs as int,
        ),
{
    let npcs: usize = heap.scene_data.num_pcs as usize;
    let mut i: usize = 0;
    while i < npcs
        invariant
            npcs <= 24,
            npcs == heap.scene_data.num_pcs,
            i <= npcs,
            *heap == *old(heap),
            cache.same_but_pieces(old(cache)),
            same_set(cache.pieces@, old(cache).pieces@),
            positions_of(cache.pieces@) == cleared_positions(positions_of(old(cache).pieces@), i as int),
        decreases npcs - i,
    {
        let ghost prev = cache.pieces@;
        cache.pieces[i].board_idx = BOARD_IDX_INVALID;
        assert forall|k: int| 0 <= k < 24 implies positions_of(cache.pieces@)[k] == cleared_positions(
            positions_of(old(cache).pieces@),
            i + 1,
        )[k] by {
            assert(positions_of(prev)[k] == cleared_positions(positions_of(old(cache).pieces@), i as int)[k]);
        }
        assert(positions_of(cache.pieces@) =~= cleared_positions(positions_of(old(cache).pieces@), i + 1));
        i += 1;
    }
    assert(positions_of(cache.pieces@) =~= cleared_positions(positions_of(old(cache).pieces@), i as int));
}

/// A transform of a sound board with sound pieces gives a sound board with
/// sound pieces.
pub proof fn lemma_turn_keeps_sound(turn: Turn, t: Seq<u16>, p: Seq<u8>, n: int, goals: int, npcs: int)
    requires
        3 <= n <= 15,
        npcs == 8 || npcs == 16 || npcs == 24,
        board_sound(t, n, goals),
        pieces_sound(p, t, n, npcs),
    ensures
        board_sound(turned_tiles(turn, t, n), n, goals),
        pieces_sound(turned_positions(turn, p, n), turned_tiles(turn, t, n), n, npcs),
        positions_on_board(p, n),
        positions_on_board(turned_positions(turn, p, n), n),
{
    let turned_t = turned_tiles(turn, t, n);
    let turned_p = turned_positions(turn, p, n);
    assert(n * n <= 225) by (nonlinear_arith)
        requires
            3 <= n <= 15,
    ;
    lemma_turned(turn, t, p, n);
    law_turn_keeps_counts(turn, t, n, ORB);
    assert forall|k: int| 0 <= k < 24 implies #[trigger] p[k] == BOARD_IDX_INVALID || p[k] < n * n by {
        if p[k] != BOARD_IDX_INVALID {
            assert(interior(n, p[k] as int));
        }
    }
    assert forall|k: int| 0 <= k < 24 && #[trigger] turned_p[k] != BOARD_IDX_INVALID implies k < npcs && interior(
        n,
        turned_p[k] as int,
    ) && spec_is_floor(turned_t[turned_p[k] as int]) && turned_p[k] < n * n by {
        lemma_slot_maps(k);
        let from = from_slot(turn, k);
        let b = p[from];
        assert(b != BOARD_IDX_INVALID);
        assert(from < npcs && interior(n, b as int));
        lemma_turn(turn, n, b as int);
    }
    assert forall|j: int, k: int|
        0 <= j < k < 24 && #[trigger] turned_p[j] != BOARD_IDX_INVALID && #[trigger] turned_p[k]
            != BOARD_IDX_INVALID implies turned_p[j] != turned_p[k] by {
        lemma_slot_maps(j);
        lemma_slot_maps(k);
        let fj = from_slot(turn, j);
        let fk = from_slot(turn, k);
        assert(fj != fk);
        assert(p[fj] != BOARD_IDX_INVALID && p[fk] != BOARD_IDX_INVALID);
        assert(interior(n, p[fj] as int) && interior(n, p[fk] as int));
        lemma_turn(turn, n, p[fj] as int);
        lemma_turn(turn, n, p[fk] as int);
        if fj < fk {
            assert(p[fj] != p[fk]);
        } else {
            assert(p[fk] != p[fj]);
        }
    }
}

} // verus!
