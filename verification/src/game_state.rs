//! The state of a game in progress: the level catalog and the player's place
//! in it, the pieces, the board transforms, and the history ledger.

use vstd::prelude::*;
use crate::codec::{parse_levels, parsed, LevelFileError};
use crate::enums::{
    slot_tile, spec_is_floor, spec_slot_tile, BOARD_IDX_INVALID, MARK_ORB, ORB,
};
use crate::game::{GameData, GameDataHeap};
use crate::grid::{count, interior};
use crate::rng::{random_below, random_ratio};
use crate::scene::{
    base_clipping, board_sound, build_scene_with, built_tilemap, cleared_positions, clipping_of, draw_mask,
    lemma_turn_keeps_sound, pieces_sound, positions_of, reset_scene, update_clipping, SceneData,
};
use crate::transform::{
    positions_on_board, turn_positions, turn_tiles, turned_positions, turned_tiles, Turn,
};

verus! {

/// One map of the level file: its side length, how many orbs and pieces it
/// has, and the decoded map, one byte per cell.
#[derive(Clone, Debug, PartialEq)]
pub struct Block {
    pub sz: usize,
    pub norbs: usize,
    pub npcs: usize,
    pub map: Vec<u8>,
}

impl Block {
    /// A block that a scene can be built of.
    pub open spec fn wf(&self) -> bool {
        self@.wf()
    }

    /// A block with a side length in range, a full square map and an
    /// inventory of eight, sixteen or twenty-four pieces.
    pub open spec fn shaped(&self) -> bool {
        self@.shaped()
    }

    /// A block without cells.
    pub fn empty() -> (r: Block)
        ensures
            r.sz == 0,
            r.norbs == 0,
            r.npcs == 0,
            r.map@.len() == 0,
    {
        Block { sz: 0, norbs: 0, npcs: 0, map: Vec::new() }
    }

    /// A copy of the block.
    pub fn duplicate(&self) -> (r: Block)
        ensures
            r.sz == self.sz,
            r.norbs == self.norbs,
            r.npcs == self.npcs,
            r.map@ == self.map@,
    {
        Block { sz: self.sz, norbs: self.norbs, npcs: self.npcs, map: self.map.clone() }
    }
}

/// A block as a plain value.
pub struct BlockView {
    pub sz: usize,
    pub norbs: usize,
    pub npcs: usize,
    pub map: Seq<u8>,
}

impl View for Block {
    type V = BlockView;

    open spec fn view(&self) -> BlockView {
        BlockView { sz: self.sz, norbs: self.norbs, npcs: self.npcs, map: self.map@ }
    }
}

impl BlockView {
    /// The side length is in range, the map is a full square, and the
    /// inventory has eight, sixteen or twenty-four pieces.
    pub open spec fn shaped(&self) -> bool {
        &&& 3 <= self.sz <= 15
        &&& self.map.len() == self.sz * self.sz
        &&& (self.npcs == 8 || self.npcs == 16 || self.npcs == 24)
    }

    /// A block that a scene can be built of: it is shaped, and every orb of
    /// its map lies in the interior.
    pub open spec fn wf(&self) -> bool {
        &&& self.shaped()
        &&& forall|i: int|
            0 <= i < self.map.len() && #[trigger] self.map[i] == MARK_ORB ==> interior(self.sz as int, i)
    }
}

/// Two blocks with the same piece count, side length and orb count: options
/// of one level.
pub open spec fn same_tag(a: BlockView, b: BlockView) -> bool {
    a.npcs == b.npcs && a.sz == b.sz && a.norbs == b.norbs
}

/// The option pools of a sequence of blocks: a pool ends where the next
/// block has another tag.
pub open spec fn grouped(blocks: Seq<BlockView>) -> Seq<Seq<BlockView>>
    decreases blocks.len(),
{
    if blocks.len() == 0 {
        Seq::empty()
    } else if blocks.len() == 1 {
        seq![seq![blocks[0]]]
    } else {
        let before = grouped(blocks.drop_last());
        if same_tag(blocks[blocks.len() - 2], blocks.last()) {
            before.drop_last().push(before.last().push(blocks.last()))
        } else {
            before.push(seq![blocks.last()])
        }
    }
}

/// The views of a sequence of blocks.
pub open spec fn block_views(blocks: Seq<Block>) -> Seq<BlockView> {
    Seq::new(blocks.len(), |i: int| blocks[i]@)
}

/// A catalog that can be played: every pool holds at least one block, every
/// block can be built, and the blocks of a pool share size and piece count.
pub open spec fn catalog_ok(catalog: Seq<Seq<BlockView>>) -> bool {
    forall|l: int|
        0 <= l < catalog.len() ==> (#[trigger] catalog[l]).len() > 0 && forall|o: int|
            0 <= o < catalog[l].len() ==> (#[trigger] catalog[l][o]).wf() && catalog[l][o].sz == catalog[l][0].sz
                && catalog[l][o].npcs == catalog[l][0].npcs
}

/// The level catalog: the option pools in the order of the levels.
#[derive(Clone, Debug, PartialEq)]
pub struct LevelData {
    pub options: Vec<Vec<Block>>,
}

impl View for LevelData {
    type V = Seq<Seq<BlockView>>;

    open spec fn view(&self) -> Seq<Seq<BlockView>> {
        Seq::new(self.options.len() as nat, |l: int| block_views(self.options[l]@))
    }
}

impl LevelData {
    /// The catalog can be played.
    pub open spec fn wf(&self) -> bool {
        catalog_ok(self@)
    }

    /// A catalog without levels.
    pub fn new() -> (r: LevelData)
        ensures
            r@.len() == 0,
            r.wf(),
    {
        LevelData { options: Vec::new() }
    }

    /// Sorts a sequence of blocks into option pools.
    pub fn from_blocks(blocks: &Vec<Block>) -> (r: LevelData)
        ensures
            r@ == grouped(block_views(blocks@)),
            (forall|i: int| 0 <= i < blocks.len() ==> (#[trigger] blocks[i]).wf()) ==> r.wf(),
    {
        let mut pools: Vec<Vec<Block>> = Vec::new();
        let mut current: Vec<Block> = Vec::new();
        let ghost all = block_views(blocks@);
        let mut i: usize = 0;
        while i < blocks.len()
            invariant
                i <= blocks.len(),
                all == block_views(blocks@),
                i == 0 ==> pools@.len() == 0 && current@.len() == 0,
                i > 0 ==> current@.len() > 0 && grouped(all.take(i as int)) == Seq::new(
                    pools.len() as nat,
                    |l: int| block_views(pools[l]@),
                ).push(block_views(current@)),
                i > 0 ==> block_views(current@).last() == all[i - 1],
            decreases blocks.len() - i,
        {
            let b = blocks[i].duplicate();
            assert(b@ == all[i as int]);
            let ghost pools_view = Seq::new(pools.len() as nat, |l: int| block_views(pools[l]@));
            let ghost cur_view = block_views(current@);
            let ghost prefix = all.take(i + 1);
            assert(prefix.drop_last() =~= all.take(i as int));
            let fresh: bool = i == 0 || !(blocks[i - 1].npcs == b.npcs && blocks[i - 1].sz == b.sz && blocks[i
                - 1].norbs == b.norbs);
            if fresh {
                if i > 0 {
                    pools.push(current);
                    assert(Seq::new(pools.len() as nat, |l: int| block_views(pools[l]@)) =~= pools_view.push(
                        cur_view,
                    ));
                }
                current = Vec::new();
                current.push(b);
                assert(block_views(current@) =~= seq![b@]);
                assert(Seq::new(pools.len() as nat, |l: int| block_views(pools[l]@)) =~= grouped(
                    prefix.drop_last(),
                ));
            } else {
                current.push(b);
                assert(block_views(current@) =~= cur_view.push(b@));
                assert(pools_view.push(cur_view).drop_last() =~= pools_view);
            }
            i += 1;
        }
        assert(all.take(blocks.len() as int) =~= all);
        if i > 0 {
            let ghost pools_view = Seq::new(pools.len() as nat, |l: int| block_views(pools[l]@));
            pools.push(current);
            assert(Seq::new(pools.len() as nat, |l: int| block_views(pools[l]@)) =~= pools_view.push(
                block_views(current@),
            ));
        }
        let r = LevelData { options: pools };
        assert(r@ =~= grouped(all));
        proof {
            if forall|i: int| 0 <= i < blocks.len() ==> (#[trigger] blocks[i]).wf() {
                assert forall|j: int| 0 <= j < all.len() implies (#[trigger] all[j]).wf() by {
                    assert(blocks[j].wf());
                }
                lemma_grouped_ok(all);
            }
        }
        r
    }

    /// How many levels the catalog offers: one for each pool, and one more
    /// for each pool with more than one option.
    pub fn level_count(&self) -> (r: usize)
        ensures
            r == spec_level_count(self@, self@.len() as int) || (r == usize::MAX && spec_level_count(
                self@,
                self@.len() as int,
            ) > usize::MAX),
    {
        let mut r: usize = 0;
        let mut i: usize = 0;
        while i < self.options.len()
            invariant
                i <= self.options.len(),
                r == spec_level_count(self@, i as int) || (r == usize::MAX && spec_level_count(self@, i as int)
                    > usize::MAX),
            decreases self.options.len() - i,
        {
            let step: usize = if self.options[i].len() > 1 {
                2
            } else {
                1
            };
            assert(self@[i as int].len() == self.options[i as int].len());
            r = r.saturating_add(step);
            i += 1;
        }
        r
    }
}

/// The number of levels in the first `k` pools of a catalog.
pub open spec fn spec_level_count(catalog: Seq<Seq<BlockView>>, k: int) -> int
    decreases k,
{
    if k <= 0 {
        0
    } else {
        spec_level_count(catalog, k - 1) + if catalog[k - 1].len() > 1 {
            2int
        } else {
            1int
        }
    }
}

/// The pools of buildable blocks make a catalog that can be played, and the
/// last block of the sequence is the last block of the last pool.
pub proof fn lemma_grouped_ok(blocks: Seq<BlockView>)
    requires
        forall|i: int| 0 <= i < blocks.len() ==> (#[trigger] blocks[i]).wf(),
    ensures
        catalog_ok(grouped(blocks)),
        blocks.len() > 0 ==> grouped(blocks).len() > 0 && grouped(blocks).last().len() > 0 && grouped(
            blocks,
        ).last().last() == blocks.last(),
    decreases blocks.len(),
{
    if blocks.len() >= 2 {
        let front = blocks.drop_last();
        lemma_grouped_ok(front);
        let before = grouped(front);
        let after = grouped(blocks);
        assert(front.last() == blocks[blocks.len() - 2]);
        assert forall|l: int| 0 <= l < after.len() implies (#[trigger] after[l]).len() > 0 && forall|o: int|
            0 <= o < after[l].len() ==> (#[trigger] after[l][o]).wf() && after[l][o].sz == after[l][0].sz
                && after[l][o].npcs == after[l][0].npcs by {
            if l < before.len() - 1 {
                assert(after[l] == before[l]);
            } else if same_tag(blocks[blocks.len() - 2], blocks.last()) {
                let pool = before.last();
                assert(after[l] == pool.push(blocks.last()));
                assert forall|o: int| 0 <= o < after[l].len() implies (#[trigger] after[l][o]).wf()
                    && after[l][o].sz == after[l][0].sz && after[l][o].npcs == after[l][0].npcs by {
                    if o < pool.len() {
                        assert(after[l][o] == pool[o]);
                    }
                    assert(pool[pool.len() - 1].sz == pool[0].sz);
                }
            } else if l == before.len() - 1 {
                assert(after[l] == before[l]);
            } else {
                assert(after[l] == seq![blocks.last()]);
            }
        }
    }
}

/// One entry of the history ledger: where each piece stood and what the
/// board showed.
#[derive(Clone, Debug, PartialEq)]
pub struct HistoryData {
    pub pieces: Vec<u8>,
    pub tilemap: Vec<u16>,
}

impl HistoryData {
    /// An entry with every piece in the inventory and no board yet.
    pub fn new() -> (r: HistoryData)
        ensures
            r.pieces@ == Seq::new(24, |k: int| BOARD_IDX_INVALID),
            r.tilemap@.len() == 0,
    {
        let r = HistoryData { pieces: vec![BOARD_IDX_INVALID; 24], tilemap: Vec::new() };
        assert(r.pieces@ =~= Seq::new(24, |k: int| BOARD_IDX_INVALID));
        r
    }
}

/// The player's place in the catalog.
#[derive(Clone, Debug, PartialEq)]
pub struct PlayerData {
    pub level: usize,
    pub sub_level: usize,
    pub level_option: usize,
    pub level_displayed: usize,
}

/// One piece of the inventory.
#[derive(Clone, Copy, Debug, PartialEq)]
pub struct PieceData {
    pub tile: u16,
    pub board_idx: u8,
    pub active: bool,
    pub home: u8,
}

/// The inventory as it is laid out once and for all: slot `k` holds the piece
/// of the orientation of slot `k`, whose home is slot `k`.
pub open spec fn pieces_canonical(pieces: Seq<PieceData>) -> bool {
    &&& pieces.len() == 24
    &&& forall|k: int| 0 <= k < 24 ==> (#[trigger] pieces[k]).tile == spec_slot_tile(k) && pieces[k].home == k
}

/// Two inventories of the same pieces: they differ at most in where the
/// pieces stand.
pub open spec fn same_set(a: Seq<PieceData>, b: Seq<PieceData>) -> bool {
    &&& a.len() == b.len()
    &&& forall|k: int|
        0 <= k < a.len() ==> (#[trigger] a[k]).tile == b[k].tile && a[k].home == b[k].home && a[k].active
            == b[k].active
}

/// What one entry of the ledger records.
pub struct Snapshot {
    pub pieces: Seq<u8>,
    pub tilemap: Seq<u16>,
}

impl View for HistoryData {
    type V = Snapshot;

    open spec fn view(&self) -> Snapshot {
        Snapshot { pieces: self.pieces@, tilemap: self.tilemap@ }
    }
}

/// The ledger as the sequence of what its entries record.
pub open spec fn ledger(history: Seq<HistoryData>) -> Seq<Snapshot> {
    Seq::new(history.len(), |i: int| history[i]@)
}

/// The ledger after a snapshot was appended behind the cursor: what lay
/// behind the cursor is dropped first.
pub open spec fn pushed(entries: Seq<Snapshot>, idx: int, s: Snapshot) -> Seq<Snapshot> {
    if 0 <= idx && idx + 1 < entries.len() {
        entries.take(idx + 1).push(s)
    } else {
        entries.push(s)
    }
}

/// Every entry of the ledger records twenty-four pieces and a board of `len`
/// cells.
pub open spec fn ledger_shaped(entries: Seq<Snapshot>, len: int) -> bool {
    forall|i: int|
        0 <= i < entries.len() ==> (#[trigger] entries[i]).pieces.len() == 24 && entries[i].tilemap.len() == len
}

/// An entry that records a sound board with sound pieces.
pub open spec fn entry_sound(e: Snapshot, n: int, goals: int, npcs: int) -> bool {
    board_sound(e.tilemap, n, goals) && pieces_sound(e.pieces, e.tilemap, n, npcs)
}

/// Every entry of the ledger is sound.
pub open spec fn ledger_sound(entries: Seq<Snapshot>, n: int, goals: int, npcs: int) -> bool {
    forall|i: int| 0 <= i < entries.len() ==> entry_sound(#[trigger] entries[i], n, goals, npcs)
}

/// The state of a level in play: the scene is well formed, the inventory is
/// the canonical one, every piece is in the inventory or alone on an interior
/// floor cell, the cursor points into the ledger, and every entry of the
/// ledger is sound for this scene.
pub open spec fn level_ok(cache: &GameData, heap: &GameDataHeap) -> bool {
    &&& heap.scene_data.wf()
    &&& pieces_canonical(cache.pieces@)
    &&& pieces_sound(
        positions_of(cache.pieces@),
        heap.scene_data.tilemap@,
        heap.scene_data.sz as int,
        heap.scene_data.num_pcs as int,
    )
    &&& cache.history_idx < heap.history.len()
    &&& ledger_sound(
        ledger(heap.history@),
        heap.scene_data.sz as int,
        heap.scene_data.num_goals as int,
        heap.scene_data.num_pcs as int,
    )
}

/// What the player is shown of the ledger: the cursor, and the pieces and
/// the board of the moment.
pub struct Shown {
    pub idx: int,
    pub pieces: Seq<u8>,
    pub tilemap: Seq<u16>,
}

/// What the state shows.
pub open spec fn shown(cache: &GameData, heap: &GameDataHeap) -> Shown {
    Shown {
        idx: cache.history_idx as int,
        pieces: positions_of(cache.pieces@),
        tilemap: heap.scene_data.tilemap@,
    }
}

/// What is shown after an undo: at the first entry nothing changes, else the
/// cursor steps back and the entry there is shown.
pub open spec fn after_undo(entries: Seq<Snapshot>, s: Shown) -> Shown {
    if s.idx <= 0 {
        s
    } else {
        Shown { idx: s.idx - 1, pieces: entries[s.idx - 1].pieces, tilemap: entries[s.idx - 1].tilemap }
    }
}

/// What is shown after a redo: at the last entry, or with no entry, nothing
/// changes, else the cursor steps on and the entry there is shown.
pub open spec fn after_redo(entries: Seq<Snapshot>, s: Shown) -> Shown {
    if entries.len() == 0 || s.idx >= entries.len() - 1 {
        s
    } else {
        Shown { idx: s.idx + 1, pieces: entries[s.idx + 1].pieces, tilemap: entries[s.idx + 1].tilemap }
    }
}

/// What every action that is entered in the ledger leaves behind: the same
/// pieces, now standing at `positions`; the ledger cut behind the old cursor
/// and extended by the snapshot of `positions` and `tilemap`; the cursor on
/// that new last entry; and the rest of the small state and the catalog as
/// they were.
pub open spec fn entered(
    before: &GameData,
    before_heap: &GameDataHeap,
    after: &GameData,
    after_heap: &GameDataHeap,
    positions: Seq<u8>,
    tilemap: Seq<u16>,
) -> bool {
    &&& after.rest_same(before)
    &&& same_set(after.pieces@, before.pieces@)
    &&& positions_of(after.pieces@) == positions
    &&& after_heap.scene_data.tilemap@ == tilemap
    &&& after_heap.level_data == before_heap.level_data
    &&& ledger(after_heap.history@) == pushed(
        ledger(before_heap.history@),
        before.history_idx as int,
        Snapshot { pieces: positions, tilemap: tilemap },
    )
    &&& after.history_idx == after_heap.history.len() - 1
}

/// Appending behind the cursor keeps the entries up to the cursor, drops the
/// rest, and ends with the new snapshot: the ledger then has two entries
/// more than the cursor's index.
pub proof fn law_push_drops_tail(entries: Seq<Snapshot>, idx: int, s: Snapshot)
    requires
        0 <= idx < entries.len(),
    ensures
        pushed(entries, idx, s).len() == idx + 2,
        pushed(entries, idx, s).last() == s,
        pushed(entries, idx, s).take(idx + 1) == entries.take(idx + 1),
{
    assert(pushed(entries, idx, s).take(idx + 1) =~= entries.take(idx + 1));
}

/// After an action was entered, an undo followed by a redo shows again what
/// was shown.
pub proof fn law_undo_redo(entries: Seq<Snapshot>, s: Shown)
    requires
        entries.len() > 0,
        s.idx == entries.len() - 1,
        s.pieces == entries[s.idx].pieces,
        s.tilemap == entries[s.idx].tilemap,
    ensures
        after_redo(entries, after_undo(entries, s)) == s,
{
}

/// After an action that was entered in the ledger, an undo followed by a
/// redo shows again what the action left.
pub proof fn law_undo_redo_after_action(
    before: &GameData,
    before_heap: &GameDataHeap,
    after: &GameData,
    after_heap: &GameDataHeap,
    positions: Seq<u8>,
    tilemap: Seq<u16>,
)
    requires
        entered(before, before_heap, after, after_heap, positions, tilemap),
    ensures
        after_redo(
            ledger(after_heap.history@),
            after_undo(ledger(after_heap.history@), shown(after, after_heap)),
        ) == shown(after, after_heap),
{
    let entries = ledger(after_heap.history@);
    assert(entries.len() == after_heap.history@.len());
    law_undo_redo(entries, shown(after, after_heap));
}

/// Appending a sound snapshot to a sound ledger gives a sound ledger.
pub proof fn lemma_pushed_sound(entries: Seq<Snapshot>, idx: int, s: Snapshot, n: int, goals: int, npcs: int)
    requires
        ledger_sound(entries, n, goals, npcs),
        entry_sound(s, n, goals, npcs),
    ensures
        ledger_sound(pushed(entries, idx, s), n, goals, npcs),
{
    let after = pushed(entries, idx, s);
    assert forall|i: int| 0 <= i < after.len() implies entry_sound(#[trigger] after[i], n, goals, npcs) by {
        if i < after.len() - 1 {
            assert(after[i] == entries[i]);
        }
    }
}

/// Writes the positions into the pieces, slot by slot.
pub fn set_positions(cache: &mut GameData, positions: &Vec<u8>)
    requires
        positions.len() == 24,
    ensures
        final(cache).same_but_pieces(old(cache)),
        same_set(final(cache).pieces@, old(cache).pieces@),
        positions_of(final(cache).pieces@) == positions@,
{
    let mut k: usize = 0;
    while k < 24
        invariant
            positions.len() == 24,
            k <= 24,
            cache.same_but_pieces(old(cache)),
            same_set(cache.pieces@, old(cache).pieces@),
            forall|i: int| 0 <= i < k ==> (#[trigger] cache.pieces@[i]).board_idx == positions@[i],
        decreases 24 - k,
    {
        cache.pieces[k].board_idx = positions[k];
        k += 1;
    }
    assert(positions_of(cache.pieces@) =~= positions@);
}

/// Reads the positions off the pieces, slot by slot.
pub fn get_positions(cache: &GameData) -> (positions: Vec<u8>)
    ensures
        positions@ == positions_of(cache.pieces@),
        positions.len() == 24,
{
    let mut positions: Vec<u8> = Vec::new();
    let mut k: usize = 0;
    while k < 24
        invariant
            k <= 24,
            positions.len() == k,
            forall|i: int| 0 <= i < k ==> positions@[i] == (#[trigger] cache.pieces@[i]).board_idx,
        decreases 24 - k,
    {
        positions.push(cache.pieces[k].board_idx);
        k += 1;
    }
    assert(positions@ =~= positions_of(cache.pieces@));
    positions
}

/// Appends a snapshot of the pieces and the board behind the cursor, after
/// dropping what lay behind the cursor, and moves the cursor onto it.
pub fn push_history(cache: &mut GameData, heap: &mut GameDataHeap)
    ensures
        entered(
            old(cache),
            old(heap),
            final(cache),
            final(heap),
            positions_of(old(cache).pieces@),
            old(heap).scene_data.tilemap@,
        ),
        final(cache).pieces == old(cache).pieces,
        final(heap).scene_data == old(heap).scene_data,
{
    let h = HistoryData { pieces: get_positions(cache), tilemap: heap.scene_data.tilemap.clone() };
    let idx: usize = cache.history_idx;
    let ghost entries = ledger(heap.history@);
    while heap.history.len() > 0 && heap.history.len() - 1 > idx
        invariant
            heap.scene_data == old(heap).scene_data,
            heap.level_data == old(heap).level_data,
            heap.history.len() <= entries.len(),
            entries == ledger(old(heap).history@),
            ledger(heap.history@) == entries.take(heap.history.len() as int),
            idx + 1 < entries.len() ==> heap.history.len() >= idx + 1,
            idx + 1 >= entries.len() ==> heap.history.len() == entries.len(),
        decreases heap.history.len(),
    {
        let ghost before = heap.history@;
        heap.history.pop();
        assert(ledger(heap.history@) =~= entries.take(heap.history.len() as int)) by {
            assert(heap.history@ =~= before.drop_last());
        }
    }
    let ghost cut = heap.history@;
    heap.history.push(h);
    cache.history_idx = heap.history.len() - 1;
    proof {
        assert(heap.history@ =~= cut.push(h));
        assert(ledger(heap.history@) =~= ledger(cut).push(h@));
        assert(entries.take(entries.len() as int) =~= entries);
    }
}

/// Empties the ledger and puts the cursor at its start.
pub fn clear_history(cache: &mut GameData, heap: &mut GameDataHeap)
    ensures
        final(heap).history@.len() == 0,
        final(heap).scene_data == old(heap).scene_data,
        final(heap).level_data == old(heap).level_data,
        final(cache).history_idx == 0,
        final(cache).rest_same(old(cache)),
        final(cache).pieces == old(cache).pieces,
{
    heap.history.clear();
    cache.history_idx = 0;
}

/// Shows the entry at the cursor: the pieces go where it says and the board
/// becomes its board.
fn restore(cache: &mut GameData, heap: &mut GameDataHeap)
    requires
        old(cache).history_idx < old(heap).history.len(),
        old(heap).history[old(cache).history_idx as int].pieces.len() == 24,
    ensures
        final(cache).same_but_pieces(old(cache)),
        same_set(final(cache).pieces@, old(cache).pieces@),
        positions_of(final(cache).pieces@) == old(heap).history[old(cache).history_idx as int].pieces@,
        final(heap).scene_data.tilemap@ == old(heap).history[old(cache).history_idx as int].tilemap@,
        final(heap).scene_data.same_but_tilemap(&old(heap).scene_data),
        final(heap).level_data == old(heap).level_data,
        final(heap).history == old(heap).history,
{
    let idx: usize = cache.history_idx;
    set_positions(cache, &heap.history[idx].pieces);
    let tiles = heap.history[idx].tilemap.clone();
    heap.scene_data.tilemap = tiles;
}

/// What an undo leaves behind: what is shown is what the ledger says for an
/// undo; at the first entry nothing at all has changed; and the pieces, the
/// ledger, the catalog and the rest of the state are the same.
pub open spec fn undone(before: &GameData, before_heap: &GameDataHeap, after: &GameData, after_heap: &GameDataHeap) -> bool {
    &&& shown(after, after_heap) == after_undo(ledger(before_heap.history@), shown(before, before_heap))
    &&& before.history_idx == 0 ==> *after == *before && *after_heap == *before_heap
    &&& after.rest_same(before)
    &&& same_set(after.pieces@, before.pieces@)
    &&& after_heap.scene_data.same_but_tilemap(&before_heap.scene_data)
    &&& after_heap.level_data == before_heap.level_data
    &&& after_heap.history == before_heap.history
}

/// What a redo leaves behind: what is shown is what the ledger says for a
/// redo; at the last entry, or with an empty ledger, nothing at all has
/// changed; and the pieces, the ledger, the catalog and the rest of the state
/// are the same.
pub open spec fn redone(before: &GameData, before_heap: &GameDataHeap, after: &GameData, after_heap: &GameDataHeap) -> bool {
    &&& shown(after, after_heap) == after_redo(ledger(before_heap.history@), shown(before, before_heap))
    &&& before_heap.history.len() == 0 || before.history_idx == before_heap.history.len() - 1 ==> *after
        == *before && *after_heap == *before_heap
    &&& after.rest_same(before)
    &&& same_set(after.pieces@, before.pieces@)
    &&& after_heap.scene_data.same_but_tilemap(&before_heap.scene_data)
    &&& after_heap.level_data == before_heap.level_data
    &&& after_heap.history == before_heap.history
}

/// Steps the cursor back by one entry and shows that entry. At the first
/// entry nothing happens.
pub fn history_undo(cache: &mut GameData, heap: &mut GameDataHeap)
    requires
        ledger_shaped(ledger(old(heap).history@), old(heap).scene_data.tilemap@.len() as int),
        old(cache).history_idx < old(heap).history.len() || old(cache).history_idx == 0,
    ensures
        undone(old(cache), old(heap), final(cache), final(heap)),
        level_ok(old(cache), old(heap)) ==> level_ok(final(cache), final(heap)),
{
    if cache.history_idx == 0 {
        return ;
    }
    cache.history_idx -= 1;
    proof {
        let e = ledger(heap.history@)[cache.history_idx as int];
        assert(e == heap.history@[cache.history_idx as int]@);
    }
    restore(cache, heap);
    proof {
        lemma_restored_ok(old(cache), old(heap), cache, heap);
    }
}

/// Steps the cursor on by one entry and shows that entry. At the last entry,
/// or with an empty ledger, nothing happens.
pub fn history_redo(cache: &mut GameData, heap: &mut GameDataHeap)
    requires
        ledger_shaped(ledger(old(heap).history@), old(heap).scene_data.tilemap@.len() as int),
        old(cache).history_idx < old(heap).history.len() || old(cache).history_idx == 0,
    ensures
        redone(old(cache), old(heap), final(cache), final(heap)),
        level_ok(old(cache), old(heap)) ==> level_ok(final(cache), final(heap)),
{
    if heap.history.len() == 0 || cache.history_idx == heap.history.len() - 1 {
        return ;
    }
    cache.history_idx += 1;
    proof {
        let e = ledger(heap.history@)[cache.history_idx as int];
        assert(e == heap.history@[cache.history_idx as int]@);
    }
    restore(cache, heap);
    proof {
        lemma_restored_ok(old(cache), old(heap), cache, heap);
    }
}

/// Showing an entry of the ledger of a level in play leaves a level in play.
proof fn lemma_restored_ok(before: &GameData, before_heap: &GameDataHeap, after: &GameData, after_heap: &GameDataHeap)
    requires
        after.history_idx < after_heap.history.len(),
        after_heap.history == before_heap.history,
        same_set(after.pieces@, before.pieces@),
        positions_of(after.pieces@) == after_heap.history[after.history_idx as int].pieces@,
        after_heap.scene_data.tilemap@ == after_heap.history[after.history_idx as int].tilemap@,
        after_heap.scene_data.same_but_tilemap(&before_heap.scene_data),
        ledger_shaped(ledger(before_heap.history@), before_heap.scene_data.tilemap@.len() as int),
    ensures
        level_ok(before, before_heap) ==> level_ok(after, after_heap),
{
    if level_ok(before, before_heap) {
        let e = ledger(after_heap.history@)[after.history_idx as int];
        assert(entry_sound(
            e,
            before_heap.scene_data.sz as int,
            before_heap.scene_data.num_goals as int,
            before_heap.scene_data.num_pcs as int,
        ));
        assert(e.tilemap.len() == before_heap.scene_data.tilemap@.len());
    }
}

/// Puts one piece on a cell, or into the inventory.
pub fn set_position(cache: &mut GameData, slot: usize, board_idx: u8)
    requires
        slot < 24,
    ensures
        final(cache).same_but_pieces(old(cache)),
        same_set(final(cache).pieces@, old(cache).pieces@),
        positions_of(final(cache).pieces@) == positions_of(old(cache).pieces@).update(slot as int, board_idx),
{
    cache.pieces[slot].board_idx = board_idx;
    assert(positions_of(cache.pieces@) =~= positions_of(old(cache).pieces@).update(slot as int, board_idx));
}

/// An interior floor cell on which no piece stands.
pub open spec fn free_floor(cache: &GameData, heap: &GameDataHeap, board_idx: u8) -> bool {
    &&& interior(heap.scene_data.sz as int, board_idx as int)
    &&& spec_is_floor(heap.scene_data.tilemap@[board_idx as int])
    &&& forall|k: int| 0 <= k < 24 ==> (#[trigger] cache.pieces@[k]).board_idx != board_idx
}

/// Places the held piece on a free floor cell and enters the move in the
/// ledger.
pub fn place_piece(cache: &mut GameData, heap: &mut GameDataHeap, holding_idx: u8, board_idx: u8)
    requires
        level_ok(old(cache), old(heap)),
        holding_idx < old(heap).scene_data.num_pcs,
        free_floor(old(cache), old(heap), board_idx),
    ensures
        entered(
            old(cache),
            old(heap),
            final(cache),
            final(heap),
            positions_of(old(cache).pieces@).update(holding_idx as int, board_idx),
            old(heap).scene_data.tilemap@,
        ),
        final(heap).scene_data == old(heap).scene_data,
        level_ok(final(cache), final(heap)),
{
    set_position(cache, holding_idx as usize, board_idx);
    push_history(cache, heap);
    proof {
        let n = heap.scene_data.sz as int;
        assert(n * n <= 225) by (nonlinear_arith)
            requires
                3 <= n <= 15,
        ;
        let p = positions_of(cache.pieces@);
        let prior = positions_of(old(cache).pieces@);
        assert forall|k: int| 0 <= k < 24 implies prior[k] != board_idx by {
            assert(old(cache).pieces@[k].board_idx != board_idx);
        }
        assert(pieces_sound(p, heap.scene_data.tilemap@, n, heap.scene_data.num_pcs as int));
        lemma_pushed_sound(
            ledger(old(heap).history@),
            old(cache).history_idx as int,
            Snapshot { pieces: p, tilemap: heap.scene_data.tilemap@ },
            n,
            heap.scene_data.num_goals as int,
            heap.scene_data.num_pcs as int,
        );
    }
}

/// Places the held piece on the cell of another piece, which goes back into
/// the inventory, and enters the move in the ledger.
pub fn swap_piece(cache: &mut GameData, heap: &mut GameDataHeap, holding_idx: u8, board_idx: u8, swapping_idx: usize)
    requires
        level_ok(old(cache), old(heap)),
        holding_idx < old(heap).scene_data.num_pcs,
        swapping_idx < 24,
        board_idx != BOARD_IDX_INVALID,
        old(cache).pieces[swapping_idx as int].board_idx == board_idx,
    ensures
        entered(
            old(cache),
            old(heap),
            final(cache),
            final(heap),
            positions_of(old(cache).pieces@).update(holding_idx as int, board_idx).update(
                swapping_idx as int,
                BOARD_IDX_INVALID,
            ),
            old(heap).scene_data.tilemap@,
        ),
        final(heap).scene_data == old(heap).scene_data,
        level_ok(final(cache), final(heap)),
{
    set_position(cache, holding_idx as usize, board_idx);
    set_position(cache, swapping_idx, BOARD_IDX_INVALID);
    push_history(cache, heap);
    proof {
        let n = heap.scene_data.sz as int;
        let p = positions_of(cache.pieces@);
        let prior = positions_of(old(cache).pieces@);
        assert(prior[swapping_idx as int] == board_idx);
        assert forall|j: int, k: int|
            0 <= j < k < 24 && #[trigger] p[j] != BOARD_IDX_INVALID && #[trigger] p[k]
                != BOARD_IDX_INVALID implies p[j] != p[k] by {
            if j == holding_idx {
                if k < swapping_idx {
                    assert(prior[k] != prior[swapping_idx as int]);
                } else {
                    assert(prior[swapping_idx as int] != prior[k]);
                }
            } else if k == holding_idx {
                if j < swapping_idx {
                    assert(prior[j] != prior[swapping_idx as int]);
                } else {
                    assert(prior[swapping_idx as int] != prior[j]);
                }
            } else {
                assert(prior[j] != prior[k]);
            }
        }
        assert(pieces_sound(p, heap.scene_data.tilemap@, n, heap.scene_data.num_pcs as int));
        lemma_pushed_sound(
            ledger(old(heap).history@),
            old(cache).history_idx as int,
            Snapshot { pieces: p, tilemap: heap.scene_data.tilemap@ },
            n,
            heap.scene_data.num_goals as int,
            heap.scene_data.num_pcs as int,
        );
    }
}

/// Takes a piece off the board into the inventory and enters the move in the
/// ledger.
pub fn pickup_piece(cache: &mut GameData, heap: &mut GameDataHeap, pickup_idx: usize)
    requires
        pickup_idx < 24,
    ensures
        entered(
            old(cache),
            old(heap),
            final(cache),
            final(heap),
            positions_of(old(cache).pieces@).update(pickup_idx as int, BOARD_IDX_INVALID),
            old(heap).scene_data.tilemap@,
        ),
        final(heap).scene_data == old(heap).scene_data,
        level_ok(old(cache), old(heap)) ==> level_ok(final(cache), final(heap)),
{
    set_position(cache, pickup_idx, BOARD_IDX_INVALID);
    push_history(cache, heap);
    proof {
        if level_ok(old(cache), old(heap)) {
            let n = heap.scene_data.sz as int;
            let p = positions_of(cache.pieces@);
            let prior = positions_of(old(cache).pieces@);
            assert forall|j: int, k: int|
                0 <= j < k < 24 && #[trigger] p[j] != BOARD_IDX_INVALID && #[trigger] p[k]
                    != BOARD_IDX_INVALID implies p[j] != p[k] by {
                assert(prior[j] != prior[k]);
            }
            assert(pieces_sound(p, heap.scene_data.tilemap@, n, heap.scene_data.num_pcs as int));
            lemma_pushed_sound(
                ledger(old(heap).history@),
                old(cache).history_idx as int,
                Snapshot { pieces: p, tilemap: heap.scene_data.tilemap@ },
                n,
                heap.scene_data.num_goals as int,
                heap.scene_data.num_pcs as int,
            );
        }
    }
}

/// What a transform leaves behind: the board and the pieces turned, the
/// three derived maps zeroed, the counts kept, and the move entered in the
/// ledger.
pub open spec fn turned(
    turn: Turn,
    before: &GameData,
    before_heap: &GameDataHeap,
    after: &GameData,
    after_heap: &GameDataHeap,
) -> bool {
    let n = before_heap.scene_data.sz as int;
    let len = before_heap.scene_data.sz2 as nat;
    &&& entered(
        before,
        before_heap,
        after,
        after_heap,
        turned_positions(turn, positions_of(before.pieces@), n),
        turned_tiles(turn, before_heap.scene_data.tilemap@, n),
    )
    &&& after_heap.scene_data.sz == before_heap.scene_data.sz
    &&& after_heap.scene_data.sz2 == before_heap.scene_data.sz2
    &&& after_heap.scene_data.num_goals == before_heap.scene_data.num_goals
    &&& after_heap.scene_data.num_pcs == before_heap.scene_data.num_pcs
    &&& after_heap.scene_data.clipping@ == Seq::new(len, |i: int| 0u8)
    &&& after_heap.scene_data.reflectors@ == Seq::new(len, |i: int| 0u16)
    &&& after_heap.scene_data.beams@ == Seq::new(len, |i: int| 0u16)
}

/// Applies one of the three transforms to the board and the pieces and
/// enters it in the ledger.
pub fn apply_turn(cache: &mut GameData, heap: &mut GameDataHeap, turn: Turn)
    requires
        old(heap).scene_data.shaped(),
        positions_on_board(positions_of(old(cache).pieces@), old(heap).scene_data.sz as int),
    ensures
        turned(turn, old(cache), old(heap), final(cache), final(heap)),
        final(heap).scene_data.shaped(),
        level_ok(old(cache), old(heap)) ==> level_ok(final(cache), final(heap)),
{
    let sz: usize = heap.scene_data.sz;
    assert(sz * sz <= 225) by (nonlinear_arith)
        requires
            3 <= sz <= 15,
    ;
    let mut scene = SceneData::new(sz);
    scene.num_goals = heap.scene_data.num_goals;
    scene.num_pcs = heap.scene_data.num_pcs;
    scene.tilemap = turn_tiles(turn, &heap.scene_data.tilemap, sz);
    let before = get_positions(cache);
    let after = turn_positions(turn, &before, sz);
    set_positions(cache, &after);
    heap.scene_data = scene;
    push_history(cache, heap);
    proof {
        if level_ok(old(cache), old(heap)) {
            lemma_turn_keeps_sound(
                turn,
                old(heap).scene_data.tilemap@,
                positions_of(old(cache).pieces@),
                sz as int,
                heap.scene_data.num_goals as int,
                heap.scene_data.num_pcs as int,
            );
            lemma_pushed_sound(
                ledger(old(heap).history@),
                old(cache).history_idx as int,
                Snapshot { pieces: after@, tilemap: heap.scene_data.tilemap@ },
                sz as int,
                heap.scene_data.num_goals as int,
                heap.scene_data.num_pcs as int,
            );
        }
    }
}

/// Flips the board and the pieces horizontally.
pub fn flip_h(cache: &mut GameData, heap: &mut GameDataHeap)
    requires
        old(heap).scene_data.shaped(),
        positions_on_board(positions_of(old(cache).pieces@), old(heap).scene_data.sz as int),
    ensures
        turned(Turn::FlipH, old(cache), old(heap), final(cache), final(heap)),
        final(heap).scene_data.shaped(),
        level_ok(old(cache), old(heap)) ==> level_ok(final(cache), final(heap)),
{
    apply_turn(cache, heap, Turn::FlipH);
}

/// Flips the board and the pieces vertically.
pub fn flip_v(cache: &mut GameData, heap: &mut GameDataHeap)
    requires
        old(heap).scene_data.shaped(),
        positions_on_board(positions_of(old(cache).pieces@), old(heap).scene_data.sz as int),
    ensures
        turned(Turn::FlipV, old(cache), old(heap), final(cache), final(heap)),
        final(heap).scene_data.shaped(),
        level_ok(old(cache), old(heap)) ==> level_ok(final(cache), final(heap)),
{
    apply_turn(cache, heap, Turn::FlipV);
}

/// Turns the board and the pieces a quarter turn clockwise.
pub fn rotate(cache: &mut GameData, heap: &mut GameDataHeap)
    requires
        old(heap).scene_data.shaped(),
        positions_on_board(positions_of(old(cache).pieces@), old(heap).scene_data.sz as int),
    ensures
        turned(Turn::Rotate, old(cache), old(heap), final(cache), final(heap)),
        final(heap).scene_data.shaped(),
        level_ok(old(cache), old(heap)) ==> level_ok(final(cache), final(heap)),
{
    apply_turn(cache, heap, Turn::Rotate);
}

/// A piece of the first `npcs` slots stands on the board.
pub open spec fn any_placed(p: Seq<u8>, npcs: int) -> bool {
    exists|k: int| 0 <= k < npcs && #[trigger] p[k] != BOARD_IDX_INVALID
}

/// What a reset leaves behind: every piece in play is in the inventory; the
/// move is entered in the ledger if a piece stood on the board, and the
/// ledger is as it was if none did.
pub open spec fn was_reset(before: &GameData, before_heap: &GameDataHeap, after: &GameData, after_heap: &GameDataHeap) -> bool {
    let npcs = before_heap.scene_data.num_pcs as int;
    let positions = cleared_positions(positions_of(before.pieces@), npcs);
    &&& after_heap.scene_data == before_heap.scene_data
    &&& after_heap.level_data == before_heap.level_data
    &&& after.rest_same(before)
    &&& same_set(after.pieces@, before.pieces@)
    &&& positions_of(after.pieces@) == positions
    &&& any_placed(positions_of(before.pieces@), npcs) ==> entered(
        before,
        before_heap,
        after,
        after_heap,
        positions,
        before_heap.scene_data.tilemap@,
    )
    &&& !any_placed(positions_of(before.pieces@), npcs) ==> after_heap.history == before_heap.history
        && after.history_idx == before.history_idx
}

/// Takes every piece in play back into the inventory. The move is entered
/// in the ledger only if a piece stood on the board.
pub fn reset_level(cache: &mut GameData, heap: &mut GameDataHeap)
    requires
        old(heap).scene_data.num_pcs <= 24,
    ensures
        was_reset(old(cache), old(heap), final(cache), final(heap)),
        level_ok(old(cache), old(heap)) ==> level_ok(final(cache), final(heap)),
{
    let npcs: usize = heap.scene_data.num_pcs as usize;
    let mut update_history = false;
    let mut i: usize = 0;
    while i < npcs
        invariant
            npcs <= 24,
            i <= npcs,
            update_history == any_placed(positions_of(cache.pieces@), i as int),
        decreases npcs - i,
    {
        if BOARD_IDX_INVALID != cache.pieces[i].board_idx {
            assert(positions_of(cache.pieces@)[i as int] != BOARD_IDX_INVALID);
            update_history = true;
        }
        i += 1;
    }
    reset_scene(cache, heap);
    if update_history {
        push_history(cache, heap);
    }
    proof {
        if level_ok(old(cache), old(heap)) {
            let n = heap.scene_data.sz as int;
            let p = positions_of(cache.pieces@);
            let prior = positions_of(old(cache).pieces@);
            assert forall|k: int| 0 <= k < 24 implies #[trigger] p[k] == BOARD_IDX_INVALID by {
                if k >= npcs {
                    assert(prior[k] == BOARD_IDX_INVALID);
                }
            }
            assert(pieces_sound(p, heap.scene_data.tilemap@, n, heap.scene_data.num_pcs as int));
            if update_history {
                lemma_pushed_sound(
                    ledger(old(heap).history@),
                    old(cache).history_idx as int,
                    Snapshot { pieces: p, tilemap: heap.scene_data.tilemap@ },
                    n,
                    heap.scene_data.num_goals as int,
                    heap.scene_data.num_pcs as int,
                );
            }
        }
    }
}

/// The cursor points at a block of the catalog.
pub open spec fn cursor_ok(p: PlayerData, catalog: Seq<Seq<BlockView>>) -> bool {
    &&& 1 <= p.level <= catalog.len()
    &&& p.level_option < catalog[p.level - 1].len()
    &&& p.sub_level <= 1
}

/// The block that the cursor points at.
pub open spec fn block_at(p: PlayerData, catalog: Seq<Seq<BlockView>>) -> BlockView {
    catalog[p.level - 1][p.level_option as int]
}

/// The sub-level that follows: from the second level on the two sub-levels
/// alternate.
pub open spec fn next_sub(p: PlayerData) -> int {
    if p.level > 1 {
        (p.sub_level + 1) % 2
    } else {
        p.sub_level as int
    }
}

/// The level that follows: the first level from the start; else the next
/// one when the sub-level that follows is the first, and the same one when
/// it is the second.
pub open spec fn next_level_no(p: PlayerData) -> int {
    if p.level == 0 {
        1
    } else if next_sub(p) == 0 {
        p.level + 1
    } else {
        p.level as int
    }
}

/// The step to the next level opens a new pool behind the first level, and
/// so draws its option.
pub open spec fn draws_option(p: PlayerData) -> bool {
    p.level != 0 && next_sub(p) == 0
}

/// There is a level to go on to.
pub open spec fn can_advance(p: PlayerData, catalog: Seq<Seq<BlockView>>) -> bool {
    &&& p.level == 0 || cursor_ok(p, catalog)
    &&& next_level_no(p) <= catalog.len()
    &&& catalog[next_level_no(p) - 1].len() > 0
}

/// The number shown for a level and a sub-level: the levels behind the first
/// count twice, once for each sub-level. A number beyond the machine word is
/// shown as the largest that fits.
pub open spec fn displayed(level: int, sub: int) -> usize {
    if level == 1 {
        1
    } else if (level - 1) * 2 + sub > usize::MAX {
        usize::MAX
    } else {
        ((level - 1) * 2 + sub) as usize
    }
}

/// The cursor after the step to the next level. From the start it goes to
/// the first option of the first level. Where the step opens a new pool it
/// takes the option `pick`; where it stays in the pool it takes the option
/// after the current one, round the pool.
pub open spec fn advanced(p: PlayerData, catalog: Seq<Seq<BlockView>>, pick: usize) -> PlayerData {
    let level = next_level_no(p);
    if p.level == 0 {
        PlayerData { level: 1, sub_level: 0, level_option: 0, level_displayed: 1 }
    } else {
        PlayerData {
            level: level as usize,
            sub_level: next_sub(p) as usize,
            level_option: if next_sub(p) == 0 {
                pick
            } else {
                ((p.level_option + 1) % (catalog[level - 1].len() as int)) as usize
            },
            level_displayed: displayed(level, next_sub(p)),
        }
    }
}

/// The cursor stands on the last level of the catalog: in the last pool, on
/// the sub-level that the size of that pool makes the last.
pub open spec fn on_final(p: PlayerData, catalog: Seq<Seq<BlockView>>) -> bool {
    p.level == catalog.len() && p.sub_level == (catalog[p.level - 1].len() - 1) % 2
}

/// Whether there is a level to go on to.
pub fn has_next_level(cache: &GameData, heap: &GameDataHeap) -> (r: bool)
    ensures
        r == can_advance(cache.player_data, heap.level_data@),
{
    let p = &cache.player_data;
    let pools: usize = heap.level_data.options.len();
    if p.level == 0 {
        if pools == 0 {
            return false;
        }
        assert(heap.level_data@[0].len() == heap.level_data.options[0].len());
        return heap.level_data.options[0].len() > 0;
    }
    if p.level > pools || p.sub_level > 1 {
        return false;
    }
    assert(heap.level_data@[p.level - 1].len() == heap.level_data.options[p.level - 1].len());
    if p.level_option >= heap.level_data.options[p.level - 1].len() {
        return false;
    }
    let sub: usize = if p.level > 1 {
        (p.sub_level + 1) % 2
    } else {
        p.sub_level
    };
    if sub != 0 {
        return true;
    }
    if p.level >= pools {
        return false;
    }
    assert(heap.level_data@[p.level as int].len() == heap.level_data.options[p.level as int].len());
    heap.level_data.options[p.level].len() > 0
}

/// Moves the cursor to the next level and notes when it has reached the
/// last one.
pub fn advance_cursor(cache: &mut GameData, heap: &GameDataHeap, pick: usize)
    requires
        can_advance(old(cache).player_data, heap.level_data@),
        draws_option(old(cache).player_data) ==> pick < heap.level_data@[next_level_no(old(cache).player_data)
            - 1].len(),
    ensures
        final(cache).player_data == advanced(old(cache).player_data, heap.level_data@, pick),
        final(cache).final_level == (old(cache).final_level || on_final(
            final(cache).player_data,
            heap.level_data@,
        )),
        cursor_ok(final(cache).player_data, heap.level_data@),
        final(cache).frame == old(cache).frame,
        final(cache).ready == old(cache).ready,
        final(cache).quit_requested == old(cache).quit_requested,
        final(cache).ui_data == old(cache).ui_data,
        final(cache).pieces == old(cache).pieces,
        final(cache).level_complete == old(cache).level_complete,
        final(cache).blackout_alpha == old(cache).blackout_alpha,
        final(cache).history_idx == old(cache).history_idx,
{
    let ghost catalog = heap.level_data@;
    if 0 == cache.player_data.level {
        cache.player_data.level = 1;
        cache.player_data.sub_level = 0;
        cache.player_data.level_option = 0;
    } else {
        if 1 < cache.player_data.level {
            cache.player_data.sub_level = (cache.player_data.sub_level + 1) % 2;
        }
        if 0 == cache.player_data.sub_level {
            cache.player_data.level += 1;
            cache.player_data.level_option = pick;
        } else {
            let size: usize = heap.level_data.options[cache.player_data.level - 1].len();
            assert(catalog[cache.player_data.level - 1].len() == size);
            cache.player_data.level_option = (cache.player_data.level_option + 1) % size;
        }
    }
    let level: usize = cache.player_data.level;
    let size: usize = heap.level_data.options[level - 1].len();
    assert(catalog[level - 1].len() == size);
    if level == heap.level_data.options.len() && cache.player_data.sub_level == (size - 1) % 2 {
        cache.final_level = true;
    }
    if 1 == level {
        cache.player_data.level_displayed = 1;
    } else {
        let behind: usize = level - 1;
        cache.player_data.level_displayed = behind.saturating_add(behind).saturating_add(
            cache.player_data.sub_level,
        );
    }
}

/// The five coins thrown over a fresh board: one for each flip and three for
/// quarter turns.
#[derive(Clone, Debug, PartialEq)]
pub struct Shuffle {
    pub flip_h: bool,
    pub flip_v: bool,
    pub rotate_a: bool,
    pub rotate_b: bool,
    pub rotate_c: bool,
}

/// The tilemap after a transform that is applied only where the coin says
/// so.
pub open spec fn turned_if(coin: bool, turn: Turn, t: Seq<u16>, n: int) -> Seq<u16> {
    if coin {
        turned_tiles(turn, t, n)
    } else {
        t
    }
}

/// The tilemap after the shuffle: the horizontal flip, the vertical flip and
/// three quarter turns, each applied where its coin says so.
pub open spec fn shuffled(t: Seq<u16>, n: int, s: Shuffle) -> Seq<u16> {
    turned_if(
        s.rotate_c,
        Turn::Rotate,
        turned_if(
            s.rotate_b,
            Turn::Rotate,
            turned_if(
                s.rotate_a,
                Turn::Rotate,
                turned_if(s.flip_v, Turn::FlipV, turned_if(s.flip_h, Turn::FlipH, t, n), n),
                n,
            ),
            n,
        ),
        n,
    )
}

/// Every piece is in the inventory.
pub open spec fn all_home(p: Seq<u8>) -> bool {
    &&& p.len() == 24
    &&& forall|k: int| 0 <= k < 24 ==> #[trigger] p[k] == BOARD_IDX_INVALID
}

/// What loading a level leaves behind: the scene of the block with the given
/// tilemap, its clipping map computed, no beam and no piece shown; the
/// pieces where `positions` says; a ledger of one entry, which is the
/// snapshot of this state; and the rest of the small state as it was.
pub open spec fn loaded(
    before: &GameData,
    before_heap: &GameDataHeap,
    after: &GameData,
    after_heap: &GameDataHeap,
    block: BlockView,
    tilemap: Seq<u16>,
    positions: Seq<u8>,
) -> bool {
    let scene = after_heap.scene_data;
    &&& scene.shaped()
    &&& scene.sz == block.sz
    &&& scene.num_pcs == block.npcs
    &&& scene.num_goals == count(tilemap, ORB)
    &&& scene.tilemap@ == tilemap
    &&& scene.clipping@ == clipping_of(tilemap, after.pieces@, block.npcs as int)
    &&& scene.reflectors@ == Seq::new(scene.sz2 as nat, |i: int| 0u16)
    &&& scene.beams@ == Seq::new(scene.sz2 as nat, |i: int| 0u16)
    &&& same_set(after.pieces@, before.pieces@)
    &&& positions_of(after.pieces@) == positions
    &&& ledger(after_heap.history@) == seq![Snapshot { pieces: positions, tilemap: tilemap }]
    &&& after.history_idx == 0
    &&& after_heap.level_data == before_heap.level_data
    &&& after.frame == before.frame
    &&& after.ready == before.ready
    &&& after.quit_requested == before.quit_requested
    &&& after.ui_data == before.ui_data
    &&& after.blackout_alpha == before.blackout_alpha
    &&& after.final_level == before.final_level
    &&& after.player_data == before.player_data
}

/// Applies a transform to a tilemap where the coin says so.
fn turn_if(coin: bool, turn: Turn, tiles: Vec<u16>, n: usize, Ghost(goals): Ghost<int>) -> (r: Vec<u16>)
    requires
        3 <= n <= 15,
        board_sound(tiles@, n as int, goals),
    ensures
        r@ == turned_if(coin, turn, tiles@, n as int),
        board_sound(r@, n as int, goals),
{
    if coin {
        proof {
            let home = Seq::new(24, |k: int| BOARD_IDX_INVALID);
            lemma_turn_keeps_sound(turn, tiles@, home, n as int, goals, 8);
        }
        turn_tiles(turn, &tiles, n)
    } else {
        tiles
    }
}

/// Loads the level that the cursor points at: builds its scene with the
/// given mask of blocks, shuffles the board as the coins say, and starts the
/// ledger anew.
pub fn load_level(cache: &mut GameData, heap: &mut GameDataHeap, mask: &Vec<bool>, coins: &Shuffle)
    requires
        old(heap).level_data.wf(),
        cursor_ok(old(cache).player_data, old(heap).level_data@),
        mask.len() == block_at(old(cache).player_data, old(heap).level_data@).map.len(),
        pieces_canonical(old(cache).pieces@),
        all_home(positions_of(old(cache).pieces@)),
    ensures
        loaded(
            old(cache),
            old(heap),
            final(cache),
            final(heap),
            block_at(old(cache).player_data, old(heap).level_data@),
            shuffled(
                built_tilemap(
                    block_at(old(cache).player_data, old(heap).level_data@).map,
                    mask@,
                    block_at(old(cache).player_data, old(heap).level_data@).sz as int,
                ),
                block_at(old(cache).player_data, old(heap).level_data@).sz as int,
                *coins,
            ),
            positions_of(old(cache).pieces@),
        ),
        !final(cache).level_complete,
        level_ok(final(cache), final(heap)),
{
    let level: usize = cache.player_data.level;
    let option: usize = cache.player_data.level_option;
    let ghost catalog = heap.level_data@;
    let ghost view = block_at(cache.player_data, catalog);
    assert(catalog[level - 1] == block_views(heap.level_data.options[level - 1]@));
    assert(heap.level_data.options[level - 1][option as int]@ == view);
    assert(view.wf());
    let mut scene = build_scene_with(&heap.level_data.options[level - 1][option], mask);
    let n: usize = scene.sz;
    let ghost goals = scene.num_goals as int;
    let mut tiles: Vec<u16> = Vec::new();
    core::mem::swap(&mut tiles, &mut scene.tilemap);
    let tiles = turn_if(coins.flip_h, Turn::FlipH, tiles, n, Ghost(goals));
    let tiles = turn_if(coins.flip_v, Turn::FlipV, tiles, n, Ghost(goals));
    let tiles = turn_if(coins.rotate_a, Turn::Rotate, tiles, n, Ghost(goals));
    let tiles = turn_if(coins.rotate_b, Turn::Rotate, tiles, n, Ghost(goals));
    let tiles = turn_if(coins.rotate_c, Turn::Rotate, tiles, n, Ghost(goals));
    scene.tilemap = tiles;
    heap.scene_data = scene;
    update_clipping(cache, heap);
    cache.level_complete = false;
    clear_history(cache, heap);
    push_history(cache, heap);
    proof {
        let p = positions_of(cache.pieces@);
        let t = heap.scene_data.tilemap@;
        assert(ledger(heap.history@) =~= seq![Snapshot { pieces: p, tilemap: t }]);
        assert(pieces_sound(p, t, n as int, heap.scene_data.num_pcs as int));
        assert(ledger_sound(
            ledger(heap.history@),
            n as int,
            heap.scene_data.num_goals as int,
            heap.scene_data.num_pcs as int,
        ));
    }
}

/// Goes on to the next level with the draws given: the option to take where
/// a new pool opens, the mask of blocks, and the coins of the shuffle.
pub fn next_level_with(
    cache: &mut GameData,
    heap: &mut GameDataHeap,
    pick: usize,
    mask: &Vec<bool>,
    coins: &Shuffle,
)
    requires
        old(heap).level_data.wf(),
        can_advance(old(cache).player_data, old(heap).level_data@),
        draws_option(old(cache).player_data) ==> pick < old(heap).level_data@[next_level_no(
            old(cache).player_data,
        ) - 1].len(),
        mask.len() == block_at(
            advanced(old(cache).player_data, old(heap).level_data@, pick),
            old(heap).level_data@,
        ).map.len(),
        pieces_canonical(old(cache).pieces@),
        all_home(positions_of(old(cache).pieces@)),
    ensures
        went_on(old(cache), old(heap), final(cache), final(heap), pick, mask@, *coins),
        level_ok(final(cache), final(heap)),
        cursor_ok(final(cache).player_data, final(heap).level_data@),
{
    advance_cursor(cache, heap, pick);
    load_level(cache, heap, mask, coins);
}

/// What the step to the next level leaves behind, for given draws: the
/// cursor advanced, the last level noted, the level not complete, and the
/// level at the cursor loaded.
pub open spec fn went_on(
    before: &GameData,
    before_heap: &GameDataHeap,
    after: &GameData,
    after_heap: &GameDataHeap,
    pick: usize,
    mask: Seq<bool>,
    coins: Shuffle,
) -> bool {
    let catalog = before_heap.level_data@;
    let cursor = advanced(before.player_data, catalog, pick);
    let block = block_at(cursor, catalog);
    &&& after.player_data == cursor
    &&& after.final_level == (before.final_level || on_final(cursor, catalog))
    &&& !after.level_complete
    &&& mask.len() == block.map.len()
    &&& (draws_option(before.player_data) ==> pick < catalog[cursor.level - 1].len())
    &&& after_heap.scene_data.shaped()
    &&& after_heap.scene_data.sz == block.sz
    &&& after_heap.scene_data.num_pcs == block.npcs
    &&& after_heap.scene_data.tilemap@ == shuffled(built_tilemap(block.map, mask, block.sz as int), block.sz as int, coins)
    &&& after_heap.scene_data.num_goals == count(after_heap.scene_data.tilemap@, ORB)
    &&& after_heap.scene_data.clipping@ == clipping_of(after_heap.scene_data.tilemap@, after.pieces@, block.npcs as int)
    &&& after_heap.scene_data.reflectors@ == Seq::new(after_heap.scene_data.sz2 as nat, |i: int| 0u16)
    &&& after_heap.scene_data.beams@ == Seq::new(after_heap.scene_data.sz2 as nat, |i: int| 0u16)
    &&& same_set(after.pieces@, before.pieces@)
    &&& positions_of(after.pieces@) == positions_of(before.pieces@)
    &&& ledger(after_heap.history@) == seq![
        Snapshot { pieces: positions_of(before.pieces@), tilemap: after_heap.scene_data.tilemap@ },
    ]
    &&& after.history_idx == 0
    &&& after_heap.level_data == before_heap.level_data
    &&& after.frame == before.frame
    &&& after.ready == before.ready
    &&& after.quit_requested == before.quit_requested
    &&& after.ui_data == before.ui_data
    &&& after.blackout_alpha == before.blackout_alpha
}

/// Throws the five coins of the shuffle, each fair.
pub fn draw_shuffle() -> (coins: Shuffle) {
    let flip_h = random_ratio(1, 2);
    let flip_v = random_ratio(1, 2);
    let rotate_a = random_ratio(1, 2);
    let rotate_b = random_ratio(1, 2);
    let rotate_c = random_ratio(1, 2);
    Shuffle { flip_h, flip_v, rotate_a, rotate_b, rotate_c }
}

/// Goes on to the next level. Where a new pool opens, the option is drawn
/// evenly from the pool; the blocks and the shuffle are drawn as well.
pub fn next_level(cache: &mut GameData, heap: &mut GameDataHeap)
    requires
        old(heap).level_data.wf(),
        can_advance(old(cache).player_data, old(heap).level_data@),
        pieces_canonical(old(cache).pieces@),
        all_home(positions_of(old(cache).pieces@)),
    ensures
        exists|pick: usize, mask: Seq<bool>, coins: Shuffle|
            went_on(old(cache), old(heap), final(cache), final(heap), pick, mask, coins),
        level_ok(final(cache), final(heap)),
        cursor_ok(final(cache).player_data, final(heap).level_data@),
{
    let ghost catalog = heap.level_data@;
    let p = &cache.player_data;
    let draws: bool = p.level != 0 && (if p.level > 1 {
        (p.sub_level + 1) % 2
    } else {
        p.sub_level
    }) == 0;
    let pick: usize = if draws {
        let size: usize = heap.level_data.options[p.level].len();
        assert(catalog[p.level as int].len() == size);
        random_below(size)
    } else {
        0
    };
    let ghost cursor = advanced(cache.player_data, catalog, pick);
    let level: usize = if p.level == 0 {
        1
    } else if draws {
        p.level + 1
    } else {
        p.level
    };
    let option: usize = if p.level == 0 {
        0
    } else if draws {
        pick
    } else {
        let size: usize = heap.level_data.options[level - 1].len();
        assert(catalog[level - 1].len() == size);
        (p.level_option + 1) % size
    };
    assert(level == cursor.level && option == cursor.level_option);
    assert(catalog[level - 1] == block_views(heap.level_data.options[level - 1]@));
    assert(heap.level_data.options[level - 1][option as int]@ == block_at(cursor, catalog));
    let mask = draw_mask(&heap.level_data.options[level - 1][option].map);
    let coins = draw_shuffle();
    next_level_with(cache, heap, pick, &mask, &coins);
    assert(went_on(old(cache), old(heap), cache, heap, pick, mask@, coins));
}

/// What starting the level over with another option leaves behind, for
/// given draws: the cursor on the option `pick` of its pool, the scene of
/// that block as built, every piece in play back in the inventory, and the
/// ledger started anew.
pub open spec fn started_over(
    before: &GameData,
    before_heap: &GameDataHeap,
    after: &GameData,
    after_heap: &GameDataHeap,
    pick: usize,
    mask: Seq<bool>,
) -> bool {
    let catalog = before_heap.level_data@;
    let cursor = PlayerData { level_option: pick, ..before.player_data };
    let block = block_at(cursor, catalog);
    let tilemap = built_tilemap(block.map, mask, block.sz as int);
    let positions = cleared_positions(positions_of(before.pieces@), block.npcs as int);
    &&& pick < catalog[cursor.level - 1].len()
    &&& mask.len() == block.map.len()
    &&& after.player_data == cursor
    &&& after.final_level == before.final_level
    &&& after.level_complete == before.level_complete
    &&& after_heap.scene_data.shaped()
    &&& after_heap.scene_data.sz == block.sz
    &&& after_heap.scene_data.num_pcs == block.npcs
    &&& after_heap.scene_data.tilemap@ == tilemap
    &&& after_heap.scene_data.num_goals == count(tilemap, ORB)
    &&& after_heap.scene_data.clipping@ == base_clipping(tilemap)
    &&& after_heap.scene_data.reflectors@ == Seq::new(after_heap.scene_data.sz2 as nat, |i: int| 0u16)
    &&& after_heap.scene_data.beams@ == Seq::new(after_heap.scene_data.sz2 as nat, |i: int| 0u16)
    &&& same_set(after.pieces@, before.pieces@)
    &&& positions_of(after.pieces@) == positions
    &&& ledger(after_heap.history@) == seq![Snapshot { pieces: positions, tilemap: tilemap }]
    &&& after.history_idx == 0
    &&& after_heap.level_data == before_heap.level_data
    &&& after.frame == before.frame
    &&& after.ready == before.ready
    &&& after.quit_requested == before.quit_requested
    &&& after.ui_data == before.ui_data
    &&& after.blackout_alpha == before.blackout_alpha
}

/// Starts the level over with the option `pick` of its pool and the given
/// mask of blocks.
pub fn trash_level_with(cache: &mut GameData, heap: &mut GameDataHeap, pick: usize, mask: &Vec<bool>)
    requires
        old(heap).level_data.wf(),
        1 <= old(cache).player_data.level <= old(heap).level_data@.len(),
        pick < old(heap).level_data@[old(cache).player_data.level - 1].len(),
        mask.len() == old(heap).level_data@[old(cache).player_data.level - 1][pick as int].map.len(),
    ensures
        started_over(old(cache), old(heap), final(cache), final(heap), pick, mask@),
        level_ok(old(cache), old(heap)) && cursor_ok(old(cache).player_data, old(heap).level_data@) && old(
            heap,
        ).scene_data.num_pcs == block_at(old(cache).player_data, old(heap).level_data@).npcs ==> level_ok(
            final(cache),
            final(heap),
        ),
        old(cache).player_data.sub_level <= 1 ==> cursor_ok(final(cache).player_data, final(heap).level_data@),
{
    let level: usize = cache.player_data.level;
    let ghost catalog = heap.level_data@;
    assert(catalog[level - 1] == block_views(heap.level_data.options[level - 1]@));
    assert(heap.level_data.options[level - 1][pick as int]@ == catalog[level - 1][pick as int]);
    assert(catalog[level - 1][pick as int].wf());
    cache.player_data.level_option = pick;
    let scene = build_scene_with(&heap.level_data.options[level - 1][pick], mask);
    heap.scene_data = scene;
    reset_scene(cache, heap);
    clear_history(cache, heap);
    push_history(cache, heap);
    proof {
        let p = positions_of(cache.pieces@);
        let t = heap.scene_data.tilemap@;
        let n = heap.scene_data.sz as int;
        assert(ledger(heap.history@) =~= seq![Snapshot { pieces: p, tilemap: t }]);
        if level_ok(old(cache), old(heap)) && cursor_ok(old(cache).player_data, catalog) && old(
            heap,
        ).scene_data.num_pcs == block_at(old(cache).player_data, catalog).npcs {
            let prior = positions_of(old(cache).pieces@);
            assert(catalog[level - 1][pick as int].npcs == catalog[level - 1][0].npcs);
            assert(block_at(old(cache).player_data, catalog).npcs == catalog[level - 1][0].npcs);
            assert forall|k: int| 0 <= k < 24 implies #[trigger] p[k] == BOARD_IDX_INVALID by {
                if k >= heap.scene_data.num_pcs {
                    assert(prior[k] == BOARD_IDX_INVALID);
                }
            }
            assert(pieces_sound(p, t, n, heap.scene_data.num_pcs as int));
            assert(ledger_sound(
                ledger(heap.history@),
                n,
                heap.scene_data.num_goals as int,
                heap.scene_data.num_pcs as int,
            ));
        }
    }
}

/// Starts the level over with an option drawn evenly from its pool, and with
/// blocks drawn anew.
pub fn trash_level(cache: &mut GameData, heap: &mut GameDataHeap)
    requires
        old(heap).level_data.wf(),
        1 <= old(cache).player_data.level <= old(heap).level_data@.len(),
    ensures
        exists|pick: usize, mask: Seq<bool>|
            started_over(old(cache), old(heap), final(cache), final(heap), pick, mask),
        level_ok(old(cache), old(heap)) && cursor_ok(old(cache).player_data, old(heap).level_data@) && old(
            heap,
        ).scene_data.num_pcs == block_at(old(cache).player_data, old(heap).level_data@).npcs ==> level_ok(
            final(cache),
            final(heap),
        ),
        old(cache).player_data.sub_level <= 1 ==> cursor_ok(final(cache).player_data, final(heap).level_data@),
{
    let level: usize = cache.player_data.level;
    let ghost catalog = heap.level_data@;
    let size: usize = heap.level_data.options[level - 1].len();
    assert(catalog[level - 1] == block_views(heap.level_data.options[level - 1]@));
    let pick = random_below(size);
    assert(heap.level_data.options[level - 1][pick as int]@ == catalog[level - 1][pick as int]);
    let mask = draw_mask(&heap.level_data.options[level - 1][pick].map);
    trash_level_with(cache, heap, pick, &mask);
    assert(started_over(old(cache), old(heap), cache, heap, pick, mask@));
}

/// What a successful start leaves behind: the catalog of the level file, the
/// canonical inventory with every piece in it, and the cursor before the
/// first level.
pub open spec fn started(
    before: &GameData,
    before_heap: &GameDataHeap,
    after: &GameData,
    after_heap: &GameDataHeap,
    blocks: Seq<BlockView>,
) -> bool {
    &&& after_heap.level_data@ == grouped(blocks)
    &&& after_heap.level_data.wf()
    &&& after_heap.scene_data == before_heap.scene_data
    &&& after_heap.history == before_heap.history
    &&& pieces_canonical(after.pieces@)
    &&& all_home(positions_of(after.pieces@))
    &&& forall|k: int| 0 <= k < 24 ==> !(#[trigger] after.pieces@[k]).active
    &&& after.player_data.level == 0
    &&& after.player_data.sub_level == 0
    &&& after.player_data.level_displayed == 0
    &&& after.player_data.level_option == before.player_data.level_option
    &&& after.rest_same_but_player(before)
    &&& after.history_idx == before.history_idx
}

/// Starts the game state from the text of a level file: lays out the
/// inventory, decodes the file into the catalog, and puts the cursor before
/// the first level. A file with a line that is refused changes nothing.
pub fn initialize(cache: &mut GameData, heap: &mut GameDataHeap, text: &Vec<u8>) -> (r: Result<(), LevelFileError>)
    ensures
        match r {
            Ok(_) => parsed(text@).is_ok() && started(
                old(cache),
                old(heap),
                final(cache),
                final(heap),
                parsed(text@).unwrap(),
            ),
            Err(e) => parsed(text@) == Err::<Seq<BlockView>, LevelFileError>(e) && *final(cache) == *old(cache)
                && *final(heap) == *old(heap),
        },
{
    let blocks = match parse_levels(text) {
        Ok(blocks) => blocks,
        Err(e) => {
            return Err(e);
        },
    };
    let mut i: usize = 0;
    while i < 24
        invariant
            i <= 24,
            cache.rest_same(old(cache)),
            cache.history_idx == old(cache).history_idx,
            forall|k: int|
                0 <= k < i ==> (#[trigger] cache.pieces@[k]).tile == spec_slot_tile(k) && cache.pieces@[k].home == k
                    && cache.pieces@[k].board_idx == BOARD_IDX_INVALID && !cache.pieces@[k].active,
        decreases 24 - i,
    {
        cache.pieces[i] = PieceData { tile: slot_tile(i), board_idx: BOARD_IDX_INVALID, active: false, home: i as u8 };
        i += 1;
    }
    heap.level_data = LevelData::from_blocks(&blocks);
    cache.player_data.level = 0;
    cache.player_data.sub_level = 0;
    cache.player_data.level_displayed = 0;
    Ok(())
}

} // verus!
