//! The tile layers that the game publishes to the painter: for every entity
//! a tileset, a tilemap with its shape, and the cells that are to be shown
//! flipped or turned.

use vstd::prelude::*;
use vstd::arithmetic::div_mod::lemma_mod_decreases;

verus! {

pub const MUTATION_NONE: u8 = 0;
pub const MUTATION_FLIP_HORIZ: u8 = 1;
pub const MUTATION_FLIP_VERT: u8 = 2;
pub const MUTATION_ROTATE_CW: u8 = 3;
pub const MUTATION_ROTATE_CCW: u8 = 4;
pub const MUTATION_ROTATE_180: u8 = 5;

pub const TILEMAP_MODE_NORMAL: u8 = 0;
pub const TILEMAP_MODE_ISOMETRIC: u8 = 1;

/// The tile code that shows nothing.
pub const EMPTY_TILE: u16 = 0;

/// The sheet of a tileset: the size of the image and of one tile, how many
/// tiles a row of the sheet holds, and how many the sheet holds.
#[derive(Clone, Copy, Debug, PartialEq)]
pub struct TilesetBuffer {
    pub image_width: usize,
    pub image_height: usize,
    pub tile_width: usize,
    pub tile_height: usize,
    pub span: usize,
    pub count: usize,
}

/// A cell of a tilemap that is shown flipped or turned.
#[derive(Clone, Copy, Debug, PartialEq)]
pub struct TileMutation {
    pub cell: usize,
    pub mutation: u8,
}

/// The tiles of a tilemap and its mutations, in the order in which they were
/// asked for.
#[derive(Clone, Debug, PartialEq)]
pub struct TilemapBuffer {
    pub data: Vec<u16>,
    pub mutations: Vec<TileMutation>,
}

/// The shape and the state of a tilemap.
#[derive(Clone, Copy, Debug, PartialEq)]
pub struct TilemapRenderComponentManagerData {
    pub columns: usize,
    pub rows: usize,
    pub constructed: bool,
    pub reconstruct_needed: bool,
    pub tileset: usize,
    pub num_tiles: u16,
    pub tile_mode: u8,
}

/// The tile layers of all entities.
#[derive(Clone, Debug, PartialEq)]
pub struct TilemapRenderComponentManager {
    pub cache_data: Vec<TilemapRenderComponentManagerData>,
    pub tileset: Vec<TilesetBuffer>,
    pub tilemap: Vec<TilemapBuffer>,
}

/// How many whole tiles of the given width fit into the given length.
pub open spec fn spec_whole(length: usize, tile: usize) -> int {
    (length - length % tile) / (tile as int)
}

/// How many tiles of the tilemap are shown with a tileset of `count` tiles:
/// those that are neither empty nor beyond the tileset.
pub open spec fn shown_tiles(data: Seq<u16>, count: usize) -> nat
    decreases data.len(),
{
    if data.len() == 0 {
        0
    } else {
        shown_tiles(data.drop_last(), count) + if data.last() != EMPTY_TILE && data.last() <= count {
            1nat
        } else {
            0nat
        }
    }
}

impl TilemapRenderComponentManager {
    /// Every entity has its three records, and every tilemap is a full
    /// rectangle.
    pub open spec fn wf(&self) -> bool {
        &&& self.tileset.len() == self.cache_data.len()
        &&& self.tilemap.len() == self.cache_data.len()
        &&& forall|i: int|
            0 <= i < self.cache_data.len() ==> (#[trigger] self.cache_data[i]).rows * self.cache_data[i].columns
                == self.tilemap[i].data.len()
    }

    /// How many entities the manager has room for.
    pub open spec fn entities(&self) -> nat {
        self.cache_data.len() as nat
    }

    /// All entities but `idx` are as in `other`.
    pub open spec fn same_but(&self, other: &TilemapRenderComponentManager, idx: int) -> bool {
        &&& self.entities() == other.entities()
        &&& self.tileset.len() == other.tileset.len()
        &&& self.tilemap.len() == other.tilemap.len()
        &&& forall|i: int|
            0 <= i < self.entities() && i != idx ==> #[trigger] self.cache_data[i] == other.cache_data[i]
                && self.tileset[i] == other.tileset[i] && self.tilemap[i] == other.tilemap[i]
    }

    /// A manager for the given number of entities: each with a sheet of
    /// 320 by 240 pixels in tiles of 16 by 16, and with no tilemap yet.
    pub fn new(entities: usize) -> (r: TilemapRenderComponentManager)
        ensures
            r.wf(),
            r.entities() == entities,
            forall|i: int|
                0 <= i < entities ==> (#[trigger] r.tileset[i]) == (TilesetBuffer {
                    image_width: 320,
                    image_height: 240,
                    tile_width: 16,
                    tile_height: 16,
                    span: 16,
                    count: 1,
                }),
            forall|i: int|
                0 <= i < entities ==> (#[trigger] r.tilemap[i]).data@.len() == 0 && r.tilemap[i].mutations@.len() == 0,
            forall|i: int|
                0 <= i < entities ==> (#[trigger] r.cache_data[i]) == (TilemapRenderComponentManagerData {
                    columns: 0,
                    rows: 0,
                    constructed: false,
                    reconstruct_needed: false,
                    tileset: 0,
                    num_tiles: 0,
                    tile_mode: TILEMAP_MODE_NORMAL,
                }),
    {
        let mut cache_data: Vec<TilemapRenderComponentManagerData> = Vec::new();
        let mut tileset: Vec<TilesetBuffer> = Vec::new();
        let mut tilemap: Vec<TilemapBuffer> = Vec::new();
        let mut i: usize = 0;
        while i < entities
            invariant
                i <= entities,
                cache_data.len() == i,
                tileset.len() == i,
                tilemap.len() == i,
                forall|j: int|
                    0 <= j < i ==> (#[trigger] tileset[j]) == (TilesetBuffer {
                        image_width: 320,
                        image_height: 240,
                        tile_width: 16,
                        tile_height: 16,
                        span: 16,
                        count: 1,
                    }),
                forall|j: int|
                    0 <= j < i ==> (#[trigger] tilemap[j]).data@.len() == 0 && tilemap[j].mutations@.len() == 0,
                forall|j: int|
                    0 <= j < i ==> (#[trigger] cache_data[j]) == (TilemapRenderComponentManagerData {
                        columns: 0,
                        rows: 0,
                        constructed: false,
                        reconstruct_needed: false,
                        tileset: 0,
                        num_tiles: 0,
                        tile_mode: TILEMAP_MODE_NORMAL,
                    }),
            decreases entities - i,
        {
            tileset.push(
                TilesetBuffer {
                    tile_width: 16,
                    tile_height: 16,
                    image_width: 320,
                    image_height: 240,
                    span: 16,
                    count: 1,
                },
            );
            tilemap.push(TilemapBuffer { data: Vec::new(), mutations: Vec::new() });
            cache_data.push(
                TilemapRenderComponentManagerData {
                    columns: 0,
                    rows: 0,
                    constructed: false,
                    reconstruct_needed: false,
                    tileset: 0,
                    num_tiles: 0,
                    tile_mode: TILEMAP_MODE_NORMAL,
                },
            );
            i += 1;
        }
        TilemapRenderComponentManager { cache_data, tileset, tilemap }
    }

    /// Leaves everything as it is.
    pub fn clear(&mut self)
        ensures
            *final(self) == *old(self),
    {
    }

    /// Gives the entity a tileset: a sheet of the given size in tiles of the
    /// given size. Only whole tiles count.
    pub fn set_tileset(&mut self, idx: usize, image_width: usize, image_height: usize, tile_width: usize, tile_height: usize)
        requires
            old(self).wf(),
            idx < old(self).entities(),
            tile_width > 0,
            tile_height > 0,
            spec_whole(image_width, tile_width) * (image_height - image_height % tile_height) <= usize::MAX,
        ensures
            final(self).wf(),
            final(self).same_but(old(self), idx as int),
            final(self).cache_data[idx as int] == old(self).cache_data[idx as int],
            final(self).tilemap[idx as int] == old(self).tilemap[idx as int],
            final(self).tileset[idx as int] == (TilesetBuffer {
                image_width,
                image_height,
                tile_width,
                tile_height,
                span: spec_whole(image_width, tile_width) as usize,
                count: (spec_whole(image_width, tile_width) * (image_height - image_height % tile_height) / (
                tile_height as int)) as usize,
            }),
    {
        proof {
            lemma_mod_decreases(image_width as nat, tile_width as nat);
            lemma_mod_decreases(image_height as nat, tile_height as nat);
        }
        let span: usize = (image_width - (image_width % tile_width)) / tile_width;
        let count: usize = span * (image_height - (image_height % tile_height)) / tile_height;
        self.tileset[idx] = TilesetBuffer { image_width, image_height, tile_width, tile_height, span, count };
    }

    /// Gives the entity a tilemap of the given tileset: the tiles row by row,
    /// in rows of `columns`. The mutations of the old tilemap are dropped.
    pub fn set_tilemap(&mut self, idx: usize, tileset_idx: usize, columns: usize, data: &Vec<u16>)
        requires
            old(self).wf(),
            idx < old(self).entities(),
            columns != 0,
            data.len() != 0,
            data.len() % columns == 0,
        ensures
            final(self).wf(),
            final(self).same_but(old(self), idx as int),
            final(self).tileset[idx as int] == old(self).tileset[idx as int],
            final(self).tilemap[idx as int].data@ == data@,
            final(self).tilemap[idx as int].mutations@.len() == 0,
            final(self).cache_data[idx as int] == (TilemapRenderComponentManagerData {
                reconstruct_needed: true,
                columns,
                rows: (data.len() / columns) as usize,
                tileset: tileset_idx,
                tile_mode: TILEMAP_MODE_NORMAL,
                ..old(self).cache_data[idx as int]
            }),
    {
        let n: usize = data.len();
        let rows: usize = (n - (n % columns)) / columns;
        assert(rows * columns == n) by (nonlinear_arith)
            requires
                rows == n / columns,
                n % columns == 0,
                columns > 0,
        ;
        let mut entry = self.cache_data[idx];
        entry.reconstruct_needed = true;
        entry.columns = columns;
        entry.tileset = tileset_idx;
        entry.tile_mode = TILEMAP_MODE_NORMAL;
        entry.rows = rows;
        self.cache_data[idx] = entry;
        self.tilemap[idx] = TilemapBuffer { data: data.clone(), mutations: Vec::new() };
    }

    /// Gives the entity a tilemap that is shown in isometric projection.
    pub fn set_iso_tilemap(&mut self, idx: usize, tileset_idx: usize, columns: usize, data: &Vec<u16>)
        requires
            old(self).wf(),
            idx < old(self).entities(),
            columns != 0,
            data.len() != 0,
            data.len() % columns == 0,
        ensures
            final(self).wf(),
            final(self).same_but(old(self), idx as int),
            final(self).tileset[idx as int] == old(self).tileset[idx as int],
            final(self).tilemap[idx as int].data@ == data@,
            final(self).tilemap[idx as int].mutations@.len() == 0,
            final(self).cache_data[idx as int] == (TilemapRenderComponentManagerData {
                reconstruct_needed: true,
                columns,
                rows: (data.len() / columns) as usize,
                tileset: tileset_idx,
                tile_mode: TILEMAP_MODE_ISOMETRIC,
                ..old(self).cache_data[idx as int]
            }),
    {
        self.set_tilemap(idx, tileset_idx, columns, data);
        let mut entry = self.cache_data[idx];
        entry.tile_mode = TILEMAP_MODE_ISOMETRIC;
        self.cache_data[idx] = entry;
    }

    /// Shows the cell mirrored left to right.
    pub fn cell_flip_horizontal(&mut self, idx: usize, cell: usize)
        requires
            old(self).wf(),
            idx < old(self).entities(),
            cell < old(self).tilemap[idx as int].data.len(),
        ensures
            final(self).mutated(old(self), idx as int, cell, MUTATION_FLIP_HORIZ),
    {
        self.cell_mutate(idx, cell, MUTATION_FLIP_HORIZ);
    }

    /// Shows the cell mirrored top to bottom.
    pub fn cell_flip_vertical(&mut self, idx: usize, cell: usize)
        requires
            old(self).wf(),
            idx < old(self).entities(),
            cell < old(self).tilemap[idx as int].data.len(),
        ensures
            final(self).mutated(old(self), idx as int, cell, MUTATION_FLIP_VERT),
    {
        self.cell_mutate(idx, cell, MUTATION_FLIP_VERT);
    }

    /// Shows the cell turned a quarter turn clockwise.
    pub fn cell_rotate_cw(&mut self, idx: usize, cell: usize)
        requires
            old(self).wf(),
            idx < old(self).entities(),
            cell < old(self).tilemap[idx as int].data.len(),
        ensures
            final(self).mutated(old(self), idx as int, cell, MUTATION_ROTATE_CW),
    {
        self.cell_mutate(idx, cell, MUTATION_ROTATE_CW);
    }

    /// Shows the cell turned a quarter turn counterclockwise.
    pub fn cell_rotate_ccw(&mut self, idx: usize, cell: usize)
        requires
            old(self).wf(),
            idx < old(self).entities(),
            cell < old(self).tilemap[idx as int].data.len(),
        ensures
            final(self).mutated(old(self), idx as int, cell, MUTATION_ROTATE_CCW),
    {
        self.cell_mutate(idx, cell, MUTATION_ROTATE_CCW);
    }

    /// Shows the cell turned upside down.
    pub fn cell_rotate_180(&mut self, idx: usize, cell: usize)
        requires
            old(self).wf(),
            idx < old(self).entities(),
            cell < old(self).tilemap[idx as int].data.len(),
        ensures
            final(self).mutated(old(self), idx as int, cell, MUTATION_ROTATE_180),
    {
        self.cell_mutate(idx, cell, MUTATION_ROTATE_180);
    }

    /// What a mutation of a cell leaves behind: the mutation is the last of
    /// the entity's mutations, the entity is to be built anew, and nothing
    /// else has changed.
    pub open spec fn mutated(&self, before: &TilemapRenderComponentManager, idx: int, cell: usize, mutation: u8) -> bool {
        &&& self.wf()
        &&& self.same_but(before, idx)
        &&& self.tileset[idx] == before.tileset[idx]
        &&& self.tilemap[idx].data == before.tilemap[idx].data
        &&& self.tilemap[idx].mutations@ == before.tilemap[idx].mutations@.push(TileMutation { cell, mutation })
        &&& self.cache_data[idx] == (TilemapRenderComponentManagerData {
            reconstruct_needed: true,
            ..before.cache_data[idx]
        })
    }

    /// Notes a mutation of a cell.
    pub fn cell_mutate(&mut self, idx: usize, cell: usize, mutation: u8)
        requires
            old(self).wf(),
            idx < old(self).entities(),
            cell < old(self).tilemap[idx as int].data.len(),
        ensures
            final(self).mutated(old(self), idx as int, cell, mutation),
    {
        let mut entry = self.cache_data[idx];
        entry.reconstruct_needed = true;
        self.cache_data[idx] = entry;
        let mut data: Vec<u16> = Vec::new();
        let mut mutations: Vec<TileMutation> = Vec::new();
        core::mem::swap(&mut data, &mut self.tilemap[idx].data);
        core::mem::swap(&mut mutations, &mut self.tilemap[idx].mutations);
        mutations.push(TileMutation { cell, mutation });
        self.tilemap[idx] = TilemapBuffer { data, mutations };
    }

    /// Whether the entity was built.
    pub fn is_constructed(&self, idx: usize) -> (r: bool)
        requires
            idx < self.entities(),
        ensures
            r == self.cache_data[idx as int].constructed,
    {
        self.cache_data[idx].constructed
    }

    /// Whether the entity is to be built anew.
    pub fn reconstruct(&self, idx: usize) -> (r: bool)
        requires
            idx < self.entities(),
        ensures
            r == self.cache_data[idx as int].reconstruct_needed,
    {
        self.cache_data[idx].reconstruct_needed
    }

    /// The tileset of the entity's tilemap.
    pub fn get_tileset_idx(&self, idx: usize) -> (r: usize)
        requires
            idx < self.entities(),
        ensures
            r == self.cache_data[idx as int].tileset,
    {
        self.cache_data[idx].tileset
    }

    /// How many tiles the entity showed when it was last built.
    pub fn get_num_tiles(&self, idx: usize) -> (r: usize)
        requires
            idx < self.entities(),
        ensures
            r == self.cache_data[idx as int].num_tiles,
    {
        self.cache_data[idx].num_tiles as usize
    }

    /// Counts the tiles that the entity shows: those that are neither empty
    /// nor beyond its tileset.
    pub fn count_shown(&self, idx: usize) -> (r: usize)
        requires
            self.wf(),
            idx < self.entities(),
            self.cache_data[idx as int].tileset < self.entities(),
        ensures
            r == shown_tiles(
                self.tilemap[idx as int].data@,
                self.tileset[self.cache_data[idx as int].tileset as int].count,
            ),
            r <= self.tilemap[idx as int].data.len(),
    {
        let count: usize = self.tileset[self.cache_data[idx].tileset].count;
        let mut r: usize = 0;
        let mut i: usize = 0;
        while i < self.tilemap[idx].data.len()
            invariant
                idx < self.tilemap.len(),
                i <= self.tilemap[idx as int].data.len(),
                r == shown_tiles(self.tilemap[idx as int].data@.take(i as int), count),
                r <= i,
            decreases self.tilemap[idx as int].data.len() - i,
        {
            assert(self.tilemap[idx as int].data@.take(i + 1).drop_last() =~= self.tilemap[idx as int].data@.take(
                i as int,
            ));
            let t: u16 = self.tilemap[idx].data[i];
            if t != EMPTY_TILE && t as usize <= count {
                r += 1;
            }
            i += 1;
        }
        assert(self.tilemap[idx as int].data@.take(self.tilemap[idx as int].data.len() as int)
            =~= self.tilemap[idx as int].data@);
        r
    }

    /// Notes that the entity was built, and how many tiles it shows.
    pub fn mark_constructed(&mut self, idx: usize)
        requires
            old(self).wf(),
            idx < old(self).entities(),
            old(self).cache_data[idx as int].tileset < old(self).entities(),
            old(self).tilemap[idx as int].data.len() <= u16::MAX,
        ensures
            final(self).wf(),
            final(self).same_but(old(self), idx as int),
            final(self).tileset[idx as int] == old(self).tileset[idx as int],
            final(self).tilemap[idx as int] == old(self).tilemap[idx as int],
            final(self).cache_data[idx as int] == (TilemapRenderComponentManagerData {
                reconstruct_needed: false,
                constructed: true,
                num_tiles: shown_tiles(
                    old(self).tilemap[idx as int].data@,
                    old(self).tileset[old(self).cache_data[idx as int].tileset as int].count,
                ) as u16,
                ..old(self).cache_data[idx as int]
            }),
    {
        let shown: usize = self.count_shown(idx);
        let mut entry = self.cache_data[idx];
        entry.reconstruct_needed = false;
        entry.constructed = true;
        entry.num_tiles = shown as u16;
        self.cache_data[idx] = entry;
    }
}

} // verus!
