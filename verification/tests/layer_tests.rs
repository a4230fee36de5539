use mirrorb::support::sort_enumerate;
use mirrorb::component_render_tilemap::{
    TileMutation, TilemapRenderComponentManager, TilesetBuffer, MUTATION_FLIP_HORIZ, MUTATION_FLIP_VERT,
    MUTATION_ROTATE_180, MUTATION_ROTATE_CCW, MUTATION_ROTATE_CW, TILEMAP_MODE_ISOMETRIC, TILEMAP_MODE_NORMAL,
};

#[test]
fn new_manager_has_a_default_sheet_for_every_entity() {
    let m = TilemapRenderComponentManager::new(3);
    assert_eq!((m.cache_data.len(), m.tileset.len(), m.tilemap.len()), (3, 3, 3));
    for i in 0..3 {
        assert_eq!(
            m.tileset[i],
            TilesetBuffer { image_width: 320, image_height: 240, tile_width: 16, tile_height: 16, span: 16, count: 1 }
        );
        assert!(m.tilemap[i].data.is_empty() && m.tilemap[i].mutations.is_empty());
        assert!(!m.is_constructed(i) && !m.reconstruct(i));
        assert_eq!((m.get_tileset_idx(i), m.get_num_tiles(i)), (0, 0));
    }
    assert_eq!(TilemapRenderComponentManager::new(0).cache_data.len(), 0);
}

#[test]
fn set_tileset_counts_whole_tiles() {
    let mut m = TilemapRenderComponentManager::new(2);
    m.set_tileset(1, 128, 128, 16, 16);
    assert_eq!((m.tileset[1].span, m.tileset[1].count), (8, 64));
    m.set_tileset(1, 70, 50, 16, 16);
    assert_eq!((m.tileset[1].span, m.tileset[1].count), (4, 12));
    m.set_tileset(1, 32, 32, 4, 4);
    assert_eq!((m.tileset[1].span, m.tileset[1].count), (8, 64));
    assert_eq!(m.tileset[0].count, 1);
}

#[test]
fn set_tilemap_shapes_the_layer() {
    let mut m = TilemapRenderComponentManager::new(4);
    let before = m.clone();
    m.set_tilemap(2, 1, 3, &vec![1, 2, 3, 5, 6, 7]);
    assert_eq!((m.cache_data[2].columns, m.cache_data[2].rows), (3, 2));
    assert_eq!(m.cache_data[2].tile_mode, TILEMAP_MODE_NORMAL);
    assert_eq!(m.get_tileset_idx(2), 1);
    assert!(m.reconstruct(2) && !m.is_constructed(2));
    assert_eq!(m.tilemap[2].data, vec![1, 2, 3, 5, 6, 7]);
    for i in [0, 1, 3] {
        assert_eq!(m.cache_data[i], before.cache_data[i]);
        assert_eq!(m.tilemap[i], before.tilemap[i]);
    }
    m.set_iso_tilemap(0, 2, 1, &vec![9]);
    assert_eq!((m.cache_data[0].columns, m.cache_data[0].rows), (1, 1));
    assert_eq!(m.cache_data[0].tile_mode, TILEMAP_MODE_ISOMETRIC);
    m.clear();
    assert_eq!(m.tilemap[2].data, vec![1, 2, 3, 5, 6, 7]);
}

#[test]
fn mutations_are_kept_in_order_and_dropped_with_the_tilemap() {
    let mut m = TilemapRenderComponentManager::new(1);
    m.set_tilemap(0, 0, 2, &vec![1, 1, 1, 1]);
    m.mark_constructed(0);
    assert!(!m.reconstruct(0));
    m.cell_flip_horizontal(0, 3);
    assert!(m.reconstruct(0));
    m.cell_flip_vertical(0, 0);
    m.cell_rotate_cw(0, 1);
    m.cell_rotate_ccw(0, 1);
    m.cell_rotate_180(0, 2);
    m.cell_mutate(0, 2, 0);
    let expected: Vec<TileMutation> = [
        (3, MUTATION_FLIP_HORIZ),
        (0, MUTATION_FLIP_VERT),
        (1, MUTATION_ROTATE_CW),
        (1, MUTATION_ROTATE_CCW),
        (2, MUTATION_ROTATE_180),
        (2, 0),
    ]
    .iter()
    .map(|&(cell, mutation)| TileMutation { cell, mutation })
    .collect();
    assert_eq!(m.tilemap[0].mutations, expected);
    assert_eq!(m.tilemap[0].data, vec![1, 1, 1, 1]);
    m.set_tilemap(0, 0, 4, &vec![1, 1, 1, 1]);
    assert!(m.tilemap[0].mutations.is_empty());
}

#[test]
fn mark_constructed_counts_the_tiles_that_show() {
    let mut m = TilemapRenderComponentManager::new(2);
    m.set_tileset(1, 64, 64, 16, 16);
    m.set_tilemap(0, 1, 3, &vec![0, 1, 16, 17, 0, 5]);
    assert_eq!(m.count_shown(0), 3);
    m.mark_constructed(0);
    assert!(m.is_constructed(0) && !m.reconstruct(0));
    assert_eq!(m.get_num_tiles(0), 3);
    assert_eq!(m.cache_data[0].columns, 3);
}

#[test]
fn sort_enumerate_sorts_and_remembers_the_indices() {
    assert_eq!(sort_enumerate(&vec![30u32, 10, 20]), vec![(1, 10), (2, 20), (0, 30)]);
    assert_eq!(sort_enumerate(&Vec::<u8>::new()), vec![]);
    assert_eq!(sort_enumerate(&vec![7i32]), vec![(0, 7)]);
    // values that are equal keep their order
    assert_eq!(sort_enumerate(&vec![2u8, 1, 2, 1, 2]), vec![(1, 1), (3, 1), (0, 2), (2, 2), (4, 2)]);
    assert_eq!(sort_enumerate(&vec![1.5f32, -0.5, 1.0]), vec![(1, -0.5), (2, 1.0), (0, 1.5)]);
    let data: Vec<u16> = (0..200).map(|i| (i * 7919 % 251) as u16).collect();
    let sorted = sort_enumerate(&data);
    let mut expected: Vec<(usize, u16)> = data.iter().copied().enumerate().collect();
    expected.sort_by(|a, b| a.1.partial_cmp(&b.1).unwrap());
    assert_eq!(sorted, expected);
}
