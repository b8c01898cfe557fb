use pien::chunks::{chunks_to_load, initial_region, unload_far_chunks, LoadedChunks};
use pien::render::quad_indices;
use pien::weather::keep_weather_cell;
use pien::world::{chunk_tile_coords, dominant_biome, Biome, ChunkCoord, ChunkTiles, MonsterBias};

fn coord(x: i32, y: i32) -> ChunkCoord {
    ChunkCoord { x, y }
}

#[test]
fn base_temperatures_follow_the_climate_table() {
    assert_eq!(Biome::DeepOcean.base_temperature(), 10);
    assert_eq!(Biome::Desert.base_temperature(), 40);
    assert_eq!(Biome::IceCap.base_temperature(), -25);
    assert_eq!(Biome::Tundra.base_temperature(), -5);
    assert_eq!(Biome::VolcanicAsh.base_temperature(), 55);
    assert_eq!(Biome::MangroveSwamp.base_temperature(), 26);
}

#[test]
fn monster_tables_per_biome() {
    let deep = Biome::DeepOcean.monster_bias();
    assert_eq!(deep.kraken, 90);
    assert_eq!(deep.sea_serpent, 60);
    assert_eq!(deep.fire_dragon, 0);
    let marsh = Biome::HauntedMarsh.monster_bias();
    assert_eq!(marsh.undead, 90);
    assert_eq!(marsh.eldritch, 40);
    assert_eq!(Biome::Tundra.monster_bias(), Biome::IceCap.monster_bias());
    assert_eq!(Biome::Beach.monster_bias(), MonsterBias::zero());
    assert_eq!(Biome::Savanna.monster_bias(), MonsterBias::default());
}

#[test]
fn tile_index_is_row_major() {
    let tiles = ChunkTiles { size: 4, biomes: vec![Biome::Beach; 16] };
    assert_eq!(tiles.index(0, 0), 0);
    assert_eq!(tiles.index(3, 0), 3);
    assert_eq!(tiles.index(0, 1), 4);
    assert_eq!(tiles.index(2, 3), 14);
    assert_eq!(tiles.index(5, 0), 5);
}

#[test]
fn weather_keeps_cells_near_the_player() {
    assert!(keep_weather_cell((10, 10), (2, 2)));
    assert!(!keep_weather_cell((11, 10), (2, 2)));
    assert!(keep_weather_cell((-6, 2), (2, 2)));
    assert!(!keep_weather_cell((2, -7), (2, 2)));
}

#[test]
fn chunk_tile_coords_cover_the_chunk() {
    let tiles = chunk_tile_coords(coord(-1, 2), 3);
    assert_eq!(tiles.len(), 9);
    assert_eq!(tiles[0], (-3, 6));
    assert_eq!(tiles[2], (-1, 6));
    assert_eq!(tiles[3], (-3, 7));
    assert_eq!(tiles[8], (-1, 8));
    assert!(chunk_tile_coords(coord(4, 4), 0).is_empty());
    assert!(chunk_tile_coords(coord(4, 4), -2).is_empty());
}

#[test]
fn dominant_biome_counts_tiles() {
    let biomes = vec![Biome::Jungle, Biome::Beach, Biome::Jungle, Biome::DeepOcean, Biome::Jungle];
    assert_eq!(dominant_biome(&biomes), Biome::Jungle);
    assert_eq!(dominant_biome(&vec![Biome::Desert]), Biome::Desert);
}

#[test]
fn dominant_biome_of_an_empty_grid_is_deep_ocean() {
    assert_eq!(dominant_biome(&Vec::new()), Biome::DeepOcean);
}

#[test]
fn dominant_biome_tie_picks_one_of_the_leaders() {
    let biomes = vec![Biome::Desert, Biome::IceCap, Biome::IceCap, Biome::Desert, Biome::Beach];
    let d = dominant_biome(&biomes);
    assert!(d == Biome::Desert || d == Biome::IceCap);
}

#[test]
fn registry_records_resident_chunks() {
    let mut loaded = LoadedChunks::new();
    assert!(!loaded.is_loaded(coord(1, 2)));
    assert_eq!(loaded.register(coord(1, 2), 77), None);
    assert!(loaded.is_loaded(coord(1, 2)));
    assert!(!loaded.is_loaded(coord(2, 1)));
    assert_eq!(loaded.register(coord(1, 2), 78), Some(77));
    let dropped = unload_far_chunks(&mut loaded, coord(100, 100), 0);
    assert_eq!(dropped, vec![(coord(1, 2), 78)]);
    assert!(!loaded.is_loaded(coord(1, 2)));
}

#[test]
fn initial_region_is_the_square_in_row_major_order() {
    let region = initial_region(1);
    assert_eq!(
        region,
        vec![
            coord(-1, -1), coord(0, -1), coord(1, -1),
            coord(-1, 0), coord(0, 0), coord(1, 0),
            coord(-1, 1), coord(0, 1), coord(1, 1),
        ]
    );
    assert_eq!(initial_region(3).len(), 49);
    assert!(initial_region(-1).is_empty());
}

#[test]
fn chunks_to_load_skips_resident_chunks() {
    let mut loaded = LoadedChunks::new();
    loaded.register(coord(5, 5), 1);
    loaded.register(coord(6, 4), 2);
    let todo = chunks_to_load(&loaded, coord(5, 5), 1);
    assert_eq!(
        todo,
        vec![
            coord(4, 4), coord(5, 4),
            coord(4, 5), coord(6, 5),
            coord(4, 6), coord(5, 6), coord(6, 6),
        ]
    );
}

#[test]
fn unload_keeps_one_ring_of_slack() {
    let mut loaded = LoadedChunks::new();
    loaded.register(coord(0, 0), 10);
    loaded.register(coord(2, 0), 11);
    loaded.register(coord(3, 0), 12);
    loaded.register(coord(0, -5), 13);
    let mut dropped = unload_far_chunks(&mut loaded, coord(0, 0), 1);
    dropped.sort_by_key(|d| (d.0.y, d.0.x));
    assert_eq!(dropped, vec![(coord(0, -5), 13), (coord(3, 0), 12)]);
    assert!(loaded.is_loaded(coord(0, 0)));
    assert!(loaded.is_loaded(coord(2, 0)));
    assert!(!loaded.is_loaded(coord(3, 0)));
    assert!(!loaded.is_loaded(coord(0, -5)));
}

#[test]
fn streaming_step_keeps_the_view_resident() {
    let mut loaded = LoadedChunks::new();
    let mut registered = Vec::new();
    let mut next_entity = 0u64;
    for c in initial_region(2) {
        loaded.register(c, next_entity);
        registered.push(c);
        next_entity += 1;
    }
    let center = coord(3, -1);
    for c in chunks_to_load(&loaded, center, 2) {
        assert!(!registered.contains(&c));
        loaded.register(c, next_entity);
        registered.push(c);
        next_entity += 1;
    }
    let dropped = unload_far_chunks(&mut loaded, center, 2);
    for dy in -2..=2 {
        for dx in -2..=2 {
            assert!(loaded.is_loaded(coord(center.x + dx, center.y + dy)));
        }
    }
    for c in &registered {
        let near = (c.x - center.x).abs() <= 3 && (c.y - center.y).abs() <= 3;
        assert_eq!(loaded.is_loaded(*c), near);
        assert_eq!(dropped.iter().any(|d| d.0 == *c), !near);
    }
    assert!(chunks_to_load(&loaded, center, 2).is_empty());
}

#[test]
fn quad_indices_draw_two_triangles_per_quad() {
    assert_eq!(quad_indices(2), vec![0, 3, 2, 0, 2, 1, 4, 7, 6, 4, 6, 5]);
    assert!(quad_indices(0).is_empty());
}
