use rgj_core::genome::TerrainType;
use rgj_core::map::{
    index_to_tile_qrz, parse_map, tile_qrz_to_index, MapConfig, MapParseError, TileMap, MAP_HEIGHT,
};
use rgj_core::tile::{Tile, TileStructure, TileType};

fn cfg(w: u16, h: u16) -> MapConfig {
    MapConfig { size_width: w, size_height: h }
}

#[test]
fn map_has_two_layers() {
    assert_eq!(MAP_HEIGHT, 2);
}

#[test]
fn index_layout_matches_formula() {
    let c = cfg(10, 8);
    // layer * width * height + row * width + column
    assert_eq!(tile_qrz_to_index(&c, 0, 0, 0), 0);
    assert_eq!(tile_qrz_to_index(&c, 3, 2, 0), 23);
    assert_eq!(tile_qrz_to_index(&c, 3, 2, 1), 103);
    assert_eq!(tile_qrz_to_index(&c, 9, 7, 1), 159);
}

#[test]
fn index_round_trips_for_all_coordinates() {
    let c = cfg(7, 5);
    for z in 0..2i32 {
        for r in 0..5i32 {
            for q in 0..7i32 {
                let idx = tile_qrz_to_index(&c, q, r, z);
                assert_eq!(index_to_tile_qrz(&c, idx), (q as u16, r as u16, z as u16));
            }
        }
    }
}

#[test]
fn tile_type_names() {
    assert_eq!(TileType::Grass.to_string(), "Grass");
    assert_eq!(TileType::ClearSky.to_string(), "Clear Skies");
    assert_eq!(TileType::Fog.to_string(), "Fog");
    assert_eq!(TileType::DesertOasis.to_string(), "DesertOasis");
}

#[test]
fn tile_type_ids_round_trip() {
    for id in 0u8..=9 {
        let t = TileType::from_id(id).unwrap();
        assert_eq!(t.id(), id);
    }
    assert!(TileType::from_id(10).is_err());
    assert!(TileType::from_id(255).is_err());
}

#[test]
fn tile_type_from_characters() {
    assert_eq!(TileType::from_char('G').unwrap(), TileType::Grass);
    assert_eq!(TileType::from_char('F').unwrap(), TileType::Forest);
    assert_eq!(TileType::from_char('D').unwrap(), TileType::Desert);
    assert_eq!(TileType::from_char('O').unwrap(), TileType::Ocean);
    assert_eq!(TileType::from_char('R').unwrap(), TileType::River);
    assert_eq!(TileType::from_char('o').unwrap(), TileType::DesertOasis);
    assert_eq!(TileType::from_char('C').unwrap(), TileType::ClearSky);
    assert_eq!(TileType::from_char('W').unwrap(), TileType::WindySky);
    assert_eq!(TileType::from_char('S').unwrap(), TileType::StormySky);
    assert!(TileType::from_char('x').is_err());
}

#[test]
fn structure_from_characters() {
    assert_eq!(TileStructure::from_char('_').unwrap(), TileStructure::Empty);
    assert_eq!(TileStructure::from_char('c').unwrap(), TileStructure::City);
    assert!(matches!(
        TileStructure::from_char('g').unwrap(),
        TileStructure::GenomeFacility { building: None, .. }
    ));
    assert!(TileStructure::from_char('?').is_err());
}

#[test]
fn terrain_categories() {
    assert_eq!(TileType::Grass.terrain_category(), Some(TerrainType::Ground));
    assert_eq!(TileType::Ocean.terrain_category(), Some(TerrainType::Water));
    assert_eq!(TileType::StormySky.terrain_category(), Some(TerrainType::Air));
    assert_eq!(TileType::Fog.terrain_category(), None);
}

#[test]
fn generated_map_is_ocean_under_clear_sky() {
    let c = cfg(4, 3);
    let map = TileMap::generate(&c);
    assert_eq!(map.tiles.len(), 24);
    for r in 0..3u16 {
        for q in 0..4u16 {
            assert_eq!(
                map.get(&c, q, r, 0),
                Tile { tile_type: TileType::Ocean, structure: TileStructure::Empty }
            );
            assert_eq!(
                map.get(&c, q, r, 1),
                Tile { tile_type: TileType::ClearSky, structure: TileStructure::Empty }
            );
        }
    }
}

#[test]
fn fog_map_is_all_fog() {
    let c = cfg(3, 3);
    let map = TileMap::new_fog(&c);
    for t in &map.tiles {
        assert_eq!(t.tile_type, TileType::Fog);
        assert_eq!(t.structure, TileStructure::Empty);
    }
}

#[test]
fn parse_map_reads_three_blocks() {
    // 3 wide, 1 high: one ground line, one air line, one structure line.
    let text = "GFO\nCWS\n_cg\n";
    let (c, map) = parse_map(text).unwrap();
    assert_eq!((c.size_width, c.size_height), (3, 1));
    assert_eq!(map.get(&c, 0, 0, 0).tile_type, TileType::Grass);
    assert_eq!(map.get(&c, 1, 0, 0).tile_type, TileType::Forest);
    assert_eq!(map.get(&c, 2, 0, 0).tile_type, TileType::Ocean);
    assert_eq!(map.get(&c, 0, 0, 1).tile_type, TileType::ClearSky);
    assert_eq!(map.get(&c, 1, 0, 1).tile_type, TileType::WindySky);
    assert_eq!(map.get(&c, 2, 0, 1).tile_type, TileType::StormySky);
    assert_eq!(map.get(&c, 0, 0, 0).structure, TileStructure::Empty);
    assert_eq!(map.get(&c, 1, 0, 0).structure, TileStructure::City);
    assert!(matches!(
        map.get(&c, 2, 0, 0).structure,
        TileStructure::GenomeFacility { building: None, .. }
    ));
    // The air layer never carries structures.
    assert_eq!(map.get(&c, 1, 0, 1).structure, TileStructure::Empty);
}

#[test]
fn parse_map_two_rows() {
    let text = "GG\nOO\nCC\nCC\n__\n__\n";
    let (c, map) = parse_map(text).unwrap();
    assert_eq!((c.size_width, c.size_height), (2, 2));
    assert_eq!(map.get(&c, 0, 0, 0).tile_type, TileType::Grass);
    assert_eq!(map.get(&c, 1, 1, 0).tile_type, TileType::Ocean);
    assert_eq!(map.get(&c, 0, 1, 1).tile_type, TileType::ClearSky);
}

#[test]
fn parse_map_rejects_unequal_lines() {
    assert_eq!(parse_map("GG\nG\nCC\n"), Err(MapParseError::UnequalLineLengths));
}

#[test]
fn parse_map_rejects_wrong_line_count() {
    assert_eq!(
        parse_map("GG\nCC\n"),
        Err(MapParseError::LineCountNotDivisibleByThree)
    );
}

#[test]
fn parse_map_rejects_unknown_characters() {
    assert_eq!(parse_map("GZ\nCC\n__\n"), Err(MapParseError::UnrecognizedCharacter));
}

#[test]
fn parse_map_rejects_empty_input() {
    assert_eq!(parse_map(""), Err(MapParseError::EmptyMap));
    assert_eq!(parse_map("GGG"), Err(MapParseError::EmptyMap));
}
