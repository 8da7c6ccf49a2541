//! Tiles: terrain categories, structures, and the record stored at
//! every map cell. The authoritative map never holds `Fog`; `Fog` only
//! appears in a per-player replica and means "not currently observed".

use crate::genome::{AnimalKind, Hybrid, TerrainType};
use crate::PlayerKey;
use vstd::prelude::*;

verus! {

/// The terrain of one map cell, or `Fog` for an unobserved replica cell.
#[derive(Clone, Copy, Debug, PartialEq, Eq, Hash, Structural)]
pub enum TileType {
    Fog,
    // Ground types
    Grass,
    Forest,
    Desert,
    // Water types
    Ocean,
    River,
    DesertOasis,
    // Air types
    ClearSky,
    WindySky,
    StormySky,
}

/// The display name of a tile type.
pub open spec fn spec_tile_type_name(t: TileType) -> Seq<char> {
    match t {
        TileType::Fog => "Fog"@,
        TileType::Grass => "Grass"@,
        TileType::Forest => "Forest"@,
        TileType::Desert => "Desert"@,
        TileType::Ocean => "Ocean"@,
        TileType::River => "River"@,
        TileType::DesertOasis => "DesertOasis"@,
        TileType::ClearSky => "Clear Skies"@,
        TileType::WindySky => "Windy Skies"@,
        TileType::StormySky => "Stormy Skies"@,
    }
}

/// The numeric identifier of a tile type.
pub open spec fn spec_tile_type_id(t: TileType) -> u8 {
    match t {
        TileType::Fog => 0u8,
        TileType::Grass => 1u8,
        TileType::Forest => 2u8,
        TileType::Desert => 3u8,
        TileType::Ocean => 4u8,
        TileType::River => 5u8,
        TileType::DesertOasis => 6u8,
        TileType::ClearSky => 7u8,
        TileType::WindySky => 8u8,
        TileType::StormySky => 9u8,
    }
}

/// The tile type with the given numeric identifier, when one exists.
pub open spec fn spec_tile_type_from_id(num: u8) -> Option<TileType> {
    if num == 0 {
        Some(TileType::Fog)
    } else if num == 1 {
        Some(TileType::Grass)
    } else if num == 2 {
        Some(TileType::Forest)
    } else if num == 3 {
        Some(TileType::Desert)
    } else if num == 4 {
        Some(TileType::Ocean)
    } else if num == 5 {
        Some(TileType::River)
    } else if num == 6 {
        Some(TileType::DesertOasis)
    } else if num == 7 {
        Some(TileType::ClearSky)
    } else if num == 8 {
        Some(TileType::WindySky)
    } else if num == 9 {
        Some(TileType::StormySky)
    } else {
        None
    }
}

/// The tile type encoded by a map-file character, when one exists.
/// `Fog` has no character: a map file only describes real terrain.
pub open spec fn spec_tile_type_from_char(c: char) -> Option<TileType> {
    if c == 'G' {
        Some(TileType::Grass)
    } else if c == 'F' {
        Some(TileType::Forest)
    } else if c == 'D' {
        Some(TileType::Desert)
    } else if c == 'O' {
        Some(TileType::Ocean)
    } else if c == 'R' {
        Some(TileType::River)
    } else if c == 'o' {
        Some(TileType::DesertOasis)
    } else if c == 'C' {
        Some(TileType::ClearSky)
    } else if c == 'W' {
        Some(TileType::WindySky)
    } else if c == 'S' {
        Some(TileType::StormySky)
    } else {
        None
    }
}

/// The terrain category a unit must be able to traverse to cross a
/// tile, or `None` for `Fog`, which nothing may cross.
pub open spec fn spec_terrain_category(t: TileType) -> Option<TerrainType> {
    match t {
        TileType::Fog => None,
        TileType::Grass => Some(TerrainType::Ground),
        TileType::Forest => Some(TerrainType::Ground),
        TileType::Desert => Some(TerrainType::Ground),
        TileType::Ocean => Some(TerrainType::Water),
        TileType::River => Some(TerrainType::Water),
        TileType::DesertOasis => Some(TerrainType::Water),
        TileType::ClearSky => Some(TerrainType::Air),
        TileType::WindySky => Some(TerrainType::Air),
        TileType::StormySky => Some(TerrainType::Air),
    }
}

/// Error for a numeric tile identifier with no tile type.
#[derive(Clone, Copy, Debug, PartialEq, Eq, Structural)]
pub struct TileIdOutOfBounds;

/// Error for a map-file character that encodes nothing.
#[derive(Clone, Copy, Debug, PartialEq, Eq, Structural)]
pub struct MapCharacterUnrecognized;

impl TileType {
    /// The display name of this tile type.
    pub fn to_string(&self) -> (name: String)
        ensures
            name@ == spec_tile_type_name(*self),
    {
        match self {
            TileType::Fog => "Fog".to_string(),
            TileType::Grass => "Grass".to_string(),
            TileType::Forest => "Forest".to_string(),
            TileType::Desert => "Desert".to_string(),
            TileType::Ocean => "Ocean".to_string(),
            TileType::River => "River".to_string(),
            TileType::DesertOasis => "DesertOasis".to_string(),
            TileType::ClearSky => "Clear Skies".to_string(),
            TileType::WindySky => "Windy Skies".to_string(),
            TileType::StormySky => "Stormy Skies".to_string(),
        }
    }

    /// The numeric identifier of this tile type.
    pub fn id(&self) -> (id: u8)
        ensures
            id == spec_tile_type_id(*self),
            spec_tile_type_from_id(id) == Some(*self),
    {
        match self {
            TileType::Fog => 0,
            TileType::Grass => 1,
            TileType::Forest => 2,
            TileType::Desert => 3,
            TileType::Ocean => 4,
            TileType::River => 5,
            TileType::DesertOasis => 6,
            TileType::ClearSky => 7,
            TileType::WindySky => 8,
            TileType::StormySky => 9,
        }
    }

    /// Decode a numeric tile identifier; identifiers above nine encode
    /// nothing and are rejected.
    pub fn from_id(num: u8) -> (r: Result<TileType, TileIdOutOfBounds>)
        ensures
            match r {
                Ok(t) => spec_tile_type_from_id(num) == Some(t) && spec_tile_type_id(t) == num,
                Err(_) => spec_tile_type_from_id(num) is None,
            },
    {
        match num {
            0 => Ok(TileType::Fog),
            1 => Ok(TileType::Grass),
            2 => Ok(TileType::Forest),
            3 => Ok(TileType::Desert),
            4 => Ok(TileType::Ocean),
            5 => Ok(TileType::River),
            6 => Ok(TileType::DesertOasis),
            7 => Ok(TileType::ClearSky),
            8 => Ok(TileType::WindySky),
            9 => Ok(TileType::StormySky),
            _ => Err(TileIdOutOfBounds),
        }
    }

    /// Decode one map-file terrain character.
    pub fn from_char(c: char) -> (r: Result<TileType, MapCharacterUnrecognized>)
        ensures
            match r {
                Ok(t) => spec_tile_type_from_char(c) == Some(t),
                Err(_) => spec_tile_type_from_char(c) is None,
            },
    {
        match c {
            'G' => Ok(TileType::Grass),
            'F' => Ok(TileType::Forest),
            'D' => Ok(TileType::Desert),
            'O' => Ok(TileType::Ocean),
            'R' => Ok(TileType::River),
            'o' => Ok(TileType::DesertOasis),
            'C' => Ok(TileType::ClearSky),
            'W' => Ok(TileType::WindySky),
            'S' => Ok(TileType::StormySky),
            _ => Err(MapCharacterUnrecognized),
        }
    }

    /// The terrain category a unit needs in order to cross this tile.
    pub fn terrain_category(&self) -> (t: Option<TerrainType>)
        ensures
            t == spec_terrain_category(*self),
    {
        match self {
            TileType::Fog => None,
            TileType::Grass => Some(TerrainType::Ground),
            TileType::Forest => Some(TerrainType::Ground),
            TileType::Desert => Some(TerrainType::Ground),
            TileType::Ocean => Some(TerrainType::Water),
            TileType::River => Some(TerrainType::Water),
            TileType::DesertOasis => Some(TerrainType::Water),
            TileType::ClearSky => Some(TerrainType::Air),
            TileType::WindySky => Some(TerrainType::Air),
            TileType::StormySky => Some(TerrainType::Air),
        }
    }
}

/// Marks the turn on which a structure's build completes: a build
/// finishes only when its owner's own turn comes round with this number.
#[derive(Clone, Copy, Debug, PartialEq, Eq, Structural)]
pub struct TurnMarker {
    pub player: PlayerKey,
    pub turn_number: u16,
}

/// A hybrid being assembled in a genome facility, and when it is done.
#[derive(Clone, Copy, Debug, PartialEq, Eq, Structural)]
pub struct ConstructionStatus {
    pub building: Hybrid,
    pub finished_on: TurnMarker,
}

/// What stands on a tile: nothing, a city, or a genome facility that
/// guards one genome and may have a build in progress.
#[derive(Clone, Copy, Debug, PartialEq, Eq, Structural)]
pub enum TileStructure {
    Empty,
    City,
    GenomeFacility { unique_genome: AnimalKind, building: Option<ConstructionStatus> },
}

/// The structure encoded by a map-file character, when one exists.
/// A facility parsed from the compact map format guards the Deer
/// genome, the baseline every player starts with.
pub open spec fn spec_structure_from_char(c: char) -> Option<TileStructure> {
    if c == '_' {
        Some(TileStructure::Empty)
    } else if c == 'c' {
        Some(TileStructure::City)
    } else if c == 'g' {
        Some(
            TileStructure::GenomeFacility { unique_genome: AnimalKind::Deer, building: None },
        )
    } else {
        None
    }
}

impl TileStructure {
    /// Decode one map-file structure character.
    pub fn from_char(c: char) -> (r: Result<TileStructure, MapCharacterUnrecognized>)
        ensures
            match r {
                Ok(s) => spec_structure_from_char(c) == Some(s),
                Err(_) => spec_structure_from_char(c) is None,
            },
    {
        match c {
            '_' => Ok(TileStructure::Empty),
            'c' => Ok(TileStructure::City),
            'g' => Ok(
                TileStructure::GenomeFacility { unique_genome: AnimalKind::Deer, building: None },
            ),
            _ => Err(MapCharacterUnrecognized),
        }
    }
}

/// One map cell: its terrain and whatever stands on it.
#[derive(Clone, Copy, Debug, PartialEq, Eq, Structural)]
pub struct Tile {
    pub tile_type: TileType,
    pub structure: TileStructure,
}

impl Tile {
    /// The replica cell for unobserved territory.
    pub fn fog() -> (t: Tile)
        ensures
            t == spec_fog_tile(),
    {
        Tile { tile_type: TileType::Fog, structure: TileStructure::Empty }
    }
}

/// The replica cell for unobserved territory.
pub open spec fn spec_fog_tile() -> Tile {
    Tile { tile_type: TileType::Fog, structure: TileStructure::Empty }
}

} // verus!
