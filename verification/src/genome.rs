//! Genomes: the animal archetypes a unit can be assembled from, the
//! per-part stats they contribute, and the hybrid composition itself.

use vstd::prelude::*;
use vstd::string::StringExecFns;

verus! {

/// The three terrain categories a unit's limbs can be suited for.
#[derive(Clone, Copy, Debug, PartialEq, Eq, Hash, Structural)]
pub enum TerrainType {
    Ground,
    Water,
    Air,
}

/// Stats contributed by a genome's head: combat, vision and wit.
#[derive(Clone, Copy, Debug, PartialEq, Eq, Structural)]
pub struct HeadStats {
    pub attack_damage: u16,
    pub viewing_distance: u16,
    pub smarts: u16,
}

/// Stats contributed by a genome's body.
#[derive(Clone, Copy, Debug, PartialEq, Eq, Structural)]
pub struct BodyStats {
    pub health: u16,
}

/// How far per turn a unit moves over one terrain category.
#[derive(Clone, Copy, Debug, PartialEq, Eq, Structural)]
pub struct TerrainMovementStats {
    pub terrain_type: TerrainType,
    pub tiles_per_turn: u8,
}

/// Stats contributed by a genome's limbs. The second entry is optional
/// for animals that can only traverse one terrain category.
#[derive(Clone, Copy, Debug, PartialEq, Eq, Structural)]
pub struct LimbStats {
    pub terrain_a: TerrainMovementStats,
    pub terrain_b: Option<TerrainMovementStats>,
}

impl LimbStats {
    /// Whether these limbs can traverse the given terrain category.
    pub open spec fn spec_can_traverse(self, terrain: TerrainType) -> bool {
        self.terrain_a.terrain_type == terrain || match self.terrain_b {
            Some(b) => b.terrain_type == terrain,
            None => false,
        }
    }

    /// Whether these limbs can traverse the given terrain category.
    pub fn can_traverse(&self, terrain: TerrainType) -> (can: bool)
        ensures
            can == self.spec_can_traverse(terrain),
    {
        if self.terrain_a.terrain_type == terrain {
            return true;
        }
        match self.terrain_b {
            Some(b) => b.terrain_type == terrain,
            None => false,
        }
    }
}

/// The nine animal genomes a hybrid can be composed from.
#[derive(Clone, Copy, Debug, PartialEq, Eq, Hash, Structural)]
pub enum AnimalKind {
    Chicken,
    VampireBat,
    Vulture,
    Deer,
    Rattlesnake,
    Elephant,
    Sailfish,
    ElectricEel,
    Whale,
}

/// A full animal archetype: its identity and the stats each of its
/// parts contributes to a hybrid.
#[derive(Clone, Copy, Debug, PartialEq, Eq, Structural)]
pub struct AnimalType {
    pub kind: AnimalKind,
    pub head: HeadStats,
    pub body: BodyStats,
    pub limbs: LimbStats,
}

/// The fixed stat table of the nine animal archetypes.
pub open spec fn spec_animal_type(kind: AnimalKind) -> AnimalType {
    match kind {
        // Flying types: generally weaker, but airborne.
        AnimalKind::Chicken => AnimalType {
            kind,
            head: HeadStats { attack_damage: 5, viewing_distance: 3, smarts: 2 },
            body: BodyStats { health: 5 },
            limbs: LimbStats {
                terrain_a: TerrainMovementStats { terrain_type: TerrainType::Air, tiles_per_turn: 3 },
                terrain_b: Some(
                    TerrainMovementStats { terrain_type: TerrainType::Ground, tiles_per_turn: 2 },
                ),
            },
        },
        AnimalKind::VampireBat => AnimalType {
            kind,
            head: HeadStats { attack_damage: 10, viewing_distance: 1, smarts: 4 },
            body: BodyStats { health: 3 },
            limbs: LimbStats {
                terrain_a: TerrainMovementStats { terrain_type: TerrainType::Air, tiles_per_turn: 2 },
                terrain_b: Some(
                    TerrainMovementStats { terrain_type: TerrainType::Ground, tiles_per_turn: 1 },
                ),
            },
        },
        AnimalKind::Vulture => AnimalType {
            kind,
            head: HeadStats { attack_damage: 8, viewing_distance: 3, smarts: 3 },
            body: BodyStats { health: 8 },
            limbs: LimbStats {
                terrain_a: TerrainMovementStats { terrain_type: TerrainType::Air, tiles_per_turn: 2 },
                terrain_b: Some(
                    TerrainMovementStats { terrain_type: TerrainType::Ground, tiles_per_turn: 2 },
                ),
            },
        },
        // Ground types: the middle ground.
        AnimalKind::Deer => AnimalType {
            kind,
            head: HeadStats { attack_damage: 8, viewing_distance: 2, smarts: 5 },
            body: BodyStats { health: 7 },
            limbs: LimbStats {
                terrain_a: TerrainMovementStats {
                    terrain_type: TerrainType::Ground,
                    tiles_per_turn: 6,
                },
                terrain_b: Some(
                    TerrainMovementStats { terrain_type: TerrainType::Water, tiles_per_turn: 1 },
                ),
            },
        },
        AnimalKind::Rattlesnake => AnimalType {
            kind,
            head: HeadStats { attack_damage: 15, viewing_distance: 2, smarts: 2 },
            body: BodyStats { health: 5 },
            limbs: LimbStats {
                terrain_a: TerrainMovementStats {
                    terrain_type: TerrainType::Ground,
                    tiles_per_turn: 3,
                },
                terrain_b: None,
            },
        },
        AnimalKind::Elephant => AnimalType {
            kind,
            head: HeadStats { attack_damage: 12, viewing_distance: 4, smarts: 10 },
            body: BodyStats { health: 18 },
            limbs: LimbStats {
                terrain_a: TerrainMovementStats {
                    terrain_type: TerrainType::Ground,
                    tiles_per_turn: 6,
                },
                terrain_b: Some(
                    TerrainMovementStats { terrain_type: TerrainType::Water, tiles_per_turn: 3 },
                ),
            },
        },
        // Water types: extremes, but restricted to water.
        AnimalKind::Sailfish => AnimalType {
            kind,
            head: HeadStats { attack_damage: 2, viewing_distance: 4, smarts: 2 },
            body: BodyStats { health: 4 },
            limbs: LimbStats {
                terrain_a: TerrainMovementStats {
                    terrain_type: TerrainType::Water,
                    tiles_per_turn: 6,
                },
                terrain_b: None,
            },
        },
        AnimalKind::ElectricEel => AnimalType {
            kind,
            head: HeadStats { attack_damage: 24, viewing_distance: 2, smarts: 2 },
            body: BodyStats { health: 2 },
            limbs: LimbStats {
                terrain_a: TerrainMovementStats {
                    terrain_type: TerrainType::Water,
                    tiles_per_turn: 1,
                },
                terrain_b: None,
            },
        },
        AnimalKind::Whale => AnimalType {
            kind,
            head: HeadStats { attack_damage: 12, viewing_distance: 4, smarts: 10 },
            body: BodyStats { health: 24 },
            limbs: LimbStats {
                terrain_a: TerrainMovementStats {
                    terrain_type: TerrainType::Water,
                    tiles_per_turn: 10,
                },
                terrain_b: None,
            },
        },
    }
}

/// Look up the full archetype of one animal genome.
pub fn animal_type(kind: AnimalKind) -> (a: AnimalType)
    ensures
        a == spec_animal_type(kind),
{
    match kind {
        AnimalKind::Chicken => AnimalType {
            kind,
            head: HeadStats { attack_damage: 5, viewing_distance: 3, smarts: 2 },
            body: BodyStats { health: 5 },
            limbs: LimbStats {
                terrain_a: TerrainMovementStats { terrain_type: TerrainType::Air, tiles_per_turn: 3 },
                terrain_b: Some(
                    TerrainMovementStats { terrain_type: TerrainType::Ground, tiles_per_turn: 2 },
                ),
            },
        },
        AnimalKind::VampireBat => AnimalType {
            kind,
            head: HeadStats { attack_damage: 10, viewing_distance: 1, smarts: 4 },
            body: BodyStats { health: 3 },
            limbs: LimbStats {
                terrain_a: TerrainMovementStats { terrain_type: TerrainType::Air, tiles_per_turn: 2 },
                terrain_b: Some(
                    TerrainMovementStats { terrain_type: TerrainType::Ground, tiles_per_turn: 1 },
                ),
            },
        },
        AnimalKind::Vulture => AnimalType {
            kind,
            head: HeadStats { attack_damage: 8, viewing_distance: 3, smarts: 3 },
            body: BodyStats { health: 8 },
            limbs: LimbStats {
                terrain_a: TerrainMovementStats { terrain_type: TerrainType::Air, tiles_per_turn: 2 },
                terrain_b: Some(
                    TerrainMovementStats { terrain_type: TerrainType::Ground, tiles_per_turn: 2 },
                ),
            },
        },
        AnimalKind::Deer => AnimalType {
            kind,
            head: HeadStats { attack_damage: 8, viewing_distance: 2, smarts: 5 },
            body: BodyStats { health: 7 },
            limbs: LimbStats {
                terrain_a: TerrainMovementStats {
                    terrain_type: TerrainType::Ground,
                    tiles_per_turn: 6,
                },
                terrain_b: Some(
                    TerrainMovementStats { terrain_type: TerrainType::Water, tiles_per_turn: 1 },
                ),
            },
        },
        AnimalKind::Rattlesnake => AnimalType {
            kind,
            head: HeadStats { attack_damage: 15, viewing_distance: 2, smarts: 2 },
            body: BodyStats { health: 5 },
            limbs: LimbStats {
                terrain_a: TerrainMovementStats {
                    terrain_type: TerrainType::Ground,
                    tiles_per_turn: 3,
                },
                terrain_b: None,
            },
        },
        AnimalKind::Elephant => AnimalType {
            kind,
            head: HeadStats { attack_damage: 12, viewing_distance: 4, smarts: 10 },
            body: BodyStats { health: 18 },
            limbs: LimbStats {
                terrain_a: TerrainMovementStats {
                    terrain_type: TerrainType::Ground,
                    tiles_per_turn: 6,
                },
                terrain_b: Some(
                    TerrainMovementStats { terrain_type: TerrainType::Water, tiles_per_turn: 3 },
                ),
            },
        },
        AnimalKind::Sailfish => AnimalType {
            kind,
            head: HeadStats { attack_damage: 2, viewing_distance: 4, smarts: 2 },
            body: BodyStats { health: 4 },
            limbs: LimbStats {
                terrain_a: TerrainMovementStats {
                    terrain_type: TerrainType::Water,
                    tiles_per_turn: 6,
                },
                terrain_b: None,
            },
        },
        AnimalKind::ElectricEel => AnimalType {
            kind,
            head: HeadStats { attack_damage: 24, viewing_distance: 2, smarts: 2 },
            body: BodyStats { health: 2 },
            limbs: LimbStats {
                terrain_a: TerrainMovementStats {
                    terrain_type: TerrainType::Water,
                    tiles_per_turn: 1,
                },
                terrain_b: None,
            },
        },
        AnimalKind::Whale => AnimalType {
            kind,
            head: HeadStats { attack_damage: 12, viewing_distance: 4, smarts: 10 },
            body: BodyStats { health: 24 },
            limbs: LimbStats {
                terrain_a: TerrainMovementStats {
                    terrain_type: TerrainType::Water,
                    tiles_per_turn: 10,
                },
                terrain_b: None,
            },
        },
    }
}

/// The display name of one animal genome.
pub fn animal_name(kind: AnimalKind) -> (name: String)
    ensures
        name@ == spec_animal_name(kind),
{
    match kind {
        AnimalKind::Chicken => "Chicken".to_string(),
        AnimalKind::VampireBat => "Vampire-Bat".to_string(),
        AnimalKind::Vulture => "Vulture".to_string(),
        AnimalKind::Deer => "Deer".to_string(),
        AnimalKind::Rattlesnake => "Rattlesnake".to_string(),
        AnimalKind::Elephant => "Elephants".to_string(),
        AnimalKind::Sailfish => "Sailfish".to_string(),
        AnimalKind::ElectricEel => "Electric-Eel".to_string(),
        AnimalKind::Whale => "Whale".to_string(),
    }
}

/// The display name of one animal genome.
pub open spec fn spec_animal_name(kind: AnimalKind) -> Seq<char> {
    match kind {
        AnimalKind::Chicken => "Chicken"@,
        AnimalKind::VampireBat => "Vampire-Bat"@,
        AnimalKind::Vulture => "Vulture"@,
        AnimalKind::Deer => "Deer"@,
        AnimalKind::Rattlesnake => "Rattlesnake"@,
        AnimalKind::Elephant => "Elephants"@,
        AnimalKind::Sailfish => "Sailfish"@,
        AnimalKind::ElectricEel => "Electric-Eel"@,
        AnimalKind::Whale => "Whale"@,
    }
}

/// A unit's genetic composition: one animal contributes its head, one
/// its body, and one its limbs.
#[derive(Clone, Copy, Debug, PartialEq, Eq, Structural)]
pub struct Hybrid {
    head: AnimalType,
    body: AnimalType,
    limbs: AnimalType,
}

impl Hybrid {
    pub fn new(head: AnimalType, body: AnimalType, limbs: AnimalType) -> (h: Hybrid)
        ensures
            h.spec_head_type() == head.kind,
            h.spec_body_type() == body.kind,
            h.spec_limbs_type() == limbs.kind,
            h.spec_head() == head.head,
            h.spec_body() == body.body,
            h.spec_limbs() == limbs.limbs,
    {
        Hybrid { head, body, limbs }
    }

    /// Build a hybrid straight from three genome identities, using the
    /// fixed archetype table.
    pub fn from_kinds(head: AnimalKind, body: AnimalKind, limbs: AnimalKind) -> (h: Hybrid)
        ensures
            h.spec_head_type() == head,
            h.spec_body_type() == body,
            h.spec_limbs_type() == limbs,
            h.spec_head() == spec_animal_type(head).head,
            h.spec_body() == spec_animal_type(body).body,
            h.spec_limbs() == spec_animal_type(limbs).limbs,
    {
        Hybrid {
            head: animal_type(head),
            body: animal_type(body),
            limbs: animal_type(limbs),
        }
    }

    /// The head stats this hybrid inherited.
    pub closed spec fn spec_head(self) -> HeadStats {
        self.head.head
    }

    /// The body stats this hybrid inherited.
    pub closed spec fn spec_body(self) -> BodyStats {
        self.body.body
    }

    /// The limb stats this hybrid inherited.
    pub closed spec fn spec_limbs(self) -> LimbStats {
        self.limbs.limbs
    }

    /// The genome identity of the head part.
    pub closed spec fn spec_head_type(self) -> AnimalKind {
        self.head.kind
    }

    /// The genome identity of the body part.
    pub closed spec fn spec_body_type(self) -> AnimalKind {
        self.body.kind
    }

    /// The genome identity of the limbs part.
    pub closed spec fn spec_limbs_type(self) -> AnimalKind {
        self.limbs.kind
    }

    pub fn head(&self) -> (s: HeadStats)
        ensures
            s == self.spec_head(),
    {
        self.head.head
    }

    pub fn body(&self) -> (s: BodyStats)
        ensures
            s == self.spec_body(),
    {
        self.body.body
    }

    pub fn limbs(&self) -> (s: LimbStats)
        ensures
            s == self.spec_limbs(),
    {
        self.limbs.limbs
    }

    pub fn head_type(&self) -> (k: AnimalKind)
        ensures
            k == self.spec_head_type(),
    {
        self.head.kind
    }

    pub fn body_type(&self) -> (k: AnimalKind)
        ensures
            k == self.spec_body_type(),
    {
        self.body.kind
    }

    pub fn limbs_type(&self) -> (k: AnimalKind)
        ensures
            k == self.spec_limbs_type(),
    {
        self.limbs.kind
    }

    /// The hybrid's display name: its three part names joined by dashes.
    pub fn name(&self) -> (name: String)
        ensures
            name@ == spec_animal_name(self.spec_head_type()) + "-"@ + spec_animal_name(
                self.spec_body_type(),
            ) + "-"@ + spec_animal_name(self.spec_limbs_type()),
    {
        let mut name = animal_name(self.head.kind);
        name.append("-");
        let body_name = animal_name(self.body.kind);
        name.append(body_name.as_str());
        name.append("-");
        let limbs_name = animal_name(self.limbs.kind);
        name.append(limbs_name.as_str());
        name
    }
}

/// How many turns building a hybrid takes: specialisation is rewarded,
/// so a fully matching composition is quickest and an all-distinct one
/// slowest.
pub open spec fn spec_build_turns(head: AnimalKind, body: AnimalKind, limbs: AnimalKind) -> u16 {
    if head == body && body == limbs {
        2u16
    } else if head == body || head == limbs || body == limbs {
        4u16
    } else {
        6u16
    }
}

/// How many turns building a hybrid with these three parts takes:
/// 2 when all three genomes match, 4 when exactly two match, 6 when all
/// are distinct.
pub fn build_turns(head: AnimalKind, body: AnimalKind, limbs: AnimalKind) -> (turns: u16)
    ensures
        turns == spec_build_turns(head, body, limbs),
{
    if head == body && body == limbs {
        2
    } else if head == body || head == limbs || body == limbs {
        4
    } else {
        6
    }
}

} // verus!
