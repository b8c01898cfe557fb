//! Creatures: krakens, dragons, sea serpents, undead, eldritch things. A
//! creature is a bag of stats, elemental affinities and a small utility-AI
//! brain; the rules here say what each species is, whom it fights, and what
//! its brain decides.

use vstd::prelude::*;

use crate::dice::{random_range, random_roll, roll_below_f32_pct, roll_is_below_f32_pct, ROLL_SCALE};
use crate::world::{bias_weights, lemma_tile_index_in_grid, spec_monster_bias, spec_monster_weights, Biome, ChunkTiles, MonsterBias};

verus! {

/// What flavour of monster a creature is.
#[derive(Clone, Copy, Debug, PartialEq, Eq, Hash, Structural)]
pub enum Species {
    Kraken,
    SeaSerpent,
    FireDragon,
    IceDragon,
    SandDragon,
    Wyvern,
    GiantSnake,
    Undead,
    Eldritch,
}

/// Physical traits and stats of a freshly spawned creature.
#[derive(Clone, Copy, Debug, PartialEq, Eq, Structural)]
pub struct Creature {
    pub species: Species,
    /// Hit points.
    pub hp: u32,
    pub max_hp: u32,
    /// Chance, in hundredths, that the creature hunts an intruder it notices.
    pub aggression: u32,
    /// How close, in world units, an intruder must be before the creature notices.
    pub perception_range: u32,
    /// Preferred habitat.
    pub home_biome: Biome,
}

/// Damage multipliers per damage kind, in hundredths: above 100 the creature
/// takes extra damage from that source, below 100 it resists, at 0 it is immune.
/// Undead shrug off physical blows, so only fire or holy damage brings them down.
#[derive(Clone, Copy, Debug, PartialEq, Eq, Structural)]
pub struct Affinity {
    /// Physical damage (blades, cannon shot, claws).
    pub physical: u32,
    pub fire: u32,
    pub ice: u32,
    pub lightning: u32,
    /// Water damage: applied when a creature that cannot breathe water is submerged.
    pub water: u32,
    /// Holy damage.
    pub holy: u32,
    /// Abstract "reality" damage applied to eldritch things by sunlight.
    pub sanity: u32,
}

/// The box a body floats in, for buoyancy: half extents in tenths of a world
/// unit, how much sail catches wind (hundredths), and whether it breathes air.
#[derive(Clone, Copy, Debug, PartialEq, Eq, Structural)]
pub struct Floats {
    pub half_x: u32,
    pub half_y: u32,
    pub half_z: u32,
    pub sail: u32,
    pub air_breather: bool,
}

/// What a creature's brain is doing.
#[derive(Clone, Copy, Debug, PartialEq, Eq, Hash, Structural)]
pub enum BrainState {
    Idle,
    Hunting,
    Fleeing,
    /// Locked in combat with another creature.
    Feuding,
}

/// A creature's current intent and the entity (by its bits) it is after.
#[derive(Clone, Copy, Debug, PartialEq, Eq)]
pub struct Brain {
    pub state: BrainState,
    pub target: Option<u64>,
}

impl Default for BrainState {
    /// A new brain idles.
    fn default() -> (s: BrainState)
        ensures
            s == BrainState::Idle,
    {
        BrainState::Idle
    }
}

impl Default for Brain {
    /// A new brain idles and is after nobody.
    fn default() -> (b: Brain)
        ensures
            b.state == BrainState::Idle,
            b.target is None,
    {
        Brain { state: BrainState::Idle, target: None }
    }
}

pub open spec fn neutral_affinity() -> Affinity {
    Affinity { physical: 100, fire: 100, ice: 100, lightning: 100, water: 100, holy: 100, sanity: 100 }
}

impl Affinity {
    /// Neither weak nor resistant to anything.
    pub fn neutral() -> (a: Affinity)
        ensures
            a == neutral_affinity(),
    {
        Affinity { physical: 100, fire: 100, ice: 100, lightning: 100, water: 100, holy: 100, sanity: 100 }
    }
}

/// The balance table: stats, affinities and body of each species.
pub open spec fn spec_archetype(species: Species) -> (Creature, Affinity, Floats) {
    let (hp, aggression, range, home, aff, body) = match species {
        Species::Kraken => (2500u32, 80u32, 120u32, Biome::DeepOcean,
            Affinity { physical: 100, fire: 50, ice: 120, lightning: 250, water: 0, holy: 100, sanity: 100 },
            Floats { half_x: 60, half_y: 30, half_z: 60, sail: 0, air_breather: false }),
        Species::SeaSerpent => (900, 60, 80, Biome::ShallowSea,
            Affinity { fire: 60, lightning: 180, water: 0, ..neutral_affinity() },
            Floats { half_x: 12, half_y: 12, half_z: 60, sail: 0, air_breather: false }),
        Species::FireDragon => (1800, 90, 200, Biome::VolcanicAsh,
            Affinity { physical: 100, fire: 0, ice: 200, water: 300, lightning: 100, holy: 100, sanity: 100 },
            Floats { half_x: 25, half_y: 20, half_z: 50, sail: 0, air_breather: true }),
        Species::IceDragon => (1700, 85, 200, Biome::IceCap,
            Affinity { ice: 0, fire: 250, water: 50, ..neutral_affinity() },
            Floats { half_x: 25, half_y: 20, half_z: 50, sail: 0, air_breather: true }),
        Species::SandDragon => (1400, 75, 180, Biome::Desert,
            Affinity { fire: 80, water: 160, ..neutral_affinity() },
            Floats { half_x: 22, half_y: 15, half_z: 40, sail: 0, air_breather: true }),
        Species::Wyvern => (700, 70, 150, Biome::Jungle,
            Affinity { lightning: 160, ..neutral_affinity() },
            Floats { half_x: 12, half_y: 10, half_z: 25, sail: 0, air_breather: true }),
        Species::GiantSnake => (500, 50, 60, Biome::Jungle,
            neutral_affinity(),
            Floats { half_x: 8, half_y: 6, half_z: 40, sail: 0, air_breather: true }),
        Species::Undead => (200, 95, 40, Biome::HauntedMarsh,
            Affinity { physical: 0, fire: 180, holy: 300, water: 80, ice: 50, lightning: 100, sanity: 100 },
            Floats { half_x: 4, half_y: 9, half_z: 4, sail: 0, air_breather: false }),
        Species::Eldritch => (3500, 50, 400, Biome::HauntedMarsh,
            Affinity { physical: 100, sanity: 300, fire: 140, holy: 200, water: 60, ice: 100, lightning: 40 },
            Floats { half_x: 40, half_y: 40, half_z: 40, sail: 0, air_breather: false }),
    };
    (
        Creature { species, hp, max_hp: hp, aggression, perception_range: range, home_biome: home },
        aff,
        body,
    )
}

/// Builds the archetype of a species: the one place to tune balance.
pub fn archetype(species: Species) -> (r: (Creature, Affinity, Floats))
    ensures
        r == spec_archetype(species),
        r.0.species == species,
        r.0.hp == r.0.max_hp,
{
    let n = Affinity::neutral();
    let (hp, aggression, range, home, aff, body) = match species {
        Species::Kraken => (2500u32, 80u32, 120u32, Biome::DeepOcean,
            Affinity { physical: 100, fire: 50, ice: 120, lightning: 250, water: 0, holy: 100, sanity: 100 },
            Floats { half_x: 60, half_y: 30, half_z: 60, sail: 0, air_breather: false }),
        Species::SeaSerpent => (900, 60, 80, Biome::ShallowSea,
            Affinity { fire: 60, lightning: 180, water: 0, ..n },
            Floats { half_x: 12, half_y: 12, half_z: 60, sail: 0, air_breather: false }),
        Species::FireDragon => (1800, 90, 200, Biome::VolcanicAsh,
            Affinity { physical: 100, fire: 0, ice: 200, water: 300, lightning: 100, holy: 100, sanity: 100 },
            Floats { half_x: 25, half_y: 20, half_z: 50, sail: 0, air_breather: true }),
        Species::IceDragon => (1700, 85, 200, Biome::IceCap,
            Affinity { ice: 0, fire: 250, water: 50, ..n },
            Floats { half_x: 25, half_y: 20, half_z: 50, sail: 0, air_breather: true }),
        Species::SandDragon => (1400, 75, 180, Biome::Desert,
            Affinity { fire: 80, water: 160, ..n },
            Floats { half_x: 22, half_y: 15, half_z: 40, sail: 0, air_breather: true }),
        Species::Wyvern => (700, 70, 150, Biome::Jungle,
            Affinity { lightning: 160, ..n },
            Floats { half_x: 12, half_y: 10, half_z: 25, sail: 0, air_breather: true }),
        Species::GiantSnake => (500, 50, 60, Biome::Jungle,
            n,
            Floats { half_x: 8, half_y: 6, half_z: 40, sail: 0, air_breather: true }),
        Species::Undead => (200, 95, 40, Biome::HauntedMarsh,
            Affinity { physical: 0, fire: 180, holy: 300, water: 80, ice: 50, lightning: 100, sanity: 100 },
            Floats { half_x: 4, half_y: 9, half_z: 4, sail: 0, air_breather: false }),
        Species::Eldritch => (3500, 50, 400, Biome::HauntedMarsh,
            Affinity { physical: 100, sanity: 300, fire: 140, holy: 200, water: 60, ice: 100, lightning: 40 },
            Floats { half_x: 40, half_y: 40, half_z: 40, sail: 0, air_breather: false }),
    };
    (
        Creature { species, hp, max_hp: hp, aggression, perception_range: range, home_biome: home },
        aff,
        body,
    )
}

/// Elemental and ecological rivalries.
pub open spec fn spec_are_enemies(a: Species, b: Species) -> bool {
    match (a, b) {
        (Species::FireDragon, Species::IceDragon) | (Species::IceDragon, Species::FireDragon)
        | (Species::Kraken, Species::SeaSerpent) | (Species::SeaSerpent, Species::Kraken)
        | (Species::Kraken, Species::FireDragon) | (Species::FireDragon, Species::Kraken)
        | (Species::Eldritch, Species::Undead) | (Species::Undead, Species::Eldritch)
        | (Species::Wyvern, Species::GiantSnake) | (Species::GiantSnake, Species::Wyvern) => true,
        _ => false,
    }
}

/// Whether two species fight on sight. Kept as a table of facts so that it can
/// grow without touching the AI.
pub fn are_enemies(a: Species, b: Species) -> (r: bool)
    ensures
        r == spec_are_enemies(a, b),
{
    match (a, b) {
        (Species::FireDragon, Species::IceDragon) | (Species::IceDragon, Species::FireDragon)
        | (Species::Kraken, Species::SeaSerpent) | (Species::SeaSerpent, Species::Kraken)
        | (Species::Kraken, Species::FireDragon) | (Species::FireDragon, Species::Kraken)
        | (Species::Eldritch, Species::Undead) | (Species::Undead, Species::Eldritch)
        | (Species::Wyvern, Species::GiantSnake) | (Species::GiantSnake, Species::Wyvern) => true,
        _ => false,
    }
}

/// Rivalry is mutual: if `a` fights `b`, `b` fights `a`.
pub proof fn lemma_enemies_symmetric(a: Species, b: Species)
    ensures
        spec_are_enemies(a, b) == spec_are_enemies(b, a),
{
}

/// No species is its own rival.
pub proof fn lemma_no_species_fights_itself(a: Species)
    ensures
        !spec_are_enemies(a, a),
{
}

/// The species in the order in which spawn weights are listed (see `bias_weights`).
pub open spec fn species_at(i: int) -> Species {
    if i == 0 { Species::Kraken }
    else if i == 1 { Species::SeaSerpent }
    else if i == 2 { Species::FireDragon }
    else if i == 3 { Species::IceDragon }
    else if i == 4 { Species::SandDragon }
    else if i == 5 { Species::Wyvern }
    else if i == 6 { Species::GiantSnake }
    else if i == 7 { Species::Undead }
    else { Species::Eldritch }
}

/// Spawn weight of the `i`-th species on a tile of biome `tile` inside a chunk
/// whose dominant bias is `chunk`, in ten-thousandths of a roll: the mean of the
/// two biases, at two hundredths per full-weight unit.
pub open spec fn blended_weight(tile: Biome, chunk: MonsterBias, i: int) -> int {
    bias_weights(chunk)[i] + spec_monster_weights(tile)[i]
}

/// Sum of the first `n` blended weights.
pub open spec fn cumulative_weight(tile: Biome, chunk: MonsterBias, n: int) -> int
    decreases n,
{
    if n <= 0 {
        0
    } else {
        cumulative_weight(tile, chunk, n - 1) + blended_weight(tile, chunk, n - 1)
    }
}

/// The roll `roll / ROLL_SCALE` falls below `weight / 10000`.
pub open spec fn roll_below_ten_thousandths(roll: u32, weight: int) -> bool {
    roll * 10000 < weight * ROLL_SCALE
}

/// Walks the species from position `i` on and takes the first whose cumulative
/// weight the roll falls below.
pub open spec fn pick_from(tile: Biome, chunk: MonsterBias, roll: u32, i: int) -> Option<Species>
    decreases 9 - i,
{
    if i >= 9 || i < 0 {
        None
    } else if roll_below_ten_thousandths(roll, cumulative_weight(tile, chunk, i + 1)) {
        Some(species_at(i))
    } else {
        pick_from(tile, chunk, roll, i + 1)
    }
}

/// The species a roll spawns on a tile, if any.
pub open spec fn spec_pick_species(tile: Biome, chunk: MonsterBias, roll: u32) -> Option<Species> {
    pick_from(tile, chunk, roll, 0)
}

fn species_at_exec(i: usize) -> (s: Species)
    ensures
        s == species_at(i as int),
{
    if i == 0 { Species::Kraken }
    else if i == 1 { Species::SeaSerpent }
    else if i == 2 { Species::FireDragon }
    else if i == 3 { Species::IceDragon }
    else if i == 4 { Species::SandDragon }
    else if i == 5 { Species::Wyvern }
    else if i == 6 { Species::GiantSnake }
    else if i == 7 { Species::Undead }
    else { Species::Eldritch }
}

fn weights_of(m: &MonsterBias) -> (w: Vec<u32>)
    ensures
        w@ == bias_weights(*m),
{
    let w = vec![m.kraken, m.sea_serpent, m.fire_dragon, m.ice_dragon, m.sand_dragon,
        m.wyvern, m.giant_snake, m.undead, m.eldritch];
    assert(w@ =~= bias_weights(*m));
    w
}

/// Picks the species a roll spawns on a tile of biome `tile` in a chunk whose
/// dominant bias is `chunk`: the species are walked in order, each taking a
/// share of the roll equal to its blended weight; a roll past all shares spawns
/// nothing.
pub fn pick_species(tile: Biome, chunk: &MonsterBias, roll: u32) -> (s: Option<Species>)
    requires
        roll < ROLL_SCALE,
    ensures
        s == spec_pick_species(tile, *chunk, roll),
{
    let a = weights_of(chunk);
    let tb = tile.monster_bias();
    let b = weights_of(&tb);
    let mut acc: u64 = 0;
    let mut i: usize = 0;
    while i < 9
        invariant
            roll < ROLL_SCALE,
            a@ == bias_weights(*chunk),
            b@ == spec_monster_weights(tile),
            i <= 9,
            acc == cumulative_weight(tile, *chunk, i as int),
            acc <= i * 2 * (u32::MAX as int),
            spec_pick_species(tile, *chunk, roll) == pick_from(tile, *chunk, roll, i as int),
        decreases 9 - i,
    {
        acc = acc + a[i] as u64 + b[i] as u64;
        assert(acc * (ROLL_SCALE as int) <= 18 * (u32::MAX as int) * 16777216) by (nonlinear_arith)
            requires acc <= 18 * (u32::MAX as int);
        if (roll as u64) * 10000 < acc * (ROLL_SCALE as u64) {
            return Some(species_at_exec(i));
        }
        i = i + 1;
    }
    None
}

/// A tile where neither the tile's biome nor the chunk gives any weight never
/// spawns a creature, whatever the roll.
pub proof fn lemma_no_weight_no_spawn(tile: Biome, chunk: MonsterBias, roll: u32)
    requires
        forall|i: int| 0 <= i < 9 ==> blended_weight(tile, chunk, i) == 0,
    ensures
        spec_pick_species(tile, chunk, roll) is None,
{
    assert forall|n: int| 0 <= n <= 9 implies cumulative_weight(tile, chunk, n) == 0 by {
        lemma_cumulative_zero(tile, chunk, n);
    }
    lemma_pick_from_none(tile, chunk, roll, 0);
}

/// Total weight of a bias: the sum of its nine monster weights.
pub open spec fn total_weight(m: MonsterBias) -> int {
    m.kraken + m.sea_serpent + m.fire_dragon + m.ice_dragon + m.sand_dragon
        + m.wyvern + m.giant_snake + m.undead + m.eldritch
}

proof fn lemma_cumulative_monotone(tile: Biome, chunk: MonsterBias, m: int, n: int)
    requires
        0 <= m <= n,
    ensures
        cumulative_weight(tile, chunk, m) <= cumulative_weight(tile, chunk, n),
    decreases n,
{
    if m < n {
        lemma_cumulative_monotone(tile, chunk, m, n - 1);
        assert(blended_weight(tile, chunk, n - 1) >= 0);
    }
}

proof fn lemma_pick_from_some(tile: Biome, chunk: MonsterBias, roll: u32, i: int)
    requires
        0 <= i < 9,
    ensures
        pick_from(tile, chunk, roll, i) is Some
            <==> roll_below_ten_thousandths(roll, cumulative_weight(tile, chunk, 9)),
    decreases 9 - i,
{
    lemma_cumulative_monotone(tile, chunk, i + 1, 9);
    assert(roll * 10000 < cumulative_weight(tile, chunk, i + 1) * ROLL_SCALE
        ==> roll * 10000 < cumulative_weight(tile, chunk, 9) * ROLL_SCALE) by (nonlinear_arith)
        requires cumulative_weight(tile, chunk, i + 1) <= cumulative_weight(tile, chunk, 9);
    if i + 1 < 9 {
        lemma_pick_from_some(tile, chunk, roll, i + 1);
    }
}

/// Something spawns exactly when the roll falls below the spawn weight of the
/// chunk's dominant bias and of the tile's own biome table together: every
/// weight of both counts, once, at two hundredths per full-weight unit.
pub proof fn lemma_spawn_uses_both_tables(tile: Biome, chunk: MonsterBias, roll: u32)
    ensures
        spec_pick_species(tile, chunk, roll) is Some
            <==> roll * 10000 < (total_weight(chunk) + total_weight(spec_monster_bias(tile))) * ROLL_SCALE,
{
    reveal_with_fuel(cumulative_weight, 10);
    assert(cumulative_weight(tile, chunk, 9)
        == total_weight(chunk) + total_weight(spec_monster_bias(tile)));
    lemma_pick_from_some(tile, chunk, roll, 0);
}

/// The weight a bias gives one species.
pub open spec fn weight_for(m: MonsterBias, s: Species) -> int {
    match s {
        Species::Kraken => m.kraken as int,
        Species::SeaSerpent => m.sea_serpent as int,
        Species::FireDragon => m.fire_dragon as int,
        Species::IceDragon => m.ice_dragon as int,
        Species::SandDragon => m.sand_dragon as int,
        Species::Wyvern => m.wyvern as int,
        Species::GiantSnake => m.giant_snake as int,
        Species::Undead => m.undead as int,
        Species::Eldritch => m.eldritch as int,
    }
}

proof fn lemma_pick_from_weighted(tile: Biome, chunk: MonsterBias, roll: u32, i: int, s: Species)
    requires
        0 <= i,
        !roll_below_ten_thousandths(roll, cumulative_weight(tile, chunk, i)),
        pick_from(tile, chunk, roll, i) == Some(s),
    ensures
        exists|j: int| 0 <= j < 9 && species_at(j) == s && blended_weight(tile, chunk, j) > 0,
    decreases 9 - i,
{
    if i < 9 {
        if roll_below_ten_thousandths(roll, cumulative_weight(tile, chunk, i + 1)) {
            assert(cumulative_weight(tile, chunk, i + 1)
                == cumulative_weight(tile, chunk, i) + blended_weight(tile, chunk, i));
            assert(blended_weight(tile, chunk, i) > 0) by (nonlinear_arith)
                requires
                    !(roll * 10000 < cumulative_weight(tile, chunk, i) * ROLL_SCALE),
                    roll * 10000 < cumulative_weight(tile, chunk, i + 1) * ROLL_SCALE,
                    cumulative_weight(tile, chunk, i + 1)
                        == cumulative_weight(tile, chunk, i) + blended_weight(tile, chunk, i),
                    ROLL_SCALE > 0;
            assert(species_at(i) == s);
        } else {
            lemma_pick_from_weighted(tile, chunk, roll, i + 1, s);
        }
    }
}

/// Only a species that the chunk's bias or the tile's own biome table weighs
/// can spawn: whatever the roll picks has weight in one of the two.
pub proof fn lemma_picked_species_has_weight(tile: Biome, chunk: MonsterBias, roll: u32, s: Species)
    requires
        spec_pick_species(tile, chunk, roll) == Some(s),
    ensures
        weight_for(chunk, s) + weight_for(spec_monster_bias(tile), s) > 0,
{
    assert(cumulative_weight(tile, chunk, 0) == 0);
    lemma_pick_from_weighted(tile, chunk, roll, 0, s);
    let j = choose|j: int| 0 <= j < 9 && species_at(j) == s && blended_weight(tile, chunk, j) > 0;
    assert(blended_weight(tile, chunk, j)
        == weight_for(chunk, species_at(j)) + weight_for(spec_monster_bias(tile), species_at(j)));
}

proof fn lemma_same_weights_same_pick(t1: Biome, c1: MonsterBias, t2: Biome, c2: MonsterBias, roll: u32, i: int)
    requires
        0 <= i,
        forall|j: int| 0 <= j < 9 ==> blended_weight(t1, c1, j) == blended_weight(t2, c2, j),
        cumulative_weight(t1, c1, i) == cumulative_weight(t2, c2, i),
    ensures
        pick_from(t1, c1, roll, i) == pick_from(t2, c2, roll, i),
    decreases 9 - i,
{
    if i < 9 {
        assert(blended_weight(t1, c1, i) == blended_weight(t2, c2, i));
        lemma_same_weights_same_pick(t1, c1, t2, c2, roll, i + 1);
    }
}

/// The blend does not care which biome is the tile's and which the chunk's: a
/// tile of biome `a` in a chunk dominated by `b` spawns what a tile of `b` in a
/// chunk dominated by `a` spawns, for every roll.
pub proof fn lemma_blend_symmetric(a: Biome, b: Biome, roll: u32)
    ensures
        spec_pick_species(a, spec_monster_bias(b), roll) == spec_pick_species(b, spec_monster_bias(a), roll),
{
    assert forall|j: int| 0 <= j < 9 implies
        blended_weight(a, spec_monster_bias(b), j) == blended_weight(b, spec_monster_bias(a), j) by {}
    lemma_same_weights_same_pick(a, spec_monster_bias(b), b, spec_monster_bias(a), roll, 0);
}

proof fn lemma_pick_from_none(tile: Biome, chunk: MonsterBias, roll: u32, i: int)
    requires
        0 <= i,
        forall|n: int| 0 <= n <= 9 ==> cumulative_weight(tile, chunk, n) == 0,
    ensures
        pick_from(tile, chunk, roll, i) is None,
    decreases 9 - i,
{
    if i < 9 {
        assert(cumulative_weight(tile, chunk, i + 1) == 0);
        lemma_pick_from_none(tile, chunk, roll, i + 1);
    }
}

proof fn lemma_cumulative_zero(tile: Biome, chunk: MonsterBias, n: int)
    requires
        0 <= n <= 9,
        forall|i: int| 0 <= i < 9 ==> blended_weight(tile, chunk, i) == 0,
    ensures
        cumulative_weight(tile, chunk, n) == 0,
    decreases n,
{
    if n > 0 {
        lemma_cumulative_zero(tile, chunk, n - 1);
    }
}

/// Chase speed of a species, in world units per second.
pub open spec fn spec_species_speed(species: Species) -> u32 {
    match species {
        Species::Kraken | Species::Eldritch => 4,
        Species::FireDragon | Species::IceDragon | Species::SandDragon => 14,
        Species::Wyvern => 16,
        Species::SeaSerpent => 10,
        Species::GiantSnake => 6,
        Species::Undead => 3,
    }
}

/// Chase speed of a species, in world units per second. A fleeing creature runs
/// at 1.3 times this.
pub fn species_speed(species: Species) -> (v: u32)
    ensures
        v == spec_species_speed(species),
{
    match species {
        Species::Kraken | Species::Eldritch => 4,
        Species::FireDragon | Species::IceDragon | Species::SandDragon => 14,
        Species::Wyvern => 16,
        Species::SeaSerpent => 10,
        Species::GiantSnake => 6,
        Species::Undead => 3,
    }
}

/// What a brain decides when it thinks: a badly hurt creature flees; otherwise
/// it hunts the player when the player is within perception range and the
/// aggression roll comes in; otherwise it idles.
pub open spec fn spec_next_brain_state(badly_hurt: bool, player_in_range: bool, roll: u32, aggression: u32) -> BrainState {
    if badly_hurt {
        BrainState::Fleeing
    } else if player_in_range && roll_below_f32_pct(roll, aggression) {
        BrainState::Hunting
    } else {
        BrainState::Idle
    }
}

/// The decision of a brain for a given aggression roll (see `spec_next_brain_state`).
/// `badly_hurt` means hit points below a fifth of the maximum.
pub fn next_brain_state(badly_hurt: bool, player_in_range: bool, roll: u32, aggression: u32) -> (s: BrainState)
    requires
        roll < ROLL_SCALE,
    ensures
        s == spec_next_brain_state(badly_hurt, player_in_range, roll, aggression),
{
    if badly_hurt {
        BrainState::Fleeing
    } else if player_in_range && roll_is_below_f32_pct(roll, aggression) {
        BrainState::Hunting
    } else {
        BrainState::Idle
    }
}

/// One think of a creature's brain. The aggression roll is drawn only when the
/// creature is not badly hurt and the player is in range.
pub fn think(badly_hurt: bool, player_in_range: bool, aggression: u32) -> (s: BrainState)
    ensures
        badly_hurt ==> s == BrainState::Fleeing,
        !badly_hurt && !player_in_range ==> s == BrainState::Idle,
        exists|roll: u32| roll < ROLL_SCALE && s == spec_next_brain_state(badly_hurt, player_in_range, roll, aggression),
        aggression == 0 ==> s != BrainState::Hunting,
        !badly_hurt && player_in_range && aggression >= 100 ==> s == BrainState::Hunting,
{
    if !badly_hurt && player_in_range {
        let roll = random_roll();
        next_brain_state(badly_hurt, player_in_range, roll, aggression)
    } else {
        let s = next_brain_state(badly_hurt, player_in_range, 0, aggression);
        assert(spec_next_brain_state(badly_hurt, player_in_range, 0u32, aggression) == s);
        s
    }
}

/// A creature to spawn: the tile of the chunk it stands on, and its species.
#[derive(Clone, Copy, Debug, PartialEq, Eq)]
pub struct CreatureSpawn {
    pub tile_x: i32,
    pub tile_y: i32,
    pub species: Species,
}

/// Number of spawn attempts in a chunk of side `size`: one per sixteen tiles.
pub open spec fn spawn_attempts(size: int) -> int {
    (size * size) / 16
}

/// A spawn attempt: the tile `(x, y)` it lands on and the roll it draws.
pub type SpawnDraw = (i32, i32, u32);

/// The draw lies on a tile of the chunk and its roll is a fraction of the unit
/// interval.
pub open spec fn draw_in_chunk(tiles: ChunkTiles, d: SpawnDraw) -> bool {
    &&& 0 <= d.0 < tiles.size
    &&& 0 <= d.1 < tiles.size
    &&& d.2 < ROLL_SCALE
}

/// The spawns that a run of attempts yields, in order: each attempt whose roll
/// picks a species on its tile spawns that species there; the others spawn
/// nothing.
pub open spec fn spawns_from(tiles: ChunkTiles, dominant: Biome, draws: Seq<SpawnDraw>) -> Seq<CreatureSpawn>
    decreases draws.len(),
{
    if draws.len() == 0 {
        Seq::empty()
    } else {
        let d = draws.last();
        spawns_from(tiles, dominant, draws.drop_last()) + match spec_pick_species(
            tiles.biome_of(d.0 as int, d.1 as int),
            spec_monster_bias(dominant),
            d.2,
        ) {
            Some(s) => seq![CreatureSpawn { tile_x: d.0, tile_y: d.1, species: s }],
            None => Seq::empty(),
        }
    }
}

/// A run of attempts on the chunk spawns at most one creature per attempt, and
/// each spawn stands on a tile of the chunk with a species that some roll picks
/// there.
pub proof fn lemma_spawns_stay_on_chunk(tiles: ChunkTiles, dominant: Biome, draws: Seq<SpawnDraw>)
    requires
        forall|i: int| 0 <= i < draws.len() ==> draw_in_chunk(tiles, #[trigger] draws[i]),
    ensures
        spawns_from(tiles, dominant, draws).len() <= draws.len(),
        forall|i: int| 0 <= i < spawns_from(tiles, dominant, draws).len() ==> {
            let sp = #[trigger] spawns_from(tiles, dominant, draws)[i];
            &&& 0 <= sp.tile_x < tiles.size
            &&& 0 <= sp.tile_y < tiles.size
            &&& exists|roll: u32| roll < ROLL_SCALE && spec_pick_species(
                tiles.biome_of(sp.tile_x as int, sp.tile_y as int),
                spec_monster_bias(dominant),
                roll,
            ) == Some(sp.species)
        },
    decreases draws.len(),
{
    if draws.len() > 0 {
        let rest = draws.drop_last();
        assert forall|i: int| 0 <= i < rest.len() implies draw_in_chunk(tiles, #[trigger] rest[i]) by {
            assert(rest[i] == draws[i]);
        }
        lemma_spawns_stay_on_chunk(tiles, dominant, rest);
        let d = draws.last();
        assert(draw_in_chunk(tiles, draws[draws.len() - 1]));
        let prev = spawns_from(tiles, dominant, rest);
        let all = spawns_from(tiles, dominant, draws);
        assert forall|i: int| 0 <= i < all.len() implies {
            let sp = #[trigger] all[i];
            &&& 0 <= sp.tile_x < tiles.size
            &&& 0 <= sp.tile_y < tiles.size
            &&& exists|roll: u32| roll < ROLL_SCALE && spec_pick_species(
                tiles.biome_of(sp.tile_x as int, sp.tile_y as int),
                spec_monster_bias(dominant),
                roll,
            ) == Some(sp.species)
        } by {
            if i < prev.len() {
                assert(all[i] == prev[i]);
            } else {
                assert(d.2 < ROLL_SCALE);
            }
        }
    }
}

/// Draws the spawn attempts for a chunk of side `tiles.size`: one per sixteen
/// tiles, each a random tile of the chunk and a random roll. Which tiles and
/// rolls come out rests on chance; how many, and that each lies on the chunk,
/// does not.
pub fn draw_spawn_attempts(tiles: &ChunkTiles) -> (draws: Vec<SpawnDraw>)
    requires
        0 <= tiles.size,
        tiles.size * tiles.size <= i32::MAX,
    ensures
        draws@.len() == spawn_attempts(tiles.size as int),
        forall|i: int| 0 <= i < draws@.len() ==> draw_in_chunk(*tiles, #[trigger] draws@[i]),
{
    let size = tiles.size;
    assert(size * size >= 0) by (nonlinear_arith)
        requires size >= 0;
    let attempts = (size * size) / 16;
    let mut draws: Vec<SpawnDraw> = Vec::new();
    let mut n: i32 = 0;
    while n < attempts
        invariant
            size == tiles.size,
            0 <= size,
            attempts == spawn_attempts(size as int),
            0 <= n <= attempts,
            draws@.len() == n,
            forall|i: int| 0 <= i < draws@.len() ==> draw_in_chunk(*tiles, #[trigger] draws@[i]),
        decreases attempts - n,
    {
        assert(size > 0) by (nonlinear_arith)
            requires size >= 0, attempts == (size * size) / 16, n < attempts, n >= 0;
        let lx = random_range(0, size as u32) as i32;
        let ly = random_range(0, size as u32) as i32;
        let roll = random_roll();
        draws.push((lx, ly, roll));
        n = n + 1;
    }
    draws
}

/// The spawns that the attempts `draws` yield on the chunk, in order: an
/// attempt whose roll picks a species on its tile (blended with the chunk's
/// dominant biome) spawns that species there; the others spawn nothing.
pub fn spawns_for_draws(dominant: Biome, tiles: &ChunkTiles, draws: &Vec<SpawnDraw>) -> (spawns: Vec<CreatureSpawn>)
    requires
        tiles.well_formed(),
        tiles.size * tiles.size <= i32::MAX,
        forall|i: int| 0 <= i < draws@.len() ==> draw_in_chunk(*tiles, #[trigger] draws@[i]),
    ensures
        spawns@ == spawns_from(*tiles, dominant, draws@),
{
    let bias = dominant.monster_bias();
    let size = tiles.size;
    let mut spawns: Vec<CreatureSpawn> = Vec::new();
    let mut n: usize = 0;
    while n < draws.len()
        invariant
            tiles.well_formed(),
            size == tiles.size,
            size * size <= i32::MAX,
            bias == spec_monster_bias(dominant),
            0 <= n <= draws@.len(),
            forall|i: int| 0 <= i < draws@.len() ==> draw_in_chunk(*tiles, #[trigger] draws@[i]),
            spawns@ == spawns_from(*tiles, dominant, draws@.take(n as int)),
        decreases draws@.len() - n,
    {
        let (lx, ly, roll) = draws[n];
        assert(draw_in_chunk(*tiles, draws@[n as int]));
        proof {
            lemma_tile_index_in_grid(size as int, lx as int, ly as int);
        }
        let b = tiles.biomes[tiles.index(lx, ly)];
        proof {
            let next = draws@.take(n as int + 1);
            assert(next.drop_last() =~= draws@.take(n as int));
            assert(next.last() == (lx, ly, roll));
        }
        match pick_species(b, &bias, roll) {
            Some(species) => {
                spawns.push(CreatureSpawn { tile_x: lx, tile_y: ly, species });
            },
            None => {},
        }
        n = n + 1;
    }
    assert(draws@.take(draws@.len() as int) =~= draws@);
    spawns
}

/// Spawns for a chunk that just loaded: the attempts that
/// `draw_spawn_attempts` draws, played out by `spawns_for_draws`. The tiles and
/// rolls rest on chance; the spawns are exactly what some run of that many
/// attempts on the chunk yields.
pub fn spawn_creatures_for_chunk(dominant: Biome, tiles: &ChunkTiles) -> (spawns: Vec<CreatureSpawn>)
    requires
        tiles.well_formed(),
        tiles.size * tiles.size <= i32::MAX,
    ensures
        spawns@.len() <= spawn_attempts(tiles.size as int),
        forall|i: int| 0 <= i < spawns@.len() ==> {
            let sp = #[trigger] spawns@[i];
            &&& 0 <= sp.tile_x < tiles.size
            &&& 0 <= sp.tile_y < tiles.size
            &&& exists|roll: u32| roll < ROLL_SCALE && spec_pick_species(
                tiles.biome_of(sp.tile_x as int, sp.tile_y as int),
                spec_monster_bias(dominant),
                roll,
            ) == Some(sp.species)
        },
        exists|draws: Seq<SpawnDraw>| {
            &&& draws.len() == spawn_attempts(tiles.size as int)
            &&& forall|i: int| 0 <= i < draws.len() ==> draw_in_chunk(*tiles, #[trigger] draws[i])
            &&& spawns@ == spawns_from(*tiles, dominant, draws)
        },
{
    let draws = draw_spawn_attempts(tiles);
    let spawns = spawns_for_draws(dominant, tiles, &draws);
    proof {
        lemma_spawns_stay_on_chunk(*tiles, dominant, draws@);
    }
    spawns
}

/// Creature `j` is a rival of creature `i`: another entity, within `i`'s
/// perception range, of a species that `i`'s species fights.
pub open spec fn is_rival(entities: Seq<u64>, species: Seq<Species>, in_range: Seq<Vec<bool>>, i: int, j: int) -> bool {
    &&& entities[j] != entities[i]
    &&& in_range[i]@[j]
    &&& spec_are_enemies(species[i], species[j])
}

/// The first rival of creature `i` at position `j` or later.
pub open spec fn first_rival(entities: Seq<u64>, species: Seq<Species>, in_range: Seq<Vec<bool>>, i: int, j: int) -> Option<int>
    decreases entities.len() - j,
{
    if j < 0 || j >= entities.len() {
        None
    } else if is_rival(entities, species, in_range, i, j) {
        Some(j)
    } else {
        first_rival(entities, species, in_range, i, j + 1)
    }
}

/// A creature hunting a target stays on it.
pub open spec fn committed(b: Brain) -> bool {
    b.state == BrainState::Hunting && b.target is Some
}

/// The brain of creature `i` after the rivalry pass.
pub open spec fn after_feud(entities: Seq<u64>, species: Seq<Species>, in_range: Seq<Vec<bool>>, i: int, b: Brain) -> Brain {
    if committed(b) {
        b
    } else {
        match first_rival(entities, species, in_range, i, 0) {
            Some(j) => Brain { state: BrainState::Feuding, target: Some(entities[j]) },
            None => b,
        }
    }
}

/// Creatures of opposing species that wander close enough fight each other:
/// every creature that is not already hunting a target turns on its first rival
/// (see `is_rival`), in the order the creatures are listed. `entities` holds
/// each creature's entity bits, `species` its species, and `in_range[i][j]`
/// whether creature `j` lies within creature `i`'s perception range.
pub fn creature_vs_creature_aggression(
    entities: &Vec<u64>,
    species: &Vec<Species>,
    in_range: &Vec<Vec<bool>>,
    brains: &mut Vec<Brain>,
)
    requires
        species@.len() == entities@.len(),
        in_range@.len() == entities@.len(),
        old(brains)@.len() == entities@.len(),
        forall|i: int| 0 <= i < in_range@.len() ==> (#[trigger] in_range@[i])@.len() == entities@.len(),
    ensures
        final(brains)@.len() == old(brains)@.len(),
        forall|i: int| 0 <= i < final(brains)@.len() ==> #[trigger] final(brains)@[i]
            == after_feud(entities@, species@, in_range@, i, old(brains)@[i]),
{
    let n = entities.len();
    let ghost start = brains@;
    let mut i: usize = 0;
    while i < n
        invariant
            n == entities@.len(),
            species@.len() == n,
            in_range@.len() == n,
            brains@.len() == n,
            start.len() == n,
            forall|k: int| 0 <= k < in_range@.len() ==> (#[trigger] in_range@[k])@.len() == n,
            i <= n,
            forall|k: int| 0 <= k < i ==> #[trigger] brains@[k] == after_feud(entities@, species@, in_range@, k, start[k]),
            forall|k: int| i <= k < n ==> #[trigger] brains@[k] == start[k],
        decreases n - i,
    {
        let b = brains[i];
        let hunting = match b.state {
            BrainState::Hunting => true,
            _ => false,
        };
        if !(hunting && b.target.is_some()) {
            let row = &in_range[i];
            let mut j: usize = 0;
            let mut found: Option<usize> = None;
            while j < n
                invariant_except_break
                    found is None,
                    first_rival(entities@, species@, in_range@, i as int, 0)
                        == first_rival(entities@, species@, in_range@, i as int, j as int),
                invariant
                    n == entities@.len(),
                    species@.len() == n,
                    in_range@.len() == n,
                    i < n,
                    row@ == in_range@[i as int]@,
                    row@.len() == n,
                    j <= n,
                ensures
                    found is None ==> first_rival(entities@, species@, in_range@, i as int, 0) is None,
                    found matches Some(f) ==> f < n && first_rival(entities@, species@, in_range@, i as int, 0) == Some(f as int),
                decreases n - j,
            {
                if entities[j] != entities[i] && row[j] && are_enemies(species[i], species[j]) {
                    assert(is_rival(entities@, species@, in_range@, i as int, j as int));
                    assert(first_rival(entities@, species@, in_range@, i as int, j as int) == Some(j as int));
                    found = Some(j);
                    break;
                }
                j = j + 1;
            }
            match found {
                Some(f) => {
                    brains.set(i, Brain { state: BrainState::Feuding, target: Some(entities[f]) });
                },
                None => {},
            }
        }
        i = i + 1;
    }
}

proof fn lemma_first_rival_is_rival(entities: Seq<u64>, species: Seq<Species>, in_range: Seq<Vec<bool>>, i: int, j: int)
    requires
        0 <= j,
    ensures
        first_rival(entities, species, in_range, i, j) matches Some(k) ==> j <= k < entities.len()
            && is_rival(entities, species, in_range, i, k)
            && forall|m: int| j <= m < k ==> !is_rival(entities, species, in_range, i, m),
        first_rival(entities, species, in_range, i, j) is None ==> forall|m: int| j <= m < entities.len()
            ==> !is_rival(entities, species, in_range, i, m),
    decreases entities.len() - j,
{
    if 0 <= j < entities.len() && !is_rival(entities, species, in_range, i, j) {
        lemma_first_rival_is_rival(entities, species, in_range, i, j + 1);
    }
}

/// The rivalry pass never retargets a creature that is hunting a target; a
/// creature it turns to feuding targets its first rival (another entity, in
/// range, of an enemy species); and a creature with no rival keeps its brain.
pub proof fn lemma_feuds_target_rivals(entities: Seq<u64>, species: Seq<Species>, in_range: Seq<Vec<bool>>, i: int, b: Brain)
    requires
        0 <= i < entities.len(),
    ensures
        committed(b) ==> after_feud(entities, species, in_range, i, b) == b,
        after_feud(entities, species, in_range, i, b) != b ==> {
            &&& after_feud(entities, species, in_range, i, b).state == BrainState::Feuding
            &&& exists|j: int| 0 <= j < entities.len() && is_rival(entities, species, in_range, i, j)
                && after_feud(entities, species, in_range, i, b).target == Some(entities[j])
                && forall|m: int| 0 <= m < j ==> !is_rival(entities, species, in_range, i, m)
        },
        (forall|j: int| 0 <= j < entities.len() ==> !is_rival(entities, species, in_range, i, j))
            ==> after_feud(entities, species, in_range, i, b) == b,
{
    lemma_first_rival_is_rival(entities, species, in_range, i, 0);
    if let Some(k) = first_rival(entities, species, in_range, i, 0) {
        assert(is_rival(entities, species, in_range, i, k));
    }
}

} // verus!
