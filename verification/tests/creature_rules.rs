use pien::combat::{can_breathe_water, damage_multiplier, environmental_damage, DamageKind, DamageRate, Environment};
use pien::creatures::{
    are_enemies, archetype, creature_vs_creature_aggression, next_brain_state, pick_species, species_speed,
    spawn_creatures_for_chunk, spawns_for_draws, draw_spawn_attempts, think, Affinity, CreatureSpawn, Brain, BrainState, Species,
};
use pien::dice::{random_roll, rolls_below_f32, ROLL_SCALE};
use pien::world::{Biome, ChunkTiles};

const ALL: [Species; 9] = [
    Species::Kraken,
    Species::SeaSerpent,
    Species::FireDragon,
    Species::IceDragon,
    Species::SandDragon,
    Species::Wyvern,
    Species::GiantSnake,
    Species::Undead,
    Species::Eldritch,
];

fn submerged() -> Environment {
    Environment { submerged: true, ..Environment::default() }
}

#[test]
fn archetypes_spawn_at_full_health() {
    for s in ALL {
        let (c, _, _) = archetype(s);
        assert_eq!(c.species, s);
        assert_eq!(c.hp, c.max_hp);
    }
    let (kraken, aff, body) = archetype(Species::Kraken);
    assert_eq!(kraken.hp, 2500);
    assert_eq!(kraken.aggression, 80);
    assert_eq!(kraken.perception_range, 120);
    assert_eq!(kraken.home_biome, Biome::DeepOcean);
    assert_eq!(aff.lightning, 250);
    assert_eq!(aff.fire, 50);
    assert_eq!((body.half_x, body.half_y, body.half_z), (60, 30, 60));
    assert!(!body.air_breather);
}

#[test]
fn kraken_burns_in_heat_at_half_rate() {
    let (_, aff, _) = archetype(Species::Kraken);
    let heat = Environment { in_heat: true, ..Environment::default() };
    let rates = environmental_damage(Species::Kraken, heat);
    let hundredths: u32 = rates.iter().map(|r| r.per_second * damage_multiplier(&aff, r.kind)).sum();
    assert_eq!(hundredths, 600);
    assert!(environmental_damage(Species::Kraken, submerged()).is_empty());
}

#[test]
fn fire_dragon_drowns() {
    let (dragon, aff, _) = archetype(Species::FireDragon);
    assert!(!can_breathe_water(dragon.species));
    let rates = environmental_damage(dragon.species, submerged());
    assert_eq!(rates, vec![DamageRate { kind: DamageKind::Water, per_second: 100 }]);
    assert_eq!(damage_multiplier(&aff, DamageKind::Water), 300);
    let hundredths: u32 = rates.iter().map(|r| r.per_second * damage_multiplier(&aff, r.kind)).sum();
    assert_eq!(hundredths, 300 * 100);
    assert_eq!(damage_multiplier(&aff, DamageKind::Fire), 0);
}

#[test]
fn water_breathers_do_not_drown() {
    for s in [Species::Kraken, Species::SeaSerpent, Species::Undead, Species::Eldritch] {
        assert!(can_breathe_water(s));
        assert!(environmental_damage(s, submerged()).is_empty());
    }
}

#[test]
fn heat_and_frost_hurt_the_prone() {
    let heat = Environment { in_heat: true, ..Environment::default() };
    let frost = Environment { in_freeze: true, ..Environment::default() };
    assert_eq!(environmental_damage(Species::IceDragon, heat), vec![DamageRate { kind: DamageKind::Fire, per_second: 12 }]);
    assert_eq!(environmental_damage(Species::Undead, heat), vec![DamageRate { kind: DamageKind::Fire, per_second: 12 }]);
    assert_eq!(environmental_damage(Species::Eldritch, heat), vec![DamageRate { kind: DamageKind::Sanity, per_second: 25 }]);
    assert_eq!(environmental_damage(Species::SandDragon, frost), vec![DamageRate { kind: DamageKind::Ice, per_second: 12 }]);
    assert_eq!(environmental_damage(Species::Kraken, heat), vec![DamageRate { kind: DamageKind::Fire, per_second: 12 }]);
    let all = Environment { submerged: true, in_heat: true, in_freeze: true, ..Environment::default() };
    assert_eq!(
        environmental_damage(Species::FireDragon, all),
        vec![
            DamageRate { kind: DamageKind::Water, per_second: 100 },
            DamageRate { kind: DamageKind::Ice, per_second: 12 },
        ]
    );
    assert!(environmental_damage(Species::Wyvern, Environment::default()).is_empty());
}

#[test]
fn only_undead_shrug_off_physical_damage() {
    for s in ALL {
        let (_, aff, _) = archetype(s);
        let expected = if s == Species::Undead { 0 } else { 100 };
        assert_eq!(damage_multiplier(&aff, DamageKind::Physical), expected);
    }
    assert_eq!(damage_multiplier(&Affinity::neutral(), DamageKind::Physical), 100);
    assert_eq!(damage_multiplier(&Affinity::neutral(), DamageKind::Holy), 100);
    let (_, undead, _) = archetype(Species::Undead);
    assert_eq!(damage_multiplier(&undead, DamageKind::Holy), 300);
}

#[test]
fn fire_and_ice_dragons_are_rivals_and_weak_to_each_other() {
    assert!(are_enemies(Species::FireDragon, Species::IceDragon));
    let (_, fire, _) = archetype(Species::FireDragon);
    let (_, ice, _) = archetype(Species::IceDragon);
    assert!(fire.ice > 100);
    assert!(ice.fire > 100);
}

#[test]
fn rivalry_is_mutual_and_never_with_oneself() {
    for a in ALL {
        assert!(!are_enemies(a, a));
        for b in ALL {
            assert_eq!(are_enemies(a, b), are_enemies(b, a));
        }
    }
    assert!(are_enemies(Species::Kraken, Species::SeaSerpent));
    assert!(are_enemies(Species::Kraken, Species::FireDragon));
    assert!(are_enemies(Species::Eldritch, Species::Undead));
    assert!(are_enemies(Species::Wyvern, Species::GiantSnake));
    assert!(!are_enemies(Species::Kraken, Species::IceDragon));
}

#[test]
fn pick_species_walks_the_blended_weights() {
    let deep = Biome::DeepOcean.monster_bias();
    assert_eq!(pick_species(Biome::DeepOcean, &deep, 0), Some(Species::Kraken));
    // Kraken share: (90 + 90) / 10000 of the roll, i.e. rolls below 301989.888.
    assert_eq!(pick_species(Biome::DeepOcean, &deep, 301989), Some(Species::Kraken));
    assert_eq!(pick_species(Biome::DeepOcean, &deep, 301990), Some(Species::SeaSerpent));
    // Sea serpent share ends at (180 + 120) / 10000.
    assert_eq!(pick_species(Biome::DeepOcean, &deep, 503316), Some(Species::SeaSerpent));
    assert_eq!(pick_species(Biome::DeepOcean, &deep, 503317), None);
    assert_eq!(pick_species(Biome::DeepOcean, &deep, ROLL_SCALE - 1), None);
    let marsh = Biome::HauntedMarsh.monster_bias();
    assert_eq!(pick_species(Biome::Beach, &marsh, 0), Some(Species::Undead));
}

#[test]
fn no_weight_means_no_spawn() {
    let beach = Biome::Beach.monster_bias();
    for roll in [0, 1, 1000, ROLL_SCALE / 2, ROLL_SCALE - 1] {
        assert_eq!(pick_species(Biome::Beach, &beach, roll), None);
    }
    let tiles = ChunkTiles { size: 8, biomes: vec![Biome::Beach; 64] };
    for _ in 0..20 {
        assert!(spawn_creatures_for_chunk(Biome::Beach, &tiles).is_empty());
    }
}

#[test]
fn spawns_stand_on_the_chunk() {
    let mut tiles = ChunkTiles { size: 8, biomes: vec![Biome::DeepOcean; 64] };
    tiles.biomes[63] = Biome::VolcanicAsh;
    for _ in 0..50 {
        let spawns = spawn_creatures_for_chunk(Biome::DeepOcean, &tiles);
        assert!(spawns.len() <= 4);
        for sp in spawns {
            assert!(0 <= sp.tile_x && sp.tile_x < 8 && 0 <= sp.tile_y && sp.tile_y < 8);
            assert!(matches!(sp.species, Species::Kraken | Species::SeaSerpent | Species::FireDragon));
        }
    }
}

#[test]
fn species_speeds() {
    assert_eq!(species_speed(Species::Kraken), 4);
    assert_eq!(species_speed(Species::Eldritch), 4);
    assert_eq!(species_speed(Species::FireDragon), 14);
    assert_eq!(species_speed(Species::Wyvern), 16);
    assert_eq!(species_speed(Species::SeaSerpent), 10);
    assert_eq!(species_speed(Species::GiantSnake), 6);
    assert_eq!(species_speed(Species::Undead), 3);
}

#[test]
fn brain_decisions() {
    assert_eq!(next_brain_state(true, true, 0, 100), BrainState::Fleeing);
    assert_eq!(next_brain_state(false, false, 0, 100), BrainState::Idle);
    // aggression 80: rolls below 0.8 * 2^24 = 13421772.8 hunt.
    assert_eq!(next_brain_state(false, true, 13421772, 80), BrainState::Hunting);
    assert_eq!(next_brain_state(false, true, 13421773, 80), BrainState::Idle);
    // 0.9f32 is 15099494 / 2^24, so that roll is not below it.
    assert_eq!(next_brain_state(false, true, 15099493, 90), BrainState::Hunting);
    assert_eq!(next_brain_state(false, true, 15099494, 90), BrainState::Idle);
    assert_eq!(think(true, false, 50), BrainState::Fleeing);
    assert_eq!(think(false, false, 95), BrainState::Idle);
    assert_eq!(think(false, true, 100), BrainState::Hunting);
    assert_eq!(think(false, true, 0), BrainState::Idle);
    assert_eq!(Brain::default(), Brain { state: BrainState::Idle, target: None });
}

#[test]
fn think_rolls_both_ways() {
    let mut hunted = 0;
    for _ in 0..400 {
        if think(false, true, 50) == BrainState::Hunting {
            hunted += 1;
        }
    }
    assert!(hunted > 0 && hunted < 400);
}

#[test]
fn rivals_in_range_start_feuding() {
    let entities = vec![10, 20, 30, 40];
    let species = vec![Species::FireDragon, Species::IceDragon, Species::Kraken, Species::Wyvern];
    let in_range = vec![
        vec![false, true, true, true],
        vec![true, false, false, false],
        vec![false, false, false, false],
        vec![true, true, true, false],
    ];
    let mut brains = vec![
        Brain::default(),
        Brain::default(),
        Brain::default(),
        Brain { state: BrainState::Fleeing, target: None },
    ];
    creature_vs_creature_aggression(&entities, &species, &in_range, &mut brains);
    assert_eq!(brains[0], Brain { state: BrainState::Feuding, target: Some(20) });
    assert_eq!(brains[1], Brain { state: BrainState::Feuding, target: Some(10) });
    assert_eq!(brains[2], Brain::default());
    assert_eq!(brains[3], Brain { state: BrainState::Fleeing, target: None });
}

#[test]
fn hunters_keep_their_target() {
    let entities = vec![1, 2];
    let species = vec![Species::Kraken, Species::SeaSerpent];
    let in_range = vec![vec![true, true], vec![true, true]];
    let mut brains = vec![
        Brain { state: BrainState::Hunting, target: Some(99) },
        Brain { state: BrainState::Hunting, target: None },
    ];
    creature_vs_creature_aggression(&entities, &species, &in_range, &mut brains);
    assert_eq!(brains[0], Brain { state: BrainState::Hunting, target: Some(99) });
    assert_eq!(brains[1], Brain { state: BrainState::Feuding, target: Some(1) });
}

#[test]
fn rolls_are_fractions_of_the_unit_interval() {
    let mut distinct = std::collections::BTreeSet::new();
    for _ in 0..100 {
        let r = random_roll();
        assert!(r < ROLL_SCALE);
        distinct.insert(r);
    }
    assert!(distinct.len() > 1);
}

#[test]
fn thresholds_are_single_precision_values() {
    assert_eq!(rolls_below_f32(0), 0);
    assert_eq!(rolls_below_f32(50), 1 << 23);
    assert_eq!(rolls_below_f32(80), 13421773);
    assert_eq!(rolls_below_f32(90), 15099494);
    assert_eq!(rolls_below_f32(95), 15938355);
    // 0.26f32 is 8724152 / 2^25: rolls up to 4362075 lie below it.
    assert_eq!(rolls_below_f32(26), 4362076);
    assert_eq!(rolls_below_f32(1), 167773);
    assert_eq!(rolls_below_f32(100), ROLL_SCALE);
    for pct in 1..100u32 {
        let f = pct as f32 / 100.0;
        let n = rolls_below_f32(pct);
        assert!(((n - 1) as f32 / ROLL_SCALE as f32) < f);
        assert!(!((n as f32 / ROLL_SCALE as f32) < f));
    }
}

#[test]
fn spawn_attempts_one_per_sixteen_tiles() {
    let tiles = ChunkTiles { size: 8, biomes: vec![Biome::DeepOcean; 64] };
    for _ in 0..20 {
        let draws = draw_spawn_attempts(&tiles);
        assert_eq!(draws.len(), 4);
        for (x, y, roll) in draws {
            assert!(0 <= x && x < 8 && 0 <= y && y < 8 && roll < ROLL_SCALE);
        }
    }
    let small = ChunkTiles { size: 3, biomes: vec![Biome::DeepOcean; 9] };
    assert!(draw_spawn_attempts(&small).is_empty());
    let wide = ChunkTiles { size: 12, biomes: vec![Biome::DeepOcean; 144] };
    assert_eq!(draw_spawn_attempts(&wide).len(), 9);
}

#[test]
fn spawns_follow_the_draws() {
    let mut tiles = ChunkTiles { size: 4, biomes: vec![Biome::DeepOcean; 16] };
    tiles.biomes[2 * 4 + 1] = Biome::Beach;
    // On the beach tile the haunted marsh's bias spawns undead at roll 0.
    let draws = vec![(1, 2, 0), (0, 0, ROLL_SCALE - 1), (3, 3, 301989), (3, 0, 301990)];
    let spawns = spawns_for_draws(Biome::HauntedMarsh, &tiles, &draws);
    assert_eq!(spawns[0], CreatureSpawn { tile_x: 1, tile_y: 2, species: Species::Undead });
    let deep = spawns_for_draws(Biome::DeepOcean, &tiles, &vec![(0, 0, 0), (1, 1, ROLL_SCALE - 1), (2, 3, 301990)]);
    assert_eq!(
        deep,
        vec![
            CreatureSpawn { tile_x: 0, tile_y: 0, species: Species::Kraken },
            CreatureSpawn { tile_x: 2, tile_y: 3, species: Species::SeaSerpent },
        ]
    );
    assert!(spawns_for_draws(Biome::DeepOcean, &tiles, &vec![]).is_empty());
}
