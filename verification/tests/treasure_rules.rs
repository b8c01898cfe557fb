use pien::creatures::Species;
use pien::player::{absorb_treasure, Inventory};
use pien::dice::ROLL_SCALE;
use pien::treasure::{
    bury_cache, buried_cache, drop_loot_on_kill, kill_loot, loot_from_draws, CacheDraws, chest_relic_at, pick_relic, roll_rarity, spawn_treasure_in_chunk, total_gold,
    treasure_odds, Loot, MapTarget, Rarity, Relic,
};
use pien::world::{Biome, ChunkTiles};

const TARGET: MapTarget = MapTarget { x_bits: 0x4400_0000, z_bits: 0xc400_0000 };

#[test]
fn treasure_odds_per_biome() {
    assert_eq!(treasure_odds(Biome::DeepOcean), 5);
    assert_eq!(treasure_odds(Biome::ShallowSea), 15);
    assert_eq!(treasure_odds(Biome::CoralReef), 15);
    assert_eq!(treasure_odds(Biome::HauntedMarsh), 70);
    assert_eq!(treasure_odds(Biome::VolcanicAsh), 40);
    assert_eq!(treasure_odds(Biome::Jungle), 25);
}

#[test]
fn cursed_islands_hold_the_most_treasure() {
    let all = [
        Biome::DeepOcean, Biome::ShallowSea, Biome::Beach, Biome::Jungle, Biome::Desert, Biome::Savanna,
        Biome::Tundra, Biome::IceCap, Biome::VolcanicAsh, Biome::CoralReef, Biome::MangroveSwamp,
    ];
    for b in all {
        assert!(treasure_odds(b) < treasure_odds(Biome::HauntedMarsh));
    }
}

#[test]
fn rarity_thresholds() {
    let half = 1u32 << 23;
    assert_eq!(roll_rarity(Biome::HauntedMarsh, half - 1), Rarity::Cursed);
    assert_eq!(roll_rarity(Biome::HauntedMarsh, half), Rarity::Rare);
    // 0.8f32 is 13421773 / 2^24.
    assert_eq!(roll_rarity(Biome::HauntedMarsh, 13421772), Rarity::Rare);
    assert_eq!(roll_rarity(Biome::HauntedMarsh, 13421773), Rarity::Legendary);
    // 0.6f32 is 10066330 / 2^24.
    assert_eq!(roll_rarity(Biome::VolcanicAsh, 10066329), Rarity::Rare);
    assert_eq!(roll_rarity(Biome::VolcanicAsh, 10066330), Rarity::Legendary);
    assert_eq!(roll_rarity(Biome::Jungle, 0), Rarity::Common);
    assert_eq!(roll_rarity(Biome::Jungle, 10066330), Rarity::Uncommon);
    // 0.9 * 2^24 = 15099494.4
    // 0.9f32 is 15099494 / 2^24.
    assert_eq!(roll_rarity(Biome::Jungle, 15099493), Rarity::Uncommon);
    assert_eq!(roll_rarity(Biome::Jungle, 15099494), Rarity::Rare);
}

#[test]
fn relic_names() {
    assert_eq!(Relic::CompassOfUnknownHarbours.name(), "Compass of Unknown Harbours");
    assert_eq!(Relic::KrakenToothCutlass.name(), "Kraken Tooth Cutlass");
    assert_eq!(Relic::DragonheartEmber.name(), "Dragonheart Ember");
    for _ in 0..50 {
        assert_ne!(pick_relic(), Relic::DragonheartEmber);
    }
}

#[test]
fn buried_cache_lists_its_parts() {
    let t = buried_cache(Rarity::Rare, 120, true, Some(Relic::LocketOfSaintBarnacle), Some(TARGET));
    assert!(t.buried);
    assert_eq!(t.gold, 120);
    assert_eq!(
        t.contents,
        vec![
            Loot::Gold(120),
            Loot::Gem,
            Loot::Relic { name: Relic::LocketOfSaintBarnacle },
            Loot::TreasureMap { target: TARGET },
        ]
    );
    let plain = buried_cache(Rarity::Common, 20, false, None, None);
    assert_eq!(plain.contents, vec![Loot::Gold(20)]);
}

#[test]
fn total_gold_sums_every_coin_item() {
    assert_eq!(total_gold(&vec![Loot::Gold(5), Loot::Gem, Loot::Gold(7)]), 12);
    assert_eq!(total_gold(&Vec::new()), 0);
}

#[test]
fn buried_caches_have_the_promised_shape() {
    let tiles = ChunkTiles { size: 4, biomes: vec![Biome::HauntedMarsh; 16] };
    let mut found = 0;
    for _ in 0..200 {
        if let Some(c) = spawn_treasure_in_chunk(Biome::HauntedMarsh, &tiles, TARGET) {
            found += 1;
            let t = c.treasure;
            assert!(0 <= c.tile_x && c.tile_x < 4 && 0 <= c.tile_y && c.tile_y < 4);
            assert!(t.buried);
            assert!((20..500).contains(&t.gold));
            assert_eq!(t.contents[0], Loot::Gold(t.gold));
            assert!(matches!(t.rarity, Rarity::Cursed | Rarity::Rare | Rarity::Legendary));
            let relics = t.contents.iter().filter(|l| matches!(l, Loot::Relic { .. })).count();
            assert_eq!(relics == 1, matches!(t.rarity, Rarity::Rare | Rarity::Legendary));
            for l in &t.contents[1..] {
                match l {
                    Loot::TreasureMap { target } => assert_eq!(*target, TARGET),
                    Loot::Relic { name } => assert_ne!(*name, Relic::DragonheartEmber),
                    Loot::Gem => {},
                    other => panic!("unexpected {:?}", other),
                }
            }
        }
    }
    assert!(found > 0);
}

#[test]
fn kill_loot_by_species() {
    let t = kill_loot(Species::Kraken, 33, false);
    assert!(!t.buried);
    assert_eq!(t.rarity, Rarity::Uncommon);
    assert_eq!(t.contents, vec![Loot::Gold(33), Loot::KrakenInk]);
    let d = kill_loot(Species::SandDragon, 40, true);
    assert_eq!(
        d.contents,
        vec![Loot::Gold(40), Loot::DragonScale, Loot::Relic { name: Relic::DragonheartEmber }]
    );
    assert_eq!(kill_loot(Species::Wyvern, 12, false).contents, vec![Loot::Gold(12)]);
    assert_eq!(kill_loot(Species::Undead, 12, false).contents, vec![Loot::Gold(12), Loot::UndeadBone]);
    assert_eq!(kill_loot(Species::Eldritch, 12, false).contents, vec![Loot::Gold(12), Loot::EldritchShard]);
}

#[test]
fn dropped_loot_draws_gold() {
    let mut golds = std::collections::BTreeSet::new();
    for _ in 0..200 {
        let t = drop_loot_on_kill(Species::IceDragon);
        assert!((10..250).contains(&t.gold));
        assert_eq!(t.contents[0], Loot::Gold(t.gold));
        assert_eq!(t.contents[1], Loot::DragonScale);
        golds.insert(t.gold);
    }
    assert!(golds.len() > 1);
    let t = drop_loot_on_kill(Species::GiantSnake);
    assert_eq!(t.contents.len(), 1);
}

#[test]
fn absorbing_counts_coins_once() {
    let mut inv = Inventory::default();
    let t = buried_cache(Rarity::Legendary, 250, true, Some(Relic::TheUnsinkableLantern), Some(TARGET));
    absorb_treasure(&mut inv, &t);
    assert_eq!(inv.gold, 250);
    assert_eq!(inv.gems, 1);
    assert_eq!(inv.relics, vec![Relic::TheUnsinkableLantern]);
    assert_eq!(inv.maps, vec![TARGET]);
    let drop = kill_loot(Species::FireDragon, 50, true);
    absorb_treasure(&mut inv, &drop);
    assert_eq!(inv.gold, 300);
    assert_eq!(inv.dragon_scales, 1);
    assert_eq!(inv.relics, vec![Relic::TheUnsinkableLantern, Relic::DragonheartEmber]);
    absorb_treasure(&mut inv, &kill_loot(Species::Kraken, 1, false));
    absorb_treasure(&mut inv, &kill_loot(Species::Undead, 1, false));
    absorb_treasure(&mut inv, &kill_loot(Species::Eldritch, 1, false));
    assert_eq!((inv.kraken_ink, inv.undead_bones, inv.eldritch_shards), (1, 1, 1));
    assert_eq!(inv.gold, 303);
}

fn draws(bury: u32, rarity: u32, gem: u32, map: u32) -> CacheDraws {
    CacheDraws {
        bury,
        tile_x: 1,
        tile_y: 2,
        rarity,
        gold: 77,
        gem,
        relic: Some(Relic::KrakenToothCutlass),
        map,
    }
}

#[test]
fn bury_cache_follows_the_draws() {
    let mut tiles = ChunkTiles { size: 4, biomes: vec![Biome::Jungle; 16] };
    tiles.biomes[9] = Biome::HauntedMarsh;
    // Haunted marsh odds are 70 in 100: rolls below 11744051.2 bury a cache.
    assert!(bury_cache(Biome::HauntedMarsh, &tiles, draws(11744052, 0, 0, 0), TARGET).is_none());
    let c = bury_cache(Biome::HauntedMarsh, &tiles, draws(11744051, 0, 0, 0), TARGET).unwrap();
    assert_eq!((c.tile_x, c.tile_y), (1, 2));
    assert_eq!(c.treasure.rarity, Rarity::Cursed);
    assert_eq!(c.treasure.gold, 77);
    assert!(c.treasure.buried);
    assert_eq!(c.treasure.contents, vec![Loot::Gold(77), Loot::Gem, Loot::TreasureMap { target: TARGET }]);
    // Gem below 2 in 5 (6710886.4), map below 1 in 4 (4194304).
    let c = bury_cache(Biome::Jungle, &tiles, draws(0, ROLL_SCALE - 1, 6710887, 4194304), TARGET).unwrap();
    assert_eq!(c.treasure.rarity, Rarity::Legendary);
    assert_eq!(c.treasure.contents, vec![Loot::Gold(77), Loot::Relic { name: Relic::KrakenToothCutlass }]);
    let c = bury_cache(Biome::DeepOcean, &tiles, draws(0, 0, 6710886, 4194303), TARGET).unwrap();
    assert_eq!(c.treasure.rarity, Rarity::Cursed);
    // Deep ocean odds are 5 in 100: rolls from 838861 on bury nothing.
    assert!(bury_cache(Biome::DeepOcean, &tiles, draws(838861, 0, 0, 0), TARGET).is_none());
}

#[test]
fn ember_drops_for_dragons_one_time_in_four() {
    let with = loot_from_draws(Species::FireDragon, 30, 4194303);
    assert_eq!(with.contents, vec![Loot::Gold(30), Loot::DragonScale, Loot::Relic { name: Relic::DragonheartEmber }]);
    let without = loot_from_draws(Species::FireDragon, 30, 4194304);
    assert_eq!(without.contents, vec![Loot::Gold(30), Loot::DragonScale]);
    assert_eq!(loot_from_draws(Species::Kraken, 30, 0).contents, vec![Loot::Gold(30), Loot::KrakenInk]);
}

#[test]
fn chest_relics_by_draw() {
    assert_eq!(chest_relic_at(0), Relic::CompassOfUnknownHarbours);
    assert_eq!(chest_relic_at(1), Relic::SextantOfTheDrownedQueen);
    assert_eq!(chest_relic_at(2), Relic::LocketOfSaintBarnacle);
    assert_eq!(chest_relic_at(3), Relic::TheUnsinkableLantern);
    assert_eq!(chest_relic_at(4), Relic::KrakenToothCutlass);
}
