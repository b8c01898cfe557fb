//! Treasure: buried caches in freshly loaded chunks and loot dropped by slain
//! monsters. A map is only a hint at coordinates; getting there is the player's
//! problem.

use vstd::prelude::*;

use crate::creatures::Species;
use crate::dice::{random_range, random_roll, roll_below_f32_pct, roll_below_pct, roll_is_below_f32_pct, roll_is_below_pct, ROLL_SCALE};
use crate::world::{lemma_tile_index_in_grid, Biome, ChunkTiles};

verus! {

#[derive(Clone, Copy, Debug, PartialEq, Eq, Hash, Structural)]
pub enum Rarity {
    Common,
    Uncommon,
    Rare,
    Legendary,
    Cursed,
}

/// Named relics.
#[derive(Clone, Copy, Debug, PartialEq, Eq, Hash, Structural)]
pub enum Relic {
    CompassOfUnknownHarbours,
    SextantOfTheDrownedQueen,
    LocketOfSaintBarnacle,
    TheUnsinkableLantern,
    KrakenToothCutlass,
    DragonheartEmber,
}

/// The world position `(x, z)` a treasure map points at, held as the bit
/// patterns of the two coordinates. The rules carry it and never read it.
#[derive(Clone, Copy, Debug, PartialEq, Eq, Hash, Structural)]
pub struct MapTarget {
    pub x_bits: u32,
    pub z_bits: u32,
}

#[derive(Clone, Copy, Debug, PartialEq, Eq, Structural)]
pub enum Loot {
    Gold(u32),
    TreasureMap { target: MapTarget },
    Gem,
    Relic { name: Relic },
    /// Crafting reagents harvested from monsters.
    DragonScale,
    KrakenInk,
    UndeadBone,
    EldritchShard,
}

/// A findable treasure: its gold is the sum of the `Gold` items it holds.
#[derive(Debug)]
pub struct Treasure {
    pub gold: u32,
    pub rarity: Rarity,
    pub contents: Vec<Loot>,
    pub buried: bool,
}

/// The relics that buried caches can hold, in the order they are drawn from.
pub open spec fn chest_relic(i: int) -> Relic {
    if i == 0 { Relic::CompassOfUnknownHarbours }
    else if i == 1 { Relic::SextantOfTheDrownedQueen }
    else if i == 2 { Relic::LocketOfSaintBarnacle }
    else if i == 3 { Relic::TheUnsinkableLantern }
    else { Relic::KrakenToothCutlass }
}

pub open spec fn is_chest_relic(r: Relic) -> bool {
    r != Relic::DragonheartEmber
}

/// The name of a relic.
pub open spec fn relic_name(r: Relic) -> Seq<char> {
    match r {
        Relic::CompassOfUnknownHarbours => "Compass of Unknown Harbours"@,
        Relic::SextantOfTheDrownedQueen => "Sextant of the Drowned Queen"@,
        Relic::LocketOfSaintBarnacle => "Locket of Saint Barnacle"@,
        Relic::TheUnsinkableLantern => "The Unsinkable Lantern"@,
        Relic::KrakenToothCutlass => "Kraken Tooth Cutlass"@,
        Relic::DragonheartEmber => "Dragonheart Ember"@,
    }
}

impl Relic {
    /// The relic's name.
    pub fn name(&self) -> (s: &'static str)
        ensures
            s@ == relic_name(*self),
    {
        match self {
            Relic::CompassOfUnknownHarbours => "Compass of Unknown Harbours",
            Relic::SextantOfTheDrownedQueen => "Sextant of the Drowned Queen",
            Relic::LocketOfSaintBarnacle => "Locket of Saint Barnacle",
            Relic::TheUnsinkableLantern => "The Unsinkable Lantern",
            Relic::KrakenToothCutlass => "Kraken Tooth Cutlass",
            Relic::DragonheartEmber => "Dragonheart Ember",
        }
    }
}

/// Total gold of the `Gold` items in `s`.
pub open spec fn gold_in(s: Seq<Loot>) -> int
    decreases s.len(),
{
    if s.len() == 0 {
        0
    } else {
        gold_in(s.drop_last()) + match s.last() {
            Loot::Gold(g) => g as int,
            _ => 0int,
        }
    }
}

/// Sums the gold coins held in a list of loot.
pub fn total_gold(contents: &Vec<Loot>) -> (g: u32)
    requires
        gold_in(contents@) <= u32::MAX,
    ensures
        g == gold_in(contents@),
{
    let mut g: u32 = 0;
    let mut i: usize = 0;
    while i < contents.len()
        invariant
            i <= contents@.len(),
            gold_in(contents@) <= u32::MAX,
            g == gold_in(contents@.take(i as int)),
        decreases contents@.len() - i,
    {
        proof {
            assert(contents@.take(i + 1).drop_last() =~= contents@.take(i as int));
            lemma_gold_in_prefix_bounded(contents@, i + 1);
        }
        match contents[i] {
            Loot::Gold(c) => {
                g = g + c;
            },
            _ => {},
        }
        i = i + 1;
    }
    assert(contents@.take(i as int) =~= contents@);
    g
}

/// Gold never shrinks as items are added: a prefix holds at most the gold of the whole.
proof fn lemma_gold_in_prefix_bounded(s: Seq<Loot>, n: int)
    requires
        0 <= n <= s.len(),
    ensures
        gold_in(s.take(n)) <= gold_in(s),
    decreases s.len() - n,
{
    if n < s.len() {
        lemma_gold_in_prefix_bounded(s, n + 1);
        assert(s.take(n + 1).drop_last() =~= s.take(n));
    } else {
        assert(s.take(n) =~= s);
    }
}

/// Chance, in hundredths, that a freshly loaded chunk holds a buried cache.
/// Ocean chunks rarely hold one; cursed islands hold the most.
pub open spec fn spec_treasure_odds(b: Biome) -> u32 {
    match b {
        Biome::DeepOcean => 5,
        Biome::ShallowSea | Biome::CoralReef => 15,
        Biome::HauntedMarsh => 70,
        Biome::VolcanicAsh => 40,
        _ => 25,
    }
}

/// Chance, in hundredths, that a freshly loaded chunk of this dominant biome
/// holds a buried cache.
pub fn treasure_odds(b: Biome) -> (p: u32)
    ensures
        p == spec_treasure_odds(b),
        p <= 100,
{
    match b {
        Biome::DeepOcean => 5,
        Biome::ShallowSea | Biome::CoralReef => 15,
        Biome::HauntedMarsh => 70,
        Biome::VolcanicAsh => 40,
        _ => 25,
    }
}

/// The rarity a roll gives a cache on a tile of biome `b`.
pub open spec fn spec_roll_rarity(b: Biome, roll: u32) -> Rarity {
    match b {
        Biome::HauntedMarsh => if roll_below_f32_pct(roll, 50) {
            Rarity::Cursed
        } else if roll_below_f32_pct(roll, 80) {
            Rarity::Rare
        } else {
            Rarity::Legendary
        },
        Biome::VolcanicAsh => if roll_below_f32_pct(roll, 60) { Rarity::Rare } else { Rarity::Legendary },
        _ => if roll_below_f32_pct(roll, 60) {
            Rarity::Common
        } else if roll_below_f32_pct(roll, 90) {
            Rarity::Uncommon
        } else {
            Rarity::Rare
        },
    }
}

/// The rarity of a cache on a tile of biome `b` for a given roll: haunted
/// marshes hold cursed, rare or legendary caches, volcanic ash rare or
/// legendary ones, and elsewhere caches are common, uncommon or rare.
pub fn roll_rarity(b: Biome, roll: u32) -> (r: Rarity)
    requires
        roll < ROLL_SCALE,
    ensures
        r == spec_roll_rarity(b, roll),
{
    match b {
        Biome::HauntedMarsh => if roll_is_below_f32_pct(roll, 50) {
            Rarity::Cursed
        } else if roll_is_below_f32_pct(roll, 80) {
            Rarity::Rare
        } else {
            Rarity::Legendary
        },
        Biome::VolcanicAsh => if roll_is_below_f32_pct(roll, 60) { Rarity::Rare } else { Rarity::Legendary },
        _ => if roll_is_below_f32_pct(roll, 60) {
            Rarity::Common
        } else if roll_is_below_f32_pct(roll, 90) {
            Rarity::Uncommon
        } else {
            Rarity::Rare
        },
    }
}

/// The relic that a draw of `i` among the five chest relics gives.
pub fn chest_relic_at(i: u32) -> (r: Relic)
    requires
        i < 5,
    ensures
        r == chest_relic(i as int),
{
    if i == 0 { Relic::CompassOfUnknownHarbours }
    else if i == 1 { Relic::SextantOfTheDrownedQueen }
    else if i == 2 { Relic::LocketOfSaintBarnacle }
    else if i == 3 { Relic::TheUnsinkableLantern }
    else { Relic::KrakenToothCutlass }
}

/// Draws one of the five chest relics at random.
pub fn pick_relic() -> (r: Relic)
    ensures
        is_chest_relic(r),
        exists|i: int| 0 <= i < 5 && r == chest_relic(i),
{
    let i = random_range(0, 5);
    chest_relic_at(i)
}

/// Rare and legendary caches hold a relic.
pub open spec fn holds_relic(r: Rarity) -> bool {
    r == Rarity::Rare || r == Rarity::Legendary
}

/// The items of a buried cache: its coins, then a gem, a relic and a map where
/// it has them.
pub open spec fn cache_contents(gold: u32, gem: bool, relic: Option<Relic>, map: Option<MapTarget>) -> Seq<Loot> {
    seq![Loot::Gold(gold)]
        + (if gem { seq![Loot::Gem] } else { Seq::empty() })
        + (match relic { Some(r) => seq![Loot::Relic { name: r }], None => Seq::empty() })
        + (match map { Some(t) => seq![Loot::TreasureMap { target: t }], None => Seq::empty() })
}

/// Gold adds up over concatenation.
pub proof fn lemma_gold_in_append(a: Seq<Loot>, b: Seq<Loot>)
    ensures
        gold_in(a + b) == gold_in(a) + gold_in(b),
    decreases b.len(),
{
    if b.len() == 0 {
        assert(a + b =~= a);
    } else {
        lemma_gold_in_append(a, b.drop_last());
        assert((a + b).drop_last() =~= a + b.drop_last());
    }
}

proof fn lemma_gold_in_single(x: Loot)
    ensures
        gold_in(seq![x]) == match x {
            Loot::Gold(g) => g as int,
            _ => 0int,
        },
{
    assert(seq![x].drop_last() =~= Seq::<Loot>::empty());
    assert(gold_in(Seq::<Loot>::empty()) == 0);
}

proof fn lemma_cache_gold(gold: u32, gem: bool, relic: Option<Relic>, map: Option<MapTarget>)
    ensures
        gold_in(cache_contents(gold, gem, relic, map)) == gold,
{
    let s1 = seq![Loot::Gold(gold)];
    let g = if gem { seq![Loot::Gem] } else { Seq::empty() };
    let r = match relic { Some(x) => seq![Loot::Relic { name: x }], None => Seq::empty() };
    let m = match map { Some(t) => seq![Loot::TreasureMap { target: t }], None => Seq::empty() };
    assert(gold_in(Seq::<Loot>::empty()) == 0);
    lemma_gold_in_single(Loot::Gold(gold));
    lemma_gold_in_single(Loot::Gem);
    if let Some(x) = relic {
        lemma_gold_in_single(Loot::Relic { name: x });
    }
    if let Some(t) = map {
        lemma_gold_in_single(Loot::TreasureMap { target: t });
    }
    lemma_gold_in_append(s1, g);
    lemma_gold_in_append(s1 + g, r);
    lemma_gold_in_append(s1 + g + r, m);
}

proof fn lemma_kill_gold(species: Species, gold: u32, ember: bool)
    ensures
        gold_in(kill_contents(species, gold, ember)) == gold,
{
    let s1 = seq![Loot::Gold(gold)];
    let rest = kill_reagents(species, ember);
    assert(gold_in(Seq::<Loot>::empty()) == 0);
    lemma_gold_in_single(Loot::Gold(gold));
    lemma_gold_in_single(Loot::KrakenInk);
    lemma_gold_in_single(Loot::DragonScale);
    lemma_gold_in_single(Loot::UndeadBone);
    lemma_gold_in_single(Loot::EldritchShard);
    let ember_relic = Loot::Relic { name: Relic::DragonheartEmber };
    lemma_gold_in_single(ember_relic);
    lemma_gold_in_append(seq![Loot::DragonScale], seq![ember_relic]);
    assert(seq![Loot::DragonScale] + seq![ember_relic] =~= seq![Loot::DragonScale, ember_relic]);
    lemma_gold_in_append(s1, rest);
}

/// Builds a buried cache from its drawn parts.
pub fn buried_cache(rarity: Rarity, gold: u32, gem: bool, relic: Option<Relic>, map: Option<MapTarget>) -> (t: Treasure)
    ensures
        t.gold == gold,
        t.rarity == rarity,
        t.contents@ == cache_contents(gold, gem, relic, map),
        t.buried,
        gold_in(t.contents@) == t.gold,
{
    let mut contents: Vec<Loot> = Vec::new();
    contents.push(Loot::Gold(gold));
    if gem {
        contents.push(Loot::Gem);
    }
    match relic {
        Some(r) => contents.push(Loot::Relic { name: r }),
        None => {},
    }
    match map {
        Some(m) => contents.push(Loot::TreasureMap { target: m }),
        None => {},
    }
    proof {
        assert(contents@ =~= cache_contents(gold, gem, relic, map));
        lemma_cache_gold(gold, gem, relic, map);
    }
    let total = total_gold(&contents);
    Treasure { gold: total, rarity, contents, buried: true }
}

/// A buried cache and the tile of its chunk it lies on.
#[derive(Debug)]
pub struct BuriedCache {
    pub tile_x: i32,
    pub tile_y: i32,
    pub treasure: Treasure,
}

/// What burying a cache draws: a roll deciding whether the chunk holds one at
/// all, the tile, a roll for the rarity, the coins, a roll for a gem, the chest
/// relic (drawn only when the rarity calls for one), and a roll for a map.
#[derive(Clone, Copy, Debug, PartialEq, Eq)]
pub struct CacheDraws {
    pub bury: u32,
    pub tile_x: i32,
    pub tile_y: i32,
    pub rarity: u32,
    pub gold: u32,
    pub gem: u32,
    pub relic: Option<Relic>,
    pub map: u32,
}

/// The rarity of the cache that `d` buries in `tiles`.
pub open spec fn drawn_rarity(tiles: ChunkTiles, d: CacheDraws) -> Rarity {
    spec_roll_rarity(tiles.biome_of(d.tile_x as int, d.tile_y as int), d.rarity)
}

/// Draws as the generator can give them for a chunk: rolls below
/// `ROLL_SCALE`, a tile of the chunk, 20 to 499 coins, and a chest relic
/// whenever the rarity calls for one.
pub open spec fn draws_fit(tiles: ChunkTiles, d: CacheDraws) -> bool {
    &&& d.bury < ROLL_SCALE
    &&& d.rarity < ROLL_SCALE
    &&& d.gem < ROLL_SCALE
    &&& d.map < ROLL_SCALE
    &&& 0 <= d.tile_x < tiles.size
    &&& 0 <= d.tile_y < tiles.size
    &&& 20 <= d.gold < 500
    &&& (holds_relic(drawn_rarity(tiles, d)) ==> d.relic is Some)
    &&& (d.relic matches Some(r) ==> is_chest_relic(r))
}

/// The cache that draws `d` bury in a chunk of dominant biome `dominant`: one
/// exactly when the burial roll falls below the chunk's odds, lying on the drawn
/// tile, of the rarity the roll gives that tile's biome, with the drawn coins, a
/// gem when the gem roll falls below two in five, the relic when the rarity is
/// rare or legendary, and a map to `map_target` when the map roll falls below
/// one in four.
pub open spec fn is_cache_from(
    cache: Option<BuriedCache>,
    dominant: Biome,
    tiles: ChunkTiles,
    d: CacheDraws,
    map_target: MapTarget,
) -> bool {
    if roll_below_pct(d.bury, spec_treasure_odds(dominant)) {
        &&& cache is Some
        &&& cache->0.tile_x == d.tile_x
        &&& cache->0.tile_y == d.tile_y
        &&& cache->0.treasure.buried
        &&& cache->0.treasure.gold == d.gold
        &&& cache->0.treasure.rarity == drawn_rarity(tiles, d)
        &&& cache->0.treasure.contents@ == cache_contents(
            d.gold,
            roll_below_pct(d.gem, 40),
            if holds_relic(drawn_rarity(tiles, d)) { d.relic } else { None },
            if roll_below_pct(d.map, 25) { Some(map_target) } else { None },
        )
        &&& gold_in(cache->0.treasure.contents@) == d.gold
    } else {
        cache is None
    }
}

/// The cache, if any, that a given set of draws buries in a chunk (see
/// `is_cache_from`).
pub fn bury_cache(dominant: Biome, tiles: &ChunkTiles, d: CacheDraws, map_target: MapTarget) -> (cache: Option<BuriedCache>)
    requires
        tiles.well_formed(),
        tiles.size * tiles.size <= i32::MAX,
        draws_fit(*tiles, d),
    ensures
        is_cache_from(cache, dominant, *tiles, d, map_target),
{
    let odds = treasure_odds(dominant);
    if !roll_is_below_pct(d.bury, odds) {
        return None;
    }
    proof {
        lemma_tile_index_in_grid(tiles.size as int, d.tile_x as int, d.tile_y as int);
    }
    let tile_biome = tiles.biomes[tiles.index(d.tile_x, d.tile_y)];
    let rarity = roll_rarity(tile_biome, d.rarity);
    let gem = roll_is_below_pct(d.gem, 40);
    let relic = match rarity {
        Rarity::Rare | Rarity::Legendary => d.relic,
        _ => None,
    };
    let map = if roll_is_below_pct(d.map, 25) { Some(map_target) } else { None };
    let treasure = buried_cache(rarity, d.gold, gem, relic, map);
    Some(BuriedCache { tile_x: d.tile_x, tile_y: d.tile_y, treasure })
}

/// Maybe buries a cache in a chunk that just loaded: draws the burial roll
/// and, when the chunk's odds call for a cache, the tile, the rarity roll, the
/// coins, the gem roll, a chest relic if the rarity calls for one, and the map
/// roll; the cache is the one those draws bury (see `bury_cache`). What is drawn
/// rests on chance.
pub fn spawn_treasure_in_chunk(dominant: Biome, tiles: &ChunkTiles, map_target: MapTarget) -> (cache: Option<BuriedCache>)
    requires
        tiles.well_formed(),
        0 < tiles.size,
        tiles.size * tiles.size <= i32::MAX,
    ensures
        exists|d: CacheDraws| draws_fit(*tiles, d) && is_cache_from(cache, dominant, *tiles, d, map_target),
{
    let odds = treasure_odds(dominant);
    let bury = random_roll();
    if !roll_is_below_pct(bury, odds) {
        let d = CacheDraws {
            bury,
            tile_x: 0,
            tile_y: 0,
            rarity: 0,
            gold: 20,
            gem: 0,
            relic: Some(Relic::CompassOfUnknownHarbours),
            map: 0,
        };
        assert(draws_fit(*tiles, d) && is_cache_from(None, dominant, *tiles, d, map_target));
        return None;
    }
    let size = tiles.size;
    let tile_x = random_range(0, size as u32) as i32;
    let tile_y = random_range(0, size as u32) as i32;
    proof {
        lemma_tile_index_in_grid(size as int, tile_x as int, tile_y as int);
    }
    let tile_biome = tiles.biomes[tiles.index(tile_x, tile_y)];
    let rarity_roll = random_roll();
    let rarity = roll_rarity(tile_biome, rarity_roll);
    let gold = random_range(20, 500);
    let gem = random_roll();
    let relic = match rarity {
        Rarity::Rare | Rarity::Legendary => Some(pick_relic()),
        _ => None,
    };
    let map = random_roll();
    let d = CacheDraws { bury, tile_x, tile_y, rarity: rarity_roll, gold, gem, relic, map };
    let cache = bury_cache(dominant, tiles, d, map_target);
    assert(draws_fit(*tiles, d) && is_cache_from(cache, dominant, *tiles, d, map_target));
    cache
}

/// The items a slain monster drops: its coins, then a reagent of its kind, and
/// for a dragon the Dragonheart Ember when `ember` holds.
pub open spec fn kill_contents(species: Species, gold: u32, ember: bool) -> Seq<Loot> {
    seq![Loot::Gold(gold)] + kill_reagents(species, ember)
}

/// What a slain monster yields besides coins.
pub open spec fn kill_reagents(species: Species, ember: bool) -> Seq<Loot> {
    match species {
        Species::Kraken => seq![Loot::KrakenInk],
        Species::FireDragon | Species::IceDragon | Species::SandDragon => if ember {
            seq![Loot::DragonScale, Loot::Relic { name: Relic::DragonheartEmber }]
        } else {
            seq![Loot::DragonScale]
        },
        Species::Undead => seq![Loot::UndeadBone],
        Species::Eldritch => seq![Loot::EldritchShard],
        _ => Seq::empty(),
    }
}

pub open spec fn is_dragon(species: Species) -> bool {
    species == Species::FireDragon || species == Species::IceDragon || species == Species::SandDragon
}

/// The loot a slain monster leaves on the ground, from its drawn parts.
pub fn kill_loot(species: Species, gold: u32, ember: bool) -> (t: Treasure)
    ensures
        t.gold == gold,
        t.rarity == Rarity::Uncommon,
        !t.buried,
        t.contents@ == kill_contents(species, gold, ember),
        gold_in(t.contents@) == t.gold,
{
    let mut contents: Vec<Loot> = Vec::new();
    contents.push(Loot::Gold(gold));
    match species {
        Species::Kraken => contents.push(Loot::KrakenInk),
        Species::FireDragon | Species::IceDragon | Species::SandDragon => {
            contents.push(Loot::DragonScale);
            if ember {
                contents.push(Loot::Relic { name: Relic::DragonheartEmber });
            }
        },
        Species::Undead => contents.push(Loot::UndeadBone),
        Species::Eldritch => contents.push(Loot::EldritchShard),
        _ => {},
    }
    proof {
        assert(contents@ =~= kill_contents(species, gold, ember));
        lemma_kill_gold(species, gold, ember);
    }
    let total = total_gold(&contents);
    Treasure { gold: total, rarity: Rarity::Uncommon, contents, buried: false }
}

/// Whether a slain monster drops the Dragonheart Ember for a given roll: only
/// dragons do, one time in four.
pub open spec fn ember_drops(species: Species, roll: u32) -> bool {
    is_dragon(species) && roll_below_pct(roll, 25)
}

/// The loot a slain monster leaves for drawn coins and ember roll: the coins,
/// the species' reagent, and the Dragonheart Ember when `ember_drops`.
pub fn loot_from_draws(species: Species, gold: u32, ember_roll: u32) -> (t: Treasure)
    requires
        ember_roll < ROLL_SCALE,
    ensures
        t.gold == gold,
        t.rarity == Rarity::Uncommon,
        !t.buried,
        t.contents@ == kill_contents(species, gold, ember_drops(species, ember_roll)),
        gold_in(t.contents@) == t.gold,
{
    let dragon = match species {
        Species::FireDragon | Species::IceDragon | Species::SandDragon => true,
        _ => false,
    };
    let ember = dragon && roll_is_below_pct(ember_roll, 25);
    kill_loot(species, gold, ember)
}

/// Loot for a slain monster: 10 to 249 gold, the species' reagent, and for a
/// dragon the Dragonheart Ember one time in four. The ember roll is drawn only
/// for dragons; the drawn values rest on chance.
pub fn drop_loot_on_kill(species: Species) -> (t: Treasure)
    ensures
        10 <= t.gold < 250,
        t.rarity == Rarity::Uncommon,
        !t.buried,
        gold_in(t.contents@) == t.gold,
        exists|roll: u32| roll < ROLL_SCALE && t.contents@ == kill_contents(species, t.gold, ember_drops(species, roll)),
{
    let gold = random_range(10, 250);
    let ember_roll = match species {
        Species::FireDragon | Species::IceDragon | Species::SandDragon => random_roll(),
        _ => ROLL_SCALE - 1,
    };
    loot_from_draws(species, gold, ember_roll)
}

/// What each slain species leaves besides its coins, which always come first:
/// kraken ink only from a kraken, a dragon scale only from a dragon, the
/// Dragonheart Ember only from a dragon whose ember dropped, undead bone only
/// from undead, an eldritch shard only from an eldritch horror; sea serpents,
/// wyverns and giant snakes leave their coins alone.
pub proof fn lemma_reagents_by_species(species: Species, gold: u32, ember: bool)
    ensures
        kill_contents(species, gold, ember)[0] == Loot::Gold(gold),
        kill_contents(species, gold, ember).contains(Loot::KrakenInk) <==> species == Species::Kraken,
        kill_contents(species, gold, ember).contains(Loot::DragonScale) <==> is_dragon(species),
        kill_contents(species, gold, ember).contains(Loot::Relic { name: Relic::DragonheartEmber })
            <==> is_dragon(species) && ember,
        kill_contents(species, gold, ember).contains(Loot::UndeadBone) <==> species == Species::Undead,
        kill_contents(species, gold, ember).contains(Loot::EldritchShard) <==> species == Species::Eldritch,
        species == Species::SeaSerpent || species == Species::Wyvern || species == Species::GiantSnake
            ==> kill_contents(species, gold, ember) == seq![Loot::Gold(gold)],
{
    let c = kill_contents(species, gold, ember);
    let g = Loot::Gold(gold);
    match species {
        Species::Kraken => {
            assert(c =~= seq![g, Loot::KrakenInk]);
            assert(c[1] == Loot::KrakenInk);
        },
        Species::FireDragon | Species::IceDragon | Species::SandDragon => {
            if ember {
                assert(c =~= seq![g, Loot::DragonScale, Loot::Relic { name: Relic::DragonheartEmber }]);
                assert(c[1] == Loot::DragonScale);
                assert(c[2] == Loot::Relic { name: Relic::DragonheartEmber });
            } else {
                assert(c =~= seq![g, Loot::DragonScale]);
                assert(c[1] == Loot::DragonScale);
            }
        },
        Species::Undead => {
            assert(c =~= seq![g, Loot::UndeadBone]);
            assert(c[1] == Loot::UndeadBone);
        },
        Species::Eldritch => {
            assert(c =~= seq![g, Loot::EldritchShard]);
            assert(c[1] == Loot::EldritchShard);
        },
        _ => {
            assert(c =~= seq![g]);
        },
    }
}

/// A burial's draws decide its items one roll each: the cache exists exactly
/// when the burial roll falls below the chunk's odds; it then opens with the
/// drawn coins, holds a gem exactly when the gem roll falls below two in five,
/// and a map to `map_target` exactly when the map roll falls below one in four,
/// whatever the gem roll was.
pub proof fn lemma_cache_rolls_decide_items(
    cache: Option<BuriedCache>,
    dominant: Biome,
    tiles: ChunkTiles,
    d: CacheDraws,
    map_target: MapTarget,
)
    requires
        is_cache_from(cache, dominant, tiles, d, map_target),
    ensures
        cache is Some <==> d.bury * 100 < spec_treasure_odds(dominant) * ROLL_SCALE,
        cache is Some ==> cache->0.treasure.contents@[0] == Loot::Gold(d.gold),
        cache is Some ==> (cache->0.treasure.contents@.contains(Loot::Gem) <==> d.gem * 100 < 40 * ROLL_SCALE),
        cache is Some ==> (cache->0.treasure.contents@.contains(Loot::TreasureMap { target: map_target })
            <==> d.map * 100 < 25 * ROLL_SCALE),
{
    if cache is Some {
        let c = cache->0.treasure.contents@;
        let g = Loot::Gold(d.gold);
        let gem = roll_below_pct(d.gem, 40);
        let relic = if holds_relic(drawn_rarity(tiles, d)) { d.relic } else { None };
        let map = if roll_below_pct(d.map, 25) { Some(map_target) } else { None };
        let gs: Seq<Loot> = if gem { seq![Loot::Gem] } else { Seq::empty() };
        let rs: Seq<Loot> = match relic { Some(r) => seq![Loot::Relic { name: r }], None => Seq::empty() };
        let ms: Seq<Loot> = match map { Some(t) => seq![Loot::TreasureMap { target: t }], None => Seq::empty() };
        assert(c =~= seq![g] + gs + rs + ms);
        assert(c[0] == g);
        let pre = seq![g] + gs + rs;
        assert(forall|i: int| 0 <= i < pre.len() ==> pre[i] != Loot::TreasureMap { target: map_target });
        assert(forall|i: int| 0 <= i < ms.len() ==> ms[i] != Loot::Gem);
        assert(forall|i: int| 0 <= i < rs.len() ==> rs[i] != Loot::Gem);
        if map is Some {
            assert(c[pre.len() as int] == Loot::TreasureMap { target: map_target });
        } else {
            assert(c =~= pre);
        }
        if gem {
            assert(c[1] == Loot::Gem);
        } else {
            assert(c =~= seq![g] + rs + ms);
        }
    }
}

/// The chunk's dominant biome only decides whether a cache is buried: two
/// chunks with the same tiles and the same draws that both get a cache get the
/// same one, of the rarity that the roll gives the drawn tile's biome, holding
/// a relic exactly when that rarity is rare or legendary.
pub proof fn lemma_cache_rests_on_tile_not_chunk(
    c1: Option<BuriedCache>,
    c2: Option<BuriedCache>,
    dom1: Biome,
    dom2: Biome,
    tiles: ChunkTiles,
    d: CacheDraws,
    map_target: MapTarget,
)
    requires
        draws_fit(tiles, d),
        is_cache_from(c1, dom1, tiles, d, map_target),
        is_cache_from(c2, dom2, tiles, d, map_target),
        c1 is Some,
        c2 is Some,
    ensures
        c1->0.tile_x == c2->0.tile_x && c1->0.tile_y == c2->0.tile_y,
        c1->0.treasure.rarity == c2->0.treasure.rarity,
        c1->0.treasure.contents@ == c2->0.treasure.contents@,
        c1->0.treasure.rarity == spec_roll_rarity(tiles.biome_of(d.tile_x as int, d.tile_y as int), d.rarity),
        (exists|r: Relic| c1->0.treasure.contents@.contains(Loot::Relic { name: r }))
            <==> (c1->0.treasure.rarity == Rarity::Rare || c1->0.treasure.rarity == Rarity::Legendary),
{
    let c = c1->0.treasure.contents@;
    let g = Loot::Gold(d.gold);
    let gem = roll_below_pct(d.gem, 40);
    let relic = if holds_relic(drawn_rarity(tiles, d)) { d.relic } else { None };
    let map = if roll_below_pct(d.map, 25) { Some(map_target) } else { None };
    let gs: Seq<Loot> = if gem { seq![Loot::Gem] } else { Seq::empty() };
    let rs: Seq<Loot> = match relic { Some(r) => seq![Loot::Relic { name: r }], None => Seq::empty() };
    let ms: Seq<Loot> = match map { Some(t) => seq![Loot::TreasureMap { target: t }], None => Seq::empty() };
    assert(c =~= seq![g] + gs + rs + ms);
    if holds_relic(drawn_rarity(tiles, d)) {
        let r = d.relic->0;
        assert(c[1 + gs.len() as int] == Loot::Relic { name: r });
        assert(c.contains(Loot::Relic { name: r }));
    } else {
        assert(c =~= seq![g] + gs + ms);
        assert forall|r: Relic| !c.contains(Loot::Relic { name: r }) by {
            assert(forall|i: int| 0 <= i < c.len() ==> c[i] != Loot::Relic { name: r });
        }
    }
}

/// Cursed islands hold the most treasure: no other dominant biome gives a chunk
/// better odds of a buried cache than the haunted marsh.
pub proof fn lemma_haunted_marsh_richest(b: Biome)
    ensures
        b != Biome::HauntedMarsh ==> spec_treasure_odds(b) < spec_treasure_odds(Biome::HauntedMarsh),
{
}

/// Which rarities a tile's biome allows: haunted marshes never yield common or
/// uncommon caches, volcanic ash only rare or legendary ones, and other biomes
/// never legendary or cursed ones.
pub proof fn lemma_rarity_by_biome(b: Biome, roll: u32)
    ensures
        b == Biome::HauntedMarsh ==> spec_roll_rarity(b, roll) != Rarity::Common
            && spec_roll_rarity(b, roll) != Rarity::Uncommon,
        b == Biome::VolcanicAsh ==> holds_relic(spec_roll_rarity(b, roll)),
        b != Biome::HauntedMarsh && b != Biome::VolcanicAsh ==> spec_roll_rarity(b, roll) != Rarity::Legendary
            && spec_roll_rarity(b, roll) != Rarity::Cursed,
{
}

} // verus!
