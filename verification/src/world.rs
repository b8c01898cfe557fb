//! Biomes, their climate and monster tables, and the tile grid of a chunk.

use bevy_utils::HashMap;
use vstd::arithmetic::div_mod::lemma_fundamental_div_mod_converse;
use vstd::prelude::*;

verus! {

/// Biomes drive creature spawning, weather bias and loot tables.
#[derive(Clone, Copy, Debug, PartialEq, Eq, Hash, Structural)]
pub enum Biome {
    DeepOcean,
    ShallowSea,
    Beach,
    Jungle,
    Desert,
    Savanna,
    Tundra,
    IceCap,
    VolcanicAsh,
    /// Perma-fogged, cursed island. Undead and eldritch spawners prefer these.
    HauntedMarsh,
    CoralReef,
    MangroveSwamp,
}

/// Base ambient temperature of a biome, in whole degrees Celsius.
pub open spec fn spec_base_temperature(b: Biome) -> int {
    match b {
        Biome::DeepOcean => 10,
        Biome::ShallowSea => 18,
        Biome::Beach => 25,
        Biome::Jungle => 28,
        Biome::Desert => 40,
        Biome::Savanna => 32,
        Biome::Tundra => -5,
        Biome::IceCap => -25,
        Biome::VolcanicAsh => 55,
        Biome::HauntedMarsh => 12,
        Biome::CoralReef => 24,
        Biome::MangroveSwamp => 26,
    }
}

/// How likely each monster is to spawn, in hundredths of a full-weight roll.
#[derive(Clone, Copy, Debug, PartialEq, Eq)]
pub struct MonsterBias {
    pub kraken: u32,
    pub sea_serpent: u32,
    pub fire_dragon: u32,
    pub ice_dragon: u32,
    pub sand_dragon: u32,
    pub wyvern: u32,
    pub giant_snake: u32,
    pub undead: u32,
    pub eldritch: u32,
}

/// The weights of a bias, in the order kraken, sea serpent, fire dragon,
/// ice dragon, sand dragon, wyvern, giant snake, undead, eldritch.
pub open spec fn bias_weights(m: MonsterBias) -> Seq<u32> {
    seq![m.kraken, m.sea_serpent, m.fire_dragon, m.ice_dragon, m.sand_dragon,
        m.wyvern, m.giant_snake, m.undead, m.eldritch]
}

/// No weight for any monster.
pub open spec fn zero_bias() -> MonsterBias {
    MonsterBias {
        kraken: 0,
        sea_serpent: 0,
        fire_dragon: 0,
        ice_dragon: 0,
        sand_dragon: 0,
        wyvern: 0,
        giant_snake: 0,
        undead: 0,
        eldritch: 0,
    }
}

/// The monster table of a biome.
pub open spec fn spec_monster_bias(b: Biome) -> MonsterBias {
    match b {
        Biome::DeepOcean => MonsterBias { kraken: 90, sea_serpent: 60, ..zero_bias() },
        Biome::ShallowSea => MonsterBias { sea_serpent: 30, ..zero_bias() },
        Biome::CoralReef => MonsterBias { sea_serpent: 50, ..zero_bias() },
        Biome::Jungle => MonsterBias { giant_snake: 60, wyvern: 20, ..zero_bias() },
        Biome::Desert => MonsterBias { sand_dragon: 70, ..zero_bias() },
        Biome::VolcanicAsh => MonsterBias { fire_dragon: 90, ..zero_bias() },
        Biome::Tundra | Biome::IceCap => MonsterBias { ice_dragon: 60, ..zero_bias() },
        Biome::HauntedMarsh => MonsterBias { undead: 90, eldritch: 40, ..zero_bias() },
        Biome::MangroveSwamp => MonsterBias { undead: 30, giant_snake: 30, ..zero_bias() },
        _ => zero_bias(),
    }
}

/// The monster table of a biome, as nine weights (see `bias_weights`).
pub open spec fn spec_monster_weights(b: Biome) -> Seq<u32> {
    bias_weights(spec_monster_bias(b))
}

impl MonsterBias {
    /// A bias under which nothing spawns.
    pub fn zero() -> (m: MonsterBias)
        ensures
            m == zero_bias(),
    {
        MonsterBias {
            kraken: 0,
            sea_serpent: 0,
            fire_dragon: 0,
            ice_dragon: 0,
            sand_dragon: 0,
            wyvern: 0,
            giant_snake: 0,
            undead: 0,
            eldritch: 0,
        }
    }
}

impl Default for MonsterBias {
    /// No weight for any monster.
    fn default() -> (m: MonsterBias)
        ensures
            m == zero_bias(),
    {
        MonsterBias::zero()
    }
}

impl Biome {
    /// Base ambient temperature in whole degrees Celsius. Weather and the day
    /// phase modulate this further.
    pub fn base_temperature(&self) -> (t: i32)
        ensures
            t == spec_base_temperature(*self),
    {
        match self {
            Biome::DeepOcean => 10,
            Biome::ShallowSea => 18,
            Biome::Beach => 25,
            Biome::Jungle => 28,
            Biome::Desert => 40,
            Biome::Savanna => 32,
            Biome::Tundra => -5,
            Biome::IceCap => -25,
            Biome::VolcanicAsh => 55,
            Biome::HauntedMarsh => 12,
            Biome::CoralReef => 24,
            Biome::MangroveSwamp => 26,
        }
    }

    /// How likely monsters of each flavour are to spawn here.
    pub fn monster_bias(&self) -> (m: MonsterBias)
        ensures
            m == spec_monster_bias(*self),
    {
        let z = MonsterBias::zero();
        match self {
            Biome::DeepOcean => MonsterBias { kraken: 90, sea_serpent: 60, ..z },
            Biome::ShallowSea => MonsterBias { sea_serpent: 30, ..z },
            Biome::CoralReef => MonsterBias { sea_serpent: 50, ..z },
            Biome::Jungle => MonsterBias { giant_snake: 60, wyvern: 20, ..z },
            Biome::Desert => MonsterBias { sand_dragon: 70, ..z },
            Biome::VolcanicAsh => MonsterBias { fire_dragon: 90, ..z },
            Biome::Tundra | Biome::IceCap => MonsterBias { ice_dragon: 60, ..z },
            Biome::HauntedMarsh => MonsterBias { undead: 90, eldritch: 40, ..z },
            Biome::MangroveSwamp => MonsterBias { undead: 30, giant_snake: 30, ..z },
            _ => z,
        }
    }
}


/// Position of a biome in the declaration order of `Biome`.
pub open spec fn spec_biome_index(b: Biome) -> u8 {
    match b {
        Biome::DeepOcean => 0,
        Biome::ShallowSea => 1,
        Biome::Beach => 2,
        Biome::Jungle => 3,
        Biome::Desert => 4,
        Biome::Savanna => 5,
        Biome::Tundra => 6,
        Biome::IceCap => 7,
        Biome::VolcanicAsh => 8,
        Biome::HauntedMarsh => 9,
        Biome::CoralReef => 10,
        Biome::MangroveSwamp => 11,
    }
}

/// Inverse of `spec_biome_index` on `0..12`.
pub open spec fn spec_biome_at_index(i: u8) -> Biome {
    if i == 0 { Biome::DeepOcean }
    else if i == 1 { Biome::ShallowSea }
    else if i == 2 { Biome::Beach }
    else if i == 3 { Biome::Jungle }
    else if i == 4 { Biome::Desert }
    else if i == 5 { Biome::Savanna }
    else if i == 6 { Biome::Tundra }
    else if i == 7 { Biome::IceCap }
    else if i == 8 { Biome::VolcanicAsh }
    else if i == 9 { Biome::HauntedMarsh }
    else if i == 10 { Biome::CoralReef }
    else { Biome::MangroveSwamp }
}

fn biome_index(b: Biome) -> (i: u8)
    ensures
        i == spec_biome_index(b),
        i < 12,
        spec_biome_at_index(i) == b,
{
    match b {
        Biome::DeepOcean => 0,
        Biome::ShallowSea => 1,
        Biome::Beach => 2,
        Biome::Jungle => 3,
        Biome::Desert => 4,
        Biome::Savanna => 5,
        Biome::Tundra => 6,
        Biome::IceCap => 7,
        Biome::VolcanicAsh => 8,
        Biome::HauntedMarsh => 9,
        Biome::CoralReef => 10,
        Biome::MangroveSwamp => 11,
    }
}

fn biome_at_index(i: u8) -> (b: Biome)
    ensures
        b == spec_biome_at_index(i),
{
    if i == 0 { Biome::DeepOcean }
    else if i == 1 { Biome::ShallowSea }
    else if i == 2 { Biome::Beach }
    else if i == 3 { Biome::Jungle }
    else if i == 4 { Biome::Desert }
    else if i == 5 { Biome::Savanna }
    else if i == 6 { Biome::Tundra }
    else if i == 7 { Biome::IceCap }
    else if i == 8 { Biome::VolcanicAsh }
    else if i == 9 { Biome::HauntedMarsh }
    else if i == 10 { Biome::CoralReef }
    else { Biome::MangroveSwamp }
}

/// Number of occurrences of `b` in `s`.
pub open spec fn count_biome(s: Seq<Biome>, b: Biome) -> nat
    decreases s.len(),
{
    if s.len() == 0 {
        0
    } else {
        count_biome(s.drop_last(), b) + if s.last() == b { 1nat } else { 0nat }
    }
}

/// A tally of tiles per biome, kept in a `bevy_utils::HashMap` keyed by the
/// biome's position in `Biome` (see `spec_biome_index`).
#[verifier::external_body]
pub struct BiomeHistogram {
    counts: HashMap<u8, u32>,
}

/// What a `BiomeHistogram` holds: biome position to tile count.
pub uninterp spec fn histogram_counts(h: BiomeHistogram) -> Map<u8, u32>;

impl View for BiomeHistogram {
    type V = Map<u8, u32>;

    open spec fn view(&self) -> Map<u8, u32> {
        histogram_counts(*self)
    }
}

impl BiomeHistogram {
    /// An empty tally, from `HashMap::default` (hashbrown's `default` builds an
    /// empty table). Claimed: the tally holds no entry.
    #[verifier::external_body]
    pub(crate) fn new() -> (tally: BiomeHistogram)
        ensures
            histogram_counts(tally).dom().is_empty(),
    {
        BiomeHistogram { counts: HashMap::default() }
    }

    /// Reads a count with hashbrown's `HashMap::get`. Claimed: `Some` of the
    /// stored count exactly when the key is present.
    #[verifier::external_body]
    pub(crate) fn get(&self, key: u8) -> (c: Option<u32>)
        ensures
            histogram_counts(*self).contains_key(key) ==> c == Some(histogram_counts(*self)[key]),
            !histogram_counts(*self).contains_key(key) ==> c is None,
    {
        self.counts.get(&key).copied()
    }

    /// Stores a count with hashbrown's `HashMap::insert`. Claimed: the key now
    /// maps to `count` and every other entry is unchanged.
    #[verifier::external_body]
    pub(crate) fn insert(&mut self, key: u8, count: u32)
        ensures
            histogram_counts(*final(self)) == histogram_counts(*old(self)).insert(key, count),
    {
        self.counts.insert(key, count);
    }

    /// Hands out the entries through hashbrown's `HashMap::iter`, in the table's
    /// own order. Claimed: each entry appears once, and the list holds exactly
    /// the entries of the tally; the order is left open.
    #[verifier::external_body]
    pub(crate) fn entries(&self) -> (e: Vec<(u8, u32)>)
        ensures
            forall|i: int, j: int| 0 <= i < j < e@.len() ==> e@[i].0 != e@[j].0,
            forall|i: int| 0 <= i < e@.len() ==> #[trigger] histogram_counts(*self).contains_key(e@[i].0)
                && histogram_counts(*self)[e@[i].0] == e@[i].1,
            forall|k: u8| histogram_counts(*self).contains_key(k)
                ==> exists|i: int| 0 <= i < e@.len() && #[trigger] e@[i].0 == k,
    {
        self.counts.iter().map(|(k, c)| (*k, *c)).collect()
    }
}

proof fn lemma_count_step(s: Seq<Biome>, i: int, b: Biome)
    requires
        0 <= i < s.len(),
    ensures
        count_biome(s.take(i + 1), b) == count_biome(s.take(i), b) + if s[i] == b { 1nat } else { 0nat },
{
    assert(s.take(i + 1).drop_last() =~= s.take(i));
}

proof fn lemma_count_bounded(s: Seq<Biome>, b: Biome)
    ensures
        count_biome(s, b) <= s.len(),
    decreases s.len(),
{
    if s.len() > 0 {
        lemma_count_bounded(s.drop_last(), b);
    }
}

proof fn lemma_count_positive(s: Seq<Biome>, k: int)
    requires
        0 <= k < s.len(),
    ensures
        count_biome(s, s[k]) > 0,
    decreases s.len(),
{
    if k < s.len() - 1 {
        lemma_count_positive(s.drop_last(), k);
    }
}

/// The biome that covers the most tiles. Ties are broken by the order in which
/// the tally is walked; an empty grid gives `DeepOcean`.
pub fn dominant_biome(biomes: &Vec<Biome>) -> (d: Biome)
    requires
        biomes@.len() <= u32::MAX,
    ensures
        biomes@.len() == 0 ==> d == Biome::DeepOcean,
        biomes@.len() > 0 ==> count_biome(biomes@, d) > 0,
        forall|b: Biome| count_biome(biomes@, b) <= count_biome(biomes@, d),
{
    let mut histogram = BiomeHistogram::new();
    let n = biomes.len();
    let mut i: usize = 0;
    while i < n
        invariant
            n == biomes@.len(),
            n <= u32::MAX,
            i <= n,
            forall|k: u8| #[trigger] histogram@.contains_key(k) ==> k < 12,
            forall|b: Biome| #[trigger] histogram@.contains_key(spec_biome_index(b))
                <==> count_biome(biomes@.take(i as int), b) > 0,
            forall|b: Biome| histogram@.contains_key(spec_biome_index(b))
                ==> histogram@[spec_biome_index(b)] == #[trigger] count_biome(biomes@.take(i as int), b),
        decreases n - i,
    {
        let b = biomes[i];
        let k = biome_index(b);
        proof {
            assert forall|c: Biome| #![auto] count_biome(biomes@.take(i + 1), c) == count_biome(biomes@.take(i as int), c)
                + if biomes@[i as int] == c { 1nat } else { 0nat } by {
                lemma_count_step(biomes@, i as int, c);
            }
            lemma_count_bounded(biomes@.take(i as int), b);
        }
        match histogram.get(k) {
            Some(c) => histogram.insert(k, c + 1),
            None => histogram.insert(k, 1),
        }
        proof {
            assert forall|c: Biome| spec_biome_index(c) == k implies c == b by {
                assert(spec_biome_at_index(spec_biome_index(c)) == c);
            }
        }
        i = i + 1;
    }
    assert(biomes@.take(n as int) =~= biomes@);
    let entries = histogram.entries();
    let mut best: Option<(u8, u32)> = None;
    let mut j: usize = 0;
    while j < entries.len()
        invariant
            j <= entries@.len(),
            forall|k: u8| #[trigger] histogram@.contains_key(k) ==> k < 12,
            forall|i1: int| 0 <= i1 < entries@.len() ==> #[trigger] histogram@.contains_key(entries@[i1].0)
                && histogram@[entries@[i1].0] == entries@[i1].1,
            j == 0 <==> best is None,
            best matches Some(p) ==> histogram@.contains_key(p.0) && histogram@[p.0] == p.1
                && forall|i1: int| 0 <= i1 < j ==> #[trigger] entries@[i1].1 <= p.1,
        decreases entries@.len() - j,
    {
        let e = entries[j];
        assert(histogram@.contains_key(entries@[j as int].0));
        match best {
            Some(p) => {
                if e.1 >= p.1 {
                    best = Some(e);
                }
            },
            None => {
                best = Some(e);
            },
        }
        j = j + 1;
    }
    match best {
        Some(p) => {
            let d = biome_at_index(p.0);
            proof {
                assert(spec_biome_index(d) == p.0);
                assert(histogram@.contains_key(spec_biome_index(d)));
                assert forall|b: Biome| count_biome(biomes@, b) <= count_biome(biomes@, d) by {
                    if histogram@.contains_key(spec_biome_index(b)) {
                        let i1 = choose|i1: int| 0 <= i1 < entries@.len() && #[trigger] entries@[i1].0 == spec_biome_index(b);
                        assert(entries@[i1].1 <= p.1);
                    }
                }
            }
            d
        },
        None => {
            proof {
                if biomes@.len() > 0 {
                    let b0 = biomes@[0];
                    lemma_count_positive(biomes@, 0);
                    assert(histogram@.contains_key(spec_biome_index(b0)));
                }
                assert forall|b: Biome| count_biome(biomes@, b) == 0 by {
                    if count_biome(biomes@, b) > 0 {
                        assert(histogram@.contains_key(spec_biome_index(b)));
                    }
                }
            }
            Biome::DeepOcean
        },
    }
}


/// A 2D chunk coordinate, in chunk space (not world space).
#[derive(Clone, Copy, Debug, PartialEq, Eq, Hash, Structural)]
pub struct ChunkCoord {
    pub x: i32,
    pub y: i32,
}

/// Row-major position of tile `(lx, ly)` in a grid of side `size`.
pub open spec fn tile_index(size: int, lx: int, ly: int) -> int {
    ly * size + lx
}

/// The tiles of a chunk: a square grid of biomes stored row by row. Tiles do not
/// get entities of their own; creatures and treasure look them up by position.
#[derive(Debug)]
pub struct ChunkTiles {
    /// Tiles per chunk side.
    pub size: i32,
    /// The biome of each tile, row-major (see `tile_index`).
    pub biomes: Vec<Biome>,
}

impl ChunkTiles {
    /// The grid is square: `size * size` biomes.
    pub open spec fn well_formed(&self) -> bool {
        &&& 0 <= self.size
        &&& self.biomes@.len() == self.size * self.size
    }

    /// The biome of tile `(lx, ly)`.
    pub open spec fn biome_of(&self, lx: int, ly: int) -> Biome {
        self.biomes@[tile_index(self.size as int, lx, ly)]
    }

    /// Position of tile `(lx, ly)` in `biomes`.
    pub fn index(&self, lx: i32, ly: i32) -> (i: usize)
        requires
            i32::MIN <= ly * self.size <= i32::MAX,
            i32::MIN <= tile_index(self.size as int, lx as int, ly as int) <= i32::MAX,
        ensures
            i == tile_index(self.size as int, lx as int, ly as int) as usize,
            0 <= lx < self.size && 0 <= ly < self.size ==> i == tile_index(self.size as int, lx as int, ly as int)
                && i < self.size * self.size,
            self.well_formed() && 0 <= lx < self.size && 0 <= ly < self.size ==> i < self.biomes@.len(),
    {
        let size = self.size;
        proof {
            if 0 <= lx < size && 0 <= ly < size {
                lemma_tile_index_in_grid(size as int, lx as int, ly as int);
            }
        }
        (ly * size + lx) as usize
    }
}

/// Every tile of the grid has a position inside it.
pub proof fn lemma_tile_index_in_grid(size: int, lx: int, ly: int)
    requires
        0 <= lx < size,
        0 <= ly < size,
    ensures
        0 <= tile_index(size, lx, ly) < size * size,
{
    assert(0 <= ly * size + lx < size * size) by (nonlinear_arith)
        requires
            0 <= lx < size,
            0 <= ly < size,
    ;
}

/// Distinct tiles of a grid have distinct positions, so the row-major layout
/// holds one biome per tile.
pub proof fn lemma_tile_index_injective(size: int, lx1: int, ly1: int, lx2: int, ly2: int)
    requires
        0 <= lx1 < size,
        0 <= ly1 < size,
        0 <= lx2 < size,
        0 <= ly2 < size,
        tile_index(size, lx1, ly1) == tile_index(size, lx2, ly2),
    ensures
        lx1 == lx2,
        ly1 == ly2,
{
    lemma_fundamental_div_mod_converse(tile_index(size, lx1, ly1), size, ly1, lx1);
    lemma_fundamental_div_mod_converse(tile_index(size, lx2, ly2), size, ly2, lx2);
}

/// The global tile coordinates of every tile of chunk `coord`, row-major: the
/// tile at position `k` is `(coord.x * size + k % size, coord.y * size + k / size)`.
/// World positions are these times the tile size. A chunk of side zero or less
/// has no tiles.
pub fn chunk_tile_coords(coord: ChunkCoord, size: i32) -> (tiles: Vec<(i32, i32)>)
    requires
        size > 0 ==> {
            &&& i32::MIN <= coord.x * size
            &&& coord.x * size + size - 1 <= i32::MAX
            &&& i32::MIN <= coord.y * size
            &&& coord.y * size + size - 1 <= i32::MAX
            &&& size * size <= usize::MAX
        },
    ensures
        tiles@.len() == if size > 0 { size * size } else { 0 },
        forall|k: int| 0 <= k < tiles@.len() ==> #[trigger] tiles@[k] == (
            (coord.x * size + k % (size as int)) as i32,
            (coord.y * size + k / (size as int)) as i32,
        ),
{
    if size <= 0 {
        return Vec::new();
    }
    let mut tiles: Vec<(i32, i32)> = Vec::new();
    let bx = coord.x * size;
    let by = coord.y * size;
    let mut ly: i32 = 0;
    while ly < size
        invariant
            0 < size,
            bx == coord.x * size,
            by == coord.y * size,
            bx + size - 1 <= i32::MAX,
            by + size - 1 <= i32::MAX,
            0 <= ly <= size,
            tiles@.len() == ly * size,
            forall|k: int| 0 <= k < tiles@.len() ==> #[trigger] tiles@[k] == (
                (coord.x * size + k % (size as int)) as i32,
                (coord.y * size + k / (size as int)) as i32,
            ),
        decreases size - ly,
    {
        let mut lx: i32 = 0;
        while lx < size
            invariant
                0 < size,
                bx == coord.x * size,
                by == coord.y * size,
                bx + size - 1 <= i32::MAX,
                by + size - 1 <= i32::MAX,
                0 <= ly < size,
                0 <= lx <= size,
                tiles@.len() == ly * size + lx,
                forall|k: int| 0 <= k < tiles@.len() ==> #[trigger] tiles@[k] == (
                    (coord.x * size + k % (size as int)) as i32,
                    (coord.y * size + k / (size as int)) as i32,
                ),
            decreases size - lx,
        {
            proof {
                lemma_fundamental_div_mod_converse(ly * size + lx, size as int, ly as int, lx as int);
            }
            tiles.push((bx + lx, by + ly));
            lx = lx + 1;
        }
        assert((ly + 1) * size == ly * size + size) by (nonlinear_arith);
        ly = ly + 1;
    }
    tiles
}

} // verus!
