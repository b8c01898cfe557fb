//! The player's hold: what the crew carries home from treasure.

use vstd::prelude::*;

use crate::treasure::{Loot, MapTarget, Relic, Treasure};

verus! {

/// Everything the player has collected.
#[derive(Debug)]
pub struct Inventory {
    pub gold: u32,
    pub maps: Vec<MapTarget>,
    pub relics: Vec<Relic>,
    pub dragon_scales: u32,
    pub kraken_ink: u32,
    pub undead_bones: u32,
    pub eldritch_shards: u32,
    pub gems: u32,
}

impl Inventory {
    /// An empty hold.
    pub fn new() -> (inv: Inventory)
        ensures
            inv.gold == 0,
            inv.maps@.len() == 0,
            inv.relics@.len() == 0,
            inv.dragon_scales == 0,
            inv.kraken_ink == 0,
            inv.undead_bones == 0,
            inv.eldritch_shards == 0,
            inv.gems == 0,
    {
        Inventory {
            gold: 0,
            maps: Vec::new(),
            relics: Vec::new(),
            dragon_scales: 0,
            kraken_ink: 0,
            undead_bones: 0,
            eldritch_shards: 0,
            gems: 0,
        }
    }
}

impl Default for Inventory {
    /// An empty hold.
    fn default() -> (inv: Inventory)
        ensures
            inv.gold == 0,
            inv.maps@.len() == 0,
            inv.relics@.len() == 0,
            inv.dragon_scales == 0,
            inv.kraken_ink == 0,
            inv.undead_bones == 0,
            inv.eldritch_shards == 0,
            inv.gems == 0,
    {
        Inventory::new()
    }
}

/// Number of times `item` occurs in `s`.
pub open spec fn count_of(s: Seq<Loot>, item: Loot) -> nat
    decreases s.len(),
{
    if s.len() == 0 {
        0
    } else {
        count_of(s.drop_last(), item) + if s.last() == item { 1nat } else { 0nat }
    }
}

/// The relics in `s`, in order.
pub open spec fn relics_in(s: Seq<Loot>) -> Seq<Relic>
    decreases s.len(),
{
    if s.len() == 0 {
        Seq::empty()
    } else {
        relics_in(s.drop_last()) + match s.last() {
            Loot::Relic { name } => seq![name],
            _ => Seq::empty(),
        }
    }
}

/// The targets of the treasure maps in `s`, in order.
pub open spec fn maps_in(s: Seq<Loot>) -> Seq<MapTarget>
    decreases s.len(),
{
    if s.len() == 0 {
        Seq::empty()
    } else {
        maps_in(s.drop_last()) + match s.last() {
            Loot::TreasureMap { target } => seq![target],
            _ => Seq::empty(),
        }
    }
}

proof fn lemma_count_prefix(s: Seq<Loot>, n: int, item: Loot)
    requires
        0 <= n <= s.len(),
    ensures
        count_of(s.take(n), item) <= count_of(s, item),
    decreases s.len() - n,
{
    if n < s.len() {
        lemma_count_prefix(s, n + 1, item);
        assert(s.take(n + 1).drop_last() =~= s.take(n));
    } else {
        assert(s.take(n) =~= s);
    }
}

/// The hold can take a treasure without any tally running past `u32::MAX`.
pub open spec fn can_absorb(inv: &Inventory, t: &Treasure) -> bool {
    &&& inv.gold + t.gold <= u32::MAX
    &&& inv.gems + count_of(t.contents@, Loot::Gem) <= u32::MAX
    &&& inv.dragon_scales + count_of(t.contents@, Loot::DragonScale) <= u32::MAX
    &&& inv.kraken_ink + count_of(t.contents@, Loot::KrakenInk) <= u32::MAX
    &&& inv.undead_bones + count_of(t.contents@, Loot::UndeadBone) <= u32::MAX
    &&& inv.eldritch_shards + count_of(t.contents@, Loot::EldritchShard) <= u32::MAX
}

/// Takes a treasure into the hold: its gold (the `Gold` items are already summed
/// in it, so they add nothing more), each gem and reagent, and the relics and
/// maps in the order the treasure lists them.
pub fn absorb_treasure(inv: &mut Inventory, t: &Treasure)
    requires
        can_absorb(old(inv), t),
    ensures
        final(inv).gold == old(inv).gold + t.gold,
        final(inv).gems == old(inv).gems + count_of(t.contents@, Loot::Gem),
        final(inv).dragon_scales == old(inv).dragon_scales + count_of(t.contents@, Loot::DragonScale),
        final(inv).kraken_ink == old(inv).kraken_ink + count_of(t.contents@, Loot::KrakenInk),
        final(inv).undead_bones == old(inv).undead_bones + count_of(t.contents@, Loot::UndeadBone),
        final(inv).eldritch_shards == old(inv).eldritch_shards + count_of(t.contents@, Loot::EldritchShard),
        final(inv).relics@ == old(inv).relics@ + relics_in(t.contents@),
        final(inv).maps@ == old(inv).maps@ + maps_in(t.contents@),
{
    let ghost start = *inv;
    let ghost start_relics = inv.relics@;
    let ghost start_maps = inv.maps@;
    inv.gold = inv.gold + t.gold;
    let ghost c = t.contents@;
    let mut i: usize = 0;
    while i < t.contents.len()
        invariant
            c == t.contents@,
            i <= c.len(),
            can_absorb(&start, t),
            inv.gold == start.gold + t.gold,
            inv.gems == start.gems + count_of(c.take(i as int), Loot::Gem),
            inv.dragon_scales == start.dragon_scales + count_of(c.take(i as int), Loot::DragonScale),
            inv.kraken_ink == start.kraken_ink + count_of(c.take(i as int), Loot::KrakenInk),
            inv.undead_bones == start.undead_bones + count_of(c.take(i as int), Loot::UndeadBone),
            inv.eldritch_shards == start.eldritch_shards + count_of(c.take(i as int), Loot::EldritchShard),
            inv.relics@ == start_relics + relics_in(c.take(i as int)),
            inv.maps@ == start_maps + maps_in(c.take(i as int)),
        decreases c.len() - i,
    {
        proof {
            assert(c.take(i + 1).drop_last() =~= c.take(i as int));
            lemma_count_prefix(c, i + 1, Loot::Gem);
            lemma_count_prefix(c, i + 1, Loot::DragonScale);
            lemma_count_prefix(c, i + 1, Loot::KrakenInk);
            lemma_count_prefix(c, i + 1, Loot::UndeadBone);
            lemma_count_prefix(c, i + 1, Loot::EldritchShard);
        }
        match t.contents[i] {
            Loot::Gold(_) => {},
            Loot::Gem => inv.gems = inv.gems + 1,
            Loot::Relic { name } => inv.relics.push(name),
            Loot::TreasureMap { target } => inv.maps.push(target),
            Loot::DragonScale => inv.dragon_scales = inv.dragon_scales + 1,
            Loot::KrakenInk => inv.kraken_ink = inv.kraken_ink + 1,
            Loot::UndeadBone => inv.undead_bones = inv.undead_bones + 1,
            Loot::EldritchShard => inv.eldritch_shards = inv.eldritch_shards + 1,
        }
        proof {
            assert(inv.relics@ =~= start_relics + relics_in(c.take(i + 1)));
            assert(inv.maps@ =~= start_maps + maps_in(c.take(i + 1)));
        }
        i = i + 1;
    }
    assert(c.take(i as int) =~= c);
}

} // verus!
