//! Combat as a rules engine: world facts (this creature is submerged, that one
//! stands in heat haze) become damage. There are no per-monster scripts; a fire
//! dragon drowns because it is submerged and cannot breathe water.

use vstd::prelude::*;

use crate::creatures::{spec_archetype, Affinity, Species};

verus! {

/// Kinds of damage. Each hits a specific affinity channel.
#[derive(Clone, Copy, Debug, PartialEq, Eq, Hash, Structural)]
pub enum DamageKind {
    Physical,
    Fire,
    Ice,
    Lightning,
    Water,
    Holy,
    Sanity,
}

/// Environment tags of a body, set each frame from the ocean and the weather.
#[derive(Clone, Copy, Debug, PartialEq, Eq, Structural)]
pub struct Environment {
    pub submerged: bool,
    pub in_rain: bool,
    pub in_fog: bool,
    pub in_heat: bool,
    pub in_freeze: bool,
}

impl Default for Environment {
    /// No tag set.
    fn default() -> (e: Environment)
        ensures
            !e.submerged && !e.in_rain && !e.in_fog && !e.in_heat && !e.in_freeze,
    {
        Environment { submerged: false, in_rain: false, in_fog: false, in_heat: false, in_freeze: false }
    }
}

/// Damage that keeps coming while a condition lasts: the amount per frame is
/// `per_second` times the frame's length in seconds.
#[derive(Clone, Copy, Debug, PartialEq, Eq, Structural)]
pub struct DamageRate {
    pub kind: DamageKind,
    pub per_second: u32,
}

pub open spec fn spec_can_breathe_water(species: Species) -> bool {
    match species {
        Species::Kraken | Species::SeaSerpent | Species::Undead | Species::Eldritch => true,
        _ => false,
    }
}

/// Whether a species survives being submerged.
pub fn can_breathe_water(species: Species) -> (b: bool)
    ensures
        b == spec_can_breathe_water(species),
{
    match species {
        Species::Kraken | Species::SeaSerpent | Species::Undead | Species::Eldritch => true,
        _ => false,
    }
}

/// `r` if `c` holds, nothing otherwise.
pub open spec fn rate_if(c: bool, r: DamageRate) -> Seq<DamageRate> {
    if c { seq![r] } else { Seq::empty() }
}

/// The inhospitable conditions of an environment as damage per second, in this
/// order: drowning, heat, frost, and sunlight on eldritch flesh.
pub open spec fn spec_environmental_damage(species: Species, env: Environment) -> Seq<DamageRate> {
    rate_if(env.submerged && !spec_can_breathe_water(species), DamageRate { kind: DamageKind::Water, per_second: 100 })
        + rate_if(env.in_heat && (species == Species::IceDragon || species == Species::Undead
            || species == Species::Kraken),
            DamageRate { kind: DamageKind::Fire, per_second: 12 })
        + rate_if(env.in_freeze && (species == Species::FireDragon || species == Species::SandDragon),
            DamageRate { kind: DamageKind::Ice, per_second: 12 })
        + rate_if(env.in_heat && species == Species::Eldritch, DamageRate { kind: DamageKind::Sanity, per_second: 25 })
}

/// Converts the environment tags of a creature into damage per second. This is
/// where "drown the fire dragon" happens: a submerged creature that cannot
/// breathe water takes water damage every frame.
pub fn environmental_damage(species: Species, env: Environment) -> (rates: Vec<DamageRate>)
    ensures
        rates@ == spec_environmental_damage(species, env),
        env.submerged && !spec_can_breathe_water(species)
            ==> rates@.contains(DamageRate { kind: DamageKind::Water, per_second: 100 }),
        !env.submerged && !env.in_heat && !env.in_freeze ==> rates@.len() == 0,
{
    let mut rates: Vec<DamageRate> = Vec::new();
    if env.submerged && !can_breathe_water(species) {
        rates.push(DamageRate { kind: DamageKind::Water, per_second: 100 });
    }
    let heat_prone = match species {
        Species::IceDragon | Species::Undead | Species::Kraken => true,
        _ => false,
    };
    if env.in_heat && heat_prone {
        rates.push(DamageRate { kind: DamageKind::Fire, per_second: 12 });
    }
    let frost_prone = match species {
        Species::FireDragon | Species::SandDragon => true,
        _ => false,
    };
    if env.in_freeze && frost_prone {
        rates.push(DamageRate { kind: DamageKind::Ice, per_second: 12 });
    }
    let sun_prone = match species {
        Species::Eldritch => true,
        _ => false,
    };
    if env.in_heat && sun_prone {
        rates.push(DamageRate { kind: DamageKind::Sanity, per_second: 25 });
    }
    proof {
        assert(rates@ =~= spec_environmental_damage(species, env));
        if env.submerged && !spec_can_breathe_water(species) {
            assert(rates@[0] == DamageRate { kind: DamageKind::Water, per_second: 100 });
        }
    }
    rates
}

/// The multiplier, in hundredths, that an affinity applies to a damage kind.
/// Each kind of damage goes through its own channel of the affinity.
pub open spec fn spec_damage_multiplier(aff: Affinity, kind: DamageKind) -> u32 {
    match kind {
        DamageKind::Physical => aff.physical,
        DamageKind::Fire => aff.fire,
        DamageKind::Ice => aff.ice,
        DamageKind::Lightning => aff.lightning,
        DamageKind::Water => aff.water,
        DamageKind::Holy => aff.holy,
        DamageKind::Sanity => aff.sanity,
    }
}

/// The multiplier, in hundredths, that a creature's affinity applies to a
/// damage kind: damage taken is the amount times this over 100.
pub fn damage_multiplier(aff: &Affinity, kind: DamageKind) -> (m: u32)
    ensures
        m == spec_damage_multiplier(*aff, kind),
{
    match kind {
        DamageKind::Physical => aff.physical,
        DamageKind::Fire => aff.fire,
        DamageKind::Ice => aff.ice,
        DamageKind::Lightning => aff.lightning,
        DamageKind::Water => aff.water,
        DamageKind::Holy => aff.holy,
        DamageKind::Sanity => aff.sanity,
    }
}

/// Every kind of damage reads the affinity's own field for that kind, and no
/// other: an ice attack is scaled by `ice`, a fire attack by `fire`, and so on.
pub proof fn lemma_each_kind_its_own_channel(aff: Affinity)
    ensures
        spec_damage_multiplier(aff, DamageKind::Physical) == aff.physical,
        spec_damage_multiplier(aff, DamageKind::Fire) == aff.fire,
        spec_damage_multiplier(aff, DamageKind::Ice) == aff.ice,
        spec_damage_multiplier(aff, DamageKind::Lightning) == aff.lightning,
        spec_damage_multiplier(aff, DamageKind::Water) == aff.water,
        spec_damage_multiplier(aff, DamageKind::Holy) == aff.holy,
        spec_damage_multiplier(aff, DamageKind::Sanity) == aff.sanity,
{
}

/// Two affinities that differ in one field scale only that field's damage kind
/// differently; every other kind is scaled alike.
pub proof fn lemma_channels_independent(a: Affinity, b: Affinity, kind: DamageKind)
    requires
        a.physical == b.physical || kind != DamageKind::Physical,
        a.fire == b.fire || kind != DamageKind::Fire,
        a.ice == b.ice || kind != DamageKind::Ice,
        a.lightning == b.lightning || kind != DamageKind::Lightning,
        a.water == b.water || kind != DamageKind::Water,
        a.holy == b.holy || kind != DamageKind::Holy,
        a.sanity == b.sanity || kind != DamageKind::Sanity,
    ensures
        spec_damage_multiplier(a, kind) == spec_damage_multiplier(b, kind),
{
}

/// Elemental weaknesses: fire and ice dragons each take more than full damage
/// from the other's element, and undead shrug off physical blows entirely while
/// fire and holy damage hurt them more than full.
pub proof fn lemma_elemental_weaknesses()
    ensures
        spec_damage_multiplier(spec_archetype(Species::FireDragon).1, DamageKind::Ice) > 100,
        spec_damage_multiplier(spec_archetype(Species::IceDragon).1, DamageKind::Fire) > 100,
        spec_damage_multiplier(spec_archetype(Species::Undead).1, DamageKind::Physical) == 0,
        spec_damage_multiplier(spec_archetype(Species::Undead).1, DamageKind::Fire) > 100,
        spec_damage_multiplier(spec_archetype(Species::Undead).1, DamageKind::Holy) > 100,
        spec_archetype(Species::Undead).1.fire > 100,
        spec_archetype(Species::Undead).1.holy > 100,
        spec_archetype(Species::Undead).1.physical == 0,
{
}

/// Damage per second, in hundredths of a hit point, that a list of rates deals
/// to a creature of affinity `aff`.
pub open spec fn hundredths_per_second(rates: Seq<DamageRate>, aff: Affinity) -> int
    decreases rates.len(),
{
    if rates.len() == 0 {
        0
    } else {
        hundredths_per_second(rates.drop_last(), aff)
            + rates.last().per_second * spec_damage_multiplier(aff, rates.last().kind)
    }
}

proof fn lemma_hundredths_single(r: DamageRate, aff: Affinity)
    ensures
        hundredths_per_second(seq![r], aff) == r.per_second * spec_damage_multiplier(aff, r.kind),
{
    assert(seq![r].drop_last() =~= Seq::<DamageRate>::empty());
    assert(hundredths_per_second(Seq::<DamageRate>::empty(), aff) == 0);
    assert(seq![r].last() == r);
}

/// The environment is the weapon: a fire dragon forced under water, and out of
/// any freezing cold, takes 300 damage per second; a kraken dragged into heat
/// takes fire damage, halved by its resistance, that it never takes out of the
/// heat; and undead take no physical damage at all.
pub proof fn lemma_environmental_kills(env: Environment)
    ensures
        env.submerged && !env.in_freeze ==> hundredths_per_second(
            spec_environmental_damage(Species::FireDragon, env),
            spec_archetype(Species::FireDragon).1,
        ) == 300 * 100,
        env.in_heat ==> hundredths_per_second(
            spec_environmental_damage(Species::Kraken, env),
            spec_archetype(Species::Kraken).1,
        ) == 6 * 100,
        !env.in_heat ==> hundredths_per_second(
            spec_environmental_damage(Species::Kraken, env),
            spec_archetype(Species::Kraken).1,
        ) == 0,
        spec_damage_multiplier(spec_archetype(Species::Undead).1, DamageKind::Physical) == 0,
{
    let fd = spec_environmental_damage(Species::FireDragon, env);
    let kr = spec_environmental_damage(Species::Kraken, env);
    assert(hundredths_per_second(Seq::<DamageRate>::empty(), spec_archetype(Species::Kraken).1) == 0);
    if env.submerged && !env.in_freeze {
        assert(fd =~= seq![DamageRate { kind: DamageKind::Water, per_second: 100 }]);
        lemma_hundredths_single(DamageRate { kind: DamageKind::Water, per_second: 100 }, spec_archetype(Species::FireDragon).1);
    }
    if env.in_heat {
        assert(kr =~= seq![DamageRate { kind: DamageKind::Fire, per_second: 12 }]);
        lemma_hundredths_single(DamageRate { kind: DamageKind::Fire, per_second: 12 }, spec_archetype(Species::Kraken).1);
    } else {
        assert(kr =~= Seq::<DamageRate>::empty());
    }
}

} // verus!
