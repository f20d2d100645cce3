//! Modifiers and their effects, and a library of named modifiers.

use crate::damage::{Element, Ips};
use crate::enemy::Faction;
use vstd::prelude::*;

verus! {

/// One effect of a modifier. Each amount is a fixed-point bonus in
/// millionths (`900000` is +90%).
#[derive(Debug, Clone, Copy, PartialEq, Eq, Structural)]
pub enum ModEffect {
    AbilityDuration(i64),
    AbilityEfficiency(i64),
    AbilityStrength(i64),
    AbilityRange(i64),
    HealthCapacity(i64),
    HealthRegen(i64),
    ShieldCapacity(i64),
    ShieldRestore(i64),
    ShieldRechargeRate(i64),
    ShieldRechargeDelay(i64),
    ShieldGateDuration(i64),
    Armor(i64),
    Energy(i64),
    EnergyRegen(i64),
    RadarEnemy(i64),
    RadarLoot(i64),
    SprintSpeed(i64),
    Slide(i64),
    Friction(i64),
    DamageReduction(i64),
    DamageRedirection(i64),
    KnockdownResistance(i64),
    PhysicalDamageResistance(i64),
    EnvironmentalIceResistance(i64),
    ElementResistance(Element, i64),
    EnemyAccuracy(i64),
    /// A bonus to one physical damage type, relative to its base amount.
    Physical(Ips, i64),
    /// A bonus to one element, relative to the total base damage.
    Elemental(Element, i64),
    /// A bonus to all damage, active only against the given faction.
    Bane(Faction, i64),
    StatusChance(i64),
    StatusDuration(i64),
    StatusDamage(i64),
    CriticalChance(i64),
    CriticalDamage(i64),
    Multishot(i64),
}

/// An event that activates a conditional effect.
#[derive(Debug, Clone, Copy, PartialEq, Eq, Structural)]
pub enum Trigger {
    Damaged,
    HealthOrbPickup,
    EnergyOrbPickup,
    AmmoPickup,
    Hit,
    Kill,
    WeakpointHit,
    WeakpointKill,
}

/// How much a stack count drops when its time runs out.
#[derive(Debug, Clone, Copy, PartialEq, Eq, Structural)]
pub enum ReduceAmount {
    /// A fixed number of stacks.
    Flat(u32),
    /// A fraction of the stacks, in millionths.
    Relative(i64),
}

/// What happens to stacks when their time runs out.
#[derive(Debug, Clone, Copy, PartialEq, Eq, Structural)]
pub enum TimeoutBehaviour {
    Drop,
    Reduce(ReduceAmount),
}

/// How stacks of a conditional effect last.
#[derive(Debug, Clone, Copy, PartialEq, Eq, Structural)]
pub enum StackingBehaviour {
    /// Stacks last `duration` milliseconds.
    Timed { duration: u64, timeout: TimeoutBehaviour, resets_on_stack: bool },
    Forever,
}

/// The stacking of a conditional effect.
#[derive(Debug, Clone, Copy, PartialEq, Eq, Structural)]
pub struct Stacking {
    pub max: u32,
    pub behaviour: StackingBehaviour,
}

/// An effect with the trigger and stacking that govern it.
#[derive(Debug, Clone, Copy, PartialEq, Eq, Structural)]
pub struct ModStat {
    pub trigger: Option<Trigger>,
    pub stacking: Option<Stacking>,
    pub effect: ModEffect,
}

impl From<ModEffect> for ModStat {
    /// An unconditional, unstacked stat.
    fn from(effect: ModEffect) -> (r: ModStat) {
        ModStat { trigger: None, stacking: None, effect }
    }
}

impl vstd::std_specs::convert::FromSpecImpl<ModEffect> for ModStat {
    open spec fn obeys_from_spec() -> bool {
        true
    }

    open spec fn from_spec(effect: ModEffect) -> ModStat {
        ModStat { trigger: None, stacking: None, effect }
    }
}

/// A modifier: a name and an ordered list of effects.
#[derive(Debug, Clone, PartialEq)]
pub struct Mod {
    pub name: String,
    pub effects: Vec<ModEffect>,
}

/// A collection of modifiers, looked up by name.
#[derive(Debug)]
pub struct ModLibrary {
    mods: Vec<Mod>,
}

impl ModLibrary {
    /// The modifiers the library holds, in the order they were given.
    pub closed spec fn entries(&self) -> Seq<Mod> {
        self.mods@
    }

    /// A library of the given modifiers.
    pub fn from_mods(mods: Vec<Mod>) -> (r: ModLibrary)
        ensures
            r.entries() == mods@,
    {
        ModLibrary { mods }
    }

    /// The modifier named `mod_name`; of several with that name, the last
    /// one given.
    pub fn get(&self, mod_name: &str) -> (r: Option<&Mod>)
        ensures
            r is None <==> forall|i: int| 0 <= i < self.entries().len()
                ==> #[trigger] self.entries()[i].name@ != mod_name@,
            r is Some ==> exists|i: int| 0 <= i < self.entries().len()
                && self.entries()[i].name@ == mod_name@
                && *r->0 == self.entries()[i]
                && forall|j: int| i < j < self.entries().len()
                    ==> #[trigger] self.entries()[j].name@ != mod_name@,
    {
        let key = String::from_str(mod_name);
        let mut i: usize = self.mods.len();
        while i > 0
            invariant
                i <= self.mods@.len(),
                key@ == mod_name@,
                forall|j: int| i <= j < self.mods@.len() ==> #[trigger] self.mods@[j].name@ != mod_name@,
            decreases i,
        {
            i = i - 1;
            if self.mods[i].name == key {
                assert(self.mods@[i as int].name@ == mod_name@);
                assert(self.entries()[i as int] == self.mods@[i as int]);
                return Some(&self.mods[i]);
            }
        }
        None
    }
}

} // verus!
