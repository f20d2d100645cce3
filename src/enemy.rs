//! The target of a hit: its faction and its weaknesses.

use crate::damage::DamageType;
use crate::damage_map::DamageMap;
use crate::fixed::UNIT;
use vstd::prelude::*;

verus! {

/// The faction an enemy belongs to.
#[derive(Debug, Clone, Copy, PartialEq, Eq, Structural)]
pub enum Faction {
    Grineer,
    Corpus,
    Corrupted,
    Infested,
    Murmur,
}

/// An enemy: a faction, and a weakness multiplier for each damage type
/// whose multiplier is not one.
#[derive(Debug)]
pub struct Enemy {
    pub faction: Faction,
    pub weaknesses: DamageMap,
}

/// The multiplier that `weaknesses` gives to `t`: the stored one, else one.
pub open spec fn weakness_in(weaknesses: Map<DamageType, int>, t: DamageType) -> int {
    if weaknesses.contains_key(t) {
        weaknesses[t]
    } else {
        UNIT as int
    }
}

impl Enemy {
    /// An enemy of `faction` with the given weakness multipliers.
    pub fn new(faction: Faction, weaknesses: DamageMap) -> (r: Enemy)
        ensures
            r.faction == faction,
            r.weaknesses@ == weaknesses@,
    {
        Enemy { faction, weaknesses }
    }

    /// The multiplier applied to damage of type `damage_type`.
    pub fn weakness_to(&self, damage_type: &DamageType) -> (r: i128)
        ensures
            r == weakness_in(self.weaknesses@, *damage_type),
    {
        match self.weaknesses.get(*damage_type) {
            Some(w) => w,
            None => UNIT as i128,
        }
    }
}

} // verus!
