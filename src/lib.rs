//! Hit-resolution engine of a game-damage calculator: quantized, weakness-scaled
//! damage per damage type, with primary elements fusing into secondary ones.
//!
//! Fractional quantities (damage amounts, bonuses, multipliers) are fixed-point
//! integers counted in millionths; see [`fixed::UNIT`].

pub mod damage;
pub mod fixed;
pub mod damage_map;
pub mod enemy;
pub mod mods;
pub mod physical;
pub mod elemental;
pub mod hit;
pub mod hit_lemmas;
pub mod upgrade;
pub mod weapon;
