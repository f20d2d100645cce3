//! Weapon classification.

use vstd::prelude::*;

verus! {

/// A weapon, by its type.
#[derive(Debug, PartialEq)]
pub struct Weapon {
    pub ty: WeaponType,
}

/// The class of a weapon.
#[derive(Debug, PartialEq)]
pub enum WeaponType {
    Primary(PrimaryWeaponType),
    Secondary(SecondaryWeaponType),
    Melee(MeleeWeaponType),
    Exalted(Box<WeaponType>),
    Archwing(ArchwingWeaponType),
    Companion(CompanionWeaponType),
    Modular(ModularWeaponType),
    Railjack(RailjackWeaponType),
}

#[derive(Debug, Clone, Copy, PartialEq, Eq, Structural)]
pub enum PrimaryWeaponType {
    ArmCannon,
    Bow,
    Crossbow,
    Launcher,
    Rifle,
    Shotgun,
    SniperRifle,
    Speargun,
}

#[derive(Debug, Clone, Copy, PartialEq, Eq, Structural)]
pub enum SecondaryWeaponType {
    Crossbow,
    DualPistols,
    DualShotguns,
    Pistol,
    ShotgunSidearm,
    Thrown,
    Tome,
}

#[derive(Debug, Clone, Copy, PartialEq, Eq, Structural)]
pub enum MeleeWeaponType {
    AssaultSaw,
    BladeAndWhip,
    Claws,
    Dagger,
    DualDaggers,
    DualNikanas,
    DualSwords,
    Fist,
    Glaive,
    Gunblade,
    Hammer,
    HeavyBlade,
    HeavyScythe,
    Machete,
    Nikana,
    Nunchaku,
    Polearm,
    Rapier,
    Scythe,
    Sparring,
    Staff,
    SwordAndShield,
    Sword,
    Tonfa,
    TwoHandedNikana,
    Warfan,
    Whip,
}

#[derive(Debug, Clone, Copy, PartialEq, Eq, Structural)]
pub enum ArchwingWeaponType {
    Archgun,
    DualPistols,
    Launcher,
    Melee,
    Rifle,
    Shotgun,
}

#[derive(Debug, Clone, Copy, PartialEq, Eq, Structural)]
pub enum CompanionWeaponType {
    Glaive,
    Melee,
    Pistol,
    Rifle,
    Shotgun,
    SniperRifle,
}

#[derive(Debug, Clone, Copy, PartialEq, Eq, Structural)]
pub enum ModularWeaponType {
    Amp,
    Launcher,
    Melee(MeleeWeaponType),
    Pistol,
    Rifle,
    Shotgun,
}

#[derive(Debug, Clone, Copy, PartialEq, Eq, Structural)]
pub enum RailjackWeaponType {
    Ordnance,
    Turret,
}

} // verus!
