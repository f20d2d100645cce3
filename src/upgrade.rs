//! Upgrade records as the game's public export describes them.

use vstd::prelude::*;

verus! {

/// One upgrade (a mod, aura or stance) of the public export.
#[derive(Debug, PartialEq)]
pub struct Upgrade {
    pub available_challenges: Vec<AvailableChallenge>,
    pub base_drain: u32,
    pub codex_secret: bool,
    pub compat_name: String,
    pub description: Description,
    pub exclude_from_codex: bool,
    pub export_avionics: Option<Box<Upgrade>>,
    pub name: String,
    pub polarity: Polarity,
    pub rarity: Rarity,
    pub fusion_limit: u32,
    /// The slot kind the upgrade fits.
    pub ty: Type,
    pub level_stats: Vec<LevelStat>,
}

/// The polarity of an upgrade; `Error` stands for an unknown code.
#[derive(Debug, Clone, Copy, PartialEq, Eq, Structural)]
pub enum Polarity {
    Madurai,
    Vazarin,
    Naramon,
    Precept,
    Tactic,
    Umbra,
    Universal,
    Aura,
    Error,
}

/// The rarity of an upgrade; `Error` stands for an unknown code.
#[derive(Debug, Clone, Copy, PartialEq, Eq, Structural)]
pub enum Rarity {
    Common,
    Uncommon,
    Rare,
    Legendary,
    Error,
}

/// A description: one text, or one text per rank.
#[derive(Debug, Clone, PartialEq)]
pub enum Description {
    String(String),
    AoString(Vec<String>),
}

/// The slot kind of an upgrade; `Error` stands for an unknown code.
#[derive(Debug, Clone, Copy, PartialEq, Eq, Structural)]
pub enum Type {
    ArchGun,
    ArchMelee,
    Archwing,
    Aura,
    HelminthCharger,
    Kavat,
    Kubrow,
    Melee,
    Parazon,
    Primary,
    Secondary,
    Sentinel,
    Stance,
    Warframe,
    Unspecified,
    Error,
}

/// The stat lines of one rank.
#[derive(Debug, Clone, PartialEq)]
pub struct LevelStat {
    pub stats: Vec<String>,
}

/// A challenge that can be attached to an upgrade.
#[derive(Debug, Clone, PartialEq)]
pub struct AvailableChallenge {
    pub full_name: String,
    pub description: String,
    pub complications: Vec<Complication>,
}

/// A complication of a challenge.
#[derive(Debug, Clone, PartialEq)]
pub struct Complication {
    pub full_name: String,
    pub description: String,
}

} // verus!
