use wfcalc::damage::{DamageType, Element, Ips, PrimaryElement, SecondaryElement};
use wfcalc::damage_map::DamageMap;
use wfcalc::enemy::{Enemy, Faction};
use wfcalc::hit::Hit;
use wfcalc::mods::{Mod, ModEffect, ModLibrary};

/// A decimal amount in the library's fixed-point millionths.
fn units(x: f64) -> i128 {
    (x * 1_000_000.0).round() as i128
}

/// A decimal bonus in the library's fixed-point millionths.
fn bonus(x: f64) -> i64 {
    (x * 1_000_000.0).round() as i64
}

fn physical(ips: Ips) -> DamageType {
    DamageType::Physical(ips)
}

fn basic_hit() -> Hit {
    Hit::new(
        DamageMap::from_entries(vec![
            (physical(Ips::Impact), units(30.)),
            (physical(Ips::Puncture), units(30.)),
            (physical(Ips::Slash), units(40.)),
        ]),
        vec![],
        Enemy::new(
            Faction::Infested,
            DamageMap::from_entries(vec![(physical(Ips::Slash), units(1.5))]),
        ),
    )
}

fn elemental_mod(name: &str, element: Element, value: f64) -> Mod {
    Mod {
        name: name.to_owned(),
        effects: vec![ModEffect::Elemental(element, bonus(value))],
    }
}

fn cryo_rounds() -> Mod {
    elemental_mod("Cryo Rounds", Element::Primary(PrimaryElement::Cold), 0.9)
}

fn malignant_force() -> Mod {
    elemental_mod("Malignant Force", Element::Primary(PrimaryElement::Toxin), 0.6)
}

fn hellfire() -> Mod {
    elemental_mod("Hellfire", Element::Primary(PrimaryElement::Heat), 0.9)
}

fn piercing_caliber() -> Mod {
    Mod {
        name: "Piercing Caliber".to_owned(),
        effects: vec![ModEffect::Physical(Ips::Puncture, bonus(1.2))],
    }
}

fn valence_formation_gas() -> Mod {
    elemental_mod(
        "Valence Formation - Gas",
        Element::Secondary(SecondaryElement::Gas),
        2.,
    )
}

fn nagantaka_hit(mods: Vec<Mod>) -> Hit {
    Hit::new(
        DamageMap::from_entries(vec![
            (physical(Ips::Impact), units(1.7)),
            (physical(Ips::Puncture), units(15.6)),
            (physical(Ips::Slash), units(155.7)),
        ]),
        mods,
        Enemy::new(Faction::Infested, DamageMap::new()),
    )
}

fn check_nagantaka_contributions(hit: &Hit) {
    let contributions = hit.contributions();
    assert_eq!(contributions.get(physical(Ips::Impact)).unwrap(), units(0.));
    assert_eq!(
        contributions.get(physical(Ips::Puncture)).unwrap(),
        units(10.8125 + 21.625)
    );
    assert_eq!(contributions.get(physical(Ips::Slash)).unwrap(), units(151.375));
    assert_eq!(
        contributions
            .get(DamageType::Elemental(Element::Secondary(SecondaryElement::Viral)))
            .unwrap(),
        units(259.5)
    );
    assert_eq!(
        contributions
            .get(DamageType::Elemental(Element::Primary(PrimaryElement::Heat)))
            .unwrap(),
        units(151.375)
    );
    assert_eq!(
        contributions
            .get(DamageType::Elemental(Element::Secondary(SecondaryElement::Gas)))
            .unwrap(),
        units(346.)
    );
}

#[test]
fn hit_basic_ips() {
    let hit = basic_hit();
    assert_eq!(hit.total_base(), units(100.));
    assert_eq!(hit.scale(), units(6.25));
    assert_eq!(hit.total_quantized(), units(118.75));
}

#[test]
fn hit_nagantaka_prime_wiki() {
    let mods = ModLibrary::from_mods(vec![cryo_rounds(), malignant_force()]);
    let cryo_rounds = mods
        .get("Cryo Rounds")
        .expect("Cryo Rounds should exist")
        .clone();
    let malignant_force = mods
        .get("Malignant Force")
        .expect("Malignant Force should exist")
        .clone();
    let hit = nagantaka_hit(vec![
        cryo_rounds,
        malignant_force,
        hellfire(),
        piercing_caliber(),
        valence_formation_gas(),
    ]);
    assert_eq!(hit.total_base(), units(173.));
    assert_eq!(hit.scale(), units(10.8125));
    check_nagantaka_contributions(&hit);
    assert_eq!(hit.total_quantized(), units(940.6875));
}

#[test]
fn lib_basic_ips() {
    let hit = basic_hit();
    assert_eq!(hit.total_base(), units(100.));
    assert_eq!(hit.scale(), units(6.25));
    assert_eq!(hit.total_quantized(), units(118.75));
}

#[test]
fn lib_nagantaka_prime_wiki() {
    let hit = nagantaka_hit(vec![
        cryo_rounds(),
        malignant_force(),
        hellfire(),
        piercing_caliber(),
        valence_formation_gas(),
    ]);
    assert_eq!(hit.total_base(), units(173.));
    assert_eq!(hit.scale(), units(10.8125));
    check_nagantaka_contributions(&hit);
    assert_eq!(hit.total_quantized(), units(940.6875));
}

#[test]
fn main_basic_ips() {
    let hit = basic_hit();
    assert_eq!(hit.total_base(), units(100.));
    assert_eq!(hit.scale(), units(6.25));
    assert_eq!(hit.total_quantized(), units(118.75));
}

#[test]
fn main_nagantaka_prime_wiki() {
    let hit = nagantaka_hit(vec![
        cryo_rounds(),
        malignant_force(),
        hellfire(),
        piercing_caliber(),
        valence_formation_gas(),
    ]);
    assert_eq!(hit.total_base(), units(173.));
    assert_eq!(hit.scale(), units(10.8125));
    assert_eq!(hit.total_quantized(), units(940.6875));
}
