use wfcalc::damage::{DamageType, Element, Ips, PrimaryElement, SecondaryElement, Special};
use wfcalc::damage_map::DamageMap;
use wfcalc::elemental::ElementalCalculator;
use wfcalc::enemy::{Enemy, Faction};
use wfcalc::fixed::{div_round, UNIT};
use wfcalc::hit::{resolve, CalcError, Hit};
use wfcalc::mods::{Mod, ModEffect, ModLibrary, ModStat};
use wfcalc::physical::PhysicalCalculator;

fn physical(ips: Ips) -> DamageType {
    DamageType::Physical(ips)
}

fn primary(p: PrimaryElement) -> DamageType {
    DamageType::Elemental(Element::Primary(p))
}

fn secondary(s: SecondaryElement) -> DamageType {
    DamageType::Elemental(Element::Secondary(s))
}

fn one_mod(effects: Vec<ModEffect>) -> Vec<Mod> {
    vec![Mod {
        name: "Test".to_owned(),
        effects,
    }]
}

fn physical_hit(impact: i128, puncture: i128, slash: i128, mods: Vec<Mod>, enemy: Enemy) -> Hit {
    Hit::new(
        DamageMap::from_entries(vec![
            (physical(Ips::Impact), impact),
            (physical(Ips::Puncture), puncture),
            (physical(Ips::Slash), slash),
        ]),
        mods,
        enemy,
    )
}

fn plain_enemy() -> Enemy {
    Enemy::new(Faction::Grineer, DamageMap::new())
}

#[test]
fn unmodified_total_is_base_total_within_rounding() {
    // 10, 20, 70 over a step of 6.25: 1.6, 3.2 and 11.2 steps.
    let hit = physical_hit(10_000_000, 20_000_000, 70_000_000, vec![], plain_enemy());
    let total = hit.total_quantized();
    let base = hit.total_base();
    assert_eq!(base, 100_000_000);
    // 2 + 3 + 11 steps of 6.25.
    assert_eq!(total, 100_000_000);
    assert!(2 * (total - base).abs() <= 3 * hit.scale());

    // 3, 3, 3 over a step of 0.5625: 5.33 steps each, rounded down.
    let hit = physical_hit(3_000_000, 3_000_000, 3_000_000, vec![], plain_enemy());
    assert_eq!(hit.scale(), 562_500);
    assert_eq!(hit.total_quantized(), 3 * 5 * 562_500);
    assert!(2 * (hit.total_quantized() - hit.total_base()).abs() <= 3 * hit.scale());
}

#[test]
fn scale_is_a_sixteenth_and_quantize_is_idempotent() {
    let hit = physical_hit(30_000_000, 30_000_000, 40_000_000, vec![], plain_enemy());
    assert_eq!(hit.scale(), hit.total_base() / 16);
    assert_eq!(hit.quantize(3 * 6_250_000), 3 * 6_250_000);
    assert_eq!(hit.quantize(-2 * 6_250_000), -2 * 6_250_000);
    let once = hit.quantize(10_000_001);
    assert_eq!(once, 2 * 6_250_000);
    assert_eq!(hit.quantize(once), once);
    // Halves round away from zero.
    assert_eq!(hit.quantize(3_125_000), 6_250_000);
    assert_eq!(hit.quantize(-3_125_000), -6_250_000);
}

#[test]
fn zero_base_damage_quantizes_to_zero() {
    let hit = Hit::new(DamageMap::new(), one_mod(vec![ModEffect::Elemental(Element::Primary(PrimaryElement::Heat), 900_000)]), plain_enemy());
    assert_eq!(hit.total_base(), 0);
    assert_eq!(hit.scale(), 0);
    assert_eq!(hit.quantize(12_345_678), 0);
    let contributions = hit.contributions();
    assert_eq!(contributions.get(primary(PrimaryElement::Heat)), Some(0));
    assert_eq!(hit.total_quantized(), 0);
}

#[test]
fn paired_primaries_fuse_into_their_secondary() {
    let mut calculator = ElementalCalculator::new(None);
    calculator.add(Element::Primary(PrimaryElement::Cold), 900_000);
    calculator.add(Element::Primary(PrimaryElement::Toxin), 600_000);
    let result = calculator.finalize();
    assert_eq!(result.get(secondary(SecondaryElement::Viral)), Some(1_500_000));
    assert_eq!(result.get(primary(PrimaryElement::Cold)), Some(0));
    assert_eq!(result.get(primary(PrimaryElement::Toxin)), None);
    assert_eq!(result.entries().len(), 2);
}

#[test]
fn one_primary_can_feed_several_secondaries() {
    // Cold and Heat fuse into Blast; Toxin then finds no positive partner.
    // A second Heat bonus tops up Blast and fuses with Toxin into Gas.
    let mut calculator = ElementalCalculator::new(None);
    calculator.add(Element::Primary(PrimaryElement::Cold), 100_000);
    calculator.add(Element::Primary(PrimaryElement::Heat), 200_000);
    calculator.add(Element::Primary(PrimaryElement::Toxin), 300_000);
    calculator.add(Element::Primary(PrimaryElement::Heat), 400_000);
    let result = calculator.finalize();
    assert_eq!(result.get(secondary(SecondaryElement::Blast)), Some(700_000));
    assert_eq!(result.get(secondary(SecondaryElement::Gas)), Some(700_000));
    assert_eq!(result.get(primary(PrimaryElement::Cold)), Some(0));
    assert_eq!(result.get(primary(PrimaryElement::Toxin)), Some(0));
    assert_eq!(result.get(primary(PrimaryElement::Heat)), None);
}

#[test]
fn later_primary_tops_up_a_fused_secondary() {
    let mut calculator = ElementalCalculator::new(None);
    calculator.add(Element::Primary(PrimaryElement::Cold), 900_000);
    calculator.add(Element::Primary(PrimaryElement::Toxin), 600_000);
    calculator.add(Element::Primary(PrimaryElement::Cold), 500_000);
    let result = calculator.finalize();
    assert_eq!(result.get(secondary(SecondaryElement::Viral)), Some(2_000_000));
    assert_eq!(result.get(primary(PrimaryElement::Cold)), Some(0));
}

#[test]
fn non_positive_partner_does_not_fuse() {
    let mut calculator = ElementalCalculator::new(None);
    calculator.add(Element::Primary(PrimaryElement::Heat), -100_000);
    calculator.add(Element::Primary(PrimaryElement::Electricity), 400_000);
    let result = calculator.finalize();
    assert_eq!(result.get(primary(PrimaryElement::Heat)), Some(-100_000));
    assert_eq!(result.get(primary(PrimaryElement::Electricity)), Some(400_000));
    assert_eq!(result.get(secondary(SecondaryElement::Radiation)), None);
}

#[test]
fn direct_secondary_appears_unchanged() {
    let mods = one_mod(vec![
        ModEffect::Elemental(Element::Secondary(SecondaryElement::Corrosive), 1_000_000),
        ModEffect::Elemental(Element::Primary(PrimaryElement::Cold), 500_000),
    ]);
    let enemy = Enemy::new(
        Faction::Corpus,
        DamageMap::from_entries(vec![(secondary(SecondaryElement::Corrosive), 2_000_000)]),
    );
    let hit = physical_hit(30_000_000, 30_000_000, 40_000_000, mods, enemy);
    let contributions = hit.contributions();
    // 1.0 times 100, already 16 steps, doubled by the weakness.
    assert_eq!(
        contributions.get(secondary(SecondaryElement::Corrosive)),
        Some(200_000_000)
    );
    assert_eq!(contributions.get(primary(PrimaryElement::Cold)), Some(50_000_000));
}

#[test]
fn inactive_bane_does_not_change_the_total() {
    let plain = physical_hit(30_000_000, 30_000_000, 40_000_000, one_mod(vec![ModEffect::Physical(Ips::Slash, 500_000)]), plain_enemy());
    let with_bane = physical_hit(
        30_000_000,
        30_000_000,
        40_000_000,
        one_mod(vec![
            ModEffect::Bane(Faction::Corpus, 300_000),
            ModEffect::Physical(Ips::Slash, 500_000),
        ]),
        plain_enemy(),
    );
    assert_eq!(with_bane.total_quantized(), plain.total_quantized());
}

#[test]
fn matching_bane_scales_every_term() {
    let mods = one_mod(vec![ModEffect::Bane(Faction::Grineer, 500_000)]);
    let hit = physical_hit(30_000_000, 30_000_000, 40_000_000, mods, plain_enemy());
    // (31.25 + 31.25 + 37.5) times 1.5.
    assert_eq!(hit.total_quantized(), 150_000_000);
    assert_eq!(hit.contributions().get(physical(Ips::Slash)), Some(56_250_000));
}

#[test]
fn physical_bonus_without_base_contributes_zero() {
    let hit = Hit::new(
        DamageMap::from_entries(vec![(physical(Ips::Slash), 40_000_000)]),
        one_mod(vec![ModEffect::Physical(Ips::Impact, 1_000_000)]),
        plain_enemy(),
    );
    let contributions = hit.contributions();
    assert_eq!(contributions.get(physical(Ips::Impact)), Some(0));
    assert_eq!(contributions.get(physical(Ips::Slash)), Some(40_000_000));
    assert_eq!(contributions.get(physical(Ips::Puncture)), None);
}

#[test]
fn physical_calculator_sums_per_type() {
    let mut calculator = PhysicalCalculator::new(None);
    calculator.add(Ips::Puncture, 1_200_000);
    calculator.add(Ips::Slash, 300_000);
    calculator.add(Ips::Puncture, 300_000);
    calculator.add(Ips::Impact, 200_000);
    calculator.add(Ips::Impact, -200_000);
    let result = calculator.finalize();
    assert_eq!(result.get(physical(Ips::Puncture)), Some(1_500_000));
    assert_eq!(result.get(physical(Ips::Slash)), Some(300_000));
    assert_eq!(result.get(physical(Ips::Impact)), None);
}

#[test]
fn empty_calculators_give_empty_maps() {
    assert_eq!(PhysicalCalculator::new(None).finalize().entries().len(), 0);
    assert_eq!(ElementalCalculator::new(None).finalize().entries().len(), 0);
}

#[test]
fn weakness_defaults_to_one() {
    let enemy = Enemy::new(
        Faction::Murmur,
        DamageMap::from_entries(vec![(physical(Ips::Slash), 1_500_000)]),
    );
    assert_eq!(enemy.weakness_to(&physical(Ips::Slash)), 1_500_000);
    assert_eq!(enemy.weakness_to(&physical(Ips::Impact)), UNIT as i128);
    let hit = Hit::new(DamageMap::new(), vec![], enemy);
    assert_eq!(hit.weakness_to(&DamageType::Special(Special::Void)), UNIT as i128);
}

#[test]
fn status_chance_is_not_implemented() {
    let hit = physical_hit(1, 2, 3, vec![], plain_enemy());
    assert!(matches!(hit.status_chance(), Err(CalcError::NotImplemented)));
}

#[test]
fn library_lookup_takes_the_last_of_a_name() {
    let first = Mod { name: "Serration".to_owned(), effects: vec![] };
    let second = Mod {
        name: "Serration".to_owned(),
        effects: vec![ModEffect::Multishot(100)],
    };
    let library = ModLibrary::from_mods(vec![first, second.clone()]);
    assert_eq!(library.get("Serration"), Some(&second));
    assert_eq!(library.get("Split Chamber"), None);
}

#[test]
fn mod_stat_from_effect_is_unconditional() {
    let stat = ModStat::from(ModEffect::Multishot(800_000));
    assert_eq!(stat.trigger, None);
    assert_eq!(stat.stacking, None);
    assert_eq!(stat.effect, ModEffect::Multishot(800_000));
}

#[test]
fn damage_map_keeps_the_later_entry() {
    let map = DamageMap::from_entries(vec![
        (physical(Ips::Slash), 1),
        (physical(Ips::Impact), 5),
        (physical(Ips::Slash), 7),
    ]);
    assert_eq!(map.get(physical(Ips::Slash)), Some(7));
    assert!(map.contains_key(physical(Ips::Impact)));
    assert!(!map.contains_key(physical(Ips::Puncture)));
    assert_eq!(map.total(), 12);
    assert_eq!(
        map.entries(),
        vec![(physical(Ips::Impact), 5), (physical(Ips::Slash), 7)]
    );
}

#[test]
fn rounding_goes_half_away_from_zero() {
    assert_eq!(div_round(5, 2), 3);
    assert_eq!(div_round(-5, 2), -3);
    assert_eq!(div_round(4, 3), 1);
    assert_eq!(div_round(-4, 3), -1);
    assert_eq!(div_round(0, 7), 0);
}

#[test]
fn pairing_table_is_in_fixed_order() {
    let table = ElementalCalculator::combinations();
    assert_eq!(table.len(), 6);
    assert_eq!(
        table[0],
        (SecondaryElement::Blast, (PrimaryElement::Cold, PrimaryElement::Heat))
    );
    assert_eq!(
        table[5],
        (SecondaryElement::Corrosive, (PrimaryElement::Toxin, PrimaryElement::Electricity))
    );
}

#[test]
fn resolve_returns_contributions_and_total() {
    let base = || {
        DamageMap::from_entries(vec![
            (physical(Ips::Impact), 30_000_000),
            (physical(Ips::Puncture), 30_000_000),
            (physical(Ips::Slash), 40_000_000),
        ])
    };
    let weaknesses = || DamageMap::from_entries(vec![(physical(Ips::Slash), 1_500_000)]);
    let (contributions, total) = resolve(base(), vec![], Enemy::new(Faction::Infested, weaknesses()));
    assert_eq!(total, 118_750_000);
    assert_eq!(contributions.get(physical(Ips::Slash)), Some(56_250_000));
    assert_eq!(contributions.get(physical(Ips::Impact)), Some(31_250_000));
    assert_eq!(contributions.total(), total);
}

#[test]
fn step_rounds_toward_zero() {
    let hit = Hit::new(
        DamageMap::from_entries(vec![(physical(Ips::Impact), 17)]),
        vec![],
        plain_enemy(),
    );
    assert_eq!(hit.scale(), 1);
    let hit = Hit::new(
        DamageMap::from_entries(vec![(physical(Ips::Impact), -33)]),
        vec![],
        plain_enemy(),
    );
    assert_eq!(hit.scale(), -2);
    // Snapping to multiples of -2 is snapping to multiples of 2.
    assert_eq!(hit.quantize(5), 6);
    assert_eq!(hit.quantize(-3), -4);
    assert_eq!(hit.total_quantized(), -34);
}
