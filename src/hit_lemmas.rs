//! What holds of every hit resolution.

use crate::damage::{is_component, sec, type_at, DamageType, Ips, SecondaryElement};
use crate::damage_map::{map_total, sum_from, value_or_zero};
use crate::elemental::{
    fold_primaries, lemma_fold_primaries_avoids, lemma_fold_secondaries_at, secondary_sum,
};
use crate::enemy::Faction;
use crate::fixed::{
    abs, fixed_mul, lemma_round_div_exact, lemma_snapped_error, lemma_snapped_exact, round_div,
    snapped, UNIT,
};
use crate::hit::{
    bane_multiplier, physical_entries, primary_entries, scaled, secondary_entries, Hit,
};
use crate::mods::ModEffect;
use vstd::prelude::*;

verus! {

/// The sum over a mapping whose keys are all physical damage types is the
/// sum of its three physical values.
pub proof fn lemma_total_of_physical(m: Map<DamageType, int>)
    requires
        forall|t: DamageType| #[trigger] m.contains_key(t) ==> t is Physical,
    ensures
        map_total(m) == value_or_zero(m, DamageType::Physical(Ips::Impact))
            + value_or_zero(m, DamageType::Physical(Ips::Puncture))
            + value_or_zero(m, DamageType::Physical(Ips::Slash)),
{
    reveal_with_fuel(sum_from, 17);
    assert forall|i: int| 3 <= i < 16 implies !m.contains_key(#[trigger] type_at(i)) by {}
}

/// Scaling by a weakness and a faction multiplier of one changes nothing.
pub proof fn lemma_scaled_by_one(q: int)
    ensures
        scaled(q, UNIT as int, UNIT as int) == q,
{
    assert(q * UNIT * UNIT == q * (UNIT * UNIT)) by (nonlinear_arith);
    lemma_round_div_exact(q, UNIT * UNIT);
}

/// Quantizing a multiple of the step leaves it unchanged; so quantizing
/// twice is quantizing once.
pub proof fn lemma_quantize_idempotent(hit: &Hit, k: int, x: int)
    ensures
        snapped(k * hit.step(), hit.step()) == k * hit.step(),
        snapped(snapped(x, hit.step()), hit.step()) == snapped(x, hit.step()),
{
    let s = hit.step();
    lemma_snapped_exact(k, s);
    if s > 0 {
        lemma_snapped_exact(round_div(x, s), s);
    } else if s < 0 {
        let q = round_div(x, -s);
        assert(q * (-s) == (-q) * s) by (nonlinear_arith);
        lemma_snapped_exact(-q, s);
    }
}

/// Without modifiers and weaknesses, a hit whose base damage is all physical
/// totals its base damage up to rounding: each of the three physical types
/// is off by at most half a step, and a zero step gives zero.
pub proof fn lemma_unmodified_total(hit: &Hit)
    requires
        hit.wf(),
        hit.mods@.len() == 0,
        hit.enemy.weaknesses@ == Map::<DamageType, int>::empty(),
        forall|t: DamageType| #[trigger] hit.base_damage@.contains_key(t) ==> t is Physical,
    ensures
        hit.step() == 0 ==> hit.quantized_total() == 0,
        hit.step() != 0 ==> 2 * abs(hit.quantized_total() - hit.base_total()) <= 3 * abs(hit.step()),
{
    let effs = hit.effects();
    assert(effs == Seq::<ModEffect>::empty());
    assert(physical_entries(effs) == Seq::<(Ips, i64)>::empty());
    assert(hit.physical_bonuses() =~= Map::<DamageType, int>::empty());
    assert(primary_entries(effs) == Seq::<(crate::damage::PrimaryElement, i64)>::empty());
    assert(secondary_entries(effs) == Seq::<(SecondaryElement, i64)>::empty());
    assert(hit.elemental_values() =~= Map::<DamageType, int>::empty());
    assert(hit.bane() == UNIT);
    let s = hit.step();
    let base = hit.base_damage@;
    let cm = hit.contribution_map();
    assert forall|t: DamageType| #[trigger] cm.contains_key(t) implies t is Physical by {}
    assert forall|t: DamageType| #[trigger] cm.contains_key(t) implies base.contains_key(t)
        && cm[t] == snapped(base[t], s) by {
        assert(hit.weakness(t) == UNIT);
        lemma_scaled_by_one(snapped(base[t], s));
    }
    lemma_total_of_physical(cm);
    lemma_total_of_physical(base);
    let impact = DamageType::Physical(Ips::Impact);
    let puncture = DamageType::Physical(Ips::Puncture);
    let slash = DamageType::Physical(Ips::Slash);
    assert(cm.contains_key(impact) == base.contains_key(impact));
    assert(cm.contains_key(puncture) == base.contains_key(puncture));
    assert(cm.contains_key(slash) == base.contains_key(slash));
    if s != 0 {
        lemma_snapped_error(value_or_zero(base, impact), s);
        lemma_snapped_error(value_or_zero(base, puncture), s);
        lemma_snapped_error(value_or_zero(base, slash), s);
    }
}

/// A secondary element that no primary bonus can fuse into contributes
/// exactly the sum of its direct bonuses times the total base damage,
/// quantized and scaled; it has an entry exactly when it has a direct bonus.
pub proof fn lemma_direct_secondary(hit: &Hit, s: SecondaryElement)
    requires
        forall|i: int| 0 <= i < primary_entries(hit.effects()).len()
            ==> !is_component(#[trigger] primary_entries(hit.effects())[i].0, s),
    ensures
        hit.contribution_map().contains_key(sec(s)) == exists|i: int|
            0 <= i < secondary_entries(hit.effects()).len()
            && #[trigger] secondary_entries(hit.effects())[i].0 == s,
        hit.contribution_map().contains_key(sec(s)) ==> hit.contribution_map()[sec(s)]
            == hit.scaled_for(
                snapped(fixed_mul(secondary_sum(secondary_entries(hit.effects()), s), hit.base_total()), hit.step()),
                sec(s),
            ),
{
    let ps = primary_entries(hit.effects());
    let ss = secondary_entries(hit.effects());
    lemma_fold_primaries_avoids(ps, s);
    lemma_fold_secondaries_at(fold_primaries(ps), ss, s);
}

/// Inserting a bane effect of another faction than `faction` leaves every
/// accumulation unchanged.
pub proof fn lemma_inactive_bane_ignored(effs: Seq<ModEffect>, i: int, f: Faction, v: i64, faction: Faction)
    requires
        0 <= i <= effs.len(),
        f != faction,
    ensures
        physical_entries(effs.insert(i, ModEffect::Bane(f, v))) == physical_entries(effs),
        primary_entries(effs.insert(i, ModEffect::Bane(f, v))) == primary_entries(effs),
        secondary_entries(effs.insert(i, ModEffect::Bane(f, v))) == secondary_entries(effs),
        bane_multiplier(effs.insert(i, ModEffect::Bane(f, v)), faction) == bane_multiplier(effs, faction),
    decreases effs.len(),
{
    let e = ModEffect::Bane(f, v);
    let with = effs.insert(i, e);
    if i == effs.len() {
        assert(with.drop_last() == effs);
        assert(with.last() == e);
    } else {
        let rest = effs.drop_last();
        lemma_inactive_bane_ignored(rest, i, f, v, faction);
        assert(with.drop_last() == rest.insert(i, e));
        assert(with.last() == effs.last());
    }
}

/// A bane effect of a faction other than the enemy's changes no
/// contribution, and so not the total.
pub proof fn lemma_inactive_bane(h1: &Hit, h2: &Hit, i: int, f: Faction, v: i64)
    requires
        h2.base_damage@ == h1.base_damage@,
        h2.enemy.weaknesses@ == h1.enemy.weaknesses@,
        h2.enemy.faction == h1.enemy.faction,
        f != h1.enemy.faction,
        0 <= i <= h1.effects().len(),
        h2.effects() == h1.effects().insert(i, ModEffect::Bane(f, v)),
    ensures
        h2.contribution_map() == h1.contribution_map(),
        h2.quantized_total() == h1.quantized_total(),
{
    lemma_inactive_bane_ignored(h1.effects(), i, f, v, h1.enemy.faction);
    assert(h2.physical_bonuses() == h1.physical_bonuses());
    assert(h2.elemental_values() == h1.elemental_values());
    assert(h2.bane() == h1.bane());
    assert(h2.contribution_map() =~= h1.contribution_map());
}

} // verus!
