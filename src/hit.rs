//! Resolution of one hit: base damage, modifiers and an enemy in, damage
//! per damage type and a total out.

use crate::damage::{
    damage_type_at, lemma_slots, slot_of, DamageType, Element, Ips, PrimaryElement,
    SecondaryElement, DAMAGE_TYPE_COUNT,
};
use crate::damage_map::{lemma_sum_from_bound, map_total, values_within, DamageMap};
use crate::elemental::{fused, fused_bound, primaries_bounded, secondaries_bounded, ElementalCalculator};
use crate::enemy::{weakness_in, Enemy};
use crate::enemy::Faction;
use crate::fixed::{
    abs, div_round, fixed_mul, lemma_round_div_bound, lemma_snapped_error, mul_round, round_div,
    snap, snapped, DIV_BOUND, MAX_AMOUNT, MAX_BONUS, MAX_EFFECTS, MAX_MULTIPLIER, UNIT,
};
use crate::mods::{Mod, ModEffect};
use crate::physical::{bonuses_bounded, physical_totals, PhysicalCalculator};
use vstd::prelude::*;

verus! {

/// All effects of `mods`, in order.
pub open spec fn effects_of(mods: Seq<Mod>) -> Seq<ModEffect>
    decreases mods.len(),
{
    if mods.len() == 0 {
        Seq::empty()
    } else {
        effects_of(mods.drop_last()) + mods.last().effects@
    }
}

/// The physical bonuses among `effs`, in order.
pub open spec fn physical_entries(effs: Seq<ModEffect>) -> Seq<(Ips, i64)>
    decreases effs.len(),
{
    if effs.len() == 0 {
        Seq::empty()
    } else {
        let rest = physical_entries(effs.drop_last());
        match effs.last() {
            ModEffect::Physical(ips, v) => rest.push((ips, v)),
            _ => rest,
        }
    }
}

/// The primary elemental bonuses among `effs`, in order.
pub open spec fn primary_entries(effs: Seq<ModEffect>) -> Seq<(PrimaryElement, i64)>
    decreases effs.len(),
{
    if effs.len() == 0 {
        Seq::empty()
    } else {
        let rest = primary_entries(effs.drop_last());
        match effs.last() {
            ModEffect::Elemental(Element::Primary(p), v) => rest.push((p, v)),
            _ => rest,
        }
    }
}

/// The secondary elemental bonuses among `effs`, in order.
pub open spec fn secondary_entries(effs: Seq<ModEffect>) -> Seq<(SecondaryElement, i64)>
    decreases effs.len(),
{
    if effs.len() == 0 {
        Seq::empty()
    } else {
        let rest = secondary_entries(effs.drop_last());
        match effs.last() {
            ModEffect::Elemental(Element::Secondary(s), v) => rest.push((s, v)),
            _ => rest,
        }
    }
}

/// The faction multiplier of `effs` against `faction`: one plus the bonuses
/// of the bane effects of that faction.
pub open spec fn bane_multiplier(effs: Seq<ModEffect>, faction: Faction) -> int
    decreases effs.len(),
{
    if effs.len() == 0 {
        UNIT as int
    } else {
        bane_multiplier(effs.drop_last(), faction) + match effs.last() {
            ModEffect::Bane(f, v) => if f == faction {
                v as int
            } else {
                0
            },
            _ => 0,
        }
    }
}

/// The bonus of a damage effect lies within the bound for a single bonus.
pub open spec fn bonus_in_range(e: ModEffect) -> bool {
    match e {
        ModEffect::Physical(_, v) => -MAX_BONUS <= v <= MAX_BONUS,
        ModEffect::Elemental(_, v) => -MAX_BONUS <= v <= MAX_BONUS,
        ModEffect::Bane(_, v) => -MAX_BONUS <= v <= MAX_BONUS,
        _ => true,
    }
}

/// Largest magnitude of a faction multiplier.
pub open spec fn bane_bound() -> int {
    UNIT + MAX_BONUS * MAX_EFFECTS
}

/// Largest magnitude of a quantized amount.
pub open spec fn quantum_bound() -> int {
    3000000000000000000
}

/// Largest magnitude of one scaled term.
pub open spec fn term_bound() -> int {
    10000000000000000000000000
}

/// A quantized amount `q` scaled by the weakness multiplier `w` and the
/// faction multiplier `bane`, rounded to the nearest millionth.
pub open spec fn scaled(q: int, w: int, bane: int) -> int {
    round_div(q * w * bane, UNIT * UNIT)
}

/// The inputs of one hit: base damage per damage type, the applied
/// modifiers, and the enemy.
#[derive(Debug)]
pub struct Hit {
    pub base_damage: DamageMap,
    pub mods: Vec<Mod>,
    pub enemy: Enemy,
}

/// Errors of the engine.
#[derive(Debug, Clone, Copy, PartialEq, Eq, Structural)]
pub enum CalcError {
    /// The capability rests on a model that does not exist yet.
    NotImplemented,
}

impl Hit {
    /// The inputs lie within the bounds that keep every intermediate value
    /// within 128 bits: base amounts of magnitude at most `MAX_AMOUNT`,
    /// weaknesses of magnitude at most `MAX_MULTIPLIER`, at most
    /// `MAX_EFFECTS` effects, and damage bonuses of magnitude at most
    /// `MAX_BONUS`.
    pub open spec fn wf(&self) -> bool {
        &&& values_within(self.base_damage@, MAX_AMOUNT as int)
        &&& values_within(self.enemy.weaknesses@, MAX_MULTIPLIER as int)
        &&& effects_of(self.mods@).len() <= MAX_EFFECTS
        &&& forall|i: int, j: int| 0 <= i < self.mods@.len() && 0 <= j < self.mods@[i].effects@.len()
            ==> bonus_in_range(#[trigger] self.mods@[i].effects@[j])
    }

    /// All modifier effects of the hit, in order.
    pub open spec fn effects(&self) -> Seq<ModEffect> {
        effects_of(self.mods@)
    }

    /// The sum of all base damage amounts.
    pub open spec fn base_total(&self) -> int {
        map_total(self.base_damage@)
    }

    /// The quantization step: a sixteenth of the total base damage, rounded
    /// toward zero.
    pub open spec fn step(&self) -> int {
        if self.base_total() >= 0 {
            self.base_total() / 16
        } else {
            -((-self.base_total()) / 16)
        }
    }

    /// The faction multiplier against this hit's enemy.
    pub open spec fn bane(&self) -> int {
        bane_multiplier(self.effects(), self.enemy.faction)
    }

    /// The multiplier the enemy applies to `t`.
    pub open spec fn weakness(&self, t: DamageType) -> int {
        weakness_in(self.enemy.weaknesses@, t)
    }

    /// A quantized amount scaled for damage type `t`.
    pub open spec fn scaled_for(&self, q: int, t: DamageType) -> int {
        scaled(q, self.weakness(t), self.bane())
    }
}

/// The effects of the first `i + 1` modifiers are those of the first `i`
/// followed by the effects of modifier `i`.
pub proof fn lemma_effects_of_take(mods: Seq<Mod>, i: int)
    requires
        0 <= i < mods.len(),
    ensures
        effects_of(mods.take(i + 1)) == effects_of(mods.take(i)) + mods[i].effects@,
{
    assert(mods.take(i + 1).drop_last() == mods.take(i));
}

/// The effects of a prefix of `mods` are no more than those of `mods`.
pub proof fn lemma_effects_of_prefix_len(mods: Seq<Mod>, i: int)
    requires
        0 <= i <= mods.len(),
    ensures
        effects_of(mods.take(i)).len() <= effects_of(mods).len(),
    decreases mods.len() - i,
{
    if i < mods.len() {
        lemma_effects_of_take(mods, i);
        lemma_effects_of_prefix_len(mods, i + 1);
    } else {
        assert(mods.take(i) == mods);
    }
}

/// A product of bounded factors is bounded by the product of the bounds.
pub proof fn lemma_product_bound(a: int, b: int, ka: int, kb: int)
    requires
        abs(a) <= ka,
        abs(b) <= kb,
    ensures
        abs(a * b) <= ka * kb,
{
    assert(abs(a * b) <= ka * kb) by (nonlinear_arith)
        requires
            abs(a) <= ka,
            abs(b) <= kb,
            abs(a) == if a < 0 { -a } else { a },
            abs(b) == if b < 0 { -b } else { b },
            abs(a * b) == if a * b < 0 { -(a * b) } else { a * b },
    ;
}

/// A quantized product of a bounded bonus and a bounded amount.
pub proof fn lemma_quantum_of_product(m: int, b: int, km: int, kb: int, s: int)
    requires
        abs(m) <= km,
        abs(b) <= kb,
        km >= 0,
        kb >= 0,
        abs(s) <= MAX_AMOUNT,
    ensures
        abs(snapped(fixed_mul(m, b), s)) <= km * kb / (UNIT as int) + 1 + MAX_AMOUNT,
{
    lemma_product_bound(m, b, km, kb);
    let k = km * kb / (UNIT as int);
    assert(km * kb >= 0) by (nonlinear_arith)
        requires
            km >= 0,
            kb >= 0,
    ;
    assert(km * kb <= (k + 1) * UNIT) by (nonlinear_arith)
        requires
            k == km * kb / (UNIT as int),
            km * kb >= 0,
    ;
    lemma_round_div_bound(m * b, UNIT as int, k + 1);
    if s != 0 {
        lemma_snapped_error(fixed_mul(m, b), s);
    }
}

/// Scales a quantized amount by a weakness and a faction multiplier.
pub fn scale_term(q: i128, w: i128, bane: i128) -> (r: i128)
    requires
        abs(q as int) <= quantum_bound(),
        abs(w as int) <= MAX_MULTIPLIER,
        abs(bane as int) <= bane_bound(),
    ensures
        r == scaled(q as int, w as int, bane as int),
        abs(r as int) <= term_bound(),
{
    proof {
        lemma_product_bound(q as int, w as int, quantum_bound(), MAX_MULTIPLIER as int);
        lemma_product_bound(q * w, bane as int, quantum_bound() * MAX_MULTIPLIER, bane_bound());
        assert(quantum_bound() * MAX_MULTIPLIER * bane_bound() <= (term_bound() - 1) * (UNIT * UNIT)) by (nonlinear_arith);
        lemma_round_div_bound(q * w * bane, UNIT * UNIT, term_bound() - 1);
    }
    let product = q * w * bane;
    div_round(product, (UNIT as i128) * (UNIT as i128))
}

impl Hit {
    /// The accumulated physical bonus of each physical damage type.
    pub open spec fn physical_bonuses(&self) -> Map<DamageType, int> {
        physical_totals(physical_entries(self.effects()))
    }

    /// The elemental bonuses after fusion.
    pub open spec fn elemental_values(&self) -> Map<DamageType, int> {
        fused(primary_entries(self.effects()), secondary_entries(self.effects()))
    }

    /// Whether damage type `t` has an entry among the contributions: a
    /// physical type with base damage or a physical bonus, or an element
    /// left by fusion.
    pub open spec fn has_contribution(&self, t: DamageType) -> bool {
        match t {
            DamageType::Physical(_) => self.base_damage@.contains_key(t) || self.physical_bonuses().contains_key(t),
            DamageType::Elemental(_) => self.elemental_values().contains_key(t),
            DamageType::Special(_) => false,
        }
    }

    /// The contribution of damage type `t`. A physical type adds its
    /// quantized base amount and its quantized bonus times the base amount
    /// (nothing without base damage); an element gives its quantized value
    /// times the total base damage. Each term is scaled by the weakness to
    /// `t` and by the faction multiplier.
    pub open spec fn contribution(&self, t: DamageType) -> int {
        let base = self.base_damage@;
        match t {
            DamageType::Physical(_) => {
                let from_base = if base.contains_key(t) {
                    self.scaled_for(snapped(base[t], self.step()), t)
                } else {
                    0
                };
                let from_bonus = if base.contains_key(t) && self.physical_bonuses().contains_key(t) {
                    self.scaled_for(snapped(fixed_mul(self.physical_bonuses()[t], base[t]), self.step()), t)
                } else {
                    0
                };
                from_base + from_bonus
            },
            DamageType::Elemental(_) => self.scaled_for(
                snapped(fixed_mul(self.elemental_values()[t], self.base_total()), self.step()),
                t,
            ),
            DamageType::Special(_) => 0,
        }
    }

    /// The contributions of all damage types that have one.
    pub open spec fn contribution_map(&self) -> Map<DamageType, int> {
        Map::new(|t: DamageType| self.has_contribution(t), |t: DamageType| self.contribution(t))
    }

    /// The scalar damage of the hit: the sum of all contributions.
    pub open spec fn quantized_total(&self) -> int {
        map_total(self.contribution_map())
    }

    /// A hit of the given inputs.
    pub fn new(base_damage: DamageMap, mods: Vec<Mod>, enemy: Enemy) -> (r: Hit)
        ensures
            r.base_damage@ == base_damage@,
            r.mods@ == mods@,
            r.enemy.faction == enemy.faction,
            r.enemy.weaknesses@ == enemy.weaknesses@,
    {
        Hit { base_damage, mods, enemy }
    }

    /// Sorts the effects of all modifiers into a physical calculator, an
    /// elemental calculator and the faction multiplier.
    fn accumulate(&self) -> (r: (PhysicalCalculator, ElementalCalculator, i128))
        requires
            self.wf(),
        ensures
            r.0.entries() == physical_entries(self.effects()),
            r.1.primaries() == primary_entries(self.effects()),
            r.1.secondaries() == secondary_entries(self.effects()),
            r.2 == self.bane(),
            r.0.entries().len() <= MAX_EFFECTS,
            bonuses_bounded(r.0.entries()),
            r.1.primaries().len() + r.1.secondaries().len() <= MAX_EFFECTS,
            primaries_bounded(r.1.primaries()),
            secondaries_bounded(r.1.secondaries()),
            abs(r.2 as int) <= bane_bound(),
    {
        let mut physical = PhysicalCalculator::new(None);
        let mut elemental = ElementalCalculator::new(None);
        let mut bane: i128 = UNIT as i128;
        let faction = self.enemy.faction;
        let mut i: usize = 0;
        assert(self.mods@.take(0) =~= Seq::<Mod>::empty());
        while i < self.mods.len()
            invariant
                self.wf(),
                faction == self.enemy.faction,
                i <= self.mods@.len(),
                physical.entries() == physical_entries(effects_of(self.mods@.take(i as int))),
                elemental.primaries() == primary_entries(effects_of(self.mods@.take(i as int))),
                elemental.secondaries() == secondary_entries(effects_of(self.mods@.take(i as int))),
                bane == bane_multiplier(effects_of(self.mods@.take(i as int)), faction),
                physical.entries().len() <= effects_of(self.mods@.take(i as int)).len(),
                elemental.primaries().len() + elemental.secondaries().len()
                    <= effects_of(self.mods@.take(i as int)).len(),
                bonuses_bounded(physical.entries()),
                primaries_bounded(elemental.primaries()),
                secondaries_bounded(elemental.secondaries()),
                abs(bane - UNIT) <= MAX_BONUS * effects_of(self.mods@.take(i as int)).len(),
            decreases self.mods@.len() - i,
        {
            let ghost done = effects_of(self.mods@.take(i as int));
            proof {
                lemma_effects_of_take(self.mods@, i as int);
                lemma_effects_of_prefix_len(self.mods@, i as int + 1);
            }
            let effects = &self.mods[i].effects;
            let mut j: usize = 0;
            assert(done + effects@.take(0) == done);
            while j < effects.len()
                invariant
                    self.wf(),
                    faction == self.enemy.faction,
                    i < self.mods@.len(),
                    effects@ == self.mods@[i as int].effects@,
                    done.len() + effects@.len() <= MAX_EFFECTS,
                    j <= effects@.len(),
                    physical.entries() == physical_entries(done + effects@.take(j as int)),
                    elemental.primaries() == primary_entries(done + effects@.take(j as int)),
                    elemental.secondaries() == secondary_entries(done + effects@.take(j as int)),
                    bane == bane_multiplier(done + effects@.take(j as int), faction),
                    physical.entries().len() <= done.len() + j,
                    elemental.primaries().len() + elemental.secondaries().len() <= done.len() + j,
                    bonuses_bounded(physical.entries()),
                    primaries_bounded(elemental.primaries()),
                    secondaries_bounded(elemental.secondaries()),
                    abs(bane - UNIT) <= MAX_BONUS * (done.len() + j),
                decreases effects@.len() - j,
            {
                let ghost cur = done + effects@.take(j as int);
                let e = effects[j];
                assert(bonus_in_range(self.mods@[i as int].effects@[j as int]));
                assert((done + effects@.take(j as int + 1)).drop_last() == cur);
                assert((done + effects@.take(j as int + 1)).last() == e);
                match e {
                    ModEffect::Physical(ips, v) => {
                        physical.add(ips, v);
                    },
                    ModEffect::Elemental(elem, v) => {
                        elemental.add(elem, v);
                    },
                    ModEffect::Bane(f, v) => {
                        if f == faction {
                            bane = bane + v as i128;
                        }
                    },
                    _ => {},
                }
                j = j + 1;
            }
            assert(effects@.take(j as int) == effects@);
            i = i + 1;
        }
        assert(self.mods@.take(i as int) == self.mods@);
        proof {
            assert(MAX_BONUS * effects_of(self.mods@).len() <= MAX_BONUS * MAX_EFFECTS) by (nonlinear_arith)
                requires
                    effects_of(self.mods@).len() <= MAX_EFFECTS,
                    MAX_BONUS > 0,
            ;
        }
        (physical, elemental, bane)
    }

    /// The sum of all base damage amounts.
    pub fn total_base(&self) -> (r: i128)
        requires
            self.wf(),
        ensures
            r == self.base_total(),
            abs(r as int) <= 16 * MAX_AMOUNT,
    {
        proof {
            lemma_sum_from_bound(self.base_damage@, 0, MAX_AMOUNT as int);
        }
        self.base_damage.total()
    }

    /// The quantization step: a sixteenth of the total base damage, rounded
    /// toward zero.
    pub fn scale(&self) -> (r: i128)
        requires
            self.wf(),
        ensures
            r == self.step(),
            abs(r as int) <= MAX_AMOUNT,
    {
        let total = self.total_base();
        if total >= 0 {
            total / 16
        } else {
            -((-total) / 16)
        }
    }

    /// `value` snapped to the nearest multiple of the quantization step, or
    /// zero where the step is zero.
    pub fn quantize(&self, value: i128) -> (r: i128)
        requires
            self.wf(),
            -DIV_BOUND <= value <= DIV_BOUND,
        ensures
            r == snapped(value as int, self.step()),
    {
        let scale = self.scale();
        snap(value, scale)
    }

    /// The multiplier the enemy applies to `damage_type`.
    pub fn weakness_to(&self, damage_type: &DamageType) -> (r: i128)
        ensures
            r == self.weakness(*damage_type),
    {
        self.enemy.weakness_to(damage_type)
    }

    /// The damage of each damage type that has any, as `contribution` states.
    pub fn contributions(&self) -> (r: DamageMap)
        requires
            self.wf(),
        ensures
            r@ == self.contribution_map(),
            values_within(r@, 2 * term_bound()),
    {
        let (physical, elemental, bane) = self.accumulate();
        let phys = physical.finalize();
        let elem = elemental.finalize();
        let total_base = self.total_base();
        let scale = self.scale();
        let mut result = DamageMap::new();
        let mut i: usize = 0;
        while i < DAMAGE_TYPE_COUNT
            invariant
                self.wf(),
                i <= DAMAGE_TYPE_COUNT,
                phys@ == self.physical_bonuses(),
                values_within(phys@, MAX_BONUS * MAX_EFFECTS),
                elem@ == self.elemental_values(),
                values_within(elem@, fused_bound()),
                bane == self.bane(),
                abs(bane as int) <= bane_bound(),
                total_base == self.base_total(),
                abs(total_base as int) <= 16 * MAX_AMOUNT,
                scale == self.step(),
                abs(scale as int) <= MAX_AMOUNT,
                forall|t: DamageType| slot_of(t) < i ==> (#[trigger] result@.contains_key(t)
                    == self.has_contribution(t)),
                forall|t: DamageType| slot_of(t) < i && #[trigger] result@.contains_key(t)
                    ==> result@[t] == self.contribution(t),
                forall|t: DamageType| slot_of(t) >= i ==> !#[trigger] result@.contains_key(t),
                values_within(result@, 2 * term_bound()),
            decreases DAMAGE_TYPE_COUNT - i,
        {
            proof {
                lemma_slots();
            }
            let t = damage_type_at(i);
            let ghost before = result@;
            match t {
                DamageType::Physical(_) => {
                    match self.base_damage.get(t) {
                        Some(b) => {
                            let w = self.enemy.weakness_to(&t);
                            proof {
                                if scale != 0 {
                                    lemma_snapped_error(b as int, scale as int);
                                }
                            }
                            let mut v = scale_term(snap(b, scale), w, bane);
                            match phys.get(t) {
                                Some(m) => {
                                    proof {
                                        lemma_product_bound(m as int, b as int, MAX_BONUS * MAX_EFFECTS, MAX_AMOUNT as int);
                                        lemma_quantum_of_product(m as int, b as int, MAX_BONUS * MAX_EFFECTS, MAX_AMOUNT as int, scale as int);
                                        assert((MAX_BONUS * MAX_EFFECTS) * MAX_AMOUNT / (UNIT as int) + 1 + MAX_AMOUNT <= quantum_bound()) by (nonlinear_arith);
                                    }
                                    let q = snap(mul_round(m, b), scale);
                                    v = v + scale_term(q, w, bane);
                                },
                                None => {},
                            }
                            result.insert(t, v);
                        },
                        None => {
                            if phys.contains_key(t) {
                                result.insert(t, 0);
                            }
                        },
                    }
                },
                DamageType::Elemental(_) => {
                    match elem.get(t) {
                        Some(m) => {
                            let w = self.enemy.weakness_to(&t);
                            proof {
                                lemma_product_bound(m as int, total_base as int, fused_bound(), 16 * MAX_AMOUNT);
                                lemma_quantum_of_product(m as int, total_base as int, fused_bound(), 16 * MAX_AMOUNT, scale as int);
                                assert(fused_bound() * (16 * MAX_AMOUNT) / (UNIT as int) + 1 + MAX_AMOUNT <= quantum_bound()) by (nonlinear_arith);
                            }
                            let q = snap(mul_round(m, total_base), scale);
                            result.insert(t, scale_term(q, w, bane));
                        },
                        None => {},
                    }
                },
                DamageType::Special(_) => {},
            }
            proof {
                assert forall|u: DamageType| u != t implies (#[trigger] result@.contains_key(u)) == before.contains_key(u)
                    && (result@.contains_key(u) ==> result@[u] == before[u]) by {}
                assert forall|u: DamageType| slot_of(u) < i + 1 implies (#[trigger] result@.contains_key(u)
                    == self.has_contribution(u)) by {
                    if u != t {
                        assert(slot_of(u) < i);
                    }
                }
            }
            i = i + 1;
        }
        assert(result@ =~= self.contribution_map()) by {
            lemma_slots();
        }
        result
    }

    /// The scalar damage of the hit: the sum of all contributions.
    pub fn total_quantized(&self) -> (r: i128)
        requires
            self.wf(),
        ensures
            r == self.quantized_total(),
    {
        let contributions = self.contributions();
        contributions.total()
    }

    /// Status chance per damage type: not available until a weapon model
    /// supplies the base status chance.
    pub fn status_chance(&self) -> (r: Result<DamageMap, CalcError>)
        ensures
            r == Err::<DamageMap, CalcError>(CalcError::NotImplemented),
    {
        Err(CalcError::NotImplemented)
    }
}

/// Resolves one hit: the contribution of each damage type, and their sum.
pub fn resolve(base_damage: DamageMap, mods: Vec<Mod>, enemy: Enemy) -> (r: (DamageMap, i128))
    requires
        (Hit { base_damage, mods, enemy }).wf(),
    ensures
        r.0@ == (Hit { base_damage, mods, enemy }).contribution_map(),
        r.1 == (Hit { base_damage, mods, enemy }).quantized_total(),
{
    let hit = Hit { base_damage, mods, enemy };
    let contributions = hit.contributions();
    let total = contributions.total();
    (contributions, total)
}

} // verus!
