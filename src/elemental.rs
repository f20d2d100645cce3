//! Accumulation of elemental bonuses, with primary elements fusing into
//! secondary ones.

use crate::damage::{
    combinations, components, is_component, lemma_rule_table, prim, rule_table, sec, Element, PrimaryElement, Rule,
    SecondaryElement, DamageType, RULE_COUNT,
};
use crate::damage_map::{value_or_zero, values_within, DamageMap};
use crate::fixed::{abs, MAX_BONUS, MAX_EFFECTS};
use vstd::prelude::*;

verus! {

/// One rule of the pairing table applied to a primary bonus `v` of `ty`:
/// the new mapping, and whether the bonus has been combined so far.
///
/// A rule that does not involve `ty` changes nothing. Otherwise the bonus
/// tops up the rule's secondary element where that already has an entry, or
/// fuses with a strictly positive entry of the partner element, which then
/// drops to zero.
pub open spec fn apply_rule(
    m: Map<DamageType, int>,
    combined: bool,
    rule: Rule,
    ty: PrimaryElement,
    v: int,
) -> (Map<DamageType, int>, bool) {
    let s = sec(rule.0);
    let (l, r) = rule.1;
    if l != ty && r != ty {
        (m, combined)
    } else {
        let other = prim(if l == ty { r } else { l });
        if m.contains_key(s) {
            (m.insert(s, m[s] + v), true)
        } else if m.contains_key(other) && m[other] > 0 {
            (m.insert(s, v + m[other]).insert(other, 0), true)
        } else {
            (m, combined)
        }
    }
}

/// The first `n` rules of the table applied in order to a primary bonus.
pub open spec fn apply_rules(m: Map<DamageType, int>, ty: PrimaryElement, v: int, n: int) -> (Map<DamageType, int>, bool)
    decreases n,
{
    if n <= 0 {
        (m, false)
    } else {
        let p = apply_rules(m, ty, v, n - 1);
        apply_rule(p.0, p.1, rule_table()[n - 1], ty, v)
    }
}

/// `m` after a primary bonus `v` of `ty`: every rule of the table is applied;
/// a bonus that no rule combined is added to the entry of `ty` itself.
pub open spec fn with_primary(m: Map<DamageType, int>, ty: PrimaryElement, v: int) -> Map<DamageType, int> {
    let p = apply_rules(m, ty, v, RULE_COUNT as int);
    if p.1 {
        p.0
    } else {
        p.0.insert(prim(ty), value_or_zero(p.0, prim(ty)) + v)
    }
}

/// `m` after a direct bonus `v` of the secondary element `ty`.
pub open spec fn with_secondary(m: Map<DamageType, int>, ty: SecondaryElement, v: int) -> Map<DamageType, int> {
    m.insert(sec(ty), value_or_zero(m, sec(ty)) + v)
}

/// The empty mapping after the primary bonuses of `ps`, in order.
pub open spec fn fold_primaries(ps: Seq<(PrimaryElement, i64)>) -> Map<DamageType, int>
    decreases ps.len(),
{
    if ps.len() == 0 {
        Map::empty()
    } else {
        with_primary(fold_primaries(ps.drop_last()), ps.last().0, ps.last().1 as int)
    }
}

/// `m` after the secondary bonuses of `ss`, in order.
pub open spec fn fold_secondaries(m: Map<DamageType, int>, ss: Seq<(SecondaryElement, i64)>) -> Map<DamageType, int>
    decreases ss.len(),
{
    if ss.len() == 0 {
        m
    } else {
        with_secondary(fold_secondaries(m, ss.drop_last()), ss.last().0, ss.last().1 as int)
    }
}

/// The elemental contributions that the primary bonuses `ps` and the
/// secondary bonuses `ss` resolve to: the primaries first, in order, then
/// the secondaries.
pub open spec fn fused(ps: Seq<(PrimaryElement, i64)>, ss: Seq<(SecondaryElement, i64)>) -> Map<DamageType, int> {
    fold_secondaries(fold_primaries(ps), ss)
}

/// Every primary bonus of `ps` lies within the bound for a single bonus.
pub open spec fn primaries_bounded(ps: Seq<(PrimaryElement, i64)>) -> bool {
    forall|i: int| 0 <= i < ps.len() ==> -MAX_BONUS <= #[trigger] ps[i].1 <= MAX_BONUS
}

/// Every secondary bonus of `ss` lies within the bound for a single bonus.
pub open spec fn secondaries_bounded(ss: Seq<(SecondaryElement, i64)>) -> bool {
    forall|i: int| 0 <= i < ss.len() ==> -MAX_BONUS <= #[trigger] ss[i].1 <= MAX_BONUS
}

/// The largest magnitude of a fused elemental value.
pub open spec fn fused_bound() -> int {
    7 * MAX_BONUS * MAX_EFFECTS
}

/// One rule moves no value by more than the bonus.
pub proof fn lemma_apply_rule_bound(m: Map<DamageType, int>, combined: bool, rule: Rule, ty: PrimaryElement, v: int, c: int)
    requires
        values_within(m, c),
        c >= 0,
    ensures
        values_within(apply_rule(m, combined, rule, ty, v).0, c + abs(v)),
{
}

/// The first `n` rules move no value by more than `n` times the bonus.
pub proof fn lemma_apply_rules_bound(m: Map<DamageType, int>, ty: PrimaryElement, v: int, n: int, c: int)
    requires
        values_within(m, c),
        c >= 0,
        0 <= n <= RULE_COUNT,
    ensures
        values_within(apply_rules(m, ty, v, n).0, c + n * abs(v)),
    decreases n,
{
    if n > 0 {
        lemma_apply_rules_bound(m, ty, v, n - 1, c);
        let p = apply_rules(m, ty, v, n - 1);
        assert(c + (n - 1) * abs(v) >= 0) by (nonlinear_arith)
            requires
                c >= 0,
                n >= 1,
        ;
        lemma_apply_rule_bound(p.0, p.1, rule_table()[n - 1], ty, v, c + (n - 1) * abs(v));
        assert(c + (n - 1) * abs(v) + abs(v) == c + n * abs(v)) by (nonlinear_arith);
    }
}

/// A primary bonus moves no value by more than seven times the bonus.
pub proof fn lemma_with_primary_bound(m: Map<DamageType, int>, ty: PrimaryElement, v: int, c: int)
    requires
        values_within(m, c),
        c >= 0,
    ensures
        values_within(with_primary(m, ty, v), c + 7 * abs(v)),
{
    lemma_apply_rules_bound(m, ty, v, RULE_COUNT as int, c);
}

/// The primary bonuses of `ps` give values of at most seven bonuses each.
pub proof fn lemma_fold_primaries_bound(ps: Seq<(PrimaryElement, i64)>)
    requires
        primaries_bounded(ps),
    ensures
        values_within(fold_primaries(ps), 7 * MAX_BONUS * ps.len()),
    decreases ps.len(),
{
    if ps.len() > 0 {
        let rest = ps.drop_last();
        assert(primaries_bounded(rest)) by {
            assert forall|i: int| 0 <= i < rest.len() implies -MAX_BONUS <= #[trigger] rest[i].1 <= MAX_BONUS by {
                assert(rest[i] == ps[i]);
            }
        }
        lemma_fold_primaries_bound(rest);
        assert(-MAX_BONUS <= ps[ps.len() - 1].1 <= MAX_BONUS);
        lemma_with_primary_bound(fold_primaries(rest), ps.last().0, ps.last().1 as int, 7 * MAX_BONUS * rest.len());
        assert(7 * MAX_BONUS * rest.len() + 7 * MAX_BONUS == 7 * MAX_BONUS * ps.len());
    } else {
        assert(fold_primaries(ps) =~= Map::empty());
    }
}

/// The secondary bonuses of `ss` move each value by at most their count.
pub proof fn lemma_fold_secondaries_bound(m: Map<DamageType, int>, ss: Seq<(SecondaryElement, i64)>, c: int)
    requires
        secondaries_bounded(ss),
        values_within(m, c),
        c >= 0,
    ensures
        values_within(fold_secondaries(m, ss), c + MAX_BONUS * ss.len()),
    decreases ss.len(),
{
    if ss.len() > 0 {
        let rest = ss.drop_last();
        assert(secondaries_bounded(rest)) by {
            assert forall|i: int| 0 <= i < rest.len() implies -MAX_BONUS <= #[trigger] rest[i].1 <= MAX_BONUS by {
                assert(rest[i] == ss[i]);
            }
        }
        lemma_fold_secondaries_bound(m, rest, c);
        assert(-MAX_BONUS <= ss[ss.len() - 1].1 <= MAX_BONUS);
    }
}

/// Fused values stay within `fused_bound()`.
pub proof fn lemma_fused_bound(ps: Seq<(PrimaryElement, i64)>, ss: Seq<(SecondaryElement, i64)>)
    requires
        primaries_bounded(ps),
        secondaries_bounded(ss),
        ps.len() + ss.len() <= MAX_EFFECTS,
    ensures
        values_within(fused(ps, ss), fused_bound()),
{
    lemma_fold_primaries_bound(ps);
    lemma_fold_secondaries_bound(fold_primaries(ps), ss, 7 * MAX_BONUS * ps.len());
    assert(7 * MAX_BONUS * ps.len() + MAX_BONUS * ss.len() <= 7 * MAX_BONUS * MAX_EFFECTS);
}

/// Two positive bonuses of the primary elements that fuse into `s` resolve
/// to a single entry for `s` holding their sum; the first primary's entry
/// drops to zero and the second is never recorded.
pub proof fn lemma_paired_primaries_fuse(
    s: SecondaryElement,
    first: PrimaryElement,
    v1: i64,
    second: PrimaryElement,
    v2: i64,
)
    requires
        (first, second) == components(s) || (second, first) == components(s),
        v1 > 0,
        v2 > 0,
    ensures
        fused(seq![(first, v1), (second, v2)], seq![])
            == map![prim(first) => 0int, sec(s) => v1 + v2],
{
    reveal_with_fuel(apply_rules, 7);
    let ps = seq![(first, v1), (second, v2)];
    assert(ps.drop_last() == seq![(first, v1)]);
    assert(seq![(first, v1)].drop_last() == Seq::<(PrimaryElement, i64)>::empty());
    assert(fold_primaries(Seq::<(PrimaryElement, i64)>::empty()) == Map::<DamageType, int>::empty());
    let empty = Map::<DamageType, int>::empty();
    let after_first = map![prim(first) => v1 as int];
    assert(apply_rules(empty, first, v1 as int, 6) == (empty, false));
    assert(with_primary(empty, first, v1 as int) =~= after_first);
    assert(fold_primaries(seq![(first, v1)]) == after_first);
    assert(with_primary(after_first, second, v2 as int) =~= map![prim(first) => 0int, sec(s) => v1 + v2]);
}

/// The sum of the direct bonuses to `s` among `ss`.
pub open spec fn secondary_sum(ss: Seq<(SecondaryElement, i64)>, s: SecondaryElement) -> int
    decreases ss.len(),
{
    if ss.len() == 0 {
        0
    } else {
        secondary_sum(ss.drop_last(), s) + if ss.last().0 == s {
            ss.last().1 as int
        } else {
            0
        }
    }
}

/// A primary bonus to an element that is not a component of `s` creates no
/// entry for `s`.
pub proof fn lemma_apply_rules_avoids(m: Map<DamageType, int>, ty: PrimaryElement, v: int, n: int, s: SecondaryElement)
    requires
        !is_component(ty, s),
        !m.contains_key(sec(s)),
        0 <= n <= RULE_COUNT,
    ensures
        !apply_rules(m, ty, v, n).0.contains_key(sec(s)),
    decreases n,
{
    if n > 0 {
        lemma_apply_rules_avoids(m, ty, v, n - 1, s);
        lemma_rule_table();
        assert(components(rule_table()[n - 1].0) == rule_table()[n - 1].1);
    }
}

/// Primary bonuses to elements that are not components of `s` create no
/// entry for `s`.
pub proof fn lemma_fold_primaries_avoids(ps: Seq<(PrimaryElement, i64)>, s: SecondaryElement)
    requires
        forall|i: int| 0 <= i < ps.len() ==> !is_component(#[trigger] ps[i].0, s),
    ensures
        !fold_primaries(ps).contains_key(sec(s)),
    decreases ps.len(),
{
    if ps.len() > 0 {
        let rest = ps.drop_last();
        assert forall|i: int| 0 <= i < rest.len() implies !is_component(#[trigger] rest[i].0, s) by {
            assert(rest[i] == ps[i]);
        }
        lemma_fold_primaries_avoids(rest, s);
        assert(!is_component(ps[ps.len() - 1].0, s));
        lemma_apply_rules_avoids(fold_primaries(rest), ps.last().0, ps.last().1 as int, RULE_COUNT as int, s);
    }
}

/// Starting without an entry for `s`, the secondary bonuses `ss` leave an
/// entry for `s` exactly when one of them goes to `s`, holding their sum.
pub proof fn lemma_fold_secondaries_at(m: Map<DamageType, int>, ss: Seq<(SecondaryElement, i64)>, s: SecondaryElement)
    requires
        !m.contains_key(sec(s)),
    ensures
        fold_secondaries(m, ss).contains_key(sec(s)) == exists|i: int| 0 <= i < ss.len() && #[trigger] ss[i].0 == s,
        fold_secondaries(m, ss).contains_key(sec(s)) ==> fold_secondaries(m, ss)[sec(s)] == secondary_sum(ss, s),
    decreases ss.len(),
{
    if ss.len() > 0 {
        let rest = ss.drop_last();
        lemma_fold_secondaries_at(m, rest, s);
        if exists|i: int| 0 <= i < rest.len() && #[trigger] rest[i].0 == s {
            let i = choose|i: int| 0 <= i < rest.len() && #[trigger] rest[i].0 == s;
            assert(ss[i] == rest[i]);
        }
        if exists|i: int| 0 <= i < ss.len() && #[trigger] ss[i].0 == s {
            let i = choose|i: int| 0 <= i < ss.len() && #[trigger] ss[i].0 == s;
            if i < rest.len() {
                assert(rest[i] == ss[i]);
            }
        }
        if !fold_secondaries(m, rest).contains_key(sec(s)) && ss.last().0 == s {
            assert(secondary_sum(rest, s) == 0) by {
                lemma_secondary_sum_absent(rest, s);
            }
        }
    }
}

/// Bonuses that all go to other elements than `s` sum to zero for `s`.
pub proof fn lemma_secondary_sum_absent(ss: Seq<(SecondaryElement, i64)>, s: SecondaryElement)
    requires
        forall|i: int| 0 <= i < ss.len() ==> #[trigger] ss[i].0 != s,
    ensures
        secondary_sum(ss, s) == 0,
    decreases ss.len(),
{
    if ss.len() > 0 {
        let rest = ss.drop_last();
        assert forall|i: int| 0 <= i < rest.len() implies #[trigger] rest[i].0 != s by {
            assert(rest[i] == ss[i]);
        }
        lemma_secondary_sum_absent(rest, s);
        assert(ss[ss.len() - 1].0 != s);
    }
}

/// Collects elemental bonuses and resolves them into elemental contributions.
#[derive(Debug)]
pub struct ElementalCalculator {
    primary: Vec<(PrimaryElement, i64)>,
    secondary: Vec<(SecondaryElement, i64)>,
    lich: Option<(Element, i64)>,
}

impl ElementalCalculator {
    /// The primary bonuses added so far, in order.
    pub closed spec fn primaries(&self) -> Seq<(PrimaryElement, i64)> {
        self.primary@
    }

    /// The secondary bonuses added so far, in order.
    pub closed spec fn secondaries(&self) -> Seq<(SecondaryElement, i64)> {
        self.secondary@
    }

    /// The pairing table, in the fixed order in which it is evaluated.
    pub fn combinations() -> (r: Vec<Rule>)
        ensures
            r@ == rule_table(),
    {
        combinations()
    }

    /// A calculator with no bonuses; `lich` is a bonus kept aside for a
    /// later extension and not accumulated.
    pub fn new(lich: Option<(Element, i64)>) -> (r: ElementalCalculator)
        ensures
            r.primaries() == Seq::<(PrimaryElement, i64)>::empty(),
            r.secondaries() == Seq::<(SecondaryElement, i64)>::empty(),
    {
        ElementalCalculator { primary: Vec::new(), secondary: Vec::new(), lich }
    }

    /// Records a bonus of `value` to the element `ty`.
    pub fn add(&mut self, ty: Element, value: i64)
        ensures
            match ty {
                Element::Primary(p) => {
                    &&& final(self).primaries() == old(self).primaries().push((p, value))
                    &&& final(self).secondaries() == old(self).secondaries()
                },
                Element::Secondary(s) => {
                    &&& final(self).primaries() == old(self).primaries()
                    &&& final(self).secondaries() == old(self).secondaries().push((s, value))
                },
            },
    {
        match ty {
            Element::Primary(e) => self.primary.push((e, value)),
            Element::Secondary(e) => self.secondary.push((e, value)),
        }
    }

    /// The elemental contributions of the recorded bonuses: the primary
    /// bonuses are resolved first, in order, fusing pairs into secondary
    /// elements; the secondary bonuses are then added to their entries.
    pub fn finalize(self) -> (r: DamageMap)
        requires
            self.primaries().len() + self.secondaries().len() <= MAX_EFFECTS,
            primaries_bounded(self.primaries()),
            secondaries_bounded(self.secondaries()),
        ensures
            r@ == fused(self.primaries(), self.secondaries()),
            values_within(r@, fused_bound()),
    {
        let mut result = DamageMap::new();
        let mut k: usize = 0;
        while k < self.primary.len()
            invariant
                k <= self.primary@.len(),
                self.primary@.len() + self.secondary@.len() <= MAX_EFFECTS,
                primaries_bounded(self.primary@),
                result@ == fold_primaries(self.primary@.take(k as int)),
            decreases self.primary@.len() - k,
        {
            let ghost prefix = self.primary@.take(k as int);
            assert(primaries_bounded(prefix)) by {
                assert forall|i: int| 0 <= i < prefix.len() implies -MAX_BONUS <= #[trigger] prefix[i].1 <= MAX_BONUS by {
                    assert(prefix[i] == self.primary@[i]);
                }
            }
            proof {
                lemma_fold_primaries_bound(prefix);
                let np = prefix.len() as int;
                assert(7 * MAX_BONUS * np <= fused_bound()) by (nonlinear_arith)
                    requires
                        np <= MAX_EFFECTS,
                        MAX_BONUS > 0,
                ;
            }
            let (elem, value) = self.primary[k];
            Self::add_primary(&mut result, elem, value);
            assert(self.primary@.take(k as int + 1).drop_last() == prefix);
            k = k + 1;
        }
        assert(self.primary@.take(k as int) == self.primary@);
        let ghost primaries = result@;
        proof {
            lemma_fold_primaries_bound(self.primary@);
        }
        let mut j: usize = 0;
        while j < self.secondary.len()
            invariant
                j <= self.secondary@.len(),
                self.primary@.len() + self.secondary@.len() <= MAX_EFFECTS,
                primaries_bounded(self.primary@),
                secondaries_bounded(self.secondary@),
                primaries == fold_primaries(self.primary@),
                values_within(primaries, 7 * MAX_BONUS * self.primary@.len()),
                result@ == fold_secondaries(primaries, self.secondary@.take(j as int)),
            decreases self.secondary@.len() - j,
        {
            let ghost prefix = self.secondary@.take(j as int);
            assert(secondaries_bounded(prefix)) by {
                assert forall|i: int| 0 <= i < prefix.len() implies -MAX_BONUS <= #[trigger] prefix[i].1 <= MAX_BONUS by {
                    assert(prefix[i] == self.secondary@[i]);
                }
            }
            proof {
                lemma_fold_secondaries_bound(primaries, prefix, 7 * MAX_BONUS * self.primary@.len());
                let np = self.primary@.len() as int;
                let nj = prefix.len() as int;
                assert(nj <= self.secondary@.len());
                assert(7 * MAX_BONUS * np + MAX_BONUS * nj <= 7 * MAX_BONUS * MAX_EFFECTS) by (nonlinear_arith)
                    requires
                        np + nj <= MAX_EFFECTS,
                        0 <= nj,
                        0 <= np,
                        MAX_BONUS > 0,
                ;
            }
            let (elem, value) = self.secondary[j];
            Self::add_secondary(&mut result, elem, value);
            assert(self.secondary@.take(j as int + 1).drop_last() == prefix);
            j = j + 1;
        }
        assert(self.secondary@.take(j as int) == self.secondary@);
        proof {
            lemma_fused_bound(self.primary@, self.secondary@);
        }
        result
    }

    /// Applies a primary bonus to `result`, as `with_primary` states.
    pub fn add_primary(result: &mut DamageMap, ty: PrimaryElement, value: i64)
        requires
            values_within(old(result)@, fused_bound()),
            -MAX_BONUS <= value <= MAX_BONUS,
        ensures
            final(result)@ == with_primary(old(result)@, ty, value as int),
    {
        let rules = combinations();
        proof {
            lemma_rule_table();
        }
        let mut was_combined = false;
        let mut i: usize = 0;
        while i < RULE_COUNT
            invariant
                i <= RULE_COUNT,
                rules@ == rule_table(),
                -MAX_BONUS <= value <= MAX_BONUS,
                values_within(old(result)@, fused_bound()),
                (result@, was_combined) == apply_rules(old(result)@, ty, value as int, i as int),
                values_within(result@, fused_bound() + i * MAX_BONUS),
            decreases RULE_COUNT - i,
        {
            proof {
                lemma_apply_rule_bound(result@, was_combined, rule_table()[i as int], ty, value as int, fused_bound() + i * MAX_BONUS);
            }
            let (secondary, (l, r)) = rules[i];
            if l == ty || r == ty {
                let other = DamageType::Elemental(Element::Primary(if l == ty { r } else { l }));
                let key = DamageType::Elemental(Element::Secondary(secondary));
                match result.get(key) {
                    Some(cur) => {
                        result.insert(key, cur + value as i128);
                        was_combined = true;
                    },
                    None => {
                        match result.get(other) {
                            Some(other_value) => {
                                if other_value > 0 {
                                    result.insert(key, value as i128 + other_value);
                                    result.insert(other, 0);
                                    was_combined = true;
                                }
                            },
                            None => {},
                        }
                    },
                }
            }
            i = i + 1;
        }
        if !was_combined {
            let key = DamageType::Elemental(Element::Primary(ty));
            let cur = match result.get(key) {
                Some(v) => v,
                None => 0,
            };
            result.insert(key, cur + value as i128);
        }
    }

    /// Adds a direct secondary bonus to `result`.
    pub fn add_secondary(result: &mut DamageMap, ty: SecondaryElement, value: i64)
        requires
            values_within(old(result)@, fused_bound()),
            -MAX_BONUS <= value <= MAX_BONUS,
        ensures
            final(result)@ == with_secondary(old(result)@, ty, value as int),
    {
        let key = DamageType::Elemental(Element::Secondary(ty));
        let cur = match result.get(key) {
            Some(v) => v,
            None => 0,
        };
        result.insert(key, cur + value as i128);
    }
}

} // verus!
