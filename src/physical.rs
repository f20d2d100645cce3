//! Accumulation of physical damage bonuses.

use crate::damage::{DamageType, Ips};
use crate::damage_map::{values_within, DamageMap};
use crate::fixed::{MAX_BONUS, MAX_EFFECTS};
use vstd::prelude::*;

verus! {

/// The sum of the bonuses that `entries` gives to `ips`.
pub open spec fn bonus_sum(entries: Seq<(Ips, i64)>, ips: Ips) -> int
    decreases entries.len(),
{
    if entries.len() == 0 {
        0
    } else {
        bonus_sum(entries.drop_last(), ips) + if entries.last().0 == ips {
            entries.last().1 as int
        } else {
            0
        }
    }
}

/// The accumulated bonus of each physical damage type, for the types whose
/// accumulated bonus is not zero.
pub open spec fn physical_totals(entries: Seq<(Ips, i64)>) -> Map<DamageType, int> {
    Map::new(
        |t: DamageType|
            match t {
                DamageType::Physical(ips) => bonus_sum(entries, ips) != 0,
                _ => false,
            },
        |t: DamageType|
            match t {
                DamageType::Physical(ips) => bonus_sum(entries, ips),
                _ => 0,
            },
    )
}

/// Every bonus of `entries` lies within the bound for a single bonus.
pub open spec fn bonuses_bounded(entries: Seq<(Ips, i64)>) -> bool {
    forall|i: int| 0 <= i < entries.len() ==> -MAX_BONUS <= #[trigger] entries[i].1 <= MAX_BONUS
}

/// A sum of `n` bounded bonuses is at most `n` times the bound.
pub proof fn lemma_bonus_sum_bound(entries: Seq<(Ips, i64)>, ips: Ips)
    requires
        bonuses_bounded(entries),
    ensures
        -(entries.len() * MAX_BONUS) <= bonus_sum(entries, ips) <= entries.len() * MAX_BONUS,
    decreases entries.len(),
{
    if entries.len() > 0 {
        let rest = entries.drop_last();
        assert(bonuses_bounded(rest)) by {
            assert forall|i: int| 0 <= i < rest.len() implies -MAX_BONUS <= #[trigger] rest[i].1 <= MAX_BONUS by {
                assert(rest[i] == entries[i]);
            }
        }
        lemma_bonus_sum_bound(rest, ips);
        assert(-MAX_BONUS <= entries[entries.len() - 1].1 <= MAX_BONUS);
    }
}

/// Collects physical bonuses and sums them per physical damage type.
#[derive(Debug)]
pub struct PhysicalCalculator {
    ips: Vec<(Ips, i64)>,
    lich: Option<(Ips, i64)>,
}

impl PhysicalCalculator {
    /// The bonuses added so far, in order.
    pub closed spec fn entries(&self) -> Seq<(Ips, i64)> {
        self.ips@
    }

    /// A calculator with no bonuses; `lich` is a bonus kept aside for a
    /// later extension and not accumulated.
    pub fn new(lich: Option<(Ips, i64)>) -> (r: PhysicalCalculator)
        ensures
            r.entries() == Seq::<(Ips, i64)>::empty(),
    {
        PhysicalCalculator { ips: Vec::new(), lich }
    }

    /// Records a bonus of `value` to `ips`.
    pub fn add(&mut self, ips: Ips, value: i64)
        ensures
            final(self).entries() == old(self).entries().push((ips, value)),
    {
        self.ips.push((ips, value));
    }

    /// The accumulated bonus of each physical damage type; types whose
    /// bonuses sum to zero have no entry.
    pub fn finalize(self) -> (r: DamageMap)
        requires
            self.entries().len() <= MAX_EFFECTS,
            bonuses_bounded(self.entries()),
        ensures
            r@ == physical_totals(self.entries()),
            values_within(r@, MAX_BONUS * MAX_EFFECTS),
    {
        let mut impact: i128 = 0;
        let mut puncture: i128 = 0;
        let mut slash: i128 = 0;
        let mut k: usize = 0;
        while k < self.ips.len()
            invariant
                k <= self.ips@.len() <= MAX_EFFECTS,
                bonuses_bounded(self.ips@),
                impact == bonus_sum(self.ips@.take(k as int), Ips::Impact),
                puncture == bonus_sum(self.ips@.take(k as int), Ips::Puncture),
                slash == bonus_sum(self.ips@.take(k as int), Ips::Slash),
            decreases self.ips@.len() - k,
        {
            let ghost prefix = self.ips@.take(k as int + 1);
            assert(prefix.drop_last() == self.ips@.take(k as int));
            assert(bonuses_bounded(self.ips@.take(k as int))) by {
                assert forall|i: int| 0 <= i < k implies -MAX_BONUS <= #[trigger] self.ips@.take(k as int)[i].1 <= MAX_BONUS by {
                    assert(self.ips@.take(k as int)[i] == self.ips@[i]);
                }
            }
            proof {
                lemma_bonus_sum_bound(self.ips@.take(k as int), Ips::Impact);
                lemma_bonus_sum_bound(self.ips@.take(k as int), Ips::Puncture);
                lemma_bonus_sum_bound(self.ips@.take(k as int), Ips::Slash);
            }
            let (ips, value) = self.ips[k];
            assert(prefix.last() == (ips, value));
            match ips {
                Ips::Impact => impact = impact + value as i128,
                Ips::Puncture => puncture = puncture + value as i128,
                Ips::Slash => slash = slash + value as i128,
            }
            k = k + 1;
        }
        assert(self.ips@.take(k as int) == self.ips@);
        proof {
            lemma_bonus_sum_bound(self.ips@, Ips::Impact);
            lemma_bonus_sum_bound(self.ips@, Ips::Puncture);
            lemma_bonus_sum_bound(self.ips@, Ips::Slash);
        }
        let mut r = DamageMap::new();
        if impact != 0 {
            r.insert(DamageType::Physical(Ips::Impact), impact);
        }
        if puncture != 0 {
            r.insert(DamageType::Physical(Ips::Puncture), puncture);
        }
        if slash != 0 {
            r.insert(DamageType::Physical(Ips::Slash), slash);
        }
        assert(r@ =~= physical_totals(self.ips@));
        r
    }
}

} // verus!
