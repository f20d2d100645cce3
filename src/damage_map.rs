//! A mapping from damage type to a fixed-point amount.

use crate::damage::{damage_type_at, lemma_slots, slot, slot_of, type_at, DamageType, DAMAGE_TYPE_COUNT};
use vstd::prelude::*;

verus! {

/// A mapping from damage type to a fixed-point amount, with at most one
/// entry per damage type.
#[derive(Debug)]
pub struct DamageMap {
    slots: Vec<Option<i128>>,
}

/// The sum of the values of `m` over the damage types at positions `i..16`
/// of the fixed enumeration; a missing entry counts as zero.
pub open spec fn sum_from(m: Map<DamageType, int>, i: int) -> int
    decreases 16 - i,
{
    if i >= 16 {
        0
    } else {
        value_or_zero(m, type_at(i)) + sum_from(m, i + 1)
    }
}

/// The value of `m` at `t`, or zero where `m` has no entry for `t`.
pub open spec fn value_or_zero(m: Map<DamageType, int>, t: DamageType) -> int {
    if m.contains_key(t) {
        m[t]
    } else {
        0
    }
}

/// The sum of all values of `m`.
pub open spec fn map_total(m: Map<DamageType, int>) -> int {
    sum_from(m, 0)
}

/// Every value of `m` lies within `-bound..=bound`.
pub open spec fn values_within(m: Map<DamageType, int>, bound: int) -> bool {
    forall|t: DamageType| #[trigger] m.contains_key(t) ==> -bound <= m[t] <= bound
}

/// A sum of values that each lie within `-bound..=bound`.
pub proof fn lemma_sum_from_bound(m: Map<DamageType, int>, i: int, bound: int)
    requires
        0 <= i <= 16,
        values_within(m, bound),
        bound >= 0,
    ensures
        -((16 - i) * bound) <= sum_from(m, i) <= (16 - i) * bound,
    decreases 16 - i,
{
    if i < 16 {
        lemma_sum_from_bound(m, i + 1, bound);
        assert((16 - i) * bound == (16 - (i + 1)) * bound + bound) by (nonlinear_arith);
        if m.contains_key(type_at(i)) {
            assert(-bound <= m[type_at(i)] <= bound);
        }
        assert(sum_from(m, i) == value_or_zero(m, type_at(i)) + sum_from(m, i + 1));
    }
}

impl View for DamageMap {
    type V = Map<DamageType, int>;

    closed spec fn view(&self) -> Map<DamageType, int> {
        Map::new(
            |t: DamageType| self.slots@[slot_of(t)] is Some,
            |t: DamageType| self.slots@[slot_of(t)]->0 as int,
        )
    }
}

impl DamageMap {
    #[verifier::type_invariant]
    spec fn inv(self) -> bool {
        self.slots@.len() == DAMAGE_TYPE_COUNT
    }

    /// An empty mapping.
    pub fn new() -> (r: DamageMap)
        ensures
            r@ == Map::<DamageType, int>::empty(),
    {
        let r = DamageMap { slots: vec![None, None, None, None, None, None, None, None, None, None, None, None, None, None, None, None] };
        assert(r@ =~= Map::<DamageType, int>::empty());
        r
    }

    /// A mapping holding the given entries; of two entries for one damage
    /// type the later one stands.
    pub fn from_entries(entries: Vec<(DamageType, i128)>) -> (r: DamageMap)
        ensures
            forall|t: DamageType| #[trigger] r@.contains_key(t)
                <==> exists|i: int| 0 <= i < entries@.len() && entries@[i].0 == t,
            forall|i: int| 0 <= i < entries@.len()
                && (forall|j: int| i < j < entries@.len() ==> entries@[j].0 != entries@[i].0)
                ==> r@[#[trigger] entries@[i].0] == entries@[i].1,
    {
        let mut r = DamageMap::new();
        let mut k: usize = 0;
        while k < entries.len()
            invariant
                k <= entries@.len(),
                forall|t: DamageType| #[trigger] r@.contains_key(t)
                    <==> exists|i: int| 0 <= i < k && entries@[i].0 == t,
                forall|i: int| 0 <= i < k
                    && (forall|j: int| i < j < k ==> entries@[j].0 != entries@[i].0)
                    ==> r@[#[trigger] entries@[i].0] == entries@[i].1,
            decreases entries@.len() - k,
        {
            let (t, v) = entries[k];
            r.insert(t, v);
            proof {
                assert forall|u: DamageType| #[trigger] r@.contains_key(u)
                    <==> exists|i: int| 0 <= i < k + 1 && entries@[i].0 == u by {
                    if u == t {
                        assert(entries@[k as int].0 == u);
                    }
                }
            }
            k = k + 1;
        }
        r
    }

    /// Whether the mapping holds an entry for `t`.
    pub fn contains_key(&self, t: DamageType) -> (r: bool)
        ensures
            r == self@.contains_key(t),
    {
        proof {
            use_type_invariant(self);
            lemma_slots();
        }
        self.slots[slot(t)].is_some()
    }

    /// The value stored for `t`, if any.
    pub fn get(&self, t: DamageType) -> (r: Option<i128>)
        ensures
            r is Some == self@.contains_key(t),
            r is Some ==> r->0 == self@[t],
    {
        proof {
            use_type_invariant(self);
            lemma_slots();
        }
        self.slots[slot(t)]
    }

    /// Stores `v` for `t`, replacing any earlier value.
    pub fn insert(&mut self, t: DamageType, v: i128)
        ensures
            final(self)@ == old(self)@.insert(t, v as int),
    {
        proof {
            use_type_invariant(&*self);
            lemma_slots();
        }
        let i = slot(t);
        let mut slots: Vec<Option<i128>> = Vec::new();
        let mut j: usize = 0;
        while j < DAMAGE_TYPE_COUNT
            invariant
                j <= DAMAGE_TYPE_COUNT,
                i < DAMAGE_TYPE_COUNT,
                self.slots@.len() == DAMAGE_TYPE_COUNT,
                slots@.len() == j,
                forall|k: int| 0 <= k < j ==> #[trigger] slots@[k] == if k == i {
                    Some(v)
                } else {
                    self.slots@[k]
                },
            decreases DAMAGE_TYPE_COUNT - j,
        {
            if j == i {
                slots.push(Some(v));
            } else {
                slots.push(self.slots[j]);
            }
            j = j + 1;
        }
        *self = DamageMap { slots };
        proof {
            assert forall|u: DamageType| slot_of(u) == slot_of(t) implies u == t by {
                lemma_slots();
            }
        }
        assert(self@ =~= old(self)@.insert(t, v as int));
    }

    /// The sum of all values.
    pub fn total(&self) -> (r: i128)
        requires
            values_within(self@, i128::MAX / 16),
        ensures
            r == map_total(self@),
    {
        proof {
            use_type_invariant(self);
            lemma_slots();
        }
        let mut sum: i128 = 0;
        let mut i: usize = DAMAGE_TYPE_COUNT;
        while i > 0
            invariant
                i <= DAMAGE_TYPE_COUNT,
                self.slots@.len() == DAMAGE_TYPE_COUNT,
                sum == sum_from(self@, i as int),
                values_within(self@, i128::MAX / 16),
            decreases i,
        {
            proof {
                lemma_sum_from_bound(self@, i as int, i128::MAX / 16);
                lemma_slots();
            }
            i = i - 1;
            let t = damage_type_at(i);
            match self.slots[i] {
                Some(v) => {
                    assert(self@.contains_key(t));
                    sum = sum + v;
                },
                None => {
                    assert(!self@.contains_key(t));
                },
            }
        }
        sum
    }

    /// The entries, in the fixed order of damage types.
    pub fn entries(&self) -> (r: Vec<(DamageType, i128)>)
        ensures
            forall|k: int| 0 <= k < r@.len() ==> self@.contains_key(#[trigger] r@[k].0)
                && self@[r@[k].0] == r@[k].1,
            forall|t: DamageType| #[trigger] self@.contains_key(t)
                ==> exists|k: int| 0 <= k < r@.len() && r@[k].0 == t,
            forall|a: int, b: int| 0 <= a < b < r@.len()
                ==> slot_of(#[trigger] r@[a].0) < slot_of(#[trigger] r@[b].0),
    {
        proof {
            use_type_invariant(self);
            lemma_slots();
        }
        let mut r: Vec<(DamageType, i128)> = Vec::new();
        let mut i: usize = 0;
        while i < DAMAGE_TYPE_COUNT
            invariant
                i <= DAMAGE_TYPE_COUNT,
                self.slots@.len() == DAMAGE_TYPE_COUNT,
                forall|k: int| 0 <= k < r@.len() ==> self@.contains_key(#[trigger] r@[k].0)
                    && self@[r@[k].0] == r@[k].1,
                forall|t: DamageType| #[trigger] self@.contains_key(t) && slot_of(t) < i
                    ==> exists|k: int| 0 <= k < r@.len() && r@[k].0 == t,
                forall|k: int| 0 <= k < r@.len() ==> slot_of(#[trigger] r@[k].0) < i,
                forall|a: int, b: int| 0 <= a < b < r@.len()
                    ==> slot_of(#[trigger] r@[a].0) < slot_of(#[trigger] r@[b].0),
            decreases DAMAGE_TYPE_COUNT - i,
        {
            proof {
                lemma_slots();
            }
            let t = damage_type_at(i);
            let ghost before = r@;
            if let Some(v) = self.slots[i] {
                r.push((t, v));
                assert(r@[r@.len() - 1].0 == t);
            }
            proof {
                assert forall|u: DamageType| #[trigger] self@.contains_key(u) && slot_of(u) < i + 1
                    implies exists|k: int| 0 <= k < r@.len() && r@[k].0 == u by {
                    if slot_of(u) < i {
                        let k = choose|k: int| 0 <= k < before.len() && before[k].0 == u;
                        assert(r@[k] == before[k]);
                    } else {
                        assert(u == t);
                        assert(r@[r@.len() - 1].0 == u);
                    }
                }
            }
            i = i + 1;
        }
        r
    }
}

} // verus!
