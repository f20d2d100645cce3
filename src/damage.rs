//! Damage-type taxonomy and the fixed pairing table of elements.

use vstd::prelude::*;

verus! {

/// A damage type: physical, elemental or special.
#[derive(Debug, Clone, Copy, PartialEq, Eq, Structural, Hash)]
pub enum DamageType {
    Physical(Ips),
    Elemental(Element),
    Special(Special),
}

/// The three physical damage types.
#[derive(Debug, Clone, Copy, PartialEq, Eq, Structural, Hash)]
pub enum Ips {
    Impact,
    Puncture,
    Slash,
}

/// An elemental damage type, primary or secondary.
#[derive(Debug, Clone, Copy, PartialEq, Eq, Structural, Hash)]
pub enum Element {
    Primary(PrimaryElement),
    Secondary(SecondaryElement),
}

/// Special damage types; classified only, never produced by the engine.
#[derive(Debug, Clone, Copy, PartialEq, Eq, Structural, Hash)]
pub enum Special {
    Void,
    Tau,
    True,
}

/// The four base elements.
#[derive(Debug, Clone, Copy, PartialEq, Eq, Structural, Hash)]
pub enum PrimaryElement {
    Cold,
    Heat,
    Toxin,
    Electricity,
}

/// The six elements that two primary elements fuse into.
#[derive(Debug, Clone, Copy, PartialEq, Eq, Structural, Hash)]
pub enum SecondaryElement {
    Blast,
    Viral,
    Magnetic,
    Gas,
    Radiation,
    Corrosive,
}

/// Number of damage types.
pub const DAMAGE_TYPE_COUNT: usize = 16;

/// Number of rules in the pairing table.
pub const RULE_COUNT: usize = 6;

/// The damage type of a primary element.
pub open spec fn prim(p: PrimaryElement) -> DamageType {
    DamageType::Elemental(Element::Primary(p))
}

/// The damage type of a secondary element.
pub open spec fn sec(s: SecondaryElement) -> DamageType {
    DamageType::Elemental(Element::Secondary(s))
}

/// The position of a damage type in the fixed enumeration of all sixteen.
pub open spec fn slot_of(t: DamageType) -> int {
    match t {
        DamageType::Physical(Ips::Impact) => 0,
        DamageType::Physical(Ips::Puncture) => 1,
        DamageType::Physical(Ips::Slash) => 2,
        DamageType::Elemental(Element::Primary(PrimaryElement::Cold)) => 3,
        DamageType::Elemental(Element::Primary(PrimaryElement::Heat)) => 4,
        DamageType::Elemental(Element::Primary(PrimaryElement::Toxin)) => 5,
        DamageType::Elemental(Element::Primary(PrimaryElement::Electricity)) => 6,
        DamageType::Elemental(Element::Secondary(SecondaryElement::Blast)) => 7,
        DamageType::Elemental(Element::Secondary(SecondaryElement::Viral)) => 8,
        DamageType::Elemental(Element::Secondary(SecondaryElement::Magnetic)) => 9,
        DamageType::Elemental(Element::Secondary(SecondaryElement::Gas)) => 10,
        DamageType::Elemental(Element::Secondary(SecondaryElement::Radiation)) => 11,
        DamageType::Elemental(Element::Secondary(SecondaryElement::Corrosive)) => 12,
        DamageType::Special(Special::Void) => 13,
        DamageType::Special(Special::Tau) => 14,
        DamageType::Special(Special::True) => 15,
    }
}

/// The damage type at a position of the fixed enumeration.
pub open spec fn type_at(i: int) -> DamageType {
    if i <= 0 {
        DamageType::Physical(Ips::Impact)
    } else if i == 1 {
        DamageType::Physical(Ips::Puncture)
    } else if i == 2 {
        DamageType::Physical(Ips::Slash)
    } else if i == 3 {
        prim(PrimaryElement::Cold)
    } else if i == 4 {
        prim(PrimaryElement::Heat)
    } else if i == 5 {
        prim(PrimaryElement::Toxin)
    } else if i == 6 {
        prim(PrimaryElement::Electricity)
    } else if i == 7 {
        sec(SecondaryElement::Blast)
    } else if i == 8 {
        sec(SecondaryElement::Viral)
    } else if i == 9 {
        sec(SecondaryElement::Magnetic)
    } else if i == 10 {
        sec(SecondaryElement::Gas)
    } else if i == 11 {
        sec(SecondaryElement::Radiation)
    } else if i == 12 {
        sec(SecondaryElement::Corrosive)
    } else if i == 13 {
        DamageType::Special(Special::Void)
    } else if i == 14 {
        DamageType::Special(Special::Tau)
    } else {
        DamageType::Special(Special::True)
    }
}

/// The enumeration of damage types is a bijection onto `0..16`.
pub proof fn lemma_slots()
    ensures
        forall|t: DamageType| #![trigger slot_of(t)] 0 <= slot_of(t) < 16 && type_at(slot_of(t)) == t,
        forall|i: int| 0 <= i < 16 ==> #[trigger] slot_of(type_at(i)) == i,
{
}

/// The position of a damage type in the fixed enumeration.
pub fn slot(t: DamageType) -> (r: usize)
    ensures
        r == slot_of(t),
{
    match t {
        DamageType::Physical(Ips::Impact) => 0,
        DamageType::Physical(Ips::Puncture) => 1,
        DamageType::Physical(Ips::Slash) => 2,
        DamageType::Elemental(Element::Primary(PrimaryElement::Cold)) => 3,
        DamageType::Elemental(Element::Primary(PrimaryElement::Heat)) => 4,
        DamageType::Elemental(Element::Primary(PrimaryElement::Toxin)) => 5,
        DamageType::Elemental(Element::Primary(PrimaryElement::Electricity)) => 6,
        DamageType::Elemental(Element::Secondary(SecondaryElement::Blast)) => 7,
        DamageType::Elemental(Element::Secondary(SecondaryElement::Viral)) => 8,
        DamageType::Elemental(Element::Secondary(SecondaryElement::Magnetic)) => 9,
        DamageType::Elemental(Element::Secondary(SecondaryElement::Gas)) => 10,
        DamageType::Elemental(Element::Secondary(SecondaryElement::Radiation)) => 11,
        DamageType::Elemental(Element::Secondary(SecondaryElement::Corrosive)) => 12,
        DamageType::Special(Special::Void) => 13,
        DamageType::Special(Special::Tau) => 14,
        DamageType::Special(Special::True) => 15,
    }
}

/// The damage type at a position of the fixed enumeration.
pub fn damage_type_at(i: usize) -> (r: DamageType)
    requires
        i < DAMAGE_TYPE_COUNT,
    ensures
        r == type_at(i as int),
{
    if i == 0 {
        DamageType::Physical(Ips::Impact)
    } else if i == 1 {
        DamageType::Physical(Ips::Puncture)
    } else if i == 2 {
        DamageType::Physical(Ips::Slash)
    } else if i == 3 {
        DamageType::Elemental(Element::Primary(PrimaryElement::Cold))
    } else if i == 4 {
        DamageType::Elemental(Element::Primary(PrimaryElement::Heat))
    } else if i == 5 {
        DamageType::Elemental(Element::Primary(PrimaryElement::Toxin))
    } else if i == 6 {
        DamageType::Elemental(Element::Primary(PrimaryElement::Electricity))
    } else if i == 7 {
        DamageType::Elemental(Element::Secondary(SecondaryElement::Blast))
    } else if i == 8 {
        DamageType::Elemental(Element::Secondary(SecondaryElement::Viral))
    } else if i == 9 {
        DamageType::Elemental(Element::Secondary(SecondaryElement::Magnetic))
    } else if i == 10 {
        DamageType::Elemental(Element::Secondary(SecondaryElement::Gas))
    } else if i == 11 {
        DamageType::Elemental(Element::Secondary(SecondaryElement::Radiation))
    } else if i == 12 {
        DamageType::Elemental(Element::Secondary(SecondaryElement::Corrosive))
    } else if i == 13 {
        DamageType::Special(Special::Void)
    } else if i == 14 {
        DamageType::Special(Special::Tau)
    } else {
        DamageType::Special(Special::True)
    }
}

/// One rule of the pairing table: a secondary element and the two primary
/// elements that fuse into it.
pub type Rule = (SecondaryElement, (PrimaryElement, PrimaryElement));

/// The pairing table, in the fixed order in which the fusion algorithm
/// evaluates it.
pub open spec fn rule_table() -> Seq<Rule> {
    seq![
        (SecondaryElement::Blast, (PrimaryElement::Cold, PrimaryElement::Heat)),
        (SecondaryElement::Viral, (PrimaryElement::Cold, PrimaryElement::Toxin)),
        (SecondaryElement::Magnetic, (PrimaryElement::Cold, PrimaryElement::Electricity)),
        (SecondaryElement::Gas, (PrimaryElement::Heat, PrimaryElement::Toxin)),
        (SecondaryElement::Radiation, (PrimaryElement::Heat, PrimaryElement::Electricity)),
        (SecondaryElement::Corrosive, (PrimaryElement::Toxin, PrimaryElement::Electricity)),
    ]
}

/// The unordered pair of primary elements that fuse into `s`.
pub open spec fn components(s: SecondaryElement) -> (PrimaryElement, PrimaryElement) {
    match s {
        SecondaryElement::Blast => (PrimaryElement::Cold, PrimaryElement::Heat),
        SecondaryElement::Viral => (PrimaryElement::Cold, PrimaryElement::Toxin),
        SecondaryElement::Magnetic => (PrimaryElement::Cold, PrimaryElement::Electricity),
        SecondaryElement::Gas => (PrimaryElement::Heat, PrimaryElement::Toxin),
        SecondaryElement::Radiation => (PrimaryElement::Heat, PrimaryElement::Electricity),
        SecondaryElement::Corrosive => (PrimaryElement::Toxin, PrimaryElement::Electricity),
    }
}

/// Whether the primary element `p` is one of the two that fuse into `s`.
pub open spec fn is_component(p: PrimaryElement, s: SecondaryElement) -> bool {
    components(s).0 == p || components(s).1 == p
}

/// The table lists every secondary element once, with its components.
pub proof fn lemma_rule_table()
    ensures
        rule_table().len() == RULE_COUNT,
        forall|i: int| 0 <= i < 6 ==> #[trigger] components(rule_table()[i].0) == rule_table()[i].1,
        forall|i: int, j: int| 0 <= i < 6 && 0 <= j < 6 && i != j
            ==> #[trigger] rule_table()[i].0 != #[trigger] rule_table()[j].0,
{
}

/// The pairing table, in its fixed order.
pub fn combinations() -> (r: Vec<Rule>)
    ensures
        r@ == rule_table(),
{
    let r = vec![
        (SecondaryElement::Blast, (PrimaryElement::Cold, PrimaryElement::Heat)),
        (SecondaryElement::Viral, (PrimaryElement::Cold, PrimaryElement::Toxin)),
        (SecondaryElement::Magnetic, (PrimaryElement::Cold, PrimaryElement::Electricity)),
        (SecondaryElement::Gas, (PrimaryElement::Heat, PrimaryElement::Toxin)),
        (SecondaryElement::Radiation, (PrimaryElement::Heat, PrimaryElement::Electricity)),
        (SecondaryElement::Corrosive, (PrimaryElement::Toxin, PrimaryElement::Electricity)),
    ];
    assert(r@ =~= rule_table());
    r
}

} // verus!
