//! Builtin descriptors, and the normalisation of the two shapes in which a
//! chain specification may give a builtin's pricing into one schedule.
use std::collections::BTreeMap;

use crate::height::Uint;
use crate::pricing::{
    has_legacy_fields, supports_transition, transition_pricing, without_legacy_fields,
    ActivationView, Pricing, PricingAt,
};
use vstd::prelude::*;

verus! {

/// The pricing of a builtin as a chain specification gives it.
pub enum PricingCompat {
    /// One rule, with the activation heights given beside it.
    Single(Pricing),
    /// Activation entries, keyed by height, in the order in which they are
    /// written; where a height is written twice the later entry counts.
    Multi(Vec<(Uint, PricingAt)>),
}

/// A builtin as a chain specification gives it, in either shape.
pub struct BuiltinCompat {
    /// Builtin name.
    pub name: String,
    /// Builtin pricing.
    pub pricing: PricingCompat,
    /// Activation block.
    pub activate_at: Option<Uint>,
    /// Block of the EIP 1108 transition; kept for older chain specifications.
    pub eip1108_transition: Option<Uint>,
}

/// Spec builtin.
#[derive(Debug, Clone, PartialEq)]
pub struct Builtin {
    /// Builtin name.
    pub name: String,
    /// Builtin pricing, keyed by the block from which each rule is in effect.
    pub pricing: BTreeMap<u64, PricingAt>,
}

/// A deprecated usage met while normalising a builtin; it does not stop the
/// builtin from loading.
#[derive(Debug, Clone, Copy, PartialEq, Eq, Structural)]
pub enum BuiltinWarning {
    /// A single rule was given without `activate_at`: it is in effect from block 0.
    MissingActivation,
    /// `eip1108_transition` was used with transition prices: they became an
    /// entry of their own.
    DeprecatedTransition,
}

/// The note that marks an entry migrated from the EIP 1108 transition fields.
pub open spec fn transition_note() -> Seq<char> {
    "EIP1108 transition"@
}

/// The block from which a single rule is in effect.
pub open spec fn activation_height(activate_at: Option<Uint>) -> u64 {
    match activate_at {
        Some(u) => u.value,
        None => 0,
    }
}

/// What each entry of a schedule says.
pub open spec fn schedule_view(m: Map<u64, PricingAt>) -> Map<u64, ActivationView> {
    m.map_values(|a: PricingAt| a@)
}

/// The schedule of a single rule: the rule without its transition prices at
/// its activation height, then, where the variant supports it and both the
/// transition height and prices are given, a rule of those prices at the
/// transition height (which replaces the first where the two heights agree).
pub open spec fn legacy_schedule(
    p: Pricing,
    activate_at: Option<Uint>,
    transition: Option<Uint>,
) -> Map<u64, ActivationView> {
    let base = Map::<u64, ActivationView>::empty().insert(
        activation_height(activate_at),
        (None, without_legacy_fields(p)),
    );
    match (transition, transition_pricing(p)) {
        (Some(t), Some(q)) => base.insert(t.value, (Some(transition_note()), q)),
        _ => base,
    }
}

/// The schedule that activation entries written in this order describe.
pub open spec fn entries_schedule(s: Seq<(Uint, PricingAt)>) -> Map<u64, ActivationView>
    decreases s.len(),
{
    if s.len() == 0 {
        Map::empty()
    } else {
        entries_schedule(s.drop_last()).insert(s.last().0.value, s.last().1@)
    }
}

/// The schedule of a builtin as a chain specification gives it.
pub open spec fn normalized_schedule(c: BuiltinCompat) -> Map<u64, ActivationView> {
    match c.pricing {
        PricingCompat::Single(p) => legacy_schedule(p, c.activate_at, c.eip1108_transition),
        PricingCompat::Multi(v) => entries_schedule(v@),
    }
}

/// The warnings that normalising a builtin gives, in order.
pub open spec fn normalization_warnings(c: BuiltinCompat) -> Seq<BuiltinWarning> {
    match c.pricing {
        PricingCompat::Single(p) => (if c.activate_at is None {
            seq![BuiltinWarning::MissingActivation]
        } else {
            Seq::empty()
        }) + (if c.eip1108_transition is Some && transition_pricing(p) is Some {
            seq![BuiltinWarning::DeprecatedTransition]
        } else {
            Seq::empty()
        }),
        PricingCompat::Multi(_) => Seq::empty(),
    }
}

/// The schedule of a single rule.
fn single_schedule(p: Pricing, activate_at: Option<Uint>, transition: Option<Uint>) -> (r: (
    BTreeMap<u64, PricingAt>,
    Vec<BuiltinWarning>,
))
    ensures
        schedule_view(r.0@) == legacy_schedule(p, activate_at, transition),
        r.1@ == (if activate_at is None {
            seq![BuiltinWarning::MissingActivation]
        } else {
            Seq::empty()
        }) + (if transition is Some && transition_pricing(p) is Some {
            seq![BuiltinWarning::DeprecatedTransition]
        } else {
            Seq::empty()
        }),
{
    broadcast use vstd::laws_cmp::group_laws_cmp;

    let mut map: BTreeMap<u64, PricingAt> = BTreeMap::new();
    let mut warnings: Vec<BuiltinWarning> = Vec::new();
    let at: u64 = match activate_at {
        Some(u) => u.value,
        None => {
            warnings.push(BuiltinWarning::MissingActivation);
            0
        },
    };
    let ghost w0 = warnings@;
    map.insert(at, PricingAt { info: None, price: p.base_rule() });
    let ghost base = schedule_view(map@);
    assert(base =~= Map::<u64, ActivationView>::empty().insert(
        activation_height(activate_at),
        (None, without_legacy_fields(p)),
    ));
    match (transition, p.transition_rule()) {
        (Some(t), Some(q)) => {
            let note = "EIP1108 transition".to_owned();
            map.insert(t.value, PricingAt { info: Some(note), price: q });
            warnings.push(BuiltinWarning::DeprecatedTransition);
            assert(schedule_view(map@) =~= base.insert(t.value, (Some(transition_note()), q)));
            assert(warnings@ =~= w0 + seq![BuiltinWarning::DeprecatedTransition]);
        },
        _ => {
            assert(warnings@ =~= w0 + Seq::<BuiltinWarning>::empty());
        },
    }
    (map, warnings)
}

/// The schedule that activation entries describe.
fn multi_schedule(entries: Vec<(Uint, PricingAt)>) -> (r: BTreeMap<u64, PricingAt>)
    ensures
        schedule_view(r@) == entries_schedule(entries@),
{
    broadcast use vstd::laws_cmp::group_laws_cmp;

    let ghost all = entries@;
    let mut rest = entries;
    let mut map: BTreeMap<u64, PricingAt> = BTreeMap::new();
    let ghost mut i: int = 0;
    assert(all.take(0) =~= Seq::<(Uint, PricingAt)>::empty());
    assert(schedule_view(map@) =~= Map::<u64, ActivationView>::empty());
    while rest.len() > 0
        invariant
            0 <= i <= all.len(),
            rest@ == all.skip(i),
            schedule_view(map@) == entries_schedule(all.take(i)),
        decreases rest@.len(),
    {
        let (k, e) = rest.remove(0);
        proof {
            assert(all.take(i + 1).drop_last() =~= all.take(i));
            assert(all.take(i + 1).last() == all[i]);
        }
        let ghost before = map@;
        map.insert(k.value, e);
        proof {
            assert(schedule_view(map@) =~= schedule_view(before).insert(k.value, all[i].1@));
            i = i + 1;
            assert(rest@ =~= all.skip(i));
        }
    }
    assert(all.take(i) =~= all);
    map
}

impl Builtin {
    /// Normalises a builtin as a chain specification gives it into one
    /// schedule, with the warnings that deprecated usages give.
    pub fn from_compat(legacy: BuiltinCompat) -> (r: (Builtin, Vec<BuiltinWarning>))
        ensures
            r.0.name@ == legacy.name@,
            schedule_view(r.0.pricing@) == normalized_schedule(legacy),
            r.1@ == normalization_warnings(legacy),
    {
        let BuiltinCompat { name, pricing, activate_at, eip1108_transition } = legacy;
        match pricing {
            PricingCompat::Single(p) => {
                let (map, warnings) = single_schedule(p, activate_at, eip1108_transition);
                (Builtin { name, pricing: map }, warnings)
            },
            PricingCompat::Multi(entries) => {
                let map = multi_schedule(entries);
                (Builtin { name, pricing: map }, Vec::new())
            },
        }
    }

    /// Normalises a builtin as a chain specification gives it into one
    /// schedule; the warnings are dropped.
    pub fn normalize(legacy: BuiltinCompat) -> (r: Builtin)
        ensures
            r.name@ == legacy.name@,
            schedule_view(r.pricing@) == normalized_schedule(legacy),
    {
        Builtin::from_compat(legacy).0
    }
}

impl From<BuiltinCompat> for Builtin {
    /// Normalises a builtin as a chain specification gives it into one
    /// schedule; the warnings are dropped (`Builtin::from_compat` returns them).
    fn from(legacy: BuiltinCompat) -> (r: Builtin)
        ensures
            r.name@ == legacy.name@,
            schedule_view(r.pricing@) == normalized_schedule(legacy),
    {
        Builtin::from_compat(legacy).0
    }
}

impl vstd::std_specs::convert::FromSpecImpl<BuiltinCompat> for Builtin {
    open spec fn obeys_from_spec() -> bool {
        false
    }

    open spec fn from_spec(v: BuiltinCompat) -> Builtin {
        choose|b: Builtin|
            b.name@ == v.name@ && schedule_view(b.pricing@) == normalized_schedule(v)
    }
}

/// Which heights a written list of activation entries keys, and that each
/// entry not written again later is the one kept at its height.
proof fn lemma_entries_schedule(s: Seq<(Uint, PricingAt)>)
    ensures
        forall|h: u64|
            entries_schedule(s).contains_key(h) <==> exists|i: int|
                0 <= i < s.len() && (#[trigger] s[i]).0.value == h,
        forall|i: int|
            0 <= i < s.len() && (forall|j: int| i < j < s.len() ==> s[j].0.value != s[i].0.value)
                ==> entries_schedule(s)[(#[trigger] s[i]).0.value] == s[i].1@,
    decreases s.len(),
{
    if s.len() > 0 {
        let t = s.drop_last();
        lemma_entries_schedule(t);
        assert forall|h: u64|
            entries_schedule(s).contains_key(h) <==> exists|i: int|
                0 <= i < s.len() && (#[trigger] s[i]).0.value == h by {
            if entries_schedule(t).contains_key(h) {
                let i = choose|i: int| 0 <= i < t.len() && (#[trigger] t[i]).0.value == h;
                assert(s[i] == t[i]);
            }
            if exists|i: int| 0 <= i < s.len() && (#[trigger] s[i]).0.value == h {
                let i = choose|i: int| 0 <= i < s.len() && (#[trigger] s[i]).0.value == h;
                if i < t.len() {
                    assert(t[i] == s[i]);
                }
            }
        }
        assert forall|i: int|
            0 <= i < s.len() && (forall|j: int| i < j < s.len() ==> s[j].0.value != s[i].0.value)
                implies entries_schedule(s)[(#[trigger] s[i]).0.value] == s[i].1@ by {
            if i < t.len() {
                assert(t[i] == s[i]);
                assert(s[s.len() - 1].0.value != s[i].0.value);
                assert forall|j: int| i < j < t.len() implies t[j].0.value != t[i].0.value by {
                    assert(t[j] == s[j]);
                }
            }
        }
    }
}

/// A single rule given without an activation height is in effect from
/// block 0, alone and without a note, unless its EIP 1108 transition prices
/// are migrated.
pub proof fn lemma_missing_activation_starts_at_zero(c: BuiltinCompat)
    requires
        c.pricing is Single,
        c.activate_at is None,
        !(c.eip1108_transition is Some && transition_pricing(c.pricing->Single_0) is Some),
    ensures
        normalized_schedule(c).dom() == set![0u64],
        normalized_schedule(c)[0].0 is None,
{
    assert(normalized_schedule(c).dom() =~= set![0u64]);
}

/// A single rule of a variant without EIP 1108 transition support makes one
/// entry at its activation height, whatever transition height is given.
pub proof fn lemma_plain_rule_single_entry(c: BuiltinCompat)
    requires
        c.pricing matches PricingCompat::Single(p) && !supports_transition(p),
        c.activate_at is Some,
    ensures
        normalized_schedule(c).dom() == set![c.activate_at->Some_0.value],
        normalized_schedule(c)[c.activate_at->Some_0.value] == (
            None::<Seq<char>>,
            c.pricing->Single_0,
        ),
{
    assert(normalized_schedule(c).dom() =~= set![c.activate_at->Some_0.value]);
}

/// A single rule of a variant with EIP 1108 transition support, given with
/// an activation height, a distinct transition height and all its transition
/// prices, makes two entries: the base prices at the activation height and
/// the transition prices at the transition height, noted as such; neither
/// keeps a transition price.
pub proof fn lemma_transition_migrates(c: BuiltinCompat)
    requires
        c.pricing matches PricingCompat::Single(p) && supports_transition(p) && transition_pricing(
            p,
        ) is Some,
        c.activate_at is Some,
        c.eip1108_transition is Some,
        c.activate_at->Some_0.value != c.eip1108_transition->Some_0.value,
    ensures
        ({
            let m = normalized_schedule(c);
            let a = c.activate_at->Some_0.value;
            let t = c.eip1108_transition->Some_0.value;
            let p = c.pricing->Single_0;
            &&& m.dom() == set![a, t]
            &&& m[a] == (None::<Seq<char>>, without_legacy_fields(p))
            &&& m[t] == (Some(transition_note()), transition_pricing(p)->Some_0)
            &&& !has_legacy_fields(m[a].1)
            &&& !has_legacy_fields(m[t].1)
        }),
{
    let a = c.activate_at->Some_0.value;
    let t = c.eip1108_transition->Some_0.value;
    assert(normalized_schedule(c).dom() =~= set![a, t]);
}

/// Activation entries pass through unchanged: the schedule holds exactly the
/// heights written, each with the entry last written for it.
pub proof fn lemma_entries_pass_through(c: BuiltinCompat)
    requires
        c.pricing is Multi,
    ensures
        ({
            let m = normalized_schedule(c);
            let s = c.pricing->Multi_0@;
            &&& forall|h: u64|
                m.contains_key(h) <==> exists|i: int| 0 <= i < s.len() && (#[trigger] s[i]).0.value == h
            &&& forall|i: int|
                0 <= i < s.len() && (forall|j: int| i < j < s.len() ==> s[j].0.value != s[i].0.value)
                    ==> m[(#[trigger] s[i]).0.value] == s[i].1@
        }),
{
    lemma_entries_schedule(c.pricing->Multi_0@);
}

/// Normalising a builtin whose entries list a normalised schedule, one entry
/// per height, gives that schedule back.
pub proof fn lemma_renormalize_is_identity(b: Builtin, c: BuiltinCompat)
    requires
        c.pricing is Multi,
        forall|i: int, j: int|
            0 <= i < j < c.pricing->Multi_0@.len() ==> (#[trigger] c.pricing->Multi_0@[i]).0.value
                != (#[trigger] c.pricing->Multi_0@[j]).0.value,
        forall|i: int|
            0 <= i < c.pricing->Multi_0@.len() ==> schedule_view(b.pricing@).contains_key(
                (#[trigger] c.pricing->Multi_0@[i]).0.value,
            ) && schedule_view(b.pricing@)[c.pricing->Multi_0@[i].0.value]
                == c.pricing->Multi_0@[i].1@,
        forall|h: u64|
            #[trigger] b.pricing@.contains_key(h) ==> exists|i: int|
                0 <= i < c.pricing->Multi_0@.len() && (#[trigger] c.pricing->Multi_0@[i]).0.value
                    == h,
    ensures
        normalized_schedule(c) == schedule_view(b.pricing@),
{
    let s = c.pricing->Multi_0@;
    let m = schedule_view(b.pricing@);
    lemma_entries_schedule(s);
    let n = entries_schedule(s);
    assert forall|h: u64| n.contains_key(h) implies m.contains_key(h) && n[h] == m[h] by {
        let i = choose|i: int| 0 <= i < s.len() && (#[trigger] s[i]).0.value == h;
        assert forall|j: int| i < j < s.len() implies s[j].0.value != s[i].0.value by {
            assert(s[i].0.value != s[j].0.value);
        }
    }
    assert forall|h: u64| m.contains_key(h) implies n.contains_key(h) by {
        assert(b.pricing@.contains_key(h));
    }
    assert(n =~= m);
}

} // verus!
