//! Pricing rules of builtin contracts, and the rule that is in effect from
//! a given block on.
use vstd::prelude::*;

verus! {

/// Linear pricing.
#[derive(Debug, Clone, Copy, PartialEq, Eq, Structural)]
pub struct Linear {
    /// Base price.
    pub base: u64,
    /// Price for word.
    pub word: u64,
}

/// Pricing for modular exponentiation.
#[derive(Debug, Clone, Copy, PartialEq, Eq, Structural)]
pub struct Modexp {
    /// Price divisor.
    pub divisor: u64,
}

/// Pricing for constant alt_bn128 operations (ECADD and ECMUL).
#[derive(Debug, Clone, Copy, PartialEq, Eq, Structural)]
pub struct AltBn128ConstOperations {
    /// Price.
    pub price: u64,
    /// Price after the EIP 1108 transition; kept for older chain specifications.
    pub eip1108_transition_price: Option<u64>,
}

/// Pricing for alt_bn128_pairing.
#[derive(Debug, Clone, Copy, PartialEq, Eq, Structural)]
pub struct AltBn128Pairing {
    /// Base price.
    pub base: u64,
    /// Price per point pair.
    pub pair: u64,
    /// Base price after the EIP 1108 transition; kept for older chain specifications.
    pub eip1108_transition_base: Option<u64>,
    /// Price per point pair after the EIP 1108 transition; kept for older chain
    /// specifications.
    pub eip1108_transition_pair: Option<u64>,
}

/// Pricing variants.
#[derive(Debug, Clone, Copy, PartialEq, Eq, Structural)]
pub enum Pricing {
    /// Pricing for the Blake2 compression function: each round costs the same.
    Blake2F {
        /// Price per round of the Blake2 compression function.
        gas_per_round: u64,
    },
    /// Linear pricing.
    Linear(Linear),
    /// Pricing for modular exponentiation.
    Modexp(Modexp),
    /// Pricing for alt_bn128_pairing.
    AltBn128Pairing(AltBn128Pairing),
    /// Pricing for constant alt_bn128 operations.
    AltBn128ConstOperations(AltBn128ConstOperations),
}

/// Whether a rule carries a price for after the EIP 1108 transition.
pub open spec fn has_legacy_fields(p: Pricing) -> bool {
    match p {
        Pricing::AltBn128Pairing(q) => q.eip1108_transition_base is Some
            || q.eip1108_transition_pair is Some,
        Pricing::AltBn128ConstOperations(q) => q.eip1108_transition_price is Some,
        _ => false,
    }
}

/// Whether a rule of this variant can migrate an EIP 1108 transition price.
pub open spec fn supports_transition(p: Pricing) -> bool {
    p is AltBn128Pairing || p is AltBn128ConstOperations
}

/// The rule with its EIP 1108 transition prices dropped.
pub open spec fn without_legacy_fields(p: Pricing) -> Pricing {
    match p {
        Pricing::AltBn128Pairing(q) => Pricing::AltBn128Pairing(
            AltBn128Pairing {
                base: q.base,
                pair: q.pair,
                eip1108_transition_base: None,
                eip1108_transition_pair: None,
            },
        ),
        Pricing::AltBn128ConstOperations(q) => Pricing::AltBn128ConstOperations(
            AltBn128ConstOperations { price: q.price, eip1108_transition_price: None },
        ),
        _ => p,
    }
}

/// The rule of the same variant made of the EIP 1108 transition prices, when
/// the variant supports them and all of them are given.
pub open spec fn transition_pricing(p: Pricing) -> Option<Pricing> {
    match p {
        Pricing::AltBn128Pairing(q) => match (q.eip1108_transition_base, q.eip1108_transition_pair) {
            (Some(base), Some(pair)) => Some(
                Pricing::AltBn128Pairing(
                    AltBn128Pairing {
                        base,
                        pair,
                        eip1108_transition_base: None,
                        eip1108_transition_pair: None,
                    },
                ),
            ),
            _ => None,
        },
        Pricing::AltBn128ConstOperations(q) => match q.eip1108_transition_price {
            Some(price) => Some(
                Pricing::AltBn128ConstOperations(
                    AltBn128ConstOperations { price, eip1108_transition_price: None },
                ),
            ),
            None => None,
        },
        _ => None,
    }
}

impl Pricing {
    /// The rule with its EIP 1108 transition prices dropped.
    pub fn base_rule(&self) -> (r: Pricing)
        ensures
            r == without_legacy_fields(*self),
            !has_legacy_fields(r),
    {
        match *self {
            Pricing::AltBn128Pairing(q) => Pricing::AltBn128Pairing(
                AltBn128Pairing {
                    base: q.base,
                    pair: q.pair,
                    eip1108_transition_base: None,
                    eip1108_transition_pair: None,
                },
            ),
            Pricing::AltBn128ConstOperations(q) => Pricing::AltBn128ConstOperations(
                AltBn128ConstOperations { price: q.price, eip1108_transition_price: None },
            ),
            p => p,
        }
    }

    /// The rule made of the EIP 1108 transition prices, if this variant
    /// supports them and all of them are given.
    pub fn transition_rule(&self) -> (r: Option<Pricing>)
        ensures
            r == transition_pricing(*self),
            r is Some ==> supports_transition(*self),
            r matches Some(t) ==> !has_legacy_fields(t),
    {
        match *self {
            Pricing::AltBn128Pairing(q) => match (q.eip1108_transition_base, q.eip1108_transition_pair) {
                (Some(base), Some(pair)) => Some(
                    Pricing::AltBn128Pairing(
                        AltBn128Pairing {
                            base,
                            pair,
                            eip1108_transition_base: None,
                            eip1108_transition_pair: None,
                        },
                    ),
                ),
                _ => None,
            },
            Pricing::AltBn128ConstOperations(q) => match q.eip1108_transition_price {
                Some(price) => Some(
                    Pricing::AltBn128ConstOperations(
                        AltBn128ConstOperations { price, eip1108_transition_price: None },
                    ),
                ),
                None => None,
            },
            _ => None,
        }
    }
}

/// What an activation entry says: its note, if any, and its rule.
pub type ActivationView = (Option<Seq<char>>, Pricing);

/// Price for a builtin, with the block number to activate it on.
#[derive(Debug, Clone, PartialEq)]
pub struct PricingAt {
    /// Description of the activation, e.g. "PunyPony HF, March 12, 2025".
    pub info: Option<String>,
    /// Builtin pricing.
    pub price: Pricing,
}

impl View for PricingAt {
    type V = ActivationView;

    open spec fn view(&self) -> ActivationView {
        (
            match self.info {
                Some(s) => Some(s@),
                None => None,
            },
            self.price,
        )
    }
}

} // verus!
