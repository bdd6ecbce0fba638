use std::collections::BTreeMap;

use ethjson::{
    AltBn128ConstOperations, AltBn128Pairing, Builtin, BuiltinCompat, BuiltinWarning, HeightError,
    Linear, Modexp, Pricing, PricingAt, PricingCompat, Uint,
};

fn height(text: &str) -> Uint {
    Uint::from_text(text).unwrap()
}

fn single(
    name: &str,
    pricing: Pricing,
    activate_at: Option<Uint>,
    eip1108_transition: Option<Uint>,
) -> BuiltinCompat {
    BuiltinCompat {
        name: name.to_string(),
        pricing: PricingCompat::Single(pricing),
        activate_at,
        eip1108_transition,
    }
}

fn multi(name: &str, entries: Vec<(Uint, PricingAt)>) -> BuiltinCompat {
    BuiltinCompat {
        name: name.to_string(),
        pricing: PricingCompat::Multi(entries),
        activate_at: None,
        eip1108_transition: None,
    }
}

fn entry(info: Option<&str>, price: Pricing) -> PricingAt {
    PricingAt { info: info.map(|s| s.to_string()), price }
}

fn const_ops(price: u64, transition: Option<u64>) -> Pricing {
    Pricing::AltBn128ConstOperations(AltBn128ConstOperations {
        price,
        eip1108_transition_price: transition,
    })
}

fn pairing(base: u64, pair: u64, tbase: Option<u64>, tpair: Option<u64>) -> Pricing {
    Pricing::AltBn128Pairing(AltBn128Pairing {
        base,
        pair,
        eip1108_transition_base: tbase,
        eip1108_transition_pair: tpair,
    })
}

#[test]
fn builtin_deserialization() {
    let compat = single("ecrecover", Pricing::Linear(Linear { base: 3000, word: 0 }), None, None);
    let builtin: Builtin = compat.into();
    assert_eq!(builtin.name, "ecrecover");
    let mut expected = BTreeMap::new();
    expected.insert(
        0,
        PricingAt { info: None, price: Pricing::Linear(Linear { base: 3000, word: 0 }) },
    );
    assert_eq!(builtin.pricing, expected);
}

#[test]
fn deserialize_multiple_pricings() {
    let compat = multi(
        "ecrecover",
        vec![
            (height("0"), entry(None, Pricing::Linear(Linear { base: 3000, word: 0 }))),
            (
                height("500"),
                entry(
                    Some("enable fake EIP at block 500"),
                    Pricing::Linear(Linear { base: 10, word: 0 }),
                ),
            ),
        ],
    );
    let builtin: Builtin = compat.into();
    assert_eq!(builtin.name, "ecrecover");
    let mut expected = BTreeMap::new();
    expected.insert(
        0,
        PricingAt { info: None, price: Pricing::Linear(Linear { base: 3000, word: 0 }) },
    );
    expected.insert(
        500,
        PricingAt {
            info: Some(String::from("enable fake EIP at block 500")),
            price: Pricing::Linear(Linear { base: 10, word: 0 }),
        },
    );
    assert_eq!(builtin.pricing, expected);
}

#[test]
fn deserialization_blake2_f_builtin() {
    let compat = single(
        "blake2_f",
        Pricing::Blake2F { gas_per_round: 123 },
        Some(height("0xffffff")),
        None,
    );
    let builtin: Builtin = compat.into();
    assert_eq!(builtin.name, "blake2_f");
    let mut expected = BTreeMap::new();
    expected.insert(
        0xffffff,
        PricingAt { info: None, price: Pricing::Blake2F { gas_per_round: 123 } },
    );
    assert_eq!(builtin.pricing, expected);
}

#[test]
fn activate_at() {
    let compat = single(
        "late_start",
        Pricing::Modexp(Modexp { divisor: 5 }),
        Some(Uint::from_u64(100000)),
        None,
    );
    let builtin: Builtin = compat.into();
    assert_eq!(builtin.name, "late_start");
    let mut expected = BTreeMap::new();
    expected.insert(
        100_000,
        PricingAt { info: None, price: Pricing::Modexp(Modexp { divisor: 5 }) },
    );
    assert_eq!(builtin.pricing, expected);
}

#[test]
fn optional_eip1108_fields() {
    let compat = single(
        "alt_bn128_add",
        const_ops(500, Some(150)),
        Some(height("0x00")),
        Some(height("0x17d433")),
    );
    let builtin: Builtin = compat.into();
    assert_eq!(builtin.name, "alt_bn128_add");
    let mut expected = BTreeMap::new();
    expected.insert(0, PricingAt { info: None, price: const_ops(500, None) });
    expected.insert(
        0x17d433,
        PricingAt { info: Some("EIP1108 transition".to_string()), price: const_ops(150, None) },
    );
    assert_eq!(builtin.pricing, expected);
}

#[test]
fn missing_activation_warns_and_starts_at_zero() {
    let compat = single("identity", Pricing::Linear(Linear { base: 15, word: 3 }), None, None);
    let (builtin, warnings) = Builtin::from_compat(compat);
    assert_eq!(warnings, vec![BuiltinWarning::MissingActivation]);
    assert_eq!(builtin.pricing.len(), 1);
    assert_eq!(builtin.pricing[&0].info, None);
}

#[test]
fn plain_rule_ignores_transition_height() {
    let compat = single(
        "modexp",
        Pricing::Modexp(Modexp { divisor: 20 }),
        Some(Uint::from_u64(42)),
        Some(Uint::from_u64(900)),
    );
    let (builtin, warnings) = Builtin::from_compat(compat);
    assert!(warnings.is_empty());
    let mut expected = BTreeMap::new();
    expected.insert(42, PricingAt { info: None, price: Pricing::Modexp(Modexp { divisor: 20 }) });
    assert_eq!(builtin.pricing, expected);
}

#[test]
fn pairing_transition_migrates_both_prices() {
    let compat = single(
        "alt_bn128_pairing",
        pairing(100000, 80000, Some(45000), Some(34000)),
        Some(Uint::from_u64(10)),
        Some(Uint::from_u64(20)),
    );
    let (builtin, warnings) = Builtin::from_compat(compat);
    assert_eq!(warnings, vec![BuiltinWarning::DeprecatedTransition]);
    let mut expected = BTreeMap::new();
    expected.insert(10, PricingAt { info: None, price: pairing(100000, 80000, None, None) });
    expected.insert(
        20,
        PricingAt {
            info: Some("EIP1108 transition".to_string()),
            price: pairing(45000, 34000, None, None),
        },
    );
    assert_eq!(builtin.pricing, expected);
}

#[test]
fn pairing_with_one_transition_price_is_not_migrated() {
    let compat = single(
        "alt_bn128_pairing",
        pairing(100000, 80000, Some(45000), None),
        Some(Uint::from_u64(10)),
        Some(Uint::from_u64(20)),
    );
    let (builtin, warnings) = Builtin::from_compat(compat);
    assert!(warnings.is_empty());
    let mut expected = BTreeMap::new();
    expected.insert(10, PricingAt { info: None, price: pairing(100000, 80000, None, None) });
    assert_eq!(builtin.pricing, expected);
}

#[test]
fn transition_prices_without_height_are_dropped() {
    let compat = single("alt_bn128_mul", const_ops(40000, Some(6000)), None, None);
    let (builtin, warnings) = Builtin::from_compat(compat);
    assert_eq!(warnings, vec![BuiltinWarning::MissingActivation]);
    let mut expected = BTreeMap::new();
    expected.insert(0, PricingAt { info: None, price: const_ops(40000, None) });
    assert_eq!(builtin.pricing, expected);
}

#[test]
fn transition_at_activation_height_overwrites_base() {
    let compat = single(
        "alt_bn128_add",
        const_ops(500, Some(150)),
        Some(Uint::from_u64(7)),
        Some(Uint::from_u64(7)),
    );
    let (builtin, warnings) = Builtin::from_compat(compat);
    assert_eq!(warnings, vec![BuiltinWarning::DeprecatedTransition]);
    let mut expected = BTreeMap::new();
    expected.insert(
        7,
        PricingAt { info: Some("EIP1108 transition".to_string()), price: const_ops(150, None) },
    );
    assert_eq!(builtin.pricing, expected);
}

#[test]
fn missing_activation_and_transition_give_both_warnings() {
    let compat = single("alt_bn128_add", const_ops(500, Some(150)), None, Some(Uint::from_u64(9)));
    let (builtin, warnings) = Builtin::from_compat(compat);
    assert_eq!(
        warnings,
        vec![BuiltinWarning::MissingActivation, BuiltinWarning::DeprecatedTransition]
    );
    assert_eq!(builtin.pricing.len(), 2);
    assert_eq!(builtin.pricing[&0].price, const_ops(500, None));
    assert_eq!(builtin.pricing[&9].price, const_ops(150, None));
}

#[test]
fn modern_entries_pass_through_unchanged() {
    let legacy_fields = const_ops(500, Some(150));
    let compat = multi(
        "alt_bn128_add",
        vec![
            (height("0x10"), entry(Some("first"), legacy_fields)),
            (height("3"), entry(None, const_ops(90, None))),
        ],
    );
    let (builtin, warnings) = Builtin::from_compat(compat);
    assert!(warnings.is_empty());
    let mut expected = BTreeMap::new();
    expected.insert(16, entry(Some("first"), legacy_fields));
    expected.insert(3, entry(None, const_ops(90, None)));
    assert_eq!(builtin.pricing, expected);
}

#[test]
fn modern_entries_later_duplicate_wins() {
    let compat = multi(
        "ecrecover",
        vec![
            (height("16"), entry(Some("old"), Pricing::Linear(Linear { base: 1, word: 1 }))),
            (height("0x10"), entry(Some("new"), Pricing::Linear(Linear { base: 2, word: 2 }))),
        ],
    );
    let builtin = Builtin::normalize(compat);
    let mut expected = BTreeMap::new();
    expected.insert(16, entry(Some("new"), Pricing::Linear(Linear { base: 2, word: 2 })));
    assert_eq!(builtin.pricing, expected);
}

#[test]
fn empty_modern_schedule_stays_empty() {
    let builtin = Builtin::normalize(multi("nothing", Vec::new()));
    assert_eq!(builtin.name, "nothing");
    assert!(builtin.pricing.is_empty());
}

#[test]
fn renormalizing_a_schedule_changes_nothing() {
    let compat = single(
        "alt_bn128_add",
        const_ops(500, Some(150)),
        Some(height("0x00")),
        Some(height("0x17d433")),
    );
    let first = Builtin::normalize(compat);
    let entries: Vec<(Uint, PricingAt)> = first
        .pricing
        .iter()
        .map(|(h, p)| (Uint::from_u64(*h), p.clone()))
        .collect();
    let second = Builtin::normalize(multi(&first.name, entries));
    assert_eq!(second, first);
}

#[test]
fn decimal_and_hex_heights_agree() {
    assert_eq!(Uint::from_text("1561651").unwrap(), Uint::from_text("0x17d433").unwrap());
    assert_eq!(Uint::from_text("0x17D433").unwrap().height(), 1561651);
    assert_eq!(Uint::from_text("0").unwrap(), Uint::from_text("0x0").unwrap());
    assert_eq!(Uint::from_text("16777215").unwrap(), Uint::from_text("0xffffff").unwrap());
}

#[test]
fn largest_heights_decode() {
    assert_eq!(Uint::from_text("18446744073709551615").unwrap().height(), u64::MAX);
    assert_eq!(Uint::from_text("0xffffffffffffffff").unwrap().height(), u64::MAX);
    assert_eq!(Uint::from_text("0x000000000000000000ff").unwrap().height(), 255);
}

#[test]
fn heights_beyond_64_bits_overflow() {
    assert_eq!(Uint::from_text("18446744073709551616"), Err(HeightError::Overflow));
    assert_eq!(Uint::from_text("0x10000000000000000"), Err(HeightError::Overflow));
}

#[test]
fn malformed_heights_are_refused() {
    for text in ["", "0x", "12a", "0xg1", "-1", " 1", "0X10", "1.5"] {
        assert_eq!(Uint::from_text(text), Err(HeightError::Malformed), "{}", text);
    }
}

#[test]
fn base_and_transition_rules() {
    assert_eq!(const_ops(500, Some(150)).base_rule(), const_ops(500, None));
    assert_eq!(const_ops(500, Some(150)).transition_rule(), Some(const_ops(150, None)));
    assert_eq!(pairing(1, 2, Some(3), Some(4)).transition_rule(), Some(pairing(3, 4, None, None)));
    assert_eq!(pairing(1, 2, None, Some(4)).transition_rule(), None);
    let linear = Pricing::Linear(Linear { base: 3, word: 4 });
    assert_eq!(linear.base_rule(), linear);
    assert_eq!(linear.transition_rule(), None);
}
