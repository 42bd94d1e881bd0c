use minotari_multisig::weight::{payment_fee, RangeProofType, TransactionWeight};

fn weight() -> TransactionWeight {
    TransactionWeight {
        kernel_weight: 10,
        input_weight: 8,
        output_weight: 53,
        features_and_scripts_bytes_per_gram: 16,
    }
}

#[test]
fn a_payment_weighs_its_parts_and_its_rounded_bytes() {
    // 51 bytes are rounded up to 64, which weigh 4 grams: 10 + 8 + 53 + 4.
    assert_eq!(payment_fee(&weight(), 1, 0, RangeProofType::BulletProofPlus, &[1; 32]), 75);
    assert_eq!(payment_fee(&weight(), 5, 0, RangeProofType::BulletProofPlus, &[1; 32]), 375);
}

#[test]
fn the_size_does_not_depend_on_the_payment() {
    for maturity in [0, 1, 1_000_000, u64::MAX] {
        for recipient in [[0u8; 32], [7; 32], [0xff; 32]] {
            assert_eq!(payment_fee(&weight(), 1, maturity, RangeProofType::BulletProofPlus, &recipient), 75);
            assert_eq!(payment_fee(&weight(), 1, maturity, RangeProofType::RevealedValue, &recipient), 75);
        }
    }
}

#[test]
fn bytes_are_counted_exactly() {
    let by_bytes = |bytes: u64| TransactionWeight {
        kernel_weight: 0,
        input_weight: 0,
        output_weight: 0,
        features_and_scripts_bytes_per_gram: bytes,
    };
    assert_eq!(payment_fee(&by_bytes(1), 1, 3, RangeProofType::BulletProofPlus, &[1; 32]), 51);
    assert_eq!(payment_fee(&by_bytes(51), 1, 3, RangeProofType::BulletProofPlus, &[1; 32]), 1);
    assert_eq!(payment_fee(&by_bytes(50), 1, 3, RangeProofType::BulletProofPlus, &[1; 32]), 2);
}

#[test]
fn a_fee_stops_at_the_largest_amount() {
    assert_eq!(payment_fee(&weight(), u64::MAX, 0, RangeProofType::BulletProofPlus, &[1; 32]), u64::MAX);
}

#[test]
fn weights_that_no_number_holds_are_told() {
    assert!(weight().can_weigh_payment());
    let mut other = weight();
    other.features_and_scripts_bytes_per_gram = 0;
    assert!(!other.can_weigh_payment());
    let mut other = weight();
    // With 8 + 53 + 4 grams for the other parts.
    other.kernel_weight = u64::MAX - 65;
    assert!(other.can_weigh_payment());
    other.kernel_weight = u64::MAX - 64;
    assert!(!other.can_weigh_payment());
}
