use midgard_history::ingest::count_missing;
use midgard_history::reading::{Reading, RecordId};

fn r(value: f64) -> Reading {
    Reading::from_bits(value.to_bits())
}

#[test]
fn readings_keep_their_bits() {
    for value in [0.0f64, -0.0, 1.5, -2.25, f64::MAX, f64::MIN_POSITIVE, f64::INFINITY] {
        assert_eq!(r(value).to_bits(), value.to_bits());
        assert_eq!(f64::from_bits(r(value).to_bits()), value);
    }
    assert_eq!(Reading::zero().to_bits(), 0);
    assert_eq!(f64::from_bits(Reading::zero().to_bits()), 0.0);
}

#[test]
fn sort_keys_grow_with_the_number() {
    let ascending = [
        f64::NEG_INFINITY,
        f64::MIN,
        -1.0e9,
        -2.5,
        -1.0,
        -f64::MIN_POSITIVE,
        -0.0,
        0.0,
        f64::MIN_POSITIVE,
        0.1,
        1.0,
        1.0000000000000002,
        61_517_282_409.0,
        f64::MAX,
        f64::INFINITY,
    ];
    for pair in ascending.windows(2) {
        assert!(r(pair[0]).sort_key() < r(pair[1]).sort_key());
    }
}

#[test]
fn sort_keys_have_exact_values() {
    assert_eq!(r(0.0).sort_key(), 0x8000_0000_0000_0000);
    assert_eq!(r(-0.0).sort_key(), 0x7fff_ffff_ffff_ffff);
    assert_eq!(r(1.0).sort_key(), 0x3ff0_0000_0000_0000 + 0x8000_0000_0000_0000);
    assert_eq!(Reading::from_bits(u64::MAX).sort_key(), 0);
    assert_eq!(Reading::from_bits(0x7fff_ffff_ffff_ffff).sort_key(), u64::MAX);
}

#[test]
fn missing_fields_fall_back_to_zero() {
    assert_eq!(Reading::or_zero(None), Reading::zero());
    assert_eq!(Reading::or_zero(Some(r(3.5))), r(3.5));
    assert_eq!(count_missing(&None), 1);
    assert_eq!(count_missing(&Some(r(1.0))), 0);
}

#[test]
fn record_ids_hold_their_value() {
    assert_eq!(RecordId::from_value(42).value, 42);
    assert_ne!(RecordId::from_value(1), RecordId::from_value(2));
}
