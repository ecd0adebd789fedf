use std::collections::HashSet;

use uuid7::gen_uuid_v7;
use uuid7::generator::LocalGenerator;
use uuid7::generator::SharedGenerator;
use uuid7::uuid7::UuidV7;

#[test]
fn test_uuid_validity() {
    let generator = SharedGenerator::new();
    // Generate a UUID
    let uuid = gen_uuid_v7(&generator);

    // Check if it's a valid UUID
    assert!(uuid::Uuid::parse_str(&uuid.to_hyphenated()).is_ok());
}

#[test]
fn test_uuid_uniqueness() {
    let generator = SharedGenerator::new();
    let mut set = HashSet::new();
    for _ in 0..1000 {
        // Generate a UUID
        let uuid = gen_uuid_v7(&generator);

        // Insert into the set and ensure it's unique
        assert!(set.insert(uuid));
    }
}

#[test]
fn test_uuid_version() {
    let generator = SharedGenerator::new();
    // Generate a UUID
    let uuid = gen_uuid_v7(&generator);

    // Check if it's version 7
    assert_eq!(uuid.get_version_num(), 7);
}

#[test]
fn test_uuid_increasing_many() {
    let generator = SharedGenerator::new();
    let uuids = (0..1000).map(|_| gen_uuid_v7(&generator)).collect::<Vec<_>>();
    for i in 1..uuids.len() {
        assert!(
            uuids[i] > uuids[i - 1],
            "UUIDs are not monotonically increasing"
        );
    }
}

#[test]
fn test_variant_bits() {
    let generator = SharedGenerator::new();
    let uuid = gen_uuid_v7(&generator);
    assert_eq!(uuid.get_variant_bits(), 0b10);
}

#[test]
fn test_from_parts_exact_value() {
    let random: [u8; 10] = [0x11, 0x22, 0x33, 0x44, 0x55, 0x66, 0x77, 0x88, 0x99, 0xaa];
    let uuid = UuidV7::from_parts(0x0123_4567_89ab, &random);
    assert_eq!(uuid.as_u128(), 0x0123_4567_89ab_7122_b344_5566_7788_99aa_u128);
    assert_eq!(uuid.get_version_num(), 7);
    assert_eq!(uuid.get_variant_bits(), 0b10);
    assert_eq!(uuid.timestamp_ms(), 0x0123_4567_89ab);
}

#[test]
fn test_from_parts_truncates_timestamp() {
    let random: [u8; 10] = [0; 10];
    let uuid = UuidV7::from_parts(0xffee_0123_4567_89ab, &random);
    assert_eq!(uuid.timestamp_ms(), 0x0123_4567_89ab);
}

#[test]
fn test_render_exact_text() {
    let uuid = UuidV7::from_u128(0x0123_4567_89ab_7122_b344_5566_7788_99aa);
    assert_eq!(uuid.to_hyphenated(), "01234567-89ab-7122-b344-5566778899aa");
}

#[test]
fn test_render_matches_uuid_crate() {
    let generator = SharedGenerator::new();
    for _ in 0..50 {
        let uuid = gen_uuid_v7(&generator);
        let reference = uuid::Uuid::from_u128(uuid.as_u128());
        assert_eq!(uuid.to_hyphenated(), reference.hyphenated().to_string());
    }
}

#[test]
fn test_parse_round_trip() {
    let generator = SharedGenerator::new();
    for _ in 0..50 {
        let uuid = gen_uuid_v7(&generator);
        let text = uuid.to_hyphenated();
        assert_eq!(UuidV7::parse_hyphenated(&text), Some(uuid));
    }
}

#[test]
fn test_parse_accepts_uppercase() {
    let parsed = UuidV7::parse_hyphenated("01234567-89AB-7122-B344-5566778899AA");
    assert_eq!(
        parsed,
        Some(UuidV7::from_u128(0x0123_4567_89ab_7122_b344_5566_7788_99aa))
    );
}

#[test]
fn test_parse_rejects_malformed() {
    // wrong length
    assert_eq!(UuidV7::parse_hyphenated(""), None);
    assert_eq!(UuidV7::parse_hyphenated("01234567-89ab-7122-b344-556677889"), None);
    // a hyphen out of place
    assert_eq!(UuidV7::parse_hyphenated("012345678-9ab-7122-b344-5566778899aa"), None);
    // a byte that is no hex digit
    assert_eq!(UuidV7::parse_hyphenated("0123456g-89ab-7122-b344-5566778899aa"), None);
    // hyphen where a digit belongs
    assert_eq!(UuidV7::parse_hyphenated("01234567-89ab-7122-b344-5566-78899aa"), None);
}

#[test]
fn test_bytes_round_trip() {
    let uuid = UuidV7::from_u128(0x0123_4567_89ab_7122_b344_5566_7788_99aa);
    let bytes = uuid.to_bytes();
    let reference = uuid::Uuid::from_u128(uuid.as_u128());
    assert_eq!(bytes.as_slice(), reference.as_bytes());
    let mut fixed = [0u8; 16];
    fixed.copy_from_slice(&bytes);
    assert_eq!(UuidV7::from_bytes(&fixed), uuid);
}

#[test]
fn test_frozen_clock_scenario() {
    // last_timestamp starts at 0 and the candidate is frozen at one
    // millisecond value: three calls must yield it, then bump by one twice.
    let mut generator = LocalGenerator::new();
    assert_eq!(generator.next_timestamp(1000), 1000);
    assert_eq!(generator.next_timestamp(1000), 1001);
    assert_eq!(generator.next_timestamp(1000), 1002);
}

#[test]
fn test_clock_stepping_backward() {
    let mut generator = LocalGenerator::new();
    assert_eq!(generator.next_timestamp(100), 100);
    assert_eq!(generator.next_timestamp(50), 101);
    assert_eq!(generator.next_timestamp(102), 102);
}

#[test]
fn test_local_generator_deterministic() {
    let mut generator = LocalGenerator::new();
    let random: [u8; 10] = [0; 10];
    let first = generator.generate_with(7, &random);
    let second = generator.generate_with(7, &random);
    assert_eq!(first.timestamp_ms(), 7);
    assert_eq!(second.timestamp_ms(), 8);
    assert!(first < second);
}

#[test]
fn test_local_generator_increasing() {
    let mut generator = LocalGenerator::new();
    let uuids = (0..1000).map(|_| generator.generate()).collect::<Vec<_>>();
    for i in 1..uuids.len() {
        assert!(uuids[i] > uuids[i - 1]);
    }
}

#[test]
fn test_version_matches_uuid_crate() {
    let generator = SharedGenerator::new();
    let uuid = gen_uuid_v7(&generator);
    let reference = uuid::Uuid::from_u128(uuid.as_u128());
    assert_eq!(uuid.get_version_num(), reference.get_version_num());
}
