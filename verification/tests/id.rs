use std::collections::HashSet;
use std::str::FromStr;

use uuid::Uuid;
use workflow_core::Id;

#[test]
fn test_creation() {
    const NUM_SAMPLES: usize = 10000;
    let mut ids = HashSet::with_capacity(NUM_SAMPLES);
    for _ in 0..NUM_SAMPLES {
        ids.insert(Id::new());
    }

    assert_eq!(ids.len(), NUM_SAMPLES);
}

#[test]
fn new_ids_are_random_uuids() {
    for _ in 0..100 {
        let uuid = Id::new().into_inner();
        assert_eq!(uuid.get_version_num(), 4);
        assert_eq!(uuid.get_variant(), uuid::Variant::RFC4122);
    }
}

#[test]
fn id_text_is_hyphenated_lower_case() {
    let uuid = Uuid::from_str("67e55044-10b1-426f-9247-bb680e5fe0c8").unwrap();
    let id = Id::from(uuid);
    assert_eq!(id.to_string(), "67e55044-10b1-426f-9247-bb680e5fe0c8");
    let id = Id::from(Uuid::from_u128(0xA1A2A3A4B1B2C1C2D1D2D3D4D5D6D7D8));
    assert_eq!(id.to_string(), "a1a2a3a4-b1b2-c1c2-d1d2-d3d4d5d6d7d8");
    let id = Id::from(Uuid::nil());
    assert_eq!(id.to_string(), "00000000-0000-0000-0000-000000000000");
}

#[test]
fn id_keeps_its_uuid() {
    let uuid = Uuid::from_u128(0x0123456789abcdef0123456789abcdef);
    assert_eq!(Id::from(uuid).into_inner(), uuid);
    let id = Id::new();
    assert_eq!(Id::from(id.into_inner()), id);
    assert_eq!(Id::from(uuid), Id::from(uuid));
    assert_ne!(Id::from(uuid), Id::from(Uuid::nil()));
}

#[test]
fn ids_are_ordered_like_their_uuids() {
    let small = Id::from(Uuid::from_u128(1));
    let large = Id::from(Uuid::from_u128(u128::MAX));
    assert!(small < large);
}
