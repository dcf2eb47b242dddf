use destru::codec::{
    decode_sqids, encode_sqids, SqidsError, StructureID, UserID, ALPHABET, STRUCTURE_FLAG, USER_FLAG,
};

#[test]
fn round_trip_user_ids() {
    for v in [0i64, 1, 2, 42, 557, 1_000_000, i64::MAX] {
        let s = encode_sqids(USER_FLAG, v).unwrap();
        assert_eq!(decode_sqids(USER_FLAG, &s).unwrap(), v);
    }
}

#[test]
fn round_trip_structure_ids() {
    for v in [0i64, 7, 123_456_789] {
        let s = encode_sqids(STRUCTURE_FLAG, v).unwrap();
        assert_eq!(decode_sqids(STRUCTURE_FLAG, &s).unwrap(), v);
    }
}

#[test]
fn encoding_is_deterministic_and_alphabet_bound() {
    let a = encode_sqids(USER_FLAG, 99).unwrap();
    let b = encode_sqids(USER_FLAG, 99).unwrap();
    assert_eq!(a, b);
    assert!(a.chars().count() >= 6);
    assert!(a.chars().all(|c| ALPHABET.contains(c)));
}

#[test]
fn distinct_pairs_give_distinct_ids() {
    let u = encode_sqids(USER_FLAG, 5).unwrap();
    let s = encode_sqids(STRUCTURE_FLAG, 5).unwrap();
    let u6 = encode_sqids(USER_FLAG, 6).unwrap();
    assert_ne!(u, s);
    assert_ne!(u, u6);
}

#[test]
fn cross_entity_id_is_refused() {
    let s = encode_sqids(USER_FLAG, 10).unwrap();
    assert!(matches!(decode_sqids(STRUCTURE_FLAG, &s), Err(SqidsError::InvalidID)));
    let t = encode_sqids(STRUCTURE_FLAG, 10).unwrap();
    assert!(matches!(decode_sqids(USER_FLAG, &t), Err(SqidsError::InvalidID)));
}

#[test]
fn negative_value_is_refused() {
    assert!(matches!(encode_sqids(USER_FLAG, -1), Err(SqidsError::InvalidID)));
    assert!(matches!(encode_sqids(STRUCTURE_FLAG, i64::MIN), Err(SqidsError::InvalidID)));
}

#[test]
fn garbage_id_is_refused() {
    assert!(matches!(decode_sqids(USER_FLAG, "not-a-real-opaque-id"), Err(SqidsError::InvalidID)));
    assert!(matches!(decode_sqids(USER_FLAG, ""), Err(SqidsError::InvalidID)));
    assert!(matches!(decode_sqids(USER_FLAG, "0O0O0O"), Err(SqidsError::InvalidID)));
}

#[test]
fn id_newtypes_round_trip() {
    let s = UserID(31).encode().unwrap();
    assert_eq!(UserID::decode(&s).unwrap(), UserID(31));
    assert!(StructureID::decode(&s).is_err());
    let t = StructureID(8).encode().unwrap();
    assert_eq!(StructureID::decode(&t).unwrap(), StructureID(8));
    assert!(matches!(UserID(-3).encode(), Err(SqidsError::InvalidID)));
}

#[test]
fn encoded_ids_have_min_length() {
    for v in [0i64, 1, 9, 58] {
        for f in [USER_FLAG, STRUCTURE_FLAG] {
            let s = encode_sqids(f, v).unwrap();
            assert!(s.len() >= 6);
            assert!(s.chars().all(|c| ALPHABET.contains(c)));
        }
    }
}
