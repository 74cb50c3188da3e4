use exploit_engine::algorithm::id::AlgorithmId;
use uuid::Uuid;

#[test]
fn invalid_ids_are_not_equal() {
    let id_1 = AlgorithmId::Invalid;
    let id_2 = AlgorithmId::Invalid;

    assert_ne!(id_1, id_2);
}

#[test]
fn valid_id_not_equal_invalid_id() {
    let id_1 = AlgorithmId::Id(Uuid::from_bytes([0x00; 16].into()).as_u128());
    let id_2 = AlgorithmId::Invalid;

    assert_ne!(id_1, id_2);
}

#[test]
fn valid_id_all_zeroes_not_equal_valid_id_all_ones() {
    let id_1 = AlgorithmId::Id(Uuid::from_bytes([0x00; 16].into()).as_u128());
    let id_2 = AlgorithmId::Id(Uuid::from_bytes([0xff; 16].into()).as_u128());

    assert_ne!(id_1, id_2);
}

#[test]
fn valid_ids_same_bytes_equal() {
    let bytes = [0x13; 16];
    let id_1 = AlgorithmId::Id(Uuid::from_bytes(bytes.clone().into()).as_u128());
    let id_2 = AlgorithmId::Id(Uuid::from_bytes(bytes.clone().into()).as_u128());

    assert_eq!(id_1, id_2);
}

#[test]
fn random_ids_are_valid_and_distinct() {
    let id_1 = AlgorithmId::random();
    let id_2 = AlgorithmId::random();
    assert!(matches!(id_1, AlgorithmId::Id(_)));
    assert_ne!(id_1, id_2);
    assert_eq!(id_1, id_1);
}

#[test]
fn random_ids_carry_the_marks_of_a_random_uuid() {
    for _ in 0..200 {
        let AlgorithmId::Id(bits) = AlgorithmId::random() else {
            panic!("a random id is valid");
        };
        assert_eq!((bits >> 76) & 0xf, 4);
        assert_eq!((bits >> 62) & 0x3, 2);
        let uuid = Uuid::from_u128(bits);
        assert_eq!(uuid.get_version_num(), 4);
        assert_eq!(uuid.as_bytes()[8] & 0xc0, 0x80);
    }
}
