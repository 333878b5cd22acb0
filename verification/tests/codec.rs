use typed_kv::{deserialize, serialize, Error, ErrorClass, RawBytes};

#[test]
fn u8_is_stored_as_one_byte() {
    assert_eq!(serialize(&69u8).unwrap(), vec![69u8]);
    assert_eq!(serialize(&0u8).unwrap(), vec![0u8]);
    assert_eq!(serialize(&255u8).unwrap(), vec![255u8]);
}

#[test]
fn u16_is_stored_low_byte_first() {
    assert_eq!(serialize(&0x0102u16).unwrap(), vec![0x02u8, 0x01u8]);
    assert_eq!(serialize(&0xAAABu16).unwrap(), vec![0xABu8, 0xAAu8]);
}

#[test]
fn u64_is_stored_low_byte_first() {
    assert_eq!(
        serialize(&0x0102030405060708u64).unwrap(),
        vec![8u8, 7, 6, 5, 4, 3, 2, 1]
    );
    assert_eq!(serialize(&1u64).unwrap(), vec![1u8, 0, 0, 0, 0, 0, 0, 0]);
    assert_eq!(serialize(&u64::MAX).unwrap(), vec![255u8; 8]);
}

#[test]
fn bytes_are_stored_behind_their_length() {
    assert_eq!(
        serialize(&vec![0xFFu8; 4]).unwrap(),
        vec![4u8, 0, 0, 0, 0, 0, 0, 0, 0xFF, 0xFF, 0xFF, 0xFF]
    );
    assert_eq!(
        serialize(&vec![1u8, 2u8]).unwrap(),
        vec![2u8, 0, 0, 0, 0, 0, 0, 0, 1, 2]
    );
    let empty: Vec<u8> = Vec::new();
    assert_eq!(serialize(&empty).unwrap(), vec![0u8; 8]);
}

#[test]
fn decoding_reads_what_encoding_wrote() {
    let a: u8 = deserialize(&[69u8]).unwrap();
    assert_eq!(a, 69);
    let b: u16 = deserialize(&[0x02u8, 0x01u8]).unwrap();
    assert_eq!(b, 0x0102);
    let c: u64 = deserialize(&[8u8, 7, 6, 5, 4, 3, 2, 1]).unwrap();
    assert_eq!(c, 0x0102030405060708);
    let d: Vec<u8> = deserialize(&[2u8, 0, 0, 0, 0, 0, 0, 0, 1, 2]).unwrap();
    assert_eq!(d, vec![1u8, 2u8]);
    let e: Vec<u8> = deserialize(&[0u8; 8]).unwrap();
    assert!(e.is_empty());
}

#[test]
fn round_trip_of_every_supported_type() {
    for v in [0u8, 1, 69, 254, 255] {
        let back: u8 = deserialize(&serialize(&v).unwrap()).unwrap();
        assert_eq!(back, v);
    }
    for v in [0u16, 1, 255, 256, 0xAAAA, u16::MAX] {
        let back: u16 = deserialize(&serialize(&v).unwrap()).unwrap();
        assert_eq!(back, v);
    }
    for v in [0u64, 1, 255, 256, 0xAAAA_BBBB_CCCC_DDDD, u64::MAX] {
        let back: u64 = deserialize(&serialize(&v).unwrap()).unwrap();
        assert_eq!(back, v);
    }
    for v in [Vec::new(), vec![0u8], vec![0xFFu8; 4], vec![7u8; 300]] {
        let back: Vec<u8> = deserialize(&serialize(&v).unwrap()).unwrap();
        assert_eq!(back, v);
    }
}

fn refused<T>(r: Result<T, Error>) -> bool {
    match r {
        Ok(_) => false,
        Err(e) => e.kind == ErrorClass::Serialization,
    }
}

#[test]
fn truncated_bytes_are_refused() {
    assert!(refused(deserialize::<u8>(&[])));
    assert!(refused(deserialize::<u16>(&[1u8])));
    assert!(refused(deserialize::<u64>(&[1u8, 2, 3, 4, 5, 6, 7])));
    assert!(refused(deserialize::<Vec<u8>>(&[2u8, 0, 0, 0, 0, 0, 0])));
    assert!(refused(deserialize::<Vec<u8>>(&[2u8, 0, 0, 0, 0, 0, 0, 0, 1])));
}

#[test]
fn extra_bytes_are_refused() {
    assert!(refused(deserialize::<u8>(&[1u8, 2])));
    assert!(refused(deserialize::<u16>(&[1u8, 2, 3])));
    assert!(refused(deserialize::<u64>(&[1u8, 2, 3, 4, 5, 6, 7, 8, 9])));
    assert!(refused(deserialize::<Vec<u8>>(&[1u8, 0, 0, 0, 0, 0, 0, 0, 1, 2])));
}

#[test]
fn a_length_beyond_the_input_is_refused() {
    assert!(refused(deserialize::<Vec<u8>>(&[0xFFu8; 8])));
    assert!(refused(deserialize::<Vec<u8>>(&[0u8, 0, 0, 0, 0, 0, 0, 1, 5])));
}

#[test]
fn a_value_of_another_type_is_refused() {
    let stored = serialize(&0xAAAAu16).unwrap();
    assert!(refused(deserialize::<u64>(&stored)));
    assert!(refused(deserialize::<u8>(&stored)));
    assert!(refused(deserialize::<Vec<u8>>(&stored)));
}

#[test]
fn bool_is_stored_as_one_byte() {
    assert_eq!(serialize(&true).unwrap(), vec![1u8]);
    assert_eq!(serialize(&false).unwrap(), vec![0u8]);
    assert_eq!(deserialize::<bool>(&[1u8]).unwrap(), true);
    assert_eq!(deserialize::<bool>(&[0u8]).unwrap(), false);
    for v in [true, false] {
        let back: bool = deserialize(&serialize(&v).unwrap()).unwrap();
        assert_eq!(back, v);
    }
}

#[test]
fn bool_with_an_invalid_discriminant_is_refused() {
    assert!(refused(deserialize::<bool>(&[0x02u8])));
    assert!(refused(deserialize::<bool>(&[0xFFu8])));
    assert!(refused(deserialize::<bool>(&[])));
    assert!(refused(deserialize::<bool>(&[1u8, 0u8])));
    assert!(refused(deserialize::<bool>(&[0u8, 0u8])));
}

#[test]
fn raw_bytes_are_stored_as_they_are() {
    let raw = RawBytes(vec![3u8, 1, 2]);
    assert_eq!(serialize(&raw).unwrap(), vec![3u8, 1, 2]);
    assert_eq!(deserialize::<RawBytes>(&[3u8, 1, 2]).unwrap(), raw);
    let empty = RawBytes(Vec::new());
    assert!(serialize(&empty).unwrap().is_empty());
    assert_eq!(deserialize::<RawBytes>(&[]).unwrap(), empty);
}
