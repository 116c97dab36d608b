use pwdb::field::{copy_into_array, read_u32_le, Field};
use pwdb::preamble::{bytes_equal, calculate_stretch_key};
use pwdb::search::{bytes_less, contains_bytes};
use pwdb::identifier::uuid_from_bytes;
use pwdb::Error;
use sha2::{Digest, Sha256};

#[test]
fn field_round_trip_small() {
    let mut bytes = vec![3, 0, 0, 0, 0x03, b'a', b'b', b'c'];
    bytes.resize(16, 0x77);
    bytes.extend_from_slice(&[9; 20]);
    let f = Field::new(&bytes).unwrap();
    assert_eq!(f.type_id, 0x03);
    assert_eq!(f.data, b"abc".to_vec());
    assert_eq!(f.total_size, 16);
}

#[test]
fn field_round_trip_spanning_blocks() {
    let data: Vec<u8> = (0..12).collect();
    let mut bytes = vec![12, 0, 0, 0, 0x05];
    bytes.extend_from_slice(&data);
    bytes.resize(32, 0);
    let f = Field::new(&bytes).unwrap();
    assert_eq!(f.data, data);
    assert_eq!(f.total_size, 32);
}

#[test]
fn empty_terminator_field() {
    let mut bytes = vec![0, 0, 0, 0, 0xff];
    bytes.resize(16, 0);
    let f = Field::new(&bytes).unwrap();
    assert_eq!(f.type_id, 0xff);
    assert!(f.data.is_empty());
    assert_eq!(f.total_size, 16);
}

#[test]
fn field_larger_than_view_is_truncated() {
    let mut bytes = vec![12, 0, 0, 0, 0x05];
    bytes.resize(31, 0);
    assert!(matches!(Field::new(&bytes), Err(Error::TruncatedField)));
    assert!(matches!(Field::new(&[1, 2, 3]), Err(Error::TruncatedField)));
    assert!(matches!(Field::new(&[0xff, 0xff, 0xff, 0xff, 1, 0, 0]), Err(Error::TruncatedField)));
}

#[test]
fn little_endian_read() {
    assert_eq!(read_u32_le(&[0x78, 0x56, 0x34, 0x12, 0xff], 0), 0x1234_5678);
    assert_eq!(read_u32_le(&[0, 0xff, 0xff, 0xff, 0xff], 1), u32::MAX);
}

#[test]
fn copy_into_array_copies() {
    let a: [u8; 3] = copy_into_array(&[4, 5, 6]);
    assert_eq!(a, [4, 5, 6]);
}

#[test]
fn uuid_bytes_are_big_endian() {
    let mut d = [0u8; 16];
    d[0] = 1;
    d[15] = 2;
    assert_eq!(uuid_from_bytes(&d), (1u128 << 120) | 2);
    assert_eq!(uuid_from_bytes(&[0xff; 16]), u128::MAX);
    assert_eq!(uuid_from_bytes(&[0; 16]), 0);
}

#[test]
fn stretch_matches_repeated_sha256() {
    let salt = [3u8; 32];
    let mut expected = Sha256::digest(&[b"pw".as_slice(), &salt].concat()).to_vec();
    for _ in 0..5 {
        expected = Sha256::digest(&expected).to_vec();
    }
    assert_eq!(calculate_stretch_key(b"pw", 5, &salt).to_vec(), expected);
    let once = Sha256::digest(&[b"pw".as_slice(), &salt].concat()).to_vec();
    assert_eq!(calculate_stretch_key(b"pw", 0, &salt).to_vec(), once);
}

#[test]
fn byte_helpers() {
    assert!(contains_bytes(b"hello world", b"o w"));
    assert!(contains_bytes(b"abc", b""));
    assert!(!contains_bytes(b"abc", b"abcd"));
    assert!(!contains_bytes(b"abc", b"ac"));
    assert!(bytes_less(b"ab", b"abc"));
    assert!(bytes_less(b"Zeta", b"alpha"));
    assert!(!bytes_less(b"abc", b"abc"));
    assert!(!bytes_less(b"b", b"abc"));
    assert!(bytes_equal(b"xy", b"xy"));
    assert!(!bytes_equal(b"xy", b"xz"));
}
