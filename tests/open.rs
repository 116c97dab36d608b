use block_modes::block_padding::NoPadding;
use block_modes::{BlockMode, Cbc, Ecb};
use hmac::{Hmac, Mac, NewMac};
use pwdb::{Database, Error, RequiredField};
use sha2::{Digest, Sha256};
use twofish::Twofish;

const SALT: [u8; 32] = [7u8; 32];
const DATA_KEY: [u8; 32] = [0x11u8; 32];
const MAC_KEY: [u8; 32] = [0x22u8; 32];
const IV: [u8; 16] = [0x33u8; 16];
const LAST_SAVE: u32 = 1_600_000_000;

type Fields = Vec<(u8, Vec<u8>)>;

fn encode(t: u8, data: &[u8]) -> Vec<u8> {
    let mut v = (data.len() as u32).to_le_bytes().to_vec();
    v.push(t);
    v.extend_from_slice(data);
    while v.len() % 16 != 0 {
        v.push(0xa5);
    }
    v
}

fn stretch(password: &str, iter: u32) -> Vec<u8> {
    let mut salted = password.as_bytes().to_vec();
    salted.extend_from_slice(&SALT);
    let mut k = Sha256::digest(&salted).to_vec();
    for _ in 0..iter {
        k = Sha256::digest(&k).to_vec();
    }
    k
}

fn standard_header() -> Fields {
    vec![
        (0x00, vec![0x0d, 0x03]),
        (0x01, vec![0x42; 16]),
        (0x04, LAST_SAVE.to_le_bytes().to_vec()),
        (0x09, b"test db".to_vec()),
    ]
}

fn entry(id: u8, title: &str, user: &str, password: &str, group: &str, url: &str, notes: &str) -> Fields {
    let mut uuid = [0u8; 16];
    uuid[15] = id;
    uuid[0] = 0x10;
    vec![
        (0x01, uuid.to_vec()),
        (0x02, group.as_bytes().to_vec()),
        (0x03, title.as_bytes().to_vec()),
        (0x04, user.as_bytes().to_vec()),
        (0x06, password.as_bytes().to_vec()),
        (0x0d, url.as_bytes().to_vec()),
        (0x05, notes.as_bytes().to_vec()),
    ]
}

/// The plaintext stream and the data that its MAC covers.
fn plaintext(header: &[(u8, Vec<u8>)], records: &[Fields]) -> (Vec<u8>, Vec<u8>) {
    let mut plain = Vec::new();
    let mut mac = Vec::new();
    for (t, d) in header {
        plain.extend(encode(*t, d));
        mac.extend_from_slice(d);
    }
    plain.extend(encode(0xff, &[]));
    for r in records {
        for (t, d) in r {
            plain.extend(encode(*t, d));
            mac.extend_from_slice(d);
        }
        plain.extend(encode(0xff, &[]));
    }
    (plain, mac)
}

fn assemble(password: &str, iter: u32, plain: &[u8], mac_data: &[u8]) -> Vec<u8> {
    let sk = stretch(password, iter);
    let mut keys = DATA_KEY.to_vec();
    keys.extend_from_slice(&MAC_KEY);
    let wrapped = Ecb::<Twofish, NoPadding>::new_var(&sk, &[]).unwrap().encrypt_vec(&keys);
    let ct = Cbc::<Twofish, NoPadding>::new_var(&DATA_KEY, &IV).unwrap().encrypt_vec(plain);
    let mut mac = Hmac::<Sha256>::new_varkey(&MAC_KEY).unwrap();
    mac.update(mac_data);
    let tag = mac.finalize().into_bytes().to_vec();

    let mut out = b"PWS3".to_vec();
    out.extend_from_slice(&SALT);
    out.extend_from_slice(&iter.to_le_bytes());
    out.extend_from_slice(&Sha256::digest(&sk));
    out.extend_from_slice(&wrapped);
    out.extend_from_slice(&IV);
    out.extend_from_slice(&ct);
    out.extend_from_slice(b"PWS3-EOFPWS3-EOF");
    out.extend_from_slice(&tag);
    out
}

fn build(password: &str, header: &[(u8, Vec<u8>)], records: &[Fields]) -> Vec<u8> {
    let (plain, mac) = plaintext(header, records);
    assemble(password, 2048, &plain, &mac)
}

fn simple_db() -> Vec<u8> {
    build(
        "password",
        &standard_header(),
        &[entry(1, "Test entry", "test", "password", "test", "http://test.com", "no notes")],
    )
}

fn bad_hmac_db() -> Vec<u8> {
    let mut db = simple_db();
    let n = db.len();
    db[n - 1] ^= 0x01;
    db
}

fn three_db() -> Vec<u8> {
    build(
        "three3#;",
        &standard_header(),
        &[
            entry(1, "three entry 1", "three1_user", "three1!@$%^&*()", "group1", "http://group1.com", "three DB\r\nentry 1"),
            entry(2, "three entry 2", "three2_user", "three2_-+=\\\\|][}{';:", "group2", "http://group2.com", "three DB\r\nsecond entry"),
            entry(3, "three entry 3", "three3_user", ",./<>?`~0", "group 3", "https://group3.com", "three DB\r\nentry 3\r\nlast one"),
        ],
    )
}

fn open_err(bytes: &Vec<u8>, password: &str) -> Error {
    match Database::new(bytes, password) {
        Ok(_) => panic!("the database opened"),
        Err(e) => e,
    }
}

#[test]
fn new_empty_db() {
    let db = Database::new(&Vec::new(), "123");
    let msg = match db {
        Ok(_) => "success".to_string(),
        Err(error) => error.message(),
    };
    assert_eq!(msg, "DB data is less than minimum size")
}

#[test]
fn new_invalid_data() {
    let db = Database::new(&(0..200).collect(), "123");
    let msg = match db {
        Ok(_) => "success".to_string(),
        Err(error) => error.message(),
    };
    assert_eq!(msg, "Data is not a Password Safe V3 DB")
}

#[test]
fn wrong_passphrase() {
    let encrypted = simple_db();

    let db = Database::new(&encrypted.to_vec(), "wrong");
    let msg = match db {
        Ok(_) => "success".to_string(),
        Err(error) => error.message(),
    };
    assert_eq!(msg, "Invalid Password")
}

#[test]
fn bad_hmac() {
    let encrypted = bad_hmac_db();

    let db = Database::new(&encrypted.to_vec(), "password");
    let msg = match db {
        Ok(_) => "success".to_string(),
        Err(error) => error.message(),
    };
    assert_eq!(msg, "HMAC mismatch!")
}

#[test]
fn decrypt_simple_db() {
    let encrypted = simple_db();

    let db = Database::new(&encrypted.to_vec(), "password").unwrap();
    assert_eq!(db.records.len(), 1);
    let (_key, record) = db.records.iter().next().unwrap();
    assert_eq!(record.title, "Test entry");
    assert_eq!(record.username, "test");
    assert_eq!(record.password, "password");
    assert_eq!(record.group, "test");
    assert_eq!(record.url, "http://test.com");
    assert_eq!(record.notes, "no notes");
}

#[test]
fn decrypt_small_db() {
    let encrypted = three_db();

    let db = Database::new(&encrypted.to_vec(), "three3#;").unwrap();
    assert_eq!(db.records.len(), 3);
    for (_, record) in db.records.iter() {
        match record.title.as_str() {
            "three entry 1" => {
                assert_eq!(record.username, "three1_user");
                assert_eq!(record.password, "three1!@$%^&*()");
                assert_eq!(record.group, "group1");
                assert_eq!(record.url, "http://group1.com");
                assert_eq!(record.notes, "three DB\r\nentry 1");
            },
            "three entry 2" => {
                assert_eq!(record.username, "three2_user");
                assert_eq!(record.password, "three2_-+=\\\\|][}{';:");
                assert_eq!(record.group, "group2");
                assert_eq!(record.url, "http://group2.com");
                assert_eq!(record.notes, "three DB\r\nsecond entry");
            },
            "three entry 3" => {
                assert_eq!(record.username, "three3_user");
                assert_eq!(record.password, ",./<>?`~0");
                assert_eq!(record.group, "group 3");
                assert_eq!(record.url, "https://group3.com");
                assert_eq!(record.notes, "three DB\r\nentry 3\r\nlast one");
            },
            _ => panic!("unknown record {}", record.title)
        }
    }
}

#[test]
fn short_inputs_are_too_short() {
    for n in [0usize, 1, 100, 199] {
        let bytes = vec![0x50u8; n];
        assert_eq!(open_err(&bytes, "123"), Error::TooShort);
    }
}

#[test]
fn long_input_without_magic_is_rejected() {
    let mut bytes = simple_db();
    bytes[3] = b'4';
    assert_eq!(open_err(&bytes, "password"), Error::NotAPws3Db);
    let zeros = vec![0u8; 500];
    assert_eq!(open_err(&zeros, "password"), Error::NotAPws3Db);
}

#[test]
fn header_and_metadata_are_decoded() {
    let db = Database::new(&simple_db(), "password").unwrap();
    assert_eq!(db.header.name, "test db");
    assert_eq!(db.header.version, [0x0d, 0x03]);
    assert_eq!(db.header.uuid, [0x42; 16]);
    assert_eq!(db.header.last_save, Some(LAST_SAVE));
    assert_eq!(db.last_mod, LAST_SAVE);
    assert_eq!(db.preamble.iter, 2048);
    assert_eq!(db.preamble.salt, SALT);
    assert_eq!(db.preamble.cbciv, IV);
}

#[test]
fn record_key_is_big_endian_uuid() {
    let db = Database::new(&simple_db(), "password").unwrap();
    let key: u128 = (0x10u128 << 120) | 1;
    let record = db.records.get(&key).unwrap();
    assert_eq!(record.uuid, key);
}

#[test]
fn opening_twice_gives_equal_databases() {
    let bytes = three_db();
    let a = Database::new(&bytes, "three3#;").unwrap();
    let b = Database::new(&bytes, "three3#;").unwrap();
    assert_eq!(a.records.len(), b.records.len());
    for (k, r) in a.records.iter() {
        let s = b.records.get(k).unwrap();
        assert_eq!(format!("{:?}", r), format!("{:?}", s));
    }
    assert_eq!(format!("{:?}", a.header), format!("{:?}", b.header));
}

#[test]
fn returned_records_are_complete() {
    let db = Database::new(&three_db(), "three3#;").unwrap();
    for (k, r) in db.records.iter() {
        assert_eq!(*k, r.uuid);
        assert_ne!(r.uuid, 0);
        assert!(!r.title.is_empty());
        assert!(!r.password.is_empty());
    }
}

#[test]
fn flipping_a_tag_bit_fails() {
    let good = simple_db();
    let n = good.len();
    for k in n - 32..n {
        let mut bytes = good.clone();
        bytes[k] ^= 0x80;
        assert_eq!(open_err(&bytes, "password"), Error::HmacMismatch);
    }
}

#[test]
fn flipping_a_ciphertext_bit_fails() {
    let good = simple_db();
    let eof = good.len() - 48;
    for k in (152..eof).step_by(7) {
        let mut bytes = good.clone();
        bytes[k] ^= 0x04;
        assert!(Database::new(&bytes, "password").is_err());
    }
}

#[test]
fn flipping_a_sentinel_bit_fails() {
    let good = simple_db();
    let eof = good.len() - 48;
    for k in eof..eof + 16 {
        let mut bytes = good.clone();
        bytes[k] ^= 0x01;
        assert!(Database::new(&bytes, "password").is_err());
    }
}

#[test]
fn excessive_iterations_are_suspect() {
    let (plain, mac) = plaintext(&standard_header(), &[]);
    let bytes = assemble("pw", 100_001, &plain, &mac);
    assert_eq!(open_err(&bytes, "pw"), Error::SuspectIterations(100_001));
    assert_eq!(Error::SuspectIterations(5).message(), "hash function iterations seems excessive");
}

#[test]
fn iteration_cap_is_inclusive() {
    let (plain, mac) = plaintext(&standard_header(), &[]);
    let bytes = assemble("pw", 100_000, &plain, &mac);
    let db = Database::new(&bytes, "pw").unwrap();
    assert_eq!(db.records.len(), 0);
}

#[test]
fn missing_marker_is_no_eof() {
    let mut bytes = simple_db();
    let eof = bytes.len() - 48;
    bytes.truncate(eof);
    assert_eq!(open_err(&bytes, "password"), Error::NoEof);
}

#[test]
fn ragged_tail_is_misaligned() {
    let mut bytes = simple_db();
    let eof = bytes.len() - 48;
    bytes.truncate(eof);
    bytes.extend_from_slice(&[1, 2, 3]);
    assert_eq!(open_err(&bytes, "password"), Error::MisalignedEncryptedLen);
}

#[test]
fn unknown_record_field_is_rejected() {
    let mut r = entry(1, "t", "u", "p", "g", "url", "n");
    r.push((0x40, b"x".to_vec()));
    let bytes = build("pw", &standard_header(), &[r]);
    let e = open_err(&bytes, "pw");
    assert_eq!(e, Error::UnknownRecordFieldType(0x40));
    assert_eq!(e.message(), "Unknown record field type");
}

#[test]
fn unknown_header_field_is_rejected() {
    let mut h = standard_header();
    h.push((0x0c, b"x".to_vec()));
    let bytes = build("pw", &h, &[]);
    assert_eq!(open_err(&bytes, "pw"), Error::UnknownHeaderFieldType);
}

#[test]
fn bad_lengths_are_rejected() {
    let mut h = standard_header();
    h.push((0x01, vec![1; 15]));
    assert_eq!(open_err(&build("pw", &h, &[]), "pw"), Error::BadFieldLength(0x01));
    let mut h = standard_header();
    h.push((0x13, vec![1; 3]));
    assert_eq!(open_err(&build("pw", &h, &[]), "pw"), Error::BadFieldLength(0x13));
    let mut r = entry(1, "t", "u", "p", "g", "url", "n");
    r.push((0x07, vec![1; 5]));
    assert_eq!(open_err(&build("pw", &standard_header(), &[r]), "pw"), Error::BadFieldLength(0x07));
    let mut r = entry(1, "t", "u", "p", "g", "url", "n");
    r.push((0x13, vec![1]));
    assert_eq!(open_err(&build("pw", &standard_header(), &[r]), "pw"), Error::BadFieldLength(0x13));
}

#[test]
fn fixed_size_fields_keep_their_prefix() {
    let mut r = entry(1, "t", "u", "p", "g", "url", "n");
    r.push((0x11, vec![1, 2, 3, 4, 5]));
    r.push((0x13, vec![6, 7]));
    r.push((0x15, vec![9]));
    r.push((0x19, vec![1, 1, 2, 2]));
    r.push((0x1b, vec![0xde, 0xad]));
    r.push((0x0b, vec![0xee]));
    r.push((0x09, 77u32.to_le_bytes().to_vec()));
    r.push((0x20, b"qr".to_vec()));
    let db = Database::new(&build("pw", &standard_header(), &[r]), "pw").unwrap();
    let rec = db.records.values().next().unwrap();
    assert_eq!(rec.password_expiry_interval, [1, 2, 3, 4]);
    assert_eq!(rec.double_click_action, [6, 7]);
    assert_eq!(rec.protected_entry, 9);
    assert_eq!(rec.keyboard_shortcut, [1, 1, 2, 2]);
    assert_eq!(rec.two_factor_key, vec![0xde, 0xad]);
    assert_eq!(rec.access_time, Some(77));
    assert_eq!(rec.qr_code, "qr");
}

#[test]
fn invalid_utf8_is_rejected() {
    let mut r = entry(1, "t", "u", "p", "g", "url", "n");
    r.push((0x14, vec![0xff, 0xfe]));
    assert_eq!(open_err(&build("pw", &standard_header(), &[r]), "pw"), Error::InvalidUtf8(0x14));
}

#[test]
fn missing_last_save_is_reported() {
    let h: Fields = vec![(0x00, vec![0x0d, 0x03]), (0x09, b"x".to_vec())];
    assert_eq!(open_err(&build("pw", &h, &[]), "pw"), Error::MissingLastSave);
}

#[test]
fn missing_required_fields_are_reported() {
    let no_title = vec![(0x01, vec![5; 16]), (0x06, b"p".to_vec())];
    assert_eq!(
        open_err(&build("pw", &standard_header(), &[no_title]), "pw"),
        Error::MissingRequiredField(RequiredField::Title, String::new())
    );
    let no_password = vec![(0x01, vec![5; 16]), (0x03, b"mine".to_vec())];
    let e = open_err(&build("pw", &standard_header(), &[no_password]), "pw");
    assert_eq!(e, Error::MissingRequiredField(RequiredField::Password, "mine".to_string()));
    assert_eq!(e.message(), "record is missing password");
    let nil = vec![(0x01, vec![0; 16]), (0x03, b"t".to_vec()), (0x06, b"p".to_vec())];
    assert_eq!(
        open_err(&build("pw", &standard_header(), &[nil]), "pw"),
        Error::MissingRequiredField(RequiredField::Uuid, "t".to_string())
    );
}

#[test]
fn unterminated_header_is_rejected() {
    let mut plain = Vec::new();
    let mut mac = Vec::new();
    for (t, d) in standard_header() {
        plain.extend(encode(t, &d));
        mac.extend_from_slice(&d);
    }
    let bytes = assemble("pw", 10, &plain, &mac);
    assert_eq!(open_err(&bytes, "pw"), Error::UnterminatedHeader);
}

#[test]
fn unterminated_record_is_rejected() {
    let (mut plain, mut mac) = plaintext(&standard_header(), &[]);
    for (t, d) in entry(1, "t", "u", "p", "g", "url", "n") {
        plain.extend(encode(t, &d));
        mac.extend_from_slice(&d);
    }
    let bytes = assemble("pw", 10, &plain, &mac);
    assert_eq!(open_err(&bytes, "pw"), Error::UnterminatedRecord);
}

#[test]
fn truncated_field_is_rejected() {
    let (mut plain, mac) = plaintext(&standard_header(), &[]);
    let mut big = encode(0x03, b"abc");
    big[0] = 200;
    plain.extend(big);
    let bytes = assemble("pw", 10, &plain, &mac);
    assert_eq!(open_err(&bytes, "pw"), Error::TruncatedField);
}

#[test]
fn later_record_with_same_uuid_wins() {
    let a = entry(1, "first", "u", "p", "g", "url", "n");
    let b = entry(1, "second", "u", "p", "g", "url", "n");
    let db = Database::new(&build("pw", &standard_header(), &[a, b]), "pw").unwrap();
    assert_eq!(db.records.len(), 1);
    assert_eq!(db.records.values().next().unwrap().title, "second");
}

#[test]
fn search_is_case_insensitive_and_ordered() {
    let db = Database::new(&three_db(), "three3#;").unwrap();
    let hits = db.record_search("GROUP");
    let titles: Vec<&str> = hits.iter().map(|(_, r)| r.title.as_str()).collect();
    assert_eq!(titles, vec!["three entry 1", "three entry 2", "three entry 3"]);
    let hits = db.record_search("Second");
    assert_eq!(hits.len(), 1);
    assert_eq!(hits[0].1.title, "three entry 2");
    assert_eq!(hits[0].0, hits[0].1.uuid);
    assert!(db.record_search("nothing like this").is_empty());
}

#[test]
fn empty_search_returns_all_records() {
    let db = Database::new(&three_db(), "three3#;").unwrap();
    assert_eq!(db.record_search("").len(), 3);
}

#[test]
fn search_ties_are_broken_by_uuid() {
    let a = entry(9, "same", "u", "p", "g", "url", "n");
    let b = entry(2, "same", "u", "p", "g", "url", "n");
    let c = entry(5, "Alpha", "u", "p", "g", "url", "n");
    let db = Database::new(&build("pw", &standard_header(), &[a, b, c]), "pw").unwrap();
    let hits = db.record_search("");
    let ids: Vec<u8> = hits.iter().map(|(k, _)| (*k & 0xff) as u8).collect();
    assert_eq!(ids, vec![5, 2, 9]);
}

#[test]
fn non_ascii_passphrase_is_encoded_as_utf8() {
    let bytes = build("pässwörd", &standard_header(), &[]);
    assert!(Database::new(&bytes, "pässwörd").is_ok());
    assert_eq!(open_err(&bytes, "passwoerd"), Error::InvalidPassword);
}
