use vstd::prelude::*;

use std::collections::HashMap;

use crate::crypto::{hmac_sha256_of, hmac_sha256_verify, twofish_cbc_decrypt, twofish_cbc_plain};
use crate::error::{Error, ErrorView};
use crate::header::{empty_header, header_run, Header, HeaderView};
use crate::preamble::{
    bytes_equal, decode_preamble, magic, Preamble, PreambleView, PREAMBLE_SIZE,
};
use crate::record::{
    empty_record, lemma_record_run_advances, record_at, record_complete, records_run,
    records_view, Record, RecordView,
};
use crate::field::parse_field;
use vstd::utf8::encode_utf8;

verus! {

broadcast use vstd::std_specs::hash::group_hash_axioms;

/// Smallest size of a database file.
pub const MIN_DB_SIZE: usize = 200;

/// The end-of-data marker `PWS3-EOFPWS3-EOF`.
pub open spec fn eof_marker() -> Seq<u8> {
    seq![
        0x50u8, 0x57u8, 0x53u8, 0x33u8, 0x2du8, 0x45u8, 0x4fu8, 0x46u8,
        0x50u8, 0x57u8, 0x53u8, 0x33u8, 0x2du8, 0x45u8, 0x4fu8, 0x46u8,
    ]
}

/// The offset of the end-of-data marker, searched block by block from `pos`.
pub open spec fn find_eof(b: Seq<u8>, pos: int) -> Result<int, ErrorView>
    decreases b.len() - pos,
{
    if pos >= b.len() {
        Err(ErrorView::NoEof)
    } else if pos + 16 > b.len() {
        Err(ErrorView::MisalignedEncryptedLen)
    } else if b.subrange(pos, pos + 16) == eof_marker() {
        Ok(pos)
    } else {
        find_eof(b, pos + 16)
    }
}

/// The stored tag: the (at most) 32 bytes that follow the marker at `pos`.
pub open spec fn stored_tag(b: Seq<u8>, pos: int) -> Seq<u8> {
    if b.len() - pos >= 48 {
        b.subrange(pos + 16, pos + 48)
    } else {
        b.subrange(pos + 16, b.len() as int)
    }
}

/// [`Database`] as a value of the specification.
pub ghost struct DatabaseView {
    pub preamble: PreambleView,
    pub header: HeaderView,
    pub last_mod: u32,
    pub records: Map<u128, RecordView>,
}

/// The outcome of opening the database file `b` with the passphrase bytes `password`.
pub open spec fn open_database(b: Seq<u8>, password: Seq<u8>) -> Result<DatabaseView, ErrorView> {
    if b.len() < MIN_DB_SIZE {
        Err(ErrorView::TooShort)
    } else {
        match decode_preamble(b.subrange(0, PREAMBLE_SIZE as int), password) {
            Err(e) => Err(e),
            Ok((p, k)) => match find_eof(b, PREAMBLE_SIZE as int) {
                Err(e) => Err(e),
                Ok(pos) => {
                    let plain = twofish_cbc_plain(
                        k.encryption_key,
                        p.cbciv,
                        b.subrange(PREAMBLE_SIZE as int, pos),
                    );
                    match header_run(plain, 0, empty_header(), Seq::empty()) {
                        Err(e) => Err(e),
                        Ok((h, start, mac1)) => match records_run(plain, start, Map::empty(), mac1) {
                            Err(e) => Err(e),
                            Ok((m, mac)) => {
                                if stored_tag(b, pos) != hmac_sha256_of(k.hmac_key, mac) {
                                    Err(ErrorView::HmacMismatch)
                                } else {
                                    match h.last_save {
                                        None => Err(ErrorView::MissingLastSave),
                                        Some(t) => Ok(
                                            DatabaseView { preamble: p, header: h, last_mod: t, records: m },
                                        ),
                                    }
                                }
                            },
                        },
                    }
                },
            },
        }
    }
}

pub proof fn lemma_find_eof(b: Seq<u8>, pos: int)
    requires
        0 <= pos,
    ensures
        find_eof(b, pos) is Ok ==> {
            let p = find_eof(b, pos)->Ok_0;
            &&& pos <= p
            &&& p + 16 <= b.len()
            &&& (p - pos) % 16 == 0
            &&& b.subrange(p, p + 16) == eof_marker()
        },
    decreases b.len() - pos,
{
    if pos < b.len() && pos + 16 <= b.len() && b.subrange(pos, pos + 16) != eof_marker() {
        lemma_find_eof(b, pos + 16);
    }
}

pub proof fn lemma_header_run_bounds(b: Seq<u8>, i: int, h: HeaderView, mac: Seq<u8>)
    requires
        0 <= i <= b.len(),
    ensures
        header_run(b, i, h, mac) is Ok ==> i < header_run(b, i, h, mac)->Ok_0.1 <= b.len(),
    decreases b.len() - i,
{
    match parse_field(b.subrange(i, b.len() as int)) {
        None => {},
        Some((t, d, n)) => {
            if t != 0xff && i + n + 1 < b.len() {
                match crate::header::header_apply(h, t, d) {
                    Err(e) => {},
                    Ok(h2) => lemma_header_run_bounds(b, i + n, h2, mac + d),
                }
            }
        },
    }
}

/// A decrypted, authenticated password database.
#[derive(Debug)]
pub struct Database {
    /// The unencrypted fields of the file.
    pub preamble: Preamble,
    pub header: Header,
    /// Seconds since the Unix epoch of the last save.
    pub last_mod: u32,
    /// The records by identifier.
    pub records: HashMap<u128, Record>,
}

impl View for Database {
    type V = DatabaseView;

    open spec fn view(&self) -> DatabaseView {
        DatabaseView {
            preamble: self.preamble@,
            header: self.header@,
            last_mod: self.last_mod,
            records: records_view(self.records@),
        }
    }
}

/// The view of the outcome of an open.
pub open spec fn open_result_view(r: Result<Database, Error>) -> Result<DatabaseView, ErrorView> {
    match r {
        Ok(db) => Ok(db@),
        Err(e) => Err(e@),
    }
}

/// Searches `bytes` block by block from `start` for the end-of-data marker.
fn find_eof_marker(bytes: &[u8], start: usize) -> (r: Result<usize, Error>)
    ensures
        match find_eof(bytes@, start as int) {
            Ok(p) => r is Ok && r->Ok_0 == p,
            Err(e) => r is Err && r->Err_0@ == e,
        },
{
    let marker: [u8; 16] = [
        0x50, 0x57, 0x53, 0x33, 0x2d, 0x45, 0x4f, 0x46, 0x50, 0x57, 0x53, 0x33, 0x2d, 0x45, 0x4f, 0x46,
    ];
    assert(marker@ =~= eof_marker());
    let mut pos: usize = start;
    while pos < bytes.len()
        invariant
            start <= pos,
            marker@ == eof_marker(),
            find_eof(bytes@, pos as int) == find_eof(bytes@, start as int),
        decreases bytes@.len() - pos,
    {
        if bytes.len() - pos < 16 {
            return Err(Error::MisalignedEncryptedLen);
        }
        if bytes_equal(&bytes[pos..pos + 16], marker.as_slice()) {
            return Ok(pos);
        }
        pos = pos + 16;
    }
    Err(Error::NoEof)
}

impl Database {
    /// Opens the database file `bytes` with `password`: checks the
    /// passphrase, decrypts the records and authenticates the whole content.
    pub fn new(bytes: &Vec<u8>, password: &str) -> (r: Result<Database, Error>)
        ensures
            open_result_view(r) == open_database(bytes@, encode_utf8(password@)),
            bytes@.len() < MIN_DB_SIZE ==> r matches Err(Error::TooShort),
            bytes@.len() >= MIN_DB_SIZE && bytes@.subrange(0, 4) != magic() ==> r matches Err(
                Error::NotAPws3Db,
            ),
            r is Ok ==> forall|k: u128| #[trigger]
                r->Ok_0.records@.contains_key(k) ==> r->Ok_0.records@[k].uuid == k
                    && record_complete(r->Ok_0.records@[k]@),
    {
        if bytes.len() < MIN_DB_SIZE {
            return Err(Error::TooShort);
        }
        let b = bytes.as_slice();
        assert(b@.subrange(0, PREAMBLE_SIZE as int).subrange(0, 4) == b@.subrange(0, 4));
        let (preamble, keys) = match Preamble::new(&b[0..PREAMBLE_SIZE], password) {
            Ok(v) => v,
            Err(e) => return Err(e),
        };
        let pos = match find_eof_marker(b, PREAMBLE_SIZE) {
            Ok(p) => p,
            Err(e) => return Err(e),
        };
        proof {
            lemma_find_eof(b@, PREAMBLE_SIZE as int);
        }
        let tag_end = if bytes.len() - pos >= 48 {
            pos + 48
        } else {
            bytes.len()
        };
        let tag = &b[pos + 16..tag_end];
        let data = match twofish_cbc_decrypt(&keys.encryption_key, &preamble.cbciv, &b[PREAMBLE_SIZE..pos]) {
            Some(d) => d,
            None => return Err(Error::DecryptError),
        };
        let mut mac: Vec<u8> = Vec::new();
        let (header, start) = match Header::new(data.as_slice(), &mut mac) {
            Ok(v) => v,
            Err(e) => return Err(e),
        };
        proof {
            lemma_header_run_bounds(data@, 0, empty_header(), Seq::empty());
        }
        let records = match Record::new_records(data.as_slice(), start, &mut mac) {
            Ok(m) => m,
            Err(e) => return Err(e),
        };
        proof {
            lemma_records_complete(data@, start as int, Map::empty(), header_run(data@, 0, empty_header(), Seq::empty())->Ok_0.2);
        }
        assert forall|k: u128| #[trigger] records@.contains_key(k) implies records@[k].uuid == k
            && record_complete(records@[k]@) by {
            assert(records_view(records@).contains_key(k));
            assert(records_view(records@)[k] == records@[k]@);
        }
        if !hmac_sha256_verify(&keys.hmac_key, mac.as_slice(), tag) {
            return Err(Error::HmacMismatch);
        }
        let last_mod = match header.last_save {
            Some(t) => t,
            None => return Err(Error::MissingLastSave),
        };
        Ok(Database { preamble, header, last_mod, records })
    }
}

/// Whether every record of `m` is complete and filed under its own identifier.
pub open spec fn records_well_keyed(m: Map<u128, RecordView>) -> bool {
    forall|k: u128| #[trigger] m.contains_key(k) ==> m[k].uuid == k && record_complete(m[k])
}

/// Every record that the record decoder returns holds its required
/// attributes and is filed under its own identifier.
pub proof fn lemma_records_complete(b: Seq<u8>, i: int, m: Map<u128, RecordView>, mac: Seq<u8>)
    requires
        0 <= i <= b.len(),
        records_well_keyed(m),
    ensures
        records_run(b, i, m, mac) is Ok ==> records_well_keyed(records_run(b, i, m, mac)->Ok_0.0),
    decreases b.len() - i,
{
    if i < b.len() {
        match record_at(b, i, mac) {
            Err(e) => {},
            Ok((r, j, mac2)) => {
                lemma_record_run_advances(b, i, empty_record(), mac);
                let m2 = m.insert(r.uuid, r);
                assert(records_well_keyed(m2));
                lemma_records_complete(b, j, m2, mac2);
            },
        }
    }
}

/// Opening is deterministic: two opens of the same bytes with the same
/// passphrase give equal databases, or equal errors.
pub proof fn lemma_open_deterministic(
    bytes: Seq<u8>,
    password: Seq<char>,
    r1: Result<Database, Error>,
    r2: Result<Database, Error>,
)
    requires
        open_result_view(r1) == open_database(bytes, encode_utf8(password)),
        open_result_view(r2) == open_database(bytes, encode_utf8(password)),
    ensures
        open_result_view(r1) == open_result_view(r2),
{
}

/// The offset of the end-of-data marker of the file `b`.
pub open spec fn eof_offset(b: Seq<u8>) -> int {
    find_eof(b, PREAMBLE_SIZE as int)->Ok_0
}

proof fn lemma_find_eof_prefix(b: Seq<u8>, b2: Seq<u8>, pos: int)
    requires
        0 <= pos,
        find_eof(b, pos) is Ok,
        b2.len() == b.len(),
        forall|i: int| 0 <= i < find_eof(b, pos)->Ok_0 + 16 ==> b2[i] == b[i],
    ensures
        find_eof(b2, pos) == find_eof(b, pos),
    decreases b.len() - pos,
{
    lemma_find_eof(b, pos);
    assert(b2.subrange(pos, pos + 16) =~= b.subrange(pos, pos + 16));
    if b.subrange(pos, pos + 16) != eof_marker() {
        lemma_find_eof_prefix(b, b2, pos + 16);
    }
}

/// The stored tag protects itself: changing any byte of it, a single bit
/// for one, in a database that opens makes the open fail with an HMAC
/// mismatch.
pub proof fn lemma_tag_change_detected(b: Seq<u8>, password: Seq<u8>, k: int, v: u8)
    requires
        open_database(b, password) is Ok,
        eof_offset(b) + 16 <= k < eof_offset(b) + 48,
        k < b.len(),
        v != b[k],
    ensures
        open_database(b.update(k, v), password) == Err::<DatabaseView, ErrorView>(
            ErrorView::HmacMismatch,
        ),
{
    let pos = eof_offset(b);
    let b2 = b.update(k, v);
    lemma_find_eof(b, PREAMBLE_SIZE as int);
    lemma_find_eof_prefix(b, b2, PREAMBLE_SIZE as int);
    assert(b2.subrange(0, PREAMBLE_SIZE as int) =~= b.subrange(0, PREAMBLE_SIZE as int));
    assert(b2.subrange(PREAMBLE_SIZE as int, pos) =~= b.subrange(PREAMBLE_SIZE as int, pos));
    assert(stored_tag(b2, pos)[k - pos - 16] == v);
    assert(stored_tag(b, pos)[k - pos - 16] == b[k]);
    assert(stored_tag(b2, pos) != stored_tag(b, pos));
}

} // verus!
