use vstd::prelude::*;

use crate::crypto::{sha256, sha256_of, twofish_ecb_decrypt, twofish_ecb_plain};
use crate::error::{Error, ErrorView};
use crate::field::{copy_into_array, le_u32_at, read_u32_le};
use vstd::utf8::encode_utf8;

verus! {

/// Size of the unencrypted prelude of a database.
pub const PREAMBLE_SIZE: usize = 152;

/// Largest accepted number of key-stretching rounds; more suggests a hostile file.
pub const MAX_ITERATIONS: u32 = 100000;

/// The tag `PWS3` that opens every database.
pub open spec fn magic() -> Seq<u8> {
    seq![0x50u8, 0x57u8, 0x53u8, 0x33u8]
}

/// SHA-256 applied `n + 1` times, the first time to `seed`.
pub open spec fn stretch(seed: Seq<u8>, n: nat) -> Seq<u8>
    decreases n,
{
    if n == 0 {
        sha256_of(seed)
    } else {
        sha256_of(stretch(seed, (n - 1) as nat))
    }
}

/// The unencrypted fields that a database keeps.
pub ghost struct PreambleView {
    pub salt: Seq<u8>,
    pub iter: u32,
    pub key_hash: Seq<u8>,
    pub cbciv: Seq<u8>,
}

/// The keys unwrapped from a preamble: the data key and the MAC key.
pub ghost struct KeysView {
    pub stretched_key: Seq<u8>,
    pub encryption_key: Seq<u8>,
    pub hmac_key: Seq<u8>,
}

/// The outcome of decoding the 152 bytes `b` with the passphrase bytes `password`.
pub open spec fn decode_preamble(b: Seq<u8>, password: Seq<u8>) -> Result<
    (PreambleView, KeysView),
    ErrorView,
> {
    if b.subrange(0, 4) != magic() {
        Err(ErrorView::NotAPws3Db)
    } else if le_u32_at(b, 36) > MAX_ITERATIONS {
        Err(ErrorView::SuspectIterations(le_u32_at(b, 36) as u32))
    } else {
        let sk = stretch(password + b.subrange(4, 36), le_u32_at(b, 36) as nat);
        if sha256_of(sk) != b.subrange(40, 72) {
            Err(ErrorView::InvalidPassword)
        } else {
            let keys = twofish_ecb_plain(sk, b.subrange(72, 136));
            Ok(
                (
                    PreambleView {
                        salt: b.subrange(4, 36),
                        iter: le_u32_at(b, 36) as u32,
                        key_hash: b.subrange(40, 72),
                        cbciv: b.subrange(136, 152),
                    },
                    KeysView {
                        stretched_key: sk,
                        encryption_key: keys.subrange(0, 32),
                        hmac_key: keys.subrange(32, 64),
                    },
                ),
            )
        }
    }
}

/// The unencrypted fields of a database, kept for reference.
#[derive(Debug)]
pub struct Preamble {
    /// Initial value of the CBC chain.
    pub cbciv: [u8; 16],
    /// Number of extra hashing rounds that stretch the passphrase.
    pub iter: u32,
    pub salt: [u8; 32],
    /// SHA-256 of the stretched key.
    pub key_hash: [u8; 32],
}

impl View for Preamble {
    type V = PreambleView;

    open spec fn view(&self) -> PreambleView {
        PreambleView { salt: self.salt@, iter: self.iter, key_hash: self.key_hash@, cbciv: self.cbciv@ }
    }
}

/// Secret keys derived while opening; they do not outlive the open call.
pub struct Keys {
    pub stretched_key: [u8; 32],
    pub encryption_key: [u8; 32],
    pub hmac_key: [u8; 32],
}

impl View for Keys {
    type V = KeysView;

    open spec fn view(&self) -> KeysView {
        KeysView {
            stretched_key: self.stretched_key@,
            encryption_key: self.encryption_key@,
            hmac_key: self.hmac_key@,
        }
    }
}

/// The view of a decoded preamble together with its keys.
pub open spec fn preamble_result_view(r: Result<(Preamble, Keys), Error>) -> Result<
    (PreambleView, KeysView),
    ErrorView,
> {
    match r {
        Ok((p, k)) => Ok((p@, k@)),
        Err(e) => Err(e@),
    }
}

impl Preamble {
    /// Decodes the prelude `bytes`, checks the passphrase against the stored
    /// hash of the stretched key, and unwraps the data and MAC keys.
    pub fn new(bytes: &[u8], password: &str) -> (r: Result<(Preamble, Keys), Error>)
        requires
            bytes@.len() == PREAMBLE_SIZE,
        ensures
            preamble_result_view(r) == decode_preamble(bytes@, encode_utf8(password@)),
    {
        if !(bytes[0] == 0x50 && bytes[1] == 0x57 && bytes[2] == 0x53 && bytes[3] == 0x33) {
            assert(bytes@.subrange(0, 4) != magic()) by {
                if bytes@.subrange(0, 4) == magic() {
                    assert(bytes@.subrange(0, 4)[0] == bytes@[0]);
                    assert(bytes@.subrange(0, 4)[1] == bytes@[1]);
                    assert(bytes@.subrange(0, 4)[2] == bytes@[2]);
                    assert(bytes@.subrange(0, 4)[3] == bytes@[3]);
                }
            }
            return Err(Error::NotAPws3Db);
        }
        assert(bytes@.subrange(0, 4) =~= magic());
        let iter = read_u32_le(bytes, 36);
        if iter > MAX_ITERATIONS {
            return Err(Error::SuspectIterations(iter));
        }
        let salt: [u8; 32] = copy_into_array(&bytes[4..36]);
        let key_hash: [u8; 32] = copy_into_array(&bytes[40..72]);
        let cbciv: [u8; 16] = copy_into_array(&bytes[136..152]);

        let stretched_key = calculate_stretch_key(password.as_bytes(), iter, &salt);
        let digest = sha256(&stretched_key);
        if !bytes_equal(&digest, &key_hash) {
            return Err(Error::InvalidPassword);
        }
        let (encryption_key, hmac_key) = extract_keys(&bytes[72..136], &stretched_key);
        Ok((Preamble { cbciv, iter, salt, key_hash }, Keys { stretched_key, encryption_key, hmac_key }))
    }
}

/// Whether two byte slices are equal.
pub fn bytes_equal(a: &[u8], b: &[u8]) -> (r: bool)
    ensures
        r == (a@ == b@),
{
    if a.len() != b.len() {
        return false;
    }
    let mut i: usize = 0;
    while i < a.len()
        invariant
            a@.len() == b@.len(),
            i <= a@.len(),
            forall|k: int| 0 <= k < i ==> a@[k] == b@[k],
        decreases a@.len() - i,
    {
        if a[i] != b[i] {
            return false;
        }
        i = i + 1;
    }
    assert(a@ =~= b@);
    true
}

/// Stretches the passphrase: SHA-256 of `password ‖ salt`, then SHA-256 of
/// the digest `iterations` more times.
pub fn calculate_stretch_key(password: &[u8], iterations: u32, salt: &[u8; 32]) -> (r: [u8; 32])
    ensures
        r@ == stretch(password@ + salt@, iterations as nat),
{
    let mut salted: Vec<u8> = Vec::new();
    salted.extend_from_slice(password);
    salted.extend_from_slice(salt.as_slice());
    assert(salted@ =~= password@ + salt@);
    let mut stretched = sha256(salted.as_slice());
    let mut i: u32 = 0;
    while i < iterations
        invariant
            i <= iterations,
            stretched@ == stretch(password@ + salt@, i as nat),
        decreases iterations - i,
    {
        stretched = sha256(&stretched);
        i = i + 1;
    }
    stretched
}

/// Unwraps the data key and the MAC key from the 64 encrypted bytes `data`.
pub fn extract_keys(data: &[u8], stretched_key: &[u8; 32]) -> (r: ([u8; 32], [u8; 32]))
    requires
        data@.len() == 64,
    ensures
        r.0@ == twofish_ecb_plain(stretched_key@, data@).subrange(0, 32),
        r.1@ == twofish_ecb_plain(stretched_key@, data@).subrange(32, 64),
{
    match twofish_ecb_decrypt(stretched_key, data) {
        Some(plain) => {
            let encryption_key: [u8; 32] = copy_into_array(&plain.as_slice()[0..32]);
            let hmac_key: [u8; 32] = copy_into_array(&plain.as_slice()[32..64]);
            (encryption_key, hmac_key)
        },
        None => {
            assert(false);
            ([0u8; 32], [0u8; 32])
        },
    }
}

} // verus!
