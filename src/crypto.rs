use vstd::prelude::*;

use block_modes::block_padding::NoPadding;
use block_modes::{BlockMode, Cbc, Ecb};
use hmac::{Hmac, Mac, NewMac};
use sha2::{Digest, Sha256};
use twofish::Twofish;

verus! {

/// The SHA-256 digest of `data`.
pub uninterp spec fn sha256_of(data: Seq<u8>) -> Seq<u8>;

/// Twofish decryption of `data` under `key`, each block on its own.
pub uninterp spec fn twofish_ecb_plain(key: Seq<u8>, data: Seq<u8>) -> Seq<u8>;

/// Twofish decryption of `data` under `key`, chained from `iv`.
pub uninterp spec fn twofish_cbc_plain(key: Seq<u8>, iv: Seq<u8>, data: Seq<u8>) -> Seq<u8>;

/// The HMAC-SHA-256 tag of `msg` under `key`.
pub uninterp spec fn hmac_sha256_of(key: Seq<u8>, msg: Seq<u8>) -> Seq<u8>;

/// The lower-case form of `s`.
pub uninterp spec fn lower_of(s: Seq<char>) -> Seq<char>;

/// Relies on sha2's `Sha256::digest`: the 32-byte digest of `data`.
#[verifier::external_body]
pub(crate) fn sha256(data: &[u8]) -> (r: [u8; 32])
    ensures
        r@ == sha256_of(data@),
{
    Sha256::digest(data).into()
}

/// Relies on block-modes' `Ecb<Twofish, NoPadding>`: with a 32-byte key and
/// no IV `new_var` succeeds, and `decrypt_vec` fails exactly when the input
/// is not whole blocks, else returns as many bytes as it was given.
#[verifier::external_body]
pub(crate) fn twofish_ecb_decrypt(key: &[u8; 32], data: &[u8]) -> (r: Option<Vec<u8>>)
    ensures
        r is Some <==> data@.len() % 16 == 0,
        r is Some ==> r->0@ == twofish_ecb_plain(key@, data@),
        r is Some ==> r->0@.len() == data@.len(),
{
    let cipher = Ecb::<Twofish, NoPadding>::new_var(&key[..], &[]).ok()?;
    cipher.decrypt_vec(data).ok()
}

/// Relies on block-modes' `Cbc<Twofish, NoPadding>`: with a 32-byte key and a
/// 16-byte IV `new_var` succeeds, and `decrypt_vec` fails exactly when the
/// input is not whole blocks, else returns as many bytes as it was given.
#[verifier::external_body]
pub(crate) fn twofish_cbc_decrypt(key: &[u8; 32], iv: &[u8; 16], data: &[u8]) -> (r: Option<Vec<u8>>)
    ensures
        r is Some <==> data@.len() % 16 == 0,
        r is Some ==> r->0@ == twofish_cbc_plain(key@, iv@, data@),
        r is Some ==> r->0@.len() == data@.len(),
{
    let cipher = Cbc::<Twofish, NoPadding>::new_var(&key[..], &iv[..]).ok()?;
    cipher.decrypt_vec(data).ok()
}

/// Relies on hmac's `Hmac<Sha256>`: `new_varkey` accepts a key of any length,
/// and `verify` compares, in constant time, the tag of the input with `tag`.
#[verifier::external_body]
pub(crate) fn hmac_sha256_verify(key: &[u8; 32], msg: &[u8], tag: &[u8]) -> (r: bool)
    ensures
        r == (tag@ == hmac_sha256_of(key@, msg@)),
{
    let mut mac = match Hmac::<Sha256>::new_varkey(&key[..]) {
        Ok(m) => m,
        Err(_) => return false,
    };
    mac.update(msg);
    mac.verify(tag).is_ok()
}

/// Relies on std's `String::from_utf8`: it succeeds exactly on valid UTF-8,
/// and the string then holds the characters that the bytes encode.
#[verifier::external_body]
pub(crate) fn string_from_utf8(bytes: Vec<u8>) -> (r: Option<String>)
    ensures
        r is Some <==> vstd::utf8::valid_utf8(bytes@),
        r is Some ==> r->0@ == vstd::utf8::decode_utf8(bytes@),
{
    String::from_utf8(bytes).ok()
}

/// Relies on std's `str::to_lowercase`: the result depends on the characters
/// of `s` alone, and an empty string stays empty.
#[verifier::external_body]
pub(crate) fn to_lowercase(s: &str) -> (r: String)
    ensures
        r@ == lower_of(s@),
        s@.len() == 0 ==> r@.len() == 0,
{
    s.to_lowercase()
}

} // verus!
