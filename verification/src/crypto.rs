//! Encryption and encoding of the outbound push payload: AES-128-CBC with
//! PKCS#7 byte padding, standard Base64, and form percent-encoding.
//!
//! The cipher and the encoders are outside crates; each is reached through
//! exactly one trusted wrapper whose contract states what its source
//! shows.  Everything around the calls is verified.

use vstd::prelude::*;
use aes::Aes128;
use base64::Engine;
use cipher::block_padding::Pkcs7;
use cipher::BlockDecryptMut;
use cipher::BlockEncryptMut;
use cipher::KeyIvInit;

verus! {

/// The ciphertext that AES-128-CBC with PKCS#7 padding produces for the
/// given key, initialization vector and plaintext.  It is a function of
/// the three arguments alone.
pub uninterp spec fn aes_cbc_ciphertext(key: Seq<u8>, iv: Seq<u8>, pt: Seq<u8>) -> Seq<u8>;

/// The standard Base64 encoding (with padding) of the bytes.
pub uninterp spec fn base64_of(b: Seq<u8>) -> Seq<char>;

/// Relies on `cbc::Encryptor::<aes::Aes128>` with `Pkcs7` padding
/// (`encrypt_padded_vec_mut`): the ciphertext is a function of key, IV and
/// plaintext alone, and is the plaintext length padded up to the next
/// multiple of the 16-byte block.
#[verifier::external_body]
fn aes128_cbc_encrypt(key: &[u8], iv: &[u8], pt: &[u8]) -> (r: Vec<u8>)
    requires
        key@.len() == 16,
        iv@.len() == 16,
    ensures
        r@ == aes_cbc_ciphertext(key@, iv@, pt@),
        r@.len() == pt@.len() + 16 - (pt@.len() % 16),
{
    let enc = cbc::Encryptor::<Aes128>::new_from_slices(key, iv).expect("key/iv length");
    enc.encrypt_padded_vec_mut::<Pkcs7>(pt)
}

/// Relies on `cbc::Decryptor::<aes::Aes128>` with `Pkcs7` unpadding
/// (`decrypt_padded_vec_mut`): decrypting a ciphertext produced with the
/// same key and IV recovers the plaintext byte for byte.
#[verifier::external_body]
fn aes128_cbc_decrypt(key: &[u8], iv: &[u8], ct: &[u8]) -> (r: Option<Vec<u8>>)
    requires
        key@.len() == 16,
        iv@.len() == 16,
    ensures
        forall|pt: Seq<u8>|
            ct@ == #[trigger] aes_cbc_ciphertext(key@, iv@, pt) ==> r is Some && r->0@ == pt,
{
    let dec = cbc::Decryptor::<Aes128>::new_from_slices(key, iv).expect("key/iv length");
    dec.decrypt_padded_vec_mut::<Pkcs7>(ct).ok()
}

/// Relies on `base64::engine::general_purpose::STANDARD.encode`: standard
/// alphabet with padding; four output characters for every three input
/// bytes begun, and the output depends on the input bytes alone.
#[verifier::external_body]
fn base64_encode_bytes(b: &[u8]) -> (r: String)
    ensures
        r@ == base64_of(b@),
        r@.len() == 4 * ((b@.len() + 2) / 3),
{
    base64::engine::general_purpose::STANDARD.encode(b)
}

/// ASCII alphanumeric byte, which form percent-encoding passes through.
pub open spec fn is_alnum_byte(b: u8) -> bool {
    (48 <= b && b <= 57) || (65 <= b && b <= 90) || (97 <= b && b <= 122)
}

/// Uppercase hexadecimal digit for a value below 16.
pub open spec fn upper_hex_digit(d: int) -> char {
    if d < 10 {
        ((48 + d) as u32) as char
    } else {
        ((55 + d) as u32) as char
    }
}

/// How one byte is percent-encoded: alphanumerics pass through, every
/// other byte becomes `%` and two uppercase hex digits.
pub open spec fn percent_encoded_byte(b: u8) -> Seq<char> {
    if is_alnum_byte(b) {
        seq![((b as u32) as char)]
    } else {
        seq!['%', upper_hex_digit(b as int / 16), upper_hex_digit(b as int % 16)]
    }
}

/// The percent-encoding of a byte string.
pub open spec fn percent_encoded(bs: Seq<u8>) -> Seq<char>
    decreases bs.len(),
{
    if bs.len() == 0 {
        Seq::empty()
    } else {
        percent_encoded(bs.drop_last()) + percent_encoded_byte(bs.last())
    }
}

/// Relies on `percent_encoding::percent_encode` with `NON_ALPHANUMERIC`:
/// every byte that is not an ASCII alphanumeric is written as `%` and two
/// uppercase hex digits; alphanumeric bytes pass through.
#[verifier::external_body]
fn percent_encode_bytes(b: &[u8]) -> (r: String)
    ensures
        r@ == percent_encoded(b@),
{
    percent_encoding::percent_encode(b, percent_encoding::NON_ALPHANUMERIC).collect::<String>()
}

/// Encrypt `data` with AES-128-CBC and PKCS#7 padding; `None` exactly when
/// the key or the IV is not 16 bytes, checked before any cipher use.
pub fn encrypt_data(key: &[u8], iv: &[u8], data: &[u8]) -> (r: Option<Vec<u8>>)
    ensures
        r is Some <==> (key@.len() == 16 && iv@.len() == 16),
        r matches Some(ct) ==> ct@ == aes_cbc_ciphertext(key@, iv@, data@),
{
    if key.len() == 16 && iv.len() == 16 {
        Some(aes128_cbc_encrypt(key, iv, data))
    } else {
        None
    }
}

/// Decrypt an AES-128-CBC ciphertext.  For every plaintext the ciphertext
/// was produced from with the same 16-byte key and IV, the result is
/// `Some` of exactly that plaintext; with a key or IV that is not 16
/// bytes the result is `None`.
pub fn decrypt_data(key: &[u8], iv: &[u8], ct: &[u8]) -> (r: Option<Vec<u8>>)
    ensures
        key@.len() == 16 && iv@.len() == 16 ==> forall|pt: Seq<u8>|
            ct@ == #[trigger] aes_cbc_ciphertext(key@, iv@, pt) ==> r is Some && r->0@ == pt,
        !(key@.len() == 16 && iv@.len() == 16) ==> r is None,
{
    if key.len() == 16 && iv.len() == 16 {
        aes128_cbc_decrypt(key, iv, ct)
    } else {
        None
    }
}

/// Base64-encode the bytes with the standard alphabet and padding.
pub fn base64_encode(b: &[u8]) -> (r: String)
    ensures
        r@ == base64_of(b@),
        r@.len() == 4 * ((b@.len() + 2) / 3),
{
    base64_encode_bytes(b)
}

/// Percent-encode the bytes for a form body: only ASCII alphanumerics
/// pass through unescaped.
pub fn percent_encode_form(b: &[u8]) -> (r: String)
    ensures
        r@ == percent_encoded(b@),
{
    percent_encode_bytes(b)
}

} // verus!
