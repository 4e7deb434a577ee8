//! The decoding and decryption that the sources leave to `base64`,
//! `aes-gcm` and the standard library.
use vstd::prelude::*;
use vstd::utf8::{decode_utf8, valid_utf8};
use aes_gcm::aead::{Aead, KeyInit};
use aes_gcm::aes::cipher::consts::U16;
use aes_gcm::aes::Aes256;
use aes_gcm::{AesGcm, Key, Nonce};
use base64::Engine;

verus! {

/// What the standard base64 engine (alphabet `A-Z a-z 0-9 + /`, padding
/// required) makes of a text: the bytes it decodes, or the message of the
/// error it reports.
pub uninterp spec fn base64_standard(text: Seq<char>) -> Result<Seq<u8>, Seq<char>>;

/// `base64::engine::general_purpose::STANDARD.decode`: the bytes a base64
/// text stands for, or the decoder's message. Its result depends on the text
/// alone; which texts it accepts is left to the name.
#[verifier::external_body]
pub(crate) fn base64_decode(text: &str) -> (r: Result<Vec<u8>, String>)
    ensures
        r matches Ok(b) ==> (base64_standard(text@) matches Ok(d) && d == b@),
        r matches Err(e) ==> (base64_standard(text@) matches Err(m) && m == e@),
{
    base64::engine::general_purpose::STANDARD.decode(text).map_err(|e| e.to_string())
}

/// What AES-256-GCM with a 16-byte nonce makes of a ciphertext followed by
/// its 16-byte tag: the plaintext when the tag is authentic, else nothing.
pub uninterp spec fn aes256_gcm_opened(key: Seq<u8>, nonce: Seq<u8>, data: Seq<u8>) -> Option<
    Seq<u8>,
>;

/// `Aead::decrypt` of `AesGcm<Aes256, U16>`, keyed with `key`: the plaintext
/// of `data` (ciphertext, then tag), or the crate's one error, whose message
/// is `aead::Error`. The key and the nonce must have the lengths the cipher
/// takes (`from_slice` panics otherwise). What the cipher computes is left to
/// the name; the source shows that data shorter than a tag is refused.
#[verifier::external_body]
pub(crate) fn aes256_gcm_open(key: &[u8], nonce: &[u8], data: &[u8]) -> (r: Result<Vec<u8>, String>)
    requires
        key@.len() == 32,
        nonce@.len() == 16,
    ensures
        r matches Ok(p) ==> aes256_gcm_opened(key@, nonce@, data@) == Some(p@),
        r matches Err(e) ==> aes256_gcm_opened(key@, nonce@, data@) is None && e@
            == "aead::Error"@,
        data@.len() < 16 ==> r is Err,
{
    let cipher = AesGcm::<Aes256, U16>::new(Key::<AesGcm<Aes256, U16>>::from_slice(key));
    cipher.decrypt(Nonce::from_slice(nonce), data).map_err(|e| e.to_string())
}

/// The message of the error `String::from_utf8` reports for bytes that are
/// not UTF-8.
pub uninterp spec fn utf8_error(bytes: Seq<u8>) -> Seq<char>;

/// `String::from_utf8`: the text the bytes encode in UTF-8, or, when they
/// are not UTF-8, the message of the error; the wording of the message is
/// left to the name.
#[verifier::external_body]
pub(crate) fn utf8_text(bytes: Vec<u8>) -> (r: Result<String, String>)
    ensures
        r matches Ok(s) ==> valid_utf8(bytes@) && s@ == decode_utf8(bytes@),
        r matches Err(e) ==> !valid_utf8(bytes@) && e@ == utf8_error(bytes@),
{
    String::from_utf8(bytes).map_err(|e| e.to_string())
}

} // verus!
