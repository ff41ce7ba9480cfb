//! Request signatures: HMAC-SHA256 in hexadecimal.

use crate::hexadecimal::hex_text;
use crate::text::{digits, digits_text, joined4};
use hmac::Mac;
use vstd::prelude::*;

verus! {

/// A venue's shared secret. It has no debugging text.
#[derive(Clone)]
pub struct ApiSecret {
    text: String,
}

impl View for ApiSecret {
    type V = Seq<char>;

    closed spec fn view(&self) -> Seq<char> {
        self.text@
    }
}

impl ApiSecret {
    /// The secret that a text spells.
    pub fn new(text: String) -> (r: ApiSecret)
        ensures
            r@ == text@,
    {
        ApiSecret { text }
    }

    /// The secret's text.
    pub fn expose(&self) -> (r: &str)
        ensures
            r@ == self@,
    {
        self.text.as_str()
    }
}

/// The code that `hmac::Hmac<sha2::Sha256>` computes for a message under a key, both taken
/// as the UTF-8 bytes of a text.
pub uninterp spec fn hmac_sha256(key: Seq<char>, message: Seq<char>) -> Seq<u8>;

/// The signature of a payload: its HMAC-SHA256 code in hexadecimal.
pub open spec fn signature(secret: Seq<char>, payload: Seq<char>) -> Seq<char> {
    hex_text(hmac_sha256(secret, payload))
}

/// What is signed for a request: timestamp, key, window and payload, one after the other.
pub open spec fn signed_text(
    timestamp: Seq<char>,
    api_key: Seq<char>,
    recv_window_ms: u64,
    payload: Seq<char>,
) -> Seq<char> {
    timestamp + api_key + digits(recv_window_ms as nat) + payload
}

/// `hmac::Hmac<sha2::Sha256>`: `new_from_slice`, which takes a key of any length, then
/// `update` and `finalize`. A code has thirty-two bytes; which ones is left to the name.
#[verifier::external_body]
fn hmac_code(key: &str, message: &str) -> (r: Vec<u8>)
    ensures
        r@ == hmac_sha256(key@, message@),
        r@.len() == 32,
{
    let mut mac = hmac::Hmac::<sha2::Sha256>::new_from_slice(key.as_bytes()).unwrap();
    mac.update(message.as_bytes());
    mac.finalize().into_bytes().to_vec()
}

/// `hex::encode`: two lower-case digits for each byte.
#[verifier::external_body]
fn hex_encode(bytes: &[u8]) -> (r: String)
    ensures
        r@ == hex_text(bytes@),
{
    hex::encode(bytes)
}

/// Signs a payload.
pub fn sign_hmac(secret: &ApiSecret, payload: &str) -> (r: String)
    ensures
        r@ == signature(secret@, payload@),
{
    hex_encode(hmac_code(secret.expose(), payload).as_slice())
}

/// Signs a request.
pub fn sign_rest_payload(
    secret: &ApiSecret,
    timestamp: &str,
    api_key: &str,
    recv_window_ms: u64,
    payload: &str,
) -> (r: String)
    ensures
        r@ == signature(secret@, signed_text(timestamp@, api_key@, recv_window_ms, payload@)),
{
    let signature_payload = joined4(
        timestamp,
        api_key,
        digits_text(recv_window_ms as u128).as_str(),
        payload,
    );
    sign_hmac(secret, signature_payload.as_str())
}

} // verus!
