//! Authentication for the Kraken API: credentials and HMAC-SHA512 request
//! signing (`API-Sign = base64(HMAC-SHA512(path + SHA256(nonce + postdata), secret))`).

use crate::error::SdkError;
use crate::text::{decimal, u64_to_decimal};
use base64::engine::general_purpose::STANDARD;
use base64::Engine;
use hmac::{Hmac, Mac};
use sha2::{Digest, Sha256, Sha512};
use std::time::{SystemTime, UNIX_EPOCH};
use vstd::prelude::*;
use vstd::string::StrSliceExecFns;
use vstd::utf8::encode_utf8;

verus! {

broadcast use vstd::string::group_string_axioms;

/// What the standard base64 engine decodes a text to; `None` where it
/// rejects the text.
pub uninterp spec fn base64_decoded(text: Seq<char>) -> Option<Seq<u8>>;

/// The text the standard base64 engine (with padding) encodes bytes to.
pub uninterp spec fn base64_encoded(bytes: Seq<u8>) -> Seq<char>;

/// The SHA-256 digest of bytes.
pub uninterp spec fn sha256_of(bytes: Seq<u8>) -> Seq<u8>;

/// The HMAC-SHA512 tag of a message under a key.
pub uninterp spec fn hmac_sha512_of(key: Seq<u8>, message: Seq<u8>) -> Seq<u8>;

/// `STANDARD.decode` of the `base64` crate on the bytes of `text`. Its
/// result depends on the text alone; the contract names it and says no more
/// of it. On a rejected text the error's `Display` text is handed back, and
/// nothing is stated of that text.
#[verifier::external_body]
fn decode_base64(text: &str) -> (r: Result<Vec<u8>, String>)
    ensures
        match r {
            Ok(v) => base64_decoded(text@) == Some(v@),
            Err(_) => base64_decoded(text@) is None,
        },
{
    match STANDARD.decode(text) {
        Ok(v) => Ok(v),
        Err(e) => Err(e.to_string()),
    }
}

/// `STANDARD.encode` of the `base64` crate: a function of the bytes alone.
#[verifier::external_body]
pub(crate) fn encode_base64(bytes: &[u8]) -> (r: String)
    ensures
        r@ == base64_encoded(bytes@),
{
    STANDARD.encode(bytes)
}

/// `Sha256::new`, `update` and `finalize` of the `sha2` crate: the digest of
/// the bytes, 32 bytes long (the output size of SHA-256).
#[verifier::external_body]
fn sha256_digest(bytes: &[u8]) -> (r: Vec<u8>)
    ensures
        r@ == sha256_of(bytes@),
        r@.len() == 32,
{
    let mut hasher = Sha256::new();
    hasher.update(bytes);
    hasher.finalize().to_vec()
}

/// `Mac::new_from_slice`, `update` and `finalize` of `Hmac<Sha512>` (crates
/// `hmac` and `sha2`): the tag, 64 bytes long. The source of `hmac` takes a
/// key of any length (`new_from_slice` only returns `Ok`), so the call
/// always succeeds; the error's `Display` text would be handed back.
#[verifier::external_body]
fn hmac_sha512(key: &[u8], message: &[u8]) -> (r: Result<Vec<u8>, String>)
    ensures
        r is Ok,
        r matches Ok(tag) ==> tag@ == hmac_sha512_of(key@, message@) && tag@.len() == 64,
{
    match <Hmac<Sha512> as Mac>::new_from_slice(key) {
        Ok(mut mac) => {
            mac.update(message);
            Ok(mac.finalize().into_bytes().to_vec())
        },
        Err(e) => Err(e.to_string()),
    }
}

/// Microseconds since the Unix epoch read from the system clock
/// (`SystemTime::now`, `duration_since(UNIX_EPOCH)`, `as_micros` cut to
/// `u64`); `None` where `duration_since` fails, the clock reading before
/// the epoch. The value depends on the time of the call, so nothing is
/// promised of it.
#[verifier::external_body]
fn system_micros() -> Option<u64> {
    match SystemTime::now().duration_since(UNIX_EPOCH) {
        Ok(d) => Some(d.as_micros() as u64),
        Err(_) => None,
    }
}

/// The message that is signed: the path, then the SHA-256 digest of the
/// nonce in decimal followed by the POST body.
pub open spec fn signed_message(path: Seq<char>, nonce: u64, post_data: Seq<char>) -> Seq<u8> {
    encode_utf8(path) + sha256_of(encode_utf8(decimal(nonce as nat)) + encode_utf8(post_data))
}

/// The `API-Sign` value of a request.
pub open spec fn signature_of(secret: Seq<u8>, path: Seq<char>, nonce: u64, post_data: Seq<char>) -> Seq<char> {
    base64_encoded(hmac_sha512_of(secret, signed_message(path, nonce, post_data)))
}

/// The prefix of the error message for a secret that is not base64.
pub open spec fn invalid_secret_prefix() -> Seq<char> {
    "Invalid API secret encoding: "@
}

/// The text shown for credentials: the first eight characters of the key,
/// and the secret hidden.
pub open spec fn redacted_text(key: Seq<char>) -> Seq<char> {
    let shown = if key.len() <= 8 { key } else { key.take(8) };
    "Credentials { api_key: \""@ + shown + "...\", api_secret: \"[REDACTED]\" }"@
}

/// Credentials for authenticated API access: the API key and the decoded
/// secret.
#[derive(Clone)]
pub struct Credentials {
    api_key: String,
    api_secret: Vec<u8>,
}

impl Credentials {
    /// The API key.
    pub closed spec fn key(&self) -> Seq<char> {
        self.api_key@
    }

    /// The decoded secret.
    pub closed spec fn secret(&self) -> Seq<u8> {
        self.api_secret@
    }

    /// Credentials from an API key and a base64-encoded secret; an
    /// `Authentication` error when the secret is not valid base64.
    pub fn new(api_key: &str, api_secret: &str) -> (r: Result<Self, SdkError>)
        ensures
            match r {
                Ok(c) => base64_decoded(api_secret@) == Some(c.secret()) && c.key() == api_key@,
                Err(e) => base64_decoded(api_secret@) is None && (e matches SdkError::Authentication(m)
                    && m@.len() >= invalid_secret_prefix().len()
                    && m@.take(invalid_secret_prefix().len() as int) == invalid_secret_prefix()),
            },
    {
        match decode_base64(api_secret) {
            Ok(secret) => Ok(Credentials { api_key: api_key.to_string(), api_secret: secret }),
            Err(reason) => {
                let mut message = "Invalid API secret encoding: ".to_string();
                let ghost prefix = message@;
                message.append(&reason);
                assert(message@.take(prefix.len() as int) =~= prefix);
                Err(SdkError::Authentication(message))
            },
        }
    }

    /// The API key (for request headers).
    pub fn api_key(&self) -> (k: &str)
        ensures
            k@ == self.key(),
    {
        self.api_key.as_str()
    }

    /// Signs a REST request: the base64 HMAC-SHA512, under the secret, of
    /// the path followed by the SHA-256 of the nonce (in decimal) and the
    /// POST body.
    pub fn sign(&self, uri_path: &str, nonce: u64, post_data: &str) -> (r: Result<String, SdkError>)
        ensures
            r matches Ok(s) && s@ == signature_of(self.secret(), uri_path@, nonce, post_data@),
    {
        let nonce_text = u64_to_decimal(nonce);
        let mut hashed: Vec<u8> = nonce_text.as_str().as_bytes_vec();
        let mut post_bytes: Vec<u8> = post_data.as_bytes_vec();
        hashed.append(&mut post_bytes);
        let mut digest = sha256_digest(hashed.as_slice());
        let mut message: Vec<u8> = uri_path.as_bytes_vec();
        message.append(&mut digest);
        assert(message@ =~= signed_message(uri_path@, nonce, post_data@));
        match hmac_sha512(self.api_secret.as_slice(), message.as_slice()) {
            Ok(tag) => Ok(encode_base64(tag.as_slice())),
            Err(reason) => {
                let mut text = "HMAC error: ".to_string();
                text.append(&reason);
                Err(SdkError::Authentication(text))
            },
        }
    }

    /// A nonce: microseconds since the Unix epoch; `None` when the system
    /// clock reads before the epoch.
    pub fn generate_nonce() -> Option<u64> {
        system_micros()
    }

    /// The credentials as shown in logs, with the secret hidden and only the
    /// first eight characters of the key.
    pub fn redacted(&self) -> (t: String)
        ensures
            t@ == redacted_text(self.key()),
    {
        let mut out = "Credentials { api_key: \"".to_string();
        let n = self.api_key.as_str().unicode_len();
        let shown = if n <= 8 { self.api_key.as_str() } else { self.api_key.as_str().substring_char(0, 8) };
        proof {
            if n <= 8 {
                assert(self.api_key@.take(n as int) =~= self.api_key@);
            }
        }
        out.append(shown);
        out.append("...\", api_secret: \"[REDACTED]\" }");
        assert(out@ =~= redacted_text(self.key()));
        out
    }
}

} // verus!
