//! Cryptographic checks of the OAuth 2.1 provider: PKCE (RFC 7636),
//! constant-time comparison and the encodings of tokens and digests.
use base64::Engine;
use sha2::Digest;
use vstd::prelude::*;
use vstd::string::StringSliceAdditionalSpecFns;

use crate::text::{chars_of, owned, push_str};

verus! {

/// Errors that can occur during cryptographic operations.
#[derive(Debug, Clone, PartialEq, Eq)]
pub enum CryptoError {
    /// Crypto facility not available
    CryptoUnavailable(String),
    /// Random generation failed
    RandomError(String),
    /// Hashing failed
    HashError(String),
    /// Signing failed
    SigningError(String),
    /// Base64 encoding/decoding error
    Base64Error(String),
}

impl CryptoError {
    /// The message of this error, as it is displayed.
    pub open spec fn spec_message(self) -> Seq<char> {
        match self {
            CryptoError::CryptoUnavailable(m) => "Crypto unavailable: "@ + m@,
            CryptoError::RandomError(m) => "Random error: "@ + m@,
            CryptoError::HashError(m) => "Hash error: "@ + m@,
            CryptoError::SigningError(m) => "Signing error: "@ + m@,
            CryptoError::Base64Error(m) => "Base64 error: "@ + m@,
        }
    }

    /// Render this error as text.
    pub fn to_string(&self) -> (r: String)
        ensures
            r@ == self.spec_message(),
    {
        let (head, m) = match self {
            CryptoError::CryptoUnavailable(m) => ("Crypto unavailable: ", m),
            CryptoError::RandomError(m) => ("Random error: ", m),
            CryptoError::HashError(m) => ("Hash error: ", m),
            CryptoError::SigningError(m) => ("Signing error: ", m),
            CryptoError::Base64Error(m) => ("Base64 error: ", m),
        };
        let mut r = owned(head);
        push_str(&mut r, m.as_str());
        r
    }
}

/// SHA-256 digest of `data`.
pub uninterp spec fn sha256(data: Seq<u8>) -> Seq<u8>;

/// The SHA-256 digest of `data`, computed by the `sha2` crate.
///
/// Trusted: `sha2::Sha256::digest` returns the 32-byte digest of its input;
/// nothing here says which 32 bytes.
#[verifier::external_body]
pub(crate) fn sha256_digest(data: &[u8]) -> (r: Vec<u8>)
    ensures
        r@ == sha256(data@),
        r@.len() == 32,
{
    sha2::Sha256::digest(data).to_vec()
}

/// The URL-safe Base64 alphabet (RFC 4648 Section 5).
pub open spec fn b64_char(v: nat) -> char {
    if v < 26 {
        ((v + 65) as u32) as char
    } else if v < 52 {
        ((v + 71) as u32) as char
    } else if v < 62 {
        ((v - 4) as u32) as char
    } else if v == 62 {
        '-'
    } else {
        '_'
    }
}

/// Unpadded URL-safe Base64 of `b` (RFC 4648 Section 5, no `=`).
pub open spec fn b64url(b: Seq<u8>) -> Seq<char>
    decreases b.len(),
{
    if b.len() == 0 {
        Seq::empty()
    } else if b.len() == 1 {
        seq![b64_char((b[0] / 4) as nat), b64_char(((b[0] % 4) * 16) as nat)]
    } else if b.len() == 2 {
        seq![
            b64_char((b[0] / 4) as nat),
            b64_char(((b[0] % 4) * 16 + b[1] / 16) as nat),
            b64_char(((b[1] % 16) * 4) as nat),
        ]
    } else {
        seq![
            b64_char((b[0] / 4) as nat),
            b64_char(((b[0] % 4) * 16 + b[1] / 16) as nat),
            b64_char(((b[1] % 16) * 4 + b[2] / 64) as nat),
            b64_char((b[2] % 64) as nat),
        ] + b64url(b.subrange(3, b.len() as int))
    }
}

/// Unpadded URL-safe Base64 of `data`, by the `base64` crate.
///
/// Trusted: `URL_SAFE_NO_PAD.encode` writes each 3-byte group as four
/// characters of the URL-safe alphabet, a trailing 1 or 2 bytes as 2 or 3,
/// and no padding — the encoding `b64url` states.
#[verifier::external_body]
fn base64url_encode(data: &[u8]) -> (r: String)
    ensures
        r@ == b64url(data@),
{
    base64::engine::general_purpose::URL_SAFE_NO_PAD.encode(data)
}

/// Result type for crypto operations.
pub type CryptoResult<T> = Result<T, CryptoError>;

/// Encode random bytes as a token (unpadded URL-safe Base64).
pub fn encode_token(bytes: &[u8]) -> (r: String)
    ensures
        r@ == b64url(bytes@),
{
    base64url_encode(bytes)
}

/// The S256 challenge of a verifier: `BASE64URL(SHA256(code_verifier))`.
pub open spec fn spec_challenge(code_verifier: &str) -> Seq<char> {
    b64url(sha256(code_verifier.spec_bytes()))
}

/// Generate a PKCE code challenge from a verifier (S256 method).
pub fn generate_code_challenge(code_verifier: &str) -> (r: String)
    ensures
        r@ == spec_challenge(code_verifier),
{
    let digest = sha256_digest(code_verifier.as_bytes());
    base64url_encode(digest.as_slice())
}

/// Whether `c` is an unreserved character of RFC 7636 (`ALPHA / DIGIT /
/// "-" / "." / "_" / "~"`).
pub open spec fn is_unreserved(c: char) -> bool {
    ||| ('A' <= c && c <= 'Z')
    ||| ('a' <= c && c <= 'z')
    ||| ('0' <= c && c <= '9')
    ||| c == '-'
    ||| c == '.'
    ||| c == '_'
    ||| c == '~'
}

/// Validate a PKCE code verifier: 43 to 128 bytes, all of them unreserved
/// characters.
pub fn validate_code_verifier(verifier: &str) -> (r: bool)
    ensures
        r == (43 <= verifier.spec_bytes().len() <= 128 && forall|i: int|
            0 <= i < verifier@.len() ==> #[trigger] is_unreserved(verifier@[i])),
{
    let len = verifier.as_bytes().len();
    if len < 43 || len > 128 {
        return false;
    }
    let v = chars_of(verifier);
    let mut i: usize = 0;
    while i < v.len()
        invariant
            i <= v.len(),
            v@ == verifier@,
            43 <= verifier.spec_bytes().len() <= 128,
            forall|j: int| 0 <= j < i ==> #[trigger] is_unreserved(v@[j]),
        decreases v.len() - i,
    {
        let c = v[i];
        let ok = ('A' <= c && c <= 'Z') || ('a' <= c && c <= 'z') || ('0' <= c && c <= '9') || c
            == '-' || c == '.' || c == '_' || c == '~';
        if !ok {
            assert(!is_unreserved(verifier@[i as int]));
            return false;
        }
        i = i + 1;
    }
    true
}

/// `b[i]`, or 0 past the end.
pub open spec fn byte_or_zero(b: Seq<u8>, i: int) -> u8 {
    if 0 <= i < b.len() {
        b[i]
    } else {
        0
    }
}

proof fn lemma_or_xor_zero(r: u8, x: u8, y: u8)
    ensures
        ((r | (x ^ y)) == 0) == (r == 0 && x == y),
{
    assert(((r | (x ^ y)) == 0) == (r == 0 && x == y)) by (bit_vector);
}

/// Constant-time comparison of the bytes of two strings: every byte of the
/// longer one is visited whatever the contents.
pub fn constant_time_compare(a: &str, b: &str) -> (r: bool)
    ensures
        r == (a.spec_bytes() == b.spec_bytes()),
{
    let a_bytes = a.as_bytes();
    let b_bytes = b.as_bytes();
    let mut result: u8 = if a_bytes.len() == b_bytes.len() {
        0
    } else {
        1
    };
    let max_len = if a_bytes.len() >= b_bytes.len() {
        a_bytes.len()
    } else {
        b_bytes.len()
    };
    let mut i: usize = 0;
    while i < max_len
        invariant
            i <= max_len,
            a_bytes@ == a.spec_bytes(),
            b_bytes@ == b.spec_bytes(),
            max_len == (if a_bytes@.len() >= b_bytes@.len() {
                a_bytes@.len()
            } else {
                b_bytes@.len()
            }),
            (result == 0) == (a_bytes@.len() == b_bytes@.len() && forall|j: int|
                0 <= j < i ==> byte_or_zero(a_bytes@, j) == byte_or_zero(b_bytes@, j)),
        decreases max_len - i,
    {
        let x: u8 = if i < a_bytes.len() {
            a_bytes[i]
        } else {
            0
        };
        let y: u8 = if i < b_bytes.len() {
            b_bytes[i]
        } else {
            0
        };
        proof {
            lemma_or_xor_zero(result, x, y);
            assert(x == byte_or_zero(a_bytes@, i as int));
            assert(y == byte_or_zero(b_bytes@, i as int));
        }
        let ghost old_i = i;
        result = result | (x ^ y);
        i = i + 1;
        proof {
            if result == 0 {
                assert forall|j: int| 0 <= j < i implies byte_or_zero(a_bytes@, j)
                    == byte_or_zero(b_bytes@, j) by {
                    if j == old_i {
                    }
                }
            }
        }
    }
    proof {
        if result == 0 {
            assert forall|j: int| 0 <= j < a_bytes@.len() implies a_bytes@[j] == b_bytes@[j] by {
                assert(byte_or_zero(a_bytes@, j) == byte_or_zero(b_bytes@, j));
            }
            assert(a_bytes@ =~= b_bytes@);
        }
        if a_bytes@ == b_bytes@ {
            assert forall|j: int| 0 <= j < max_len implies byte_or_zero(a_bytes@, j)
                == byte_or_zero(b_bytes@, j) by {}
        }
    }
    result == 0
}

/// What `verify_pkce` answers for a verifier, challenge and method.
pub open spec fn spec_verify_pkce(
    code_verifier: &str,
    code_challenge: &str,
    method: Seq<char>,
) -> Result<bool, Seq<char>> {
    if method == "S256"@ {
        Ok(encode_utf8_chars(spec_challenge(code_verifier)) == code_challenge.spec_bytes())
    } else if method == "plain"@ {
        Ok(code_verifier.spec_bytes() == code_challenge.spec_bytes())
    } else {
        Err("Unknown PKCE method: "@ + method)
    }
}

/// The UTF-8 bytes of a character sequence.
pub open spec fn encode_utf8_chars(s: Seq<char>) -> Seq<u8> {
    vstd::utf8::encode_utf8(s)
}

/// Verify a PKCE code verifier against a code challenge, for the method
/// "S256" or "plain"; any other method is an error.
pub fn verify_pkce(code_verifier: &str, code_challenge: &str, method: &str) -> (r: CryptoResult<
    bool,
>)
    ensures
        match spec_verify_pkce(code_verifier, code_challenge, method@) {
            Ok(b) => r == Ok::<bool, CryptoError>(b),
            Err(m) => r matches Err(CryptoError::HashError(e)) && e@ == m,
        },
{
    if crate::text::str_eq(method, "S256") {
        let challenge = generate_code_challenge(code_verifier);
        let s = challenge.as_str();
        let ok = constant_time_compare(s, code_challenge);
        proof {
            reveal_strlit("S256");
        }
        Ok(ok)
    } else if crate::text::str_eq(method, "plain") {
        proof {
            reveal_strlit("S256");
            reveal_strlit("plain");
        }
        Ok(constant_time_compare(code_verifier, code_challenge))
    } else {
        let mut m = owned("Unknown PKCE method: ");
        push_str(&mut m, method);
        Err(CryptoError::HashError(m))
    }
}

/// The hash of a token: the unpadded URL-safe Base64 of the SHA-256 of
/// its bytes.
pub open spec fn spec_token_hash(token: &str) -> Seq<char> {
    b64url(sha256(token.spec_bytes()))
}

/// Hash a token using SHA-256: the unpadded URL-safe Base64 of the digest.
pub fn hash_token(token: &str) -> (r: String)
    ensures
        r@ == spec_token_hash(token),
{
    let digest = sha256_digest(token.as_bytes());
    base64url_encode(digest.as_slice())
}

/// The S256 challenge computed from a verifier verifies that verifier, and
/// a verifier verifies itself under "plain".
pub proof fn law_pkce_round_trip(code_verifier: &str, challenge: &str)
    requires
        challenge@ == spec_challenge(code_verifier),
    ensures
        spec_verify_pkce(code_verifier, challenge, "S256"@) == Ok::<bool, Seq<char>>(true),
        spec_verify_pkce(code_verifier, code_verifier, "plain"@) == Ok::<bool, Seq<char>>(true),
{
    reveal_strlit("S256");
    reveal_strlit("plain");
    assert(challenge.spec_bytes() == encode_utf8_chars(challenge@));
    assert("plain"@.len() == 5);
    assert("S256"@.len() == 4);
    assert("plain"@ != "S256"@);
}

} // verus!
