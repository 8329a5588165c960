//! JSON Web Keys (RFC 7517): key classification, algorithm compatibility,
//! key-set lookups and the rules of the JWKS cache.
use vstd::prelude::*;

use crate::text::{
    chars_of, has_prefix, is_digit, lower, lower_chars, matches_at, owned, push_str, slice_chars, str_eq,
};

verus! {

/// JWT signature algorithms.
#[derive(Debug, Clone, Copy, PartialEq, Eq, Structural, Hash)]
pub enum JwtAlgorithm {
    /// RSASSA-PKCS1-v1_5 with SHA-256
    RS256,
    /// RSASSA-PKCS1-v1_5 with SHA-384
    RS384,
    /// RSASSA-PKCS1-v1_5 with SHA-512
    RS512,
    /// ECDSA with P-256 and SHA-256
    ES256,
    /// ECDSA with P-384 and SHA-384
    ES384,
    /// HMAC with SHA-256
    HS256,
    /// HMAC with SHA-384
    HS384,
    /// HMAC with SHA-512
    HS512,
}

impl JwtAlgorithm {
    /// The JOSE name of the algorithm.
    pub open spec fn spec_name(self) -> Seq<char> {
        match self {
            JwtAlgorithm::RS256 => "RS256"@,
            JwtAlgorithm::RS384 => "RS384"@,
            JwtAlgorithm::RS512 => "RS512"@,
            JwtAlgorithm::ES256 => "ES256"@,
            JwtAlgorithm::ES384 => "ES384"@,
            JwtAlgorithm::HS256 => "HS256"@,
            JwtAlgorithm::HS384 => "HS384"@,
            JwtAlgorithm::HS512 => "HS512"@,
        }
    }

    /// The algorithm named `s`, if any.
    pub open spec fn spec_parse(s: Seq<char>) -> Option<JwtAlgorithm> {
        if s == "RS256"@ {
            Some(JwtAlgorithm::RS256)
        } else if s == "RS384"@ {
            Some(JwtAlgorithm::RS384)
        } else if s == "RS512"@ {
            Some(JwtAlgorithm::RS512)
        } else if s == "ES256"@ {
            Some(JwtAlgorithm::ES256)
        } else if s == "ES384"@ {
            Some(JwtAlgorithm::ES384)
        } else if s == "HS256"@ {
            Some(JwtAlgorithm::HS256)
        } else if s == "HS384"@ {
            Some(JwtAlgorithm::HS384)
        } else if s == "HS512"@ {
            Some(JwtAlgorithm::HS512)
        } else {
            None
        }
    }

    /// The JOSE name of the algorithm.
    pub fn as_str(&self) -> (r: &'static str)
        ensures
            r@ == self.spec_name(),
    {
        match self {
            JwtAlgorithm::RS256 => "RS256",
            JwtAlgorithm::RS384 => "RS384",
            JwtAlgorithm::RS512 => "RS512",
            JwtAlgorithm::ES256 => "ES256",
            JwtAlgorithm::ES384 => "ES384",
            JwtAlgorithm::HS256 => "HS256",
            JwtAlgorithm::HS384 => "HS384",
            JwtAlgorithm::HS512 => "HS512",
        }
    }

    /// Parse a JOSE algorithm name.
    pub fn parse(s: &str) -> (r: Option<JwtAlgorithm>)
        ensures
            r == Self::spec_parse(s@),
    {
        if str_eq(s, "RS256") {
            Some(JwtAlgorithm::RS256)
        } else if str_eq(s, "RS384") {
            Some(JwtAlgorithm::RS384)
        } else if str_eq(s, "RS512") {
            Some(JwtAlgorithm::RS512)
        } else if str_eq(s, "ES256") {
            Some(JwtAlgorithm::ES256)
        } else if str_eq(s, "ES384") {
            Some(JwtAlgorithm::ES384)
        } else if str_eq(s, "HS256") {
            Some(JwtAlgorithm::HS256)
        } else if str_eq(s, "HS384") {
            Some(JwtAlgorithm::HS384)
        } else if str_eq(s, "HS512") {
            Some(JwtAlgorithm::HS512)
        } else {
            None
        }
    }
}

/// Authentication errors.
#[derive(Debug, Clone, PartialEq, Eq)]
pub enum AuthError {
    /// The credential or key is malformed or unusable as presented.
    InvalidCredentialFormat(String),
    /// Key material could not be fetched.
    KeyFetchError(String),
    /// No key has the requested id.
    KeyNotFound(String),
    /// An internal failure.
    Internal(String),
}

impl AuthError {
    /// The message the error carries.
    pub open spec fn spec_message(self) -> Seq<char> {
        match self {
            AuthError::InvalidCredentialFormat(m) => m@,
            AuthError::KeyFetchError(m) => m@,
            AuthError::KeyNotFound(m) => m@,
            AuthError::Internal(m) => m@,
        }
    }

    /// The message the error carries, as text.
    pub fn to_string(&self) -> (r: String)
        ensures
            r@ == self.spec_message(),
    {
        match self {
            AuthError::InvalidCredentialFormat(m) => owned(m.as_str()),
            AuthError::KeyFetchError(m) => owned(m.as_str()),
            AuthError::KeyNotFound(m) => owned(m.as_str()),
            AuthError::Internal(m) => owned(m.as_str()),
        }
    }
}

/// Whether `o` is present and equal to `s`.
pub open spec fn opt_is(o: Option<String>, s: Seq<char>) -> bool {
    o matches Some(v) && v@ == s
}

fn opt_eq(o: &Option<String>, s: &str) -> (r: bool)
    ensures
        r == opt_is(*o, s@),
{
    match o {
        Some(v) => crate::text::str_eq(v.as_str(), s),
        None => false,
    }
}

fn clone_opt(o: &Option<String>) -> (r: Option<String>)
    ensures
        r == *o,
{
    match o {
        Some(v) => Some(v.clone()),
        None => None,
    }
}

/// A JSON Web Key (JWK) as defined in RFC 7517.
#[derive(Debug)]
pub struct Jwk {
    /// Key type (e.g., "RSA", "EC")
    pub kty: String,
    /// Key ID (used to match keys in JWKS)
    pub kid: Option<String>,
    /// Algorithm (e.g., "RS256", "ES256")
    pub alg: Option<String>,
    /// Key use (e.g., "sig" for signature)
    pub use_: Option<String>,
    /// RSA modulus (base64url encoded)
    pub n: Option<String>,
    /// RSA exponent (base64url encoded)
    pub e: Option<String>,
    /// EC curve (e.g., "P-256", "P-384")
    pub crv: Option<String>,
    /// EC x coordinate (base64url encoded)
    pub x: Option<String>,
    /// EC y coordinate (base64url encoded)
    pub y: Option<String>,
    /// Symmetric key value (base64url encoded, for HMAC)
    pub k: Option<String>,
}

impl Clone for Jwk {
    fn clone(&self) -> (r: Self)
        ensures
            r == *self,
    {
        Jwk {
            kty: self.kty.clone(),
            kid: clone_opt(&self.kid),
            alg: clone_opt(&self.alg),
            use_: clone_opt(&self.use_),
            n: clone_opt(&self.n),
            e: clone_opt(&self.e),
            crv: clone_opt(&self.crv),
            x: clone_opt(&self.x),
            y: clone_opt(&self.y),
            k: clone_opt(&self.k),
        }
    }
}

impl Jwk {
    /// An RSA key: type "RSA" with modulus and exponent.
    pub open spec fn spec_is_rsa(self) -> bool {
        self.kty@ == "RSA"@ && self.n.is_some() && self.e.is_some()
    }

    /// An EC key: type "EC" with curve and both coordinates.
    pub open spec fn spec_is_ec(self) -> bool {
        self.kty@ == "EC"@ && self.crv.is_some() && self.x.is_some() && self.y.is_some()
    }

    /// A symmetric (HMAC) key: type "oct" with key value.
    pub open spec fn spec_is_symmetric(self) -> bool {
        self.kty@ == "oct"@ && self.k.is_some()
    }

    /// A key usable for signatures: no `use`, or `use` "sig".
    pub open spec fn spec_is_signing_key(self) -> bool {
        self.use_.is_none() || opt_is(self.use_, "sig"@)
    }

    /// Which algorithms a key may serve.
    pub open spec fn spec_compatible(self, algorithm: JwtAlgorithm) -> bool {
        match algorithm {
            JwtAlgorithm::RS256 | JwtAlgorithm::RS384 | JwtAlgorithm::RS512 => self.spec_is_rsa(),
            JwtAlgorithm::ES256 => self.spec_is_ec() && opt_is(self.crv, "P-256"@),
            JwtAlgorithm::ES384 => self.spec_is_ec() && opt_is(self.crv, "P-384"@),
            JwtAlgorithm::HS256 | JwtAlgorithm::HS384 | JwtAlgorithm::HS512 => self.spec_is_symmetric(),
        }
    }

    /// How an incompatible key is described in the error.
    pub open spec fn spec_key_type(self) -> Seq<char> {
        if self.spec_is_rsa() {
            "RSA"@
        } else if self.spec_is_ec() {
            "EC ("@ + (match self.crv {
                Some(c) => c@,
                None => "unknown curve"@,
            }) + ")"@
        } else if self.spec_is_symmetric() {
            "symmetric (oct)"@
        } else {
            "unknown"@
        }
    }

    /// Get the algorithm this key declares.
    pub fn algorithm(&self) -> (r: Option<JwtAlgorithm>)
        ensures
            r == (match self.alg {
                Some(a) => JwtAlgorithm::spec_parse(a@),
                None => None,
            }),
    {
        match &self.alg {
            Some(a) => JwtAlgorithm::parse(a.as_str()),
            None => None,
        }
    }

    /// Check if this is an RSA key
    pub fn is_rsa(&self) -> (r: bool)
        ensures
            r == self.spec_is_rsa(),
    {
        crate::text::str_eq(self.kty.as_str(), "RSA") && self.n.is_some() && self.e.is_some()
    }

    /// Check if this is an EC key
    pub fn is_ec(&self) -> (r: bool)
        ensures
            r == self.spec_is_ec(),
    {
        crate::text::str_eq(self.kty.as_str(), "EC") && self.crv.is_some() && self.x.is_some()
            && self.y.is_some()
    }

    /// Check if this is a symmetric (HMAC) key
    pub fn is_symmetric(&self) -> (r: bool)
        ensures
            r == self.spec_is_symmetric(),
    {
        crate::text::str_eq(self.kty.as_str(), "oct") && self.k.is_some()
    }

    /// Check if this key can be used for signing/verification
    pub fn is_signing_key(&self) -> (r: bool)
        ensures
            r == self.spec_is_signing_key(),
    {
        self.use_.is_none() || opt_eq(&self.use_, "sig")
    }

    /// Whether the key type fits the algorithm: RSA keys only for RS*, EC
    /// keys on the matching curve only for ES*, symmetric keys only for HS*.
    /// This guards against algorithm confusion.
    pub fn is_compatible_with_algorithm(&self, algorithm: JwtAlgorithm) -> (r: bool)
        ensures
            r == self.spec_compatible(algorithm),
    {
        match algorithm {
            JwtAlgorithm::RS256 | JwtAlgorithm::RS384 | JwtAlgorithm::RS512 => self.is_rsa(),
            JwtAlgorithm::ES256 => self.is_ec() && opt_eq(&self.crv, "P-256"),
            JwtAlgorithm::ES384 => self.is_ec() && opt_eq(&self.crv, "P-384"),
            JwtAlgorithm::HS256 | JwtAlgorithm::HS384 | JwtAlgorithm::HS512 => self.is_symmetric(),
        }
    }

    /// Validate key-algorithm compatibility, naming both in the error.
    pub fn validate_algorithm_compatibility(&self, algorithm: JwtAlgorithm) -> (r: Result<
        (),
        AuthError,
    >)
        ensures
            r is Ok <==> self.spec_compatible(algorithm),
            r matches Err(AuthError::InvalidCredentialFormat(m)) ==> m@ == "Key type '"@
                + self.spec_key_type() + "' is not compatible with algorithm "@
                + algorithm.spec_name()
                + ". This may indicate an algorithm confusion attack."@,
            r is Err ==> r matches Err(AuthError::InvalidCredentialFormat(_)),
    {
        if self.is_compatible_with_algorithm(algorithm) {
            return Ok(());
        }
        let key_type = if self.is_rsa() {
            owned("RSA")
        } else if self.is_ec() {
            let mut t = owned("EC (");
            match &self.crv {
                Some(c) => push_str(&mut t, c.as_str()),
                None => push_str(&mut t, "unknown curve"),
            }
            push_str(&mut t, ")");
            t
        } else if self.is_symmetric() {
            owned("symmetric (oct)")
        } else {
            owned("unknown")
        };
        let mut m = owned("Key type '");
        push_str(&mut m, key_type.as_str());
        push_str(&mut m, "' is not compatible with algorithm ");
        push_str(&mut m, algorithm.as_str());
        push_str(&mut m, ". This may indicate an algorithm confusion attack.");
        Err(AuthError::InvalidCredentialFormat(m))
    }

    /// Refuse symmetric keys, which must never be published in a JWKS.
    pub fn validate_for_public_jwks(&self) -> (r: Result<(), AuthError>)
        ensures
            r is Ok <==> !self.spec_is_symmetric(),
            r is Err ==> (r matches Err(AuthError::InvalidCredentialFormat(m)) && m@
                == "Symmetric keys (kty: oct) must not appear in public JWKS endpoints. This would expose the shared secret and allow anyone to forge JWTs. Use asymmetric keys (RSA, EC) for public JWKS."@),
    {
        if self.is_symmetric() {
            return Err(
                AuthError::InvalidCredentialFormat(
                    owned(
                        "Symmetric keys (kty: oct) must not appear in public JWKS endpoints. This would expose the shared secret and allow anyone to forge JWTs. Use asymmetric keys (RSA, EC) for public JWKS.",
                    ),
                ),
            );
        }
        Ok(())
    }
}

/// A key serves no algorithm of another family: RSA keys never pass for HMAC
/// or ECDSA, symmetric keys never pass for RSA or ECDSA.
pub proof fn law_no_algorithm_confusion(key: Jwk, algorithm: JwtAlgorithm)
    ensures
        key.spec_compatible(algorithm) && key.spec_is_rsa() ==> (algorithm == JwtAlgorithm::RS256
            || algorithm == JwtAlgorithm::RS384 || algorithm == JwtAlgorithm::RS512),
        key.spec_compatible(algorithm) && key.spec_is_symmetric() ==> (algorithm
            == JwtAlgorithm::HS256 || algorithm == JwtAlgorithm::HS384 || algorithm
            == JwtAlgorithm::HS512),
        key.spec_compatible(algorithm) && key.spec_is_ec() ==> (algorithm == JwtAlgorithm::ES256
            || algorithm == JwtAlgorithm::ES384),
{
    reveal_strlit("RSA");
    reveal_strlit("EC");
    reveal_strlit("oct");
    assert("RSA"@ != "EC"@ && "RSA"@ != "oct"@ && "EC"@ != "oct"@) by {
        assert("RSA"@.len() == 3 && "EC"@.len() == 2 && "oct"@.len() == 3);
        assert("RSA"@[0] == 'R' && "oct"@[0] == 'o');
    }
}

/// A JSON Web Key Set (JWKS) as defined in RFC 7517.
#[derive(Debug)]
pub struct JwkSet {
    /// The keys in the set
    pub keys: Vec<Jwk>,
}

impl View for JwkSet {
    type V = Seq<Jwk>;

    open spec fn view(&self) -> Seq<Jwk> {
        self.keys@
    }
}

impl Clone for JwkSet {
    fn clone(&self) -> (r: Self)
        ensures
            r@ == self@,
    {
        let mut keys: Vec<Jwk> = Vec::new();
        let mut i: usize = 0;
        while i < self.keys.len()
            invariant
                i <= self.keys@.len(),
                keys@ == self.keys@.subrange(0, i as int),
            decreases self.keys.len() - i,
        {
            keys.push(self.keys[i].clone());
            i = i + 1;
            assert(keys@ =~= self.keys@.subrange(0, i as int));
        }
        assert(keys@ =~= self.keys@);
        JwkSet { keys }
    }
}

/// Index of the first key satisfying `p`, or the length when there is none.
pub open spec fn first_index(s: Seq<Jwk>, p: spec_fn(Jwk) -> bool) -> int
    decreases s.len(),
{
    if s.len() == 0 {
        0
    } else if p(s[0]) {
        0
    } else {
        1 + first_index(s.drop_first(), p)
    }
}

/// `first_index` is pinned by the first position satisfying `p`.
pub proof fn lemma_first_index_at(s: Seq<Jwk>, p: spec_fn(Jwk) -> bool, k: int)
    requires
        0 <= k <= s.len(),
        forall|j: int| 0 <= j < k ==> !p(#[trigger] s[j]),
        k < s.len() ==> p(s[k]),
    ensures
        first_index(s, p) == k,
    decreases k,
{
    if k > 0 {
        let t = s.drop_first();
        assert forall|j: int| 0 <= j < k - 1 implies !p(#[trigger] t[j]) by {
            assert(t[j] == s[j + 1]);
        }
        lemma_first_index_at(t, p, k - 1);
    }
}

/// The first key of `s` satisfying `p`, if any.
pub open spec fn first_where(s: Seq<Jwk>, p: spec_fn(Jwk) -> bool) -> Option<Jwk> {
    if first_index(s, p) < s.len() {
        Some(s[first_index(s, p)])
    } else {
        None
    }
}

/// `first_where` picks the key at the first position that satisfies `p`,
/// and finds none only when no key does.
pub proof fn lemma_first_where(s: Seq<Jwk>, p: spec_fn(Jwk) -> bool)
    ensures
        0 <= first_index(s, p) <= s.len(),
        match first_where(s, p) {
            Some(k) => exists|i: int|
                0 <= i < s.len() && s[i] == k && p(s[i]) && forall|j: int|
                    0 <= j < i ==> !p(#[trigger] s[j]),
            None => forall|j: int| 0 <= j < s.len() ==> !p(#[trigger] s[j]),
        },
    decreases s.len(),
{
    if s.len() > 0 {
        let t = s.drop_first();
        lemma_first_where(t, p);
        if p(s[0]) {
            assert(first_index(s, p) == 0);
            assert(first_where(s, p) == Some(s[0]));
            assert(0 <= 0 < s.len() && s[0] == s[0] && p(s[0]) && forall|j: int|
                0 <= j < 0 ==> !p(#[trigger] s[j]));
        } else {
            assert(first_index(s, p) == 1 + first_index(t, p));
            if first_index(t, p) < t.len() {
                assert(s[first_index(s, p)] == t[first_index(t, p)]);
            }
            match first_where(t, p) {
                Some(k) => {
                    let i = choose|i: int|
                        0 <= i < t.len() && t[i] == k && p(t[i]) && forall|j: int|
                            0 <= j < i ==> !p(#[trigger] t[j]);
                    assert(s[i + 1] == t[i]);
                    assert forall|j: int| 0 <= j < i + 1 implies !p(#[trigger] s[j]) by {
                        if j > 0 {
                            assert(s[j] == t[j - 1]);
                        }
                    }
                    assert(first_where(s, p) == Some(k));
                    assert(0 <= i + 1 < s.len() && s[i + 1] == k && p(s[i + 1]));
                },
                None => {
                    assert forall|j: int| 0 <= j < s.len() implies !p(#[trigger] s[j]) by {
                        if j > 0 {
                            assert(s[j] == t[j - 1]);
                        }
                    }
                },
            }
        }
    }
}

/// The lookup by algorithm gives the first key of the set that declares
/// exactly that algorithm in `alg` and may sign (no `use`, or `use`
/// "sig"). A key that declares no algorithm, or another one, is passed
/// over; there is no answer only when no key qualifies.
pub proof fn law_lookup_by_algorithm_declares_it(keys: Seq<Jwk>, alg: JwtAlgorithm)
    ensures
        match first_where(keys, signs_with(alg)) {
            Some(k) => exists|i: int|
                0 <= i < keys.len() && keys[i] == k && (k.alg matches Some(a) && a@
                    == alg.spec_name()) && (k.use_ is None || (k.use_ matches Some(u) && u@
                    == "sig"@)) && forall|j: int|
                    0 <= j < i ==> !((#[trigger] keys[j]).alg matches Some(a) && a@
                        == alg.spec_name() && (keys[j].use_ is None || (keys[j].use_ matches Some(
                        u,
                    ) && u@ == "sig"@))),
            None => forall|j: int|
                0 <= j < keys.len() ==> !((#[trigger] keys[j]).alg matches Some(a) && a@
                    == alg.spec_name() && (keys[j].use_ is None || (keys[j].use_ matches Some(u)
                    && u@ == "sig"@))),
        },
{
    let p = signs_with(alg);
    lemma_first_where(keys, p);
    match first_where(keys, p) {
        Some(k) => {
            let i = choose|i: int|
                0 <= i < keys.len() && keys[i] == k && p(keys[i]) && forall|j: int|
                    0 <= j < i ==> !p(#[trigger] keys[j]);
            assert forall|j: int| 0 <= j < i implies !((#[trigger] keys[j]).alg matches Some(a) && a@
                == alg.spec_name() && (keys[j].use_ is None || (keys[j].use_ matches Some(u) && u@
                == "sig"@))) by {
                assert(!p(keys[j]));
            }
            assert(p(keys[i]));
        },
        None => {
            assert forall|j: int| 0 <= j < keys.len() implies !((#[trigger] keys[j]).alg matches Some(
                a,
            ) && a@ == alg.spec_name() && (keys[j].use_ is None || (keys[j].use_ matches Some(u)
                && u@ == "sig"@))) by {
                assert(!p(keys[j]));
            }
        },
    }
}

/// Keys with id `kid`.
pub open spec fn has_kid(kid: Seq<char>) -> spec_fn(Jwk) -> bool {
    |k: Jwk| opt_is(k.kid, kid)
}

/// Signing keys declaring algorithm `alg`.
pub open spec fn signs_with(alg: JwtAlgorithm) -> spec_fn(Jwk) -> bool {
    |k: Jwk| opt_is(k.alg, alg.spec_name()) && k.spec_is_signing_key()
}

/// Signing keys.
pub open spec fn is_signing() -> spec_fn(Jwk) -> bool {
    |k: Jwk| k.spec_is_signing_key()
}

/// Keys fit for a public JWKS: the asymmetric ones.
pub open spec fn is_public() -> spec_fn(Jwk) -> bool {
    |k: Jwk| !k.spec_is_symmetric()
}

fn opt_ref<'a>(s: &'a Vec<Jwk>, k: usize) -> (r: Option<&'a Jwk>)
    ensures
        k < s@.len() ==> r == Some(&s@[k as int]),
        k >= s@.len() ==> r is None,
{
    if k < s.len() {
        Some(&s[k])
    } else {
        None
    }
}

impl JwkSet {
    /// Find the first key with id `kid`.
    pub fn find_by_kid(&self, kid: &str) -> (r: Option<&Jwk>)
        ensures
            r == (match first_where(self.keys@, has_kid(kid@)) {
                Some(k) => Some(&k),
                None => None::<&Jwk>,
            }),
    {
        let ghost p = has_kid(kid@);
        let mut i: usize = 0;
        while i < self.keys.len() && !opt_eq(&self.keys[i].kid, kid)
            invariant
                i <= self.keys@.len(),
                p == has_kid(kid@),
                forall|j: int| 0 <= j < i ==> !p(#[trigger] self.keys@[j]),
            decreases self.keys.len() - i,
        {
            i = i + 1;
        }
        proof {
            lemma_first_index_at(self.keys@, p, i as int);
        }
        opt_ref(&self.keys, i)
    }

    /// Find the first signing key declaring algorithm `alg`.
    pub fn find_by_algorithm(&self, alg: JwtAlgorithm) -> (r: Option<&Jwk>)
        ensures
            r == (match first_where(self.keys@, signs_with(alg)) {
                Some(k) => Some(&k),
                None => None::<&Jwk>,
            }),
    {
        let ghost p = signs_with(alg);
        let name = alg.as_str();
        let mut i: usize = 0;
        while i < self.keys.len() && !(opt_eq(&self.keys[i].alg, name)
            && self.keys[i].is_signing_key())
            invariant
                i <= self.keys@.len(),
                name@ == alg.spec_name(),
                p == signs_with(alg),
                forall|j: int| 0 <= j < i ==> !p(#[trigger] self.keys@[j]),
            decreases self.keys.len() - i,
        {
            i = i + 1;
        }
        proof {
            lemma_first_index_at(self.keys@, p, i as int);
        }
        opt_ref(&self.keys, i)
    }

    /// Get the first signing key.
    pub fn first_signing_key(&self) -> (r: Option<&Jwk>)
        ensures
            r == (match first_where(self.keys@, is_signing()) {
                Some(k) => Some(&k),
                None => None::<&Jwk>,
            }),
    {
        let ghost p = is_signing();
        let mut i: usize = 0;
        while i < self.keys.len() && !self.keys[i].is_signing_key()
            invariant
                i <= self.keys@.len(),
                p == is_signing(),
                forall|j: int| 0 <= j < i ==> !p(#[trigger] self.keys@[j]),
            decreases self.keys.len() - i,
        {
            i = i + 1;
        }
        proof {
            lemma_first_index_at(self.keys@, p, i as int);
        }
        opt_ref(&self.keys, i)
    }

    /// Drop every symmetric key, keeping the others in order.
    pub fn filter_for_public_jwks(self) -> (r: Self)
        ensures
            r.keys@ == self.keys@.filter(is_public()),
    {
        let ghost p = is_public();
        let ghost all = self.keys@;
        let mut keys: Vec<Jwk> = Vec::new();
        let mut src = self.keys;
        let mut rest: Vec<Jwk> = Vec::new();
        // Take keys from the back, so they come out in reverse; then restore the order.
        while src.len() > 0
            invariant
                p == is_public(),
                all == src@ + rest@.reverse(),
                rest@.reverse().filter(p) == keys@.reverse(),
            decreases src.len(),
        {
            let k = src.pop().unwrap();
            let ghost before_src = src@;
            proof {
                assert(rest@.push(k).reverse() =~= seq![k] + rest@.reverse());
            }
            if k.validate_for_public_jwks().is_ok() {
                keys.push(k.clone());
            }
            rest.push(k);
            proof {
                lemma_filter_prepend(rest@.drop_last().reverse(), k, p);
                assert(rest@.drop_last() =~= rest@.subrange(0, rest@.len() - 1));
                assert(rest@.reverse() =~= seq![k] + rest@.drop_last().reverse());
                if p(k) {
                    assert(keys@.reverse() =~= seq![k] + keys@.drop_last().reverse());
                }
            }
        }
        assert(rest@.reverse() =~= all);
        let mut out: Vec<Jwk> = Vec::new();
        while keys.len() > 0
            invariant
                out@ + keys@.reverse() == all.filter(p),
            decreases keys.len(),
        {
            let k = keys.pop().unwrap();
            let ghost kb = keys@;
            out.push(k);
            proof {
                assert(kb.push(k).reverse() =~= seq![k] + kb.reverse());
                assert(out@ + keys@.reverse() =~= out@.drop_last() + (seq![k] + kb.reverse()));
            }
        }
        assert(out@ =~= out@ + keys@.reverse());
        JwkSet { keys: out }
    }
}

/// Filtering a sequence with one key in front of it.
proof fn lemma_filter_prepend(s: Seq<Jwk>, k: Jwk, p: spec_fn(Jwk) -> bool)
    ensures
        (seq![k] + s).filter(p) == if p(k) {
            seq![k] + s.filter(p)
        } else {
            s.filter(p)
        },
{
    broadcast use vstd::seq_lib::group_filter_ensures;
    Seq::filter_distributes_over_add(seq![k], s, p);
    reveal_with_fuel(Seq::filter, 2);
    assert(seq![k].drop_last() =~= Seq::<Jwk>::empty());
}

/// After filtering, no symmetric key is left, and every asymmetric key of
/// the set still is.
pub proof fn law_public_jwks_hold_no_secret(keys: Seq<Jwk>)
    ensures
        forall|i: int|
            0 <= i < keys.filter(is_public()).len() ==> !(#[trigger] keys.filter(
                is_public(),
            )[i]).spec_is_symmetric(),
        forall|i: int|
            0 <= i < keys.len() && !keys[i].spec_is_symmetric() ==> keys.filter(
                is_public(),
            ).contains(#[trigger] keys[i]),
{
    assert forall|i: int| 0 <= i < keys.filter(is_public()).len() implies !(#[trigger] keys.filter(
        is_public(),
    )[i]).spec_is_symmetric() by {
        keys.lemma_filter_pred(is_public(), i);
    }
    assert forall|i: int| 0 <= i < keys.len() && !keys[i].spec_is_symmetric() implies keys.filter(
        is_public(),
    ).contains(#[trigger] keys[i]) by {
        keys.lemma_filter_contains(is_public(), i);
    }
}

/// Hard upper bound on the age of a cached key set: 6 hours, whatever the
/// configured TTL.
pub const MAX_CACHE_AGE_MS: u64 = 21_600_000;

/// The cache a key set is kept in, and the rules it is fetched by.
///
/// Times are milliseconds of the wall clock (the JS `Date.now()`), handed in
/// by the caller.
#[derive(Debug, Clone)]
pub struct JwksCache {
    /// JWKS endpoint URL
    pub url: String,
    /// Cache TTL in milliseconds (default: 1 hour; never more than 6 hours
    /// take effect)
    pub ttl_ms: u64,
    /// The key set last fetched, and when
    pub cached: Option<(JwkSet, u64)>,
    /// Maximum retry attempts for transient failures
    pub max_retries: u32,
    /// Base delay in milliseconds for exponential backoff
    pub retry_base_delay_ms: u64,
    /// Allow insecure HTTP URLs (NOT recommended for production)
    pub allow_insecure: bool,
}

/// `2^n`.
pub open spec fn pow2(n: nat) -> nat
    decreases n,
{
    if n == 0 {
        1
    } else {
        2 * pow2((n - 1) as nat)
    }
}

/// How a failed fetch of the key set is treated.
#[derive(Debug, Clone, Copy, PartialEq, Eq, Structural)]
pub enum FetchFailure {
    /// Worth retrying: network failures and 5xx answers.
    Transient,
    /// Not worth retrying: 4xx answers, bad URLs, bad bodies.
    Permanent,
}

/// Whether a URL's authority ends at `c`: `/`, `?` or `#`.
pub open spec fn ends_authority(c: char) -> bool {
    c == '/' || c == '?' || c == '#'
}

/// Where the authority that starts at `i` of the URL text `s` ends: the
/// first `/`, `?` or `#` from `i` on, or the end of the text.
pub open spec fn authority_end(s: Seq<char>, i: int) -> int
    decreases s.len() - i,
{
    if i < 0 || i >= s.len() || ends_authority(s[i]) {
        i
    } else {
        authority_end(s, i + 1)
    }
}

/// Whether the authority `a` is host `h` alone or with a port: `h`, then
/// nothing or `:` and digits.
pub open spec fn host_with_port(a: Seq<char>, h: Seq<char>) -> bool {
    &&& has_prefix(a, h)
    &&& (a.len() == h.len() || (a[h.len() as int] == ':' && forall|k: int|
        h.len() + 1 <= k < a.len() ==> is_digit(#[trigger] a[k])))
}

/// Whether the authority `a` names a loopback host: `localhost`,
/// `127.0.0.1` or `[::1]`, with or without a port. Userinfo (`…@`) or a
/// longer name (`localhost.evil.com`) is not loopback.
pub open spec fn loopback_authority(a: Seq<char>) -> bool {
    host_with_port(a, "localhost"@) || host_with_port(a, "127.0.0.1"@) || host_with_port(
        a,
        "[::1]"@,
    )
}

/// Whether the authority `a` is `h` alone or with a port.
fn host_with_port_exec(a: &Vec<char>, h: &str) -> (r: bool)
    ensures
        r == host_with_port(a@, h@),
{
    let hv = chars_of(h);
    if !matches_at(a, 0, &hv) {
        assert(!has_prefix(a@, h@)) by {
            if has_prefix(a@, h@) {
                assert(a@.subrange(0, hv@.len() as int) =~= hv@);
            }
        }
        return false;
    }
    assert(has_prefix(a@, h@));
    if a.len() == hv.len() {
        return true;
    }
    if a[hv.len()] != ':' {
        return false;
    }
    let mut k: usize = hv.len() + 1;
    while k < a.len()
        invariant
            hv@ == h@,
            hv.len() + 1 <= k <= a@.len(),
            forall|j: int| hv.len() + 1 <= j < k ==> is_digit(#[trigger] a@[j]),
        decreases a.len() - k,
    {
        let c = a[k];
        if !('0' <= c && c <= '9') {
            assert(!is_digit(a@[k as int]));
            return false;
        }
        k = k + 1;
    }
    true
}

impl JwksCache {
    /// The TTL that takes effect: the configured one, capped at 6 hours.
    pub open spec fn spec_effective_ttl(self) -> int {
        if self.ttl_ms < MAX_CACHE_AGE_MS {
            self.ttl_ms as int
        } else {
            MAX_CACHE_AGE_MS as int
        }
    }

    /// Whether a set fetched at `fetched_at` is still served at `now`.
    pub open spec fn spec_fresh(self, fetched_at: u64, now: u64) -> bool {
        now - fetched_at < self.spec_effective_ttl()
    }

    /// Whether `url` may be fetched: once insecure HTTP is allowed, any
    /// URL; otherwise one whose text (ASCII case ignored) starts with
    /// `https://`, or starts with `http://` and whose authority (up to the
    /// first `/`, `?` or `#`) names a loopback host: `localhost`,
    /// `127.0.0.1` or `[::1]`, alone or with a port. A name that merely
    /// starts like one, such as `localhost.evil.com`, or userinfo such as
    /// `localhost@evil.com`, is not loopback.
    pub open spec fn spec_url_ok(url: Seq<char>, allow_insecure: bool) -> bool {
        let u = lower(url);
        ||| allow_insecure
        ||| has_prefix(u, "https://"@)
        ||| (has_prefix(u, "http://"@) && loopback_authority(u.subrange(7, authority_end(u, 7))))
    }

    /// Create a new JWKS cache for the given URL: 1 hour TTL, 3 retries from
    /// a 100 ms base delay, HTTPS only.
    pub fn new(url: &str) -> (r: Self)
        ensures
            r.url@ == url@,
            r.ttl_ms == 3_600_000,
            r.cached.is_none(),
            r.max_retries == 3,
            r.retry_base_delay_ms == 100,
            !r.allow_insecure,
    {
        JwksCache {
            url: owned(url),
            ttl_ms: 3_600_000,
            cached: None,
            max_retries: 3,
            retry_base_delay_ms: 100,
            allow_insecure: false,
        }
    }

    /// Allow insecure HTTP URLs for JWKS fetching (development only).
    pub fn allow_insecure_http(self) -> (r: Self)
        ensures
            r == (JwksCache { allow_insecure: true, ..self }),
    {
        let mut s = self;
        s.allow_insecure = true;
        s
    }

    /// Validate that the URL uses HTTPS (unless insecure mode is enabled or
    /// the host is loopback).
    ///
    /// Only ASCII letters are lower-cased: the patterns hold no letter that
    /// a non-ASCII character lower-cases to, so the answer is that of full
    /// Unicode lower-casing.
    pub fn validate_url(&self) -> (r: Result<(), AuthError>)
        ensures
            r is Ok <==> Self::spec_url_ok(self.url@, self.allow_insecure),
            r is Err ==> (r matches Err(AuthError::KeyFetchError(m)) && m@
                == "JWKS URL must use HTTPS to prevent man-in-the-middle attacks. Use allow_insecure_http() only for local development."@),
    {
        if self.allow_insecure {
            return Ok(());
        }
        let u = lower_chars(&chars_of(self.url.as_str()));
        let https = matches_at(&u, 0, &chars_of("https://"));
        let http = matches_at(&u, 0, &chars_of("http://"));
        proof {
            reveal_strlit("https://");
            reveal_strlit("http://");
            assert(https == has_prefix(u@, "https://"@));
            assert(http == has_prefix(u@, "http://"@));
        }
        let ok = if https {
            true
        } else if http {
            let mut e: usize = 7;
            while e < u.len() && !(u[e] == '/' || u[e] == '?' || u[e] == '#')
                invariant
                    7 <= e <= u@.len(),
                    authority_end(u@, 7) == authority_end(u@, e as int),
                decreases u.len() - e,
            {
                e = e + 1;
            }
            let a = slice_chars(&u, 7, e);
            host_with_port_exec(&a, "localhost") || host_with_port_exec(&a, "127.0.0.1")
                || host_with_port_exec(&a, "[::1]")
        } else {
            false
        };
        if !ok {
            return Err(
                AuthError::KeyFetchError(
                    owned(
                        "JWKS URL must use HTTPS to prevent man-in-the-middle attacks. Use allow_insecure_http() only for local development.",
                    ),
                ),
            );
        }
        Ok(())
    }

    /// Set the cache TTL in seconds.
    pub fn with_ttl_seconds(self, seconds: u64) -> (r: Self)
        ensures
            r == (JwksCache {
                ttl_ms: if seconds * 1000 <= u64::MAX {
                    (seconds * 1000) as u64
                } else {
                    u64::MAX
                },
                ..self
            }),
    {
        let mut s = self;
        s.ttl_ms = sat_mul(seconds, 1000);
        s
    }

    /// Configure retry behavior for transient failures.
    pub fn with_retry_config(self, max_retries: u32, base_delay_ms: u64) -> (r: Self)
        ensures
            r == (JwksCache { max_retries, retry_base_delay_ms: base_delay_ms, ..self }),
    {
        let mut s = self;
        s.max_retries = max_retries;
        s.retry_base_delay_ms = base_delay_ms;
        s
    }

    /// The cached key set, if one is held and still fresh at `now`.
    pub fn cached_jwks(&self, now: u64) -> (r: Option<JwkSet>)
        ensures
            match self.cached {
                Some((set, at)) => if self.spec_fresh(at, now) {
                    r matches Some(s) && s@ == set@
                } else {
                    r is None
                },
                None => r is None,
            },
    {
        match &self.cached {
            Some((set, at)) => {
                let ttl = if self.ttl_ms < MAX_CACHE_AGE_MS {
                    self.ttl_ms
                } else {
                    MAX_CACHE_AGE_MS
                };
                if now < *at || now - *at < ttl {
                    Some(set.clone())
                } else {
                    None
                }
            },
            None => None,
        }
    }

    /// Remember `jwks`, fetched at `now`.
    pub fn store(&mut self, jwks: JwkSet, now: u64)
        ensures
            *final(self) == (JwksCache { cached: Some((jwks, now)), ..*old(self) }),
    {
        self.cached = Some((jwks, now));
    }

    /// Clear the cache.
    pub fn clear(&mut self)
        ensures
            *final(self) == (JwksCache { cached: None, ..*old(self) }),
    {
        self.cached = None;
    }

    /// Find a key by id in the cached set, if one is fresh at `now`.
    pub fn find_cached_key(&self, kid: &str, now: u64) -> (r: Option<Result<Jwk, AuthError>>)
        ensures
            match self.cached {
                Some((set, at)) => if self.spec_fresh(at, now) {
                    match first_where(set.keys@, has_kid(kid@)) {
                        Some(k) => r == Some(Ok::<Jwk, AuthError>(k)),
                        None => r matches Some(Err(AuthError::KeyNotFound(m))) && m@ == kid@,
                    }
                } else {
                    r is None
                },
                None => r is None,
            },
    {
        match self.cached_jwks(now) {
            Some(set) => match set.find_by_kid(kid) {
                Some(k) => Some(Ok(k.clone())),
                None => Some(Err(AuthError::KeyNotFound(owned(kid)))),
            },
            None => None,
        }
    }

    /// The wait before the attempt after `attempt` (from 0):
    /// `base * 2^attempt` ms, saturating, or `None` when the retries are
    /// used up.
    pub open spec fn spec_retry_delay(self, attempt: u32) -> Option<u64> {
        if attempt >= self.max_retries {
            None
        } else if self.retry_base_delay_ms * pow2(attempt as nat) <= u64::MAX {
            Some((self.retry_base_delay_ms * pow2(attempt as nat)) as u64)
        } else {
            Some(u64::MAX)
        }
    }

    /// Whether a failed fetch answered with HTTP `status` is worth retrying:
    /// server errors are, client errors are not.
    pub fn classify_status(status: u16) -> (r: FetchFailure)
        ensures
            r == (if status >= 500 {
                FetchFailure::Transient
            } else {
                FetchFailure::Permanent
            }),
    {
        if status >= 500 {
            FetchFailure::Transient
        } else {
            FetchFailure::Permanent
        }
    }

    /// Check the status of the key set endpoint's answer: `200..300` lets
    /// the body be read; any other fails the fetch with the generic fetch
    /// error (the status is not disclosed), transient for a server error
    /// and permanent otherwise.
    pub fn check_fetch_status(status: u16) -> (r: Result<(), (FetchFailure, AuthError)>)
        ensures
            200 <= status < 300 ==> r is Ok,
            !(200 <= status < 300) ==> (r matches Err((f, AuthError::KeyFetchError(m))) && f == (
            if status >= 500 {
                FetchFailure::Transient
            } else {
                FetchFailure::Permanent
            }) && m@ == "Failed to fetch JWKS from authorization server"@),
    {
        if 200 <= status && status < 300 {
            Ok(())
        } else {
            Err(
                (
                    Self::classify_status(status),
                    AuthError::KeyFetchError(owned("Failed to fetch JWKS from authorization server")),
                ),
            )
        }
    }

    /// After attempt `attempt` (from 0) failed transiently: how long to wait
    /// before the next one, `base * 2^attempt` ms (saturating), or `None`
    /// when the retries are used up.
    pub fn retry_delay_ms(&self, attempt: u32) -> (r: Option<u64>)
        ensures
            r == self.spec_retry_delay(attempt),
    {
        if attempt >= self.max_retries {
            return None;
        }
        let mut d: u64 = self.retry_base_delay_ms;
        let mut i: u32 = 0;
        let ghost base = self.retry_base_delay_ms as int;
        assert(pow2(0) == 1);
        assert(base * pow2(0) == base);
        while i < attempt
            invariant
                i <= attempt,
                base == self.retry_base_delay_ms,
                d == (if base * pow2(i as nat) <= u64::MAX {
                    base * pow2(i as nat)
                } else {
                    u64::MAX as int
                }),
            decreases attempt - i,
        {
            proof {
                lemma_pow2_pos(i as nat);
                assert(pow2((i + 1) as nat) == 2 * pow2(i as nat));
                assert(base * pow2((i + 1) as nat) == 2 * (base * pow2(i as nat))) by (nonlinear_arith)
                    requires pow2((i + 1) as nat) == 2 * pow2(i as nat);
                assert(base * pow2(i as nat) >= 0) by (nonlinear_arith)
                    requires base >= 0, pow2(i as nat) >= 1;
            }
            d = sat_mul(d, 2);
            i = i + 1;
        }
        Some(d)
    }
}

/// What the fetch loop does after a failed attempt.
#[derive(Debug)]
pub enum FetchNext {
    /// Wait this many milliseconds, then try again.
    RetryAfter(u64),
    /// Stop, failing with this error.
    GiveUp(AuthError),
}

impl JwksCache {
    /// After attempt `attempt` (from 0) failed with `error`: a permanent
    /// failure ends the fetch with its error at once; a transient one is
    /// retried after `base * 2^attempt` ms while retries remain, and ends
    /// the fetch with this last error once they are used up.
    pub fn after_failed_fetch(&self, attempt: u32, failure: FetchFailure, error: AuthError) -> (r:
        FetchNext)
        ensures
            failure == FetchFailure::Permanent ==> r == FetchNext::GiveUp(error),
            failure == FetchFailure::Transient ==> match self.spec_retry_delay(attempt) {
                Some(d) => r == FetchNext::RetryAfter(d),
                None => r == FetchNext::GiveUp(error),
            },
    {
        match failure {
            FetchFailure::Permanent => FetchNext::GiveUp(error),
            FetchFailure::Transient => match self.retry_delay_ms(attempt) {
                Some(d) => FetchNext::RetryAfter(d),
                None => FetchNext::GiveUp(error),
            },
        }
    }
}

/// `a * b`, or `u64::MAX` when that does not fit.
pub fn sat_mul(a: u64, b: u64) -> (r: u64)
    ensures
        r == (if a * b <= u64::MAX {
            a * b
        } else {
            u64::MAX as int
        }),
{
    match a.checked_mul(b) {
        Some(v) => v,
        None => u64::MAX,
    }
}

proof fn lemma_pow2_pos(n: nat)
    ensures
        pow2(n) >= 1,
    decreases n,
{
    if n > 0 {
        lemma_pow2_pos((n - 1) as nat);
    }
}

/// A key set stored at `at` is served exactly while it is younger than the
/// effective TTL, which is never longer than 6 hours.
pub proof fn law_cache_never_serves_stale_keys(c: JwksCache, at: u64, now: u64)
    ensures
        c.spec_fresh(at, now) ==> now - at < MAX_CACHE_AGE_MS,
        c.spec_fresh(at, now) ==> now - at < c.ttl_ms,
        now >= at && now - at < c.ttl_ms && now - at < MAX_CACHE_AGE_MS ==> c.spec_fresh(at, now),
{
}

} // verus!
