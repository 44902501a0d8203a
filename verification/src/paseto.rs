//! Signing keys and the signing of token payloads as PASETO `v4.public`
//! tokens.

use vstd::prelude::*;
use vstd::string::StringExecFns;
use crate::error::{is_text_result, Error};

verus! {

/// Where the keys are kept unless a path is given.
pub const DEFAULT_PATH: &'static str = "paseto_keys.json";

/// How long a token lives unless a time is given: one day, in seconds.
pub const DEFAULT_TTL: i64 = 86400;

/// The number of bytes of a signing key: the seed, then the public key.
pub const SECRET_LEN: usize = 64;

/// The number of bytes of a verification key.
pub const PUBLIC_LEN: usize = 32;

/// The `v4.public` token that signs `payload` with the key pair `secret`;
/// `None` where the bytes are no key pair.
pub uninterp spec fn paseto_signed(payload: Seq<char>, secret: Seq<u8>) -> Option<Seq<char>>;

/// The payload of `token`, where `token` is a `v4.public` token without
/// footer whose signature the key `public` validates; `None` otherwise.
pub uninterp spec fn paseto_payload(token: Seq<char>, public: Seq<u8>) -> Option<Seq<char>>;

/// `Paseto::<V4, Public>::try_sign` on a builder that holds the payload and
/// no footer, with the private key that `PasetoAsymmetricPrivateKey::try_from`
/// makes of the bytes. Ed25519 signs without chance, so the token is a
/// function of the payload and the key; no failure is told from another.
#[verifier::external_body]
fn v4_sign(payload: &str, secret: &[u8]) -> (out: Option<String>)
    ensures
        match out {
            Some(t) => paseto_signed(payload@, secret@) == Some(t@),
            None => paseto_signed(payload@, secret@) is None,
        },
{
    let key = rusty_paseto::core::PasetoAsymmetricPrivateKey::<
        rusty_paseto::core::V4,
        rusty_paseto::core::Public,
    >::try_from(secret).ok()?;
    rusty_paseto::core::Paseto::<rusty_paseto::core::V4, rusty_paseto::core::Public>::builder()
        .set_payload(rusty_paseto::core::Payload::from(payload))
        .try_sign(&key)
        .ok()
}

/// `Paseto::<V4, Public>::try_verify` without footer and implicit assertion,
/// with the public key that `Key::<32>::try_from` makes of the bytes. The
/// payload comes back only where the signature validates; no failure is told
/// from another.
#[verifier::external_body]
fn v4_verify(token: &str, public: &[u8]) -> (out: Option<String>)
    ensures
        match out {
            Some(p) => paseto_payload(token@, public@) == Some(p@),
            None => paseto_payload(token@, public@) is None,
        },
{
    let key = rusty_paseto::core::Key::<32>::try_from(public).ok()?;
    let key = rusty_paseto::core::PasetoAsymmetricPublicKey::<
        rusty_paseto::core::V4,
        rusty_paseto::core::Public,
    >::from(&key);
    rusty_paseto::core::Paseto::<rusty_paseto::core::V4, rusty_paseto::core::Public>::try_verify(
        token,
        &key,
        None,
        None,
    ).ok()
}

/// Whether `public` is the verification key that the signing key `secret`
/// carries in its second half.
pub open spec fn is_key_pair(secret: Seq<u8>, public: Seq<u8>) -> bool {
    &&& secret.len() == SECRET_LEN
    &&& public.len() == PUBLIC_LEN
    &&& secret.subrange(PUBLIC_LEN as int, SECRET_LEN as int) == public
}

/// A signing key and its verification key.
#[derive(Debug, PartialEq, Eq)]
pub struct PasetoKeys {
    secret: Vec<u8>,
    public: Vec<u8>,
}

/// A copy of a list of bytes.
pub fn clone_bytes(bytes: &Vec<u8>) -> (out: Vec<u8>)
    ensures
        out@ == bytes@,
{
    let mut out: Vec<u8> = Vec::new();
    let mut i: usize = 0;
    while i < bytes.len()
        invariant
            i <= bytes.len(),
            out@ == bytes@.take(i as int),
        decreases bytes.len() - i,
    {
        out.push(bytes[i]);
        i += 1;
    }
    assert(bytes@.take(bytes.len() as int) == bytes@);
    out
}

impl Clone for PasetoKeys {
    fn clone(&self) -> (out: PasetoKeys)
        ensures
            out.secret_bytes() == self.secret_bytes(),
            out.public_bytes() == self.public_bytes(),
    {
        proof {
            use_type_invariant(self);
        }
        PasetoKeys { secret: clone_bytes(&self.secret), public: clone_bytes(&self.public) }
    }
}

impl PasetoKeys {
    /// The keys belong together.
    #[verifier::type_invariant]
    pub closed spec fn wf(self) -> bool {
        is_key_pair(self.secret@, self.public@)
    }

    /// The bytes of the signing key.
    pub closed spec fn secret_bytes(self) -> Seq<u8> {
        self.secret@
    }

    /// The bytes of the verification key.
    pub closed spec fn public_bytes(self) -> Seq<u8> {
        self.public@
    }

    /// The key set of a signing key of 64 bytes and the verification key of
    /// 32 bytes that is its second half; `None` for other bytes.
    pub fn from_bytes(secret: Vec<u8>, public: Vec<u8>) -> (out: Option<PasetoKeys>)
        ensures
            out is Some <==> is_key_pair(secret@, public@),
            out matches Some(keys) ==> keys.secret_bytes() == secret@ && keys.public_bytes()
                == public@ && keys.wf(),
    {
        if secret.len() != SECRET_LEN || public.len() != PUBLIC_LEN {
            return None;
        }
        let mut i: usize = 0;
        while i < PUBLIC_LEN
            invariant
                i <= PUBLIC_LEN,
                secret@.len() == SECRET_LEN,
                public@.len() == PUBLIC_LEN,
                forall|j: int| 0 <= j < i ==> secret@[PUBLIC_LEN + j] == public@[j],
            decreases PUBLIC_LEN - i,
        {
            if secret[PUBLIC_LEN + i] != public[i] {
                assert(secret@.subrange(PUBLIC_LEN as int, SECRET_LEN as int)[i as int]
                    != public@[i as int]);
                return None;
            }
            i += 1;
        }
        assert(secret@.subrange(PUBLIC_LEN as int, SECRET_LEN as int) =~= public@);
        Some(PasetoKeys { secret, public })
    }

    /// The bytes of the signing key.
    pub fn secret(&self) -> (out: &Vec<u8>)
        ensures
            out@ == self.secret_bytes(),
    {
        &self.secret
    }

    /// The bytes of the verification key.
    pub fn public(&self) -> (out: &Vec<u8>)
        ensures
            out@ == self.public_bytes(),
    {
        &self.public
    }
}

/// The time to live that a configured number of seconds stands for: the
/// default for zero, else the number, at most the largest time.
pub open spec fn effective_ttl(ttl: u64) -> i64 {
    if ttl == 0 {
        DEFAULT_TTL
    } else if ttl > i64::MAX {
        i64::MAX
    } else {
        ttl as i64
    }
}

/// The path that a configured text stands for: the default for the empty
/// text.
pub open spec fn effective_path(path: Seq<char>) -> Seq<char> {
    if path.len() == 0 {
        DEFAULT_PATH@
    } else {
        path
    }
}

/// The path that a configured text stands for: the default for the empty
/// text.
pub fn resolve_path(path: &str) -> (out: String)
    ensures
        out@ == effective_path(path@),
{
    if path.is_empty() {
        String::from_str(DEFAULT_PATH)
    } else {
        String::from_str(path)
    }
}

/// The time to live that a configured number of seconds stands for: the
/// default for zero, else the number, at most the largest time.
pub fn resolve_ttl(ttl: u64) -> (out: i64)
    ensures
        out == effective_ttl(ttl),
{
    if ttl == 0 {
        DEFAULT_TTL
    } else if ttl > i64::MAX as u64 {
        i64::MAX
    } else {
        ttl as i64
    }
}

/// What signing comes to, given what the signer gave.
pub open spec fn sign_outcome(signed: Option<Seq<char>>) -> Result<Seq<char>, Error> {
    match signed {
        Some(t) => Ok(t),
        None => Err(Error::Internal("token signing")),
    }
}

/// What verifying comes to, given what the verifier gave: every failure is
/// an invalid token.
pub open spec fn verify_outcome(payload: Option<Seq<char>>) -> Result<Seq<char>, Error> {
    match payload {
        Some(p) => Ok(p),
        None => Err(Error::InvalidToken),
    }
}

/// The token service's configuration: where the keys are kept, the keys, and
/// how long a token lives.
#[derive(Debug, PartialEq)]
pub struct Paseto {
    /// Where the keys are kept.
    pub path: String,
    /// The keys.
    pub keys: PasetoKeys,
    /// The tokens' time to live, in seconds.
    pub ttl: i64,
}

impl Clone for Paseto {
    fn clone(&self) -> (out: Paseto)
        ensures
            out.path@ == self.path@,
            out.keys.secret_bytes() == self.keys.secret_bytes(),
            out.keys.public_bytes() == self.keys.public_bytes(),
            out.ttl == self.ttl,
    {
        Paseto { path: self.path.clone(), keys: self.keys.clone(), ttl: self.ttl }
    }
}

impl Paseto {
    /// The configuration for a path, keys and a time to live as they were
    /// configured: the empty path and the time zero stand for the defaults.
    pub fn new(path: &str, keys: PasetoKeys, ttl: u64) -> (out: Paseto)
        ensures
            out.path@ == effective_path(path@),
            out.keys == keys,
            out.ttl == effective_ttl(ttl),
    {
        Paseto { path: resolve_path(path), keys, ttl: resolve_ttl(ttl) }
    }

    /// Signs a payload: gives the token that carries it. Fails with
    /// `Internal` where the signer gives none.
    pub fn sign(&self, payload: &str) -> (out: Result<String, Error>)
        ensures
            is_text_result(
                out,
                sign_outcome(paseto_signed(payload@, self.keys.secret_bytes())),
            ),
    {
        accept_signature(v4_sign(payload, self.keys.secret().as_slice()))
    }

    /// Verifies a token: gives the payload that it carries. Fails with
    /// `InvalidToken` where the signature does not validate against the
    /// verification key, or the text is no token.
    pub fn verify(&self, token: &str) -> (out: Result<String, Error>)
        ensures
            is_text_result(
                out,
                verify_outcome(paseto_payload(token@, self.keys.public_bytes())),
            ),
    {
        accept_payload(v4_verify(token, self.keys.public().as_slice()))
    }
}

/// Decides what signing comes to: the token, or `Internal` where the signer
/// gave none.
pub fn accept_signature(signed: Option<String>) -> (out: Result<String, Error>)
    ensures
        is_text_result(
            out,
            sign_outcome(
                match signed {
                    Some(t) => Some(t@),
                    None => None,
                },
            ),
        ),
{
    match signed {
        Some(t) => Ok(t),
        None => Err(Error::Internal("token signing")),
    }
}

/// Decides what verifying comes to: the payload, or `InvalidToken` where the
/// verifier gave none.
pub fn accept_payload(payload: Option<String>) -> (out: Result<String, Error>)
    ensures
        is_text_result(
            out,
            verify_outcome(
                match payload {
                    Some(p) => Some(p@),
                    None => None,
                },
            ),
        ),
{
    match payload {
        Some(p) => Ok(p),
        None => Err(Error::InvalidToken),
    }
}

} // verus!
