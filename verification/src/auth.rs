//! Registration, authentication and authorization: the credential service,
//! the token service and the store of principals put together.
//!
//! Each operation that needs a hash, a check or the time exists twice: once
//! with what the outside gave as an argument, with an exact contract, and
//! once as the function that asks the outside and hands the answer on.
//!
//! Times are microseconds since the epoch; a time to live is in seconds.
//!
//! A token goes over the wire as a signed payload. How claims are written as
//! a payload and read from one is the caller's choice: the functions that
//! sign and verify take the encoder and the decoder as arguments, and decide
//! themselves in which order the signature, the claims and the expiration
//! are looked at.

use vstd::prelude::*;
use crate::clock::current_time;
use crate::contact::Contact;
use crate::error::{is_text_result, text_result, Error};
use crate::id::Id;
use crate::key::Key;
use crate::memory::users::{create_failure, created, find_contact, Users};
use crate::paseto::{paseto_payload, paseto_signed, sign_outcome, Paseto};
use crate::password::{
    admit_password, argon2_phc, argon2_verdict, check_outcome, hash, verify,
};
use crate::token::{authorize_claims, authorized, Audience, AudienceView, Token, TokenView};
use crate::user::{User, UserView};
use crate::value::{FieldMap, ValueView};

verus! {

/// The token that a principal gets at `now`: about the principal, with the
/// configured time to live and no further claims.
pub open spec fn granted(
    token_id: Id,
    subject: Id,
    issuer: Seq<char>,
    audience: AudienceView,
    ttl: i64,
    now: i64,
) -> TokenView {
    TokenView::issued(token_id, subject, issuer, audience, Some(ttl), Map::empty(), now)
}

/// Whether `out` is the result `expected`, its token taken by its view.
pub open spec fn is_token_result(out: Result<Token, Error>, expected: Result<TokenView, Error>)
    -> bool {
    match out {
        Ok(t) => expected == Ok::<TokenView, Error>(t@),
        Err(e) => expected == Err::<TokenView, Error>(e),
    }
}

/// What a registration comes to, given what the hashing gave and the time.
pub open spec fn registered(
    users: Seq<UserView>,
    user: UserView,
    hashed: Result<Seq<char>, Error>,
    token_id: Id,
    issuer: Seq<char>,
    audience: AudienceView,
    ttl: i64,
    now: i64,
) -> Result<TokenView, Error> {
    match hashed {
        Err(e) => Err(e),
        Ok(h) => match create_failure(users, user.with_password(h)) {
            Some(e) => Err(e.domain()),
            None => Ok(granted(token_id, user.id, issuer, audience, ttl, now)),
        },
    }
}

/// The principals after a registration, given what the hashing gave: the
/// principal joins them with the hash for its password, unless the hashing or
/// the store refused.
pub open spec fn registered_users(
    users: Seq<UserView>,
    user: UserView,
    hashed: Result<Seq<char>, Error>,
) -> Seq<UserView> {
    match hashed {
        Err(_) => users,
        Ok(h) => created(users, user.with_password(h)),
    }
}

/// What an authentication comes to, given the principal that was found, what
/// the check of the password gave, and the time.
pub open spec fn authenticated(
    found: Option<UserView>,
    checked: Result<bool, Error>,
    token_id: Id,
    issuer: Seq<char>,
    audience: AudienceView,
    ttl: i64,
    now: i64,
) -> Result<TokenView, Error> {
    match found {
        None => Err(Error::NotFound("user")),
        Some(user) => match checked {
            Ok(true) => Ok(granted(token_id, user.id, issuer, audience, ttl, now)),
            Ok(false) => Err(Error::Unauthorized),
            Err(e) => Err(e),
        },
    }
}

/// Registers a principal, given the hash of its password and the time: the
/// principal is stored with the hash in place of the password, and a token
/// about it is issued. Where the hashing failed, nothing is stored and its
/// failure is the result; where the store refuses the principal, nothing is
/// stored, no token is issued and the result is `Conflict`.
pub fn register_with(
    user: &User,
    hashed: Result<String, Error>,
    users: &mut Users,
    ttl: i64,
    issuer: String,
    audience: Audience,
    token_id: Id,
    now: i64,
) -> (out: Result<Token, Error>)
    ensures
        final(users)@ == registered_users(
            old(users)@,
            user@,
            text_result(hashed),
        ),
        is_token_result(
            out,
            registered(
                old(users)@,
                user@,
                text_result(hashed),
                token_id,
                issuer@,
                audience@,
                ttl,
                now,
            ),
        ),
{
    let hash = match hashed {
        Ok(h) => h,
        Err(e) => {
            return Err(e);
        },
    };
    match users.create_item(user.with_password(hash)) {
        Ok(stored) => Ok(
            Token::issue(token_id, stored.id, issuer, audience, Some(ttl), FieldMap::new(), now),
        ),
        Err(e) => Err(e.into_domain()),
    }
}

/// Registers a principal: hashes its password, stores the principal with the
/// hash, and issues a token about it that lives as long as `paseto` says.
/// Whatever the hashing and the clock give: on success the principal joined
/// the store, with the hash of its password for some salt in place of the
/// password, and the token is about it; on failure the store is as it was, and the failure is that of
/// the hashing or the `Conflict` of an identifier or a contact that is taken.
pub fn register(
    user: &User,
    users: &mut Users,
    paseto: &Paseto,
    issuer: String,
    audience: Audience,
    token_id: Id,
) -> (out: Result<Token, Error>)
    ensures
        match out {
            Ok(token) => {
                &&& final(users)@.len() == old(users)@.len() + 1
                &&& final(users)@.drop_last() == old(users)@
                &&& final(users)@.last() == user@.with_password(final(users)@.last().password)
                &&& final(users)@.last().password != user@.password
                &&& (exists|salt: Seq<char>|
                    argon2_phc(user@.password, salt) == Some(final(users)@.last().password))
                &&& token@ == granted(
                    token_id,
                    user.id,
                    issuer@,
                    audience@,
                    paseto.ttl,
                    token.issued_at,
                )
                &&& create_failure(old(users)@, user@) is None
            },
            Err(e) => {
                &&& final(users)@ == old(users)@
                &&& e == Error::Internal("password hashing") || (create_failure(
                    old(users)@,
                    user@,
                ) matches Some(f) && e == f.domain())
            },
        },
{
    let hashed = hash(user.password.as_str());
    let ghost hashed_text = text_result(hashed);
    assert(hashed_text matches Ok(h) ==> exists|salt: Seq<char>|
        argon2_phc(user@.password, salt) == Some(h));
    let now = current_time();
    let out = register_with(user, hashed, users, paseto.ttl, issuer, audience, token_id, now);
    proof {
        if let Ok(h) = hashed_text {
            let stored = user@.with_password(h);
            if create_failure(old(users)@, stored) is None {
                assert(users@ == old(users)@.push(stored));
                assert(users@.drop_last() == old(users)@);
                assert(users@.last() == stored);
            }
        }
    }
    out
}

/// What the registration of a principal without a token comes to, given
/// what the hashing gave: the principal as it was stored, but with the empty
/// text for its password, so that no hash leaves the store.
pub open spec fn enrolled(users: Seq<UserView>, user: UserView, hashed: Result<Seq<char>, Error>)
    -> Result<UserView, Error> {
    match hashed {
        Err(e) => Err(e),
        Ok(h) => match create_failure(users, user.with_password(h)) {
            Some(e) => Err(e.domain()),
            None => Ok(user.with_password(Seq::empty())),
        },
    }
}

/// Stores a principal, given the hash of its password: the principal is
/// stored with the hash, and handed back with the empty text for its
/// password. Where the hashing failed or the store refuses, nothing is
/// stored.
pub fn register_user_with(user: &User, hashed: Result<String, Error>, users: &mut Users) -> (out:
    Result<User, Error>)
    ensures
        final(users)@ == registered_users(old(users)@, user@, text_result(hashed)),
        match out {
            Ok(u) => enrolled(old(users)@, user@, text_result(hashed)) == Ok::<UserView, Error>(
                u@,
            ),
            Err(e) => enrolled(old(users)@, user@, text_result(hashed)) == Err::<
                UserView,
                Error,
            >(e),
        },
{
    let hash = match hashed {
        Ok(h) => h,
        Err(e) => {
            return Err(e);
        },
    };
    match users.create_item(user.with_password(hash)) {
        Ok(stored) => Ok(stored.with_password(String::new())),
        Err(e) => Err(e.into_domain()),
    }
}

/// Stores a principal: hashes its password, stores the principal with the
/// hash, and hands it back with the empty text for its password. Whatever
/// the hashing gives: on success the principal joined the store with the
/// hash of its password for some salt in place of the password; on failure the store is as it
/// was, and the failure is that of the hashing or the `Conflict` of an
/// identifier or a contact that is taken.
pub fn register_user(user: &User, users: &mut Users) -> (out: Result<User, Error>)
    ensures
        match out {
            Ok(u) => {
                &&& final(users)@.len() == old(users)@.len() + 1
                &&& final(users)@.drop_last() == old(users)@
                &&& final(users)@.last() == user@.with_password(final(users)@.last().password)
                &&& final(users)@.last().password != user@.password
                &&& (exists|salt: Seq<char>|
                    argon2_phc(user@.password, salt) == Some(final(users)@.last().password))
                &&& u@ == user@.with_password(Seq::empty())
                &&& create_failure(old(users)@, user@) is None
            },
            Err(e) => {
                &&& final(users)@ == old(users)@
                &&& e == Error::Internal("password hashing") || (create_failure(
                    old(users)@,
                    user@,
                ) matches Some(f) && e == f.domain())
            },
        },
{
    let hashed = hash(user.password.as_str());
    let ghost hashed_text = text_result(hashed);
    assert(hashed_text matches Ok(h) ==> exists|salt: Seq<char>|
        argon2_phc(user@.password, salt) == Some(h));
    let out = register_user_with(user, hashed, users);
    proof {
        if let Ok(h) = hashed_text {
            let stored = user@.with_password(h);
            if create_failure(old(users)@, stored) is None {
                assert(users@ == old(users)@.push(stored));
                assert(users@.drop_last() == old(users)@);
                assert(users@.last() == stored);
            }
        }
    }
    out
}

/// Decides an authentication, given the principal that the store found, what
/// the check of the password gave, and the time: a token about the principal
/// on a match, `NotFound` where nobody was found, `Unauthorized` on a
/// mismatch, and the failure of the check itself.
pub fn grant(
    found: Option<&User>,
    checked: Result<bool, Error>,
    ttl: i64,
    issuer: String,
    audience: Audience,
    token_id: Id,
    now: i64,
) -> (out: Result<Token, Error>)
    ensures
        is_token_result(
            out,
            authenticated(
                match found {
                    Some(u) => Some(u@),
                    None => None,
                },
                checked,
                token_id,
                issuer@,
                audience@,
                ttl,
                now,
            ),
        ),
{
    let user = match found {
        Some(user) => user,
        None => {
            return Err(Error::NotFound("user"));
        },
    };
    match admit_password(checked) {
        Ok(()) => Ok(
            Token::issue(token_id, user.id, issuer, audience, Some(ttl), FieldMap::new(), now),
        ),
        Err(e) => Err(e),
    }
}

/// Authenticates a principal: finds it by its contact, checks the password
/// against the stored hash, and only on a match issues a token about it.
/// Fails with `NotFound` where no principal has the contact, with
/// `Unauthorized` where the password does not match, and with `Internal`
/// where the stored hash is malformed.
pub fn authenticate(
    contact: &Contact,
    password: &str,
    users: &Users,
    paseto: &Paseto,
    issuer: String,
    audience: Audience,
    token_id: Id,
) -> (out: Result<Token, Error>)
    ensures
        match find_contact(users@, contact@) {
            None => out == Err::<Token, Error>(Error::NotFound("user")),
            Some(user) => match check_outcome(
                user.password,
                argon2_verdict(password@, user.password),
            ) {
                Ok(true) => out matches Ok(token) && token@ == granted(
                    token_id,
                    user.id,
                    issuer@,
                    audience@,
                    paseto.ttl,
                    token.issued_at,
                ),
                Ok(false) => out == Err::<Token, Error>(Error::Unauthorized),
                Err(e) => out == Err::<Token, Error>(e),
            },
        },
{
    let user = match users.get_item(&Key::Sk(contact.clone())) {
        Ok(user) => user,
        Err(_) => {
            return Err(Error::NotFound("user"));
        },
    };
    let checked = verify(password, user.password.as_str());
    let now = current_time();
    grant(Some(&user), checked, paseto.ttl, issuer, audience, token_id, now)
}

/// Authorizes the bearer of claims whose signature was verified, at the
/// current time: gives the subject of the token. Fails with `InvalidToken`
/// where the claims write no token and with `ExpiredToken` where the token is
/// expired. Whatever the clock gives, the result is that of
/// [`authorize_claims`] at some time.
pub fn authorize(claims: &FieldMap) -> (out: Result<Id, Error>)
    ensures
        exists|now: i64| out == authorized(claims@, now),
        TokenView::of_claims(claims@) is None ==> out == Err::<Id, Error>(Error::InvalidToken),
        TokenView::of_claims(claims@) matches Some(token) ==> (token.expiration is None ==> out
            == Ok::<Id, Error>(token.subject)),
{
    let now = current_time();
    let out = authorize_claims(claims, now);
    assert(out == authorized(claims@, now));
    out
}

/// What a verified payload comes to, given what the decoder made of it: the
/// token that the claims write, or `InvalidToken` where the decoder gave no
/// claims or the claims write no token.
pub open spec fn read_outcome(claims: Option<Map<Seq<char>, ValueView>>) -> Result<
    TokenView,
    Error,
> {
    match claims {
        Some(fields) => match TokenView::of_claims(fields) {
            Some(token) => Ok(token),
            None => Err(Error::InvalidToken),
        },
        None => Err(Error::InvalidToken),
    }
}

/// What an authorization comes to at `now`, given what the decoder made of
/// the verified payload.
pub open spec fn admitted(claims: Option<Map<Seq<char>, ValueView>>, now: i64) -> Result<
    Id,
    Error,
> {
    match claims {
        Some(fields) => authorized(fields, now),
        None => Err(Error::InvalidToken),
    }
}

/// The claims that a decoder gave, by their view.
pub open spec fn claims_view(claims: Option<FieldMap>) -> Option<Map<Seq<char>, ValueView>> {
    match claims {
        Some(fields) => Some(fields@),
        None => None,
    }
}

/// The payload that an encoder gave, by its view.
pub open spec fn payload_view(payload: Option<String>) -> Option<Seq<char>> {
    match payload {
        Some(text) => Some(text@),
        None => None,
    }
}

/// What signing a token comes to, given what the encoder made of its claims:
/// the signed token of the payload, `Internal` for the encoding where the
/// encoder gave no payload, and `Internal` for the signing where the signer
/// gave no token.
pub open spec fn wire_outcome(payload: Option<Seq<char>>, secret: Seq<u8>) -> Result<
    Seq<char>,
    Error,
> {
    match payload {
        Some(text) => sign_outcome(paseto_signed(text, secret)),
        None => Err(Error::Internal("token encoding")),
    }
}

/// Whether `out` is what signing the token `token` with `paseto` comes to,
/// for claims and a payload that `encode` gave for them.
pub open spec fn is_signed<F: Fn(&FieldMap) -> Option<String>>(
    out: Result<String, Error>,
    token: TokenView,
    paseto: Paseto,
    encode: F,
) -> bool {
    exists|claims: FieldMap, payload: Option<String>|
        claims@ == token.claims_map() && call_ensures(encode, (&claims,), payload)
            && is_text_result(
            out,
            wire_outcome(payload_view(payload), paseto.keys.secret_bytes()),
        )
}

/// Signs a token: `encode` writes its claims as a payload, and the payload
/// is signed with the signing key of `paseto`. The result is the signed
/// token of a payload that `encode` gives for the claims of the token. It
/// fails with `Internal` where the encoder gives no payload, and where the
/// signer gives no token.
pub fn sign_token<F: Fn(&FieldMap) -> Option<String>>(token: &Token, paseto: &Paseto, encode: F) -> (out:
    Result<String, Error>)
    requires
        forall|claims: &FieldMap| call_requires(encode, (claims,)),
    ensures
        is_signed(out, token@, *paseto, encode),
{
    let claims = token.to_claims();
    let payload = encode(&claims);
    let out = match &payload {
        Some(text) => paseto.sign(text.as_str()),
        None => Err(Error::Internal("token encoding")),
    };
    assert(claims@ == token@.claims_map() && call_ensures(encode, (&claims,), payload)
        && is_text_result(
        out,
        wire_outcome(payload_view(payload), paseto.keys.secret_bytes()),
    ));
    out
}

/// Whether `after` is `before` with the principal `user` at its end, stored
/// with the hash of its password for some salt in place of the password.
pub open spec fn joined(before: Seq<UserView>, after: Seq<UserView>, user: UserView) -> bool {
    &&& create_failure(before, user) is None
    &&& after.len() == before.len() + 1
    &&& after.drop_last() == before
    &&& after.last() == user.with_password(after.last().password)
    &&& after.last().password != user.password
    &&& (exists|salt: Seq<char>| argon2_phc(user.password, salt) == Some(after.last().password))
}

/// Registers a principal and signs its token: hashes the password, stores
/// the principal with the hash, issues a token about it and signs the token
/// as [`sign_token`] does. On success the principal joined the store and the
/// result is its signed token. Where the hashing fails or the store refuses
/// the principal, the store is as it was. Where the principal was stored and
/// the token cannot be encoded or signed, the principal stays and the
/// failure is `Internal`.
pub fn register_signed<F: Fn(&FieldMap) -> Option<String>>(
    user: &User,
    users: &mut Users,
    paseto: &Paseto,
    issuer: String,
    audience: Audience,
    token_id: Id,
    encode: F,
) -> (out: Result<String, Error>)
    requires
        forall|claims: &FieldMap| call_requires(encode, (claims,)),
    ensures
        match out {
            Ok(_) => {
                &&& joined(old(users)@, final(users)@, user@)
                &&& (exists|t: TokenView|
                    t == granted(token_id, user.id, issuer@, audience@, paseto.ttl, t.issued_at)
                        && is_signed(out, t, *paseto, encode))
            },
            Err(e) => {
                ||| {
                    &&& final(users)@ == old(users)@
                    &&& e == Error::Internal("password hashing") || (create_failure(
                        old(users)@,
                        user@,
                    ) matches Some(f) && e == f.domain())
                }
                ||| {
                    &&& joined(old(users)@, final(users)@, user@)
                    &&& e == Error::Internal("token encoding") || e == Error::Internal(
                        "token signing",
                    )
                }
            },
        },
{
    let token = match register(user, users, paseto, issuer, audience, token_id) {
        Ok(token) => token,
        Err(e) => {
            return Err(e);
        },
    };
    let out = sign_token(&token, paseto, encode);
    assert(token@ == granted(token_id, user.id, issuer@, audience@, paseto.ttl, token@.issued_at)
        && is_signed(out, token@, *paseto, encode));
    out
}

/// Authenticates a principal and signs its token: finds the principal by its
/// contact, checks the password against the stored hash, and only on a match
/// issues a token about it and signs the token as [`sign_token`] does. Fails
/// with `NotFound` where no principal has the contact, with `Unauthorized`
/// where the password does not match, and with `Internal` where the stored
/// hash is malformed or the token cannot be encoded or signed.
pub fn authenticate_signed<F: Fn(&FieldMap) -> Option<String>>(
    contact: &Contact,
    password: &str,
    users: &Users,
    paseto: &Paseto,
    issuer: String,
    audience: Audience,
    token_id: Id,
    encode: F,
) -> (out: Result<String, Error>)
    requires
        forall|claims: &FieldMap| call_requires(encode, (claims,)),
    ensures
        match find_contact(users@, contact@) {
            None => out == Err::<String, Error>(Error::NotFound("user")),
            Some(user) => match check_outcome(
                user.password,
                argon2_verdict(password@, user.password),
            ) {
                Ok(true) => exists|t: TokenView|
                    t == granted(token_id, user.id, issuer@, audience@, paseto.ttl, t.issued_at)
                        && is_signed(out, t, *paseto, encode),
                Ok(false) => out == Err::<String, Error>(Error::Unauthorized),
                Err(e) => out == Err::<String, Error>(e),
            },
        },
{
    let token = match authenticate(contact, password, users, paseto, issuer, audience, token_id) {
        Ok(token) => token,
        Err(e) => {
            return Err(e);
        },
    };
    let out = sign_token(&token, paseto, encode);
    assert(is_signed(out, token@, *paseto, encode));
    out
}

/// Verifies a signed token and reads it: the signature is verified against
/// the verification key of `paseto`, then `decode` reads the claims from the
/// payload. Fails with `InvalidToken` where the signature does not validate,
/// whatever the decoder would make of the text, and where the decoder gives
/// no claims or the claims write no token.
pub fn verify_token(token: &str, paseto: &Paseto, decode: impl Fn(&str) -> Option<FieldMap>) -> (out:
    Result<Token, Error>)
    requires
        forall|payload: &str| call_requires(decode, (payload,)),
    ensures
        match paseto_payload(token@, paseto.keys.public_bytes()) {
            None => out == Err::<Token, Error>(Error::InvalidToken),
            Some(p) => exists|payload: &str, claims: Option<FieldMap>|
                payload@ == p && call_ensures(decode, (payload,), claims) && is_token_result(
                    out,
                    read_outcome(claims_view(claims)),
                ),
        },
{
    let payload = match paseto.verify(token) {
        Ok(payload) => payload,
        Err(e) => {
            return Err(e);
        },
    };
    let text = payload.as_str();
    let claims = decode(text);
    let out = match &claims {
        Some(fields) => Token::from_claims(fields),
        None => Err(Error::InvalidToken),
    };
    assert(text@ == payload@ && call_ensures(decode, (text,), claims) && is_token_result(
        out,
        read_outcome(claims_view(claims)),
    ));
    out
}

/// Authorizes the bearer of a signed token at the time `now`: the signature
/// is verified first, then `decode` reads the claims from the payload, and
/// only then the expiration is held against `now`. Gives the subject of the
/// token. Fails with `InvalidToken` where the signature does not validate,
/// whatever the payload says, and where the payload writes no token, and
/// with `ExpiredToken` where the token of a valid signature is expired.
pub fn authorize_token_at(
    token: &str,
    paseto: &Paseto,
    decode: impl Fn(&str) -> Option<FieldMap>,
    now: i64,
) -> (out: Result<Id, Error>)
    requires
        forall|payload: &str| call_requires(decode, (payload,)),
    ensures
        match paseto_payload(token@, paseto.keys.public_bytes()) {
            None => out == Err::<Id, Error>(Error::InvalidToken),
            Some(p) => exists|payload: &str, claims: Option<FieldMap>|
                payload@ == p && call_ensures(decode, (payload,), claims) && out == admitted(
                    claims_view(claims),
                    now,
                ),
        },
{
    let payload = match paseto.verify(token) {
        Ok(payload) => payload,
        Err(e) => {
            return Err(e);
        },
    };
    let text = payload.as_str();
    let claims = decode(text);
    let out = match &claims {
        Some(fields) => authorize_claims(fields, now),
        None => Err(Error::InvalidToken),
    };
    assert(text@ == payload@ && call_ensures(decode, (text,), claims) && out == admitted(
        claims_view(claims),
        now,
    ));
    out
}

/// Authorizes the bearer of a signed token at the current time. Whatever
/// the clock gives, the result is that of [`authorize_token_at`] at some
/// time; a token whose signature does not validate is invalid at any time.
pub fn authorize_token(token: &str, paseto: &Paseto, decode: impl Fn(&str) -> Option<FieldMap>) -> (out:
    Result<Id, Error>)
    requires
        forall|payload: &str| call_requires(decode, (payload,)),
    ensures
        match paseto_payload(token@, paseto.keys.public_bytes()) {
            None => out == Err::<Id, Error>(Error::InvalidToken),
            Some(p) => exists|payload: &str, claims: Option<FieldMap>, now: i64|
                payload@ == p && call_ensures(decode, (payload,), claims) && out == admitted(
                    claims_view(claims),
                    now,
                ),
        },
{
    let now = current_time();
    authorize_token_at(token, paseto, decode, now)
}

} // verus!
