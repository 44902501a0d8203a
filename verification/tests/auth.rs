use authz_core::auth::{
    authenticate, authenticate_signed, authorize, authorize_token, authorize_token_at, grant,
    register, register_signed, register_user, register_user_with, register_with, sign_token,
    verify_token,
};
use authz_core::contact::{Contact, Phone};
use authz_core::email::Email;
use authz_core::error::Error;
use authz_core::id::Id;
use authz_core::key::Key;
use authz_core::memory::error::Error as StoreError;
use authz_core::memory::users::Users;
use authz_core::paseto::{Paseto, PasetoKeys};
use authz_core::token::{authorize_claims, Audience, Token};
use authz_core::user::User;
use authz_core::value::{FieldMap, Value};

const S: i64 = 1_000_000;
const SECRET: &str = "b4cbfb43df4ce210727d953e4a713307fa19bb7d9f85041438d9e11b942a37741eb9dbbbbc047c03fd70604e0071f0987e16b28b757225c11f00415d0e20b1a2";
const PUBLIC: &str = "1eb9dbbbbc047c03fd70604e0071f0987e16b28b757225c11f00415d0e20b1a2";

fn unhex(text: &str) -> Vec<u8> {
    (0..text.len() / 2).map(|i| u8::from_str_radix(&text[2 * i..2 * i + 2], 16).unwrap()).collect()
}

fn paseto(ttl: u64) -> Paseto {
    Paseto::new("", PasetoKeys::from_bytes(unhex(SECRET), unhex(PUBLIC)).unwrap(), ttl)
}

fn id(n: u128) -> Id {
    Id::new(n).unwrap()
}

fn contact(address: &str) -> Contact {
    Contact::Email(Email::new(address).unwrap())
}

fn user(n: u128, address: &str, password: &str) -> User {
    User {
        id: id(n),
        username: format!("user{}", n),
        first_name: "First".to_string(),
        last_name: "Last".to_string(),
        contact: contact(address),
        password: password.to_string(),
    }
}

/// Writes claims as the JSON payload of a token.
fn claims_to_json(fields: &FieldMap) -> String {
    let mut object = serde_json::Map::new();
    for name in fields.names() {
        let value = match fields.get(&name).unwrap() {
            Value::Null => serde_json::Value::Null,
            Value::Bool(b) => serde_json::Value::from(*b),
            Value::Number(n) => serde_json::Value::from(*n),
            Value::String(s) => serde_json::Value::from(s.as_str()),
            Value::List(l) => serde_json::Value::from(l.clone()),
        };
        object.insert(name, value);
    }
    serde_json::to_string(&object).unwrap()
}

/// The encoder of the claims: JSON.
fn encode(claims: &FieldMap) -> Option<String> {
    Some(claims_to_json(claims))
}

/// Reads claims from the JSON payload of a token, if it is a JSON object.
fn claims_from_json(payload: &str) -> Option<FieldMap> {
    let value: serde_json::Value = serde_json::from_str(payload).ok()?;
    let mut fields = FieldMap::new();
    for (name, v) in value.as_object()? {
        let field = if let Some(s) = v.as_str() {
            Value::String(s.to_string())
        } else if let Some(b) = v.as_bool() {
            Value::Bool(b)
        } else if let Some(n) = v.as_i64() {
            Value::Number(n)
        } else if let Some(l) = v.as_array() {
            Value::List(l.iter().map(|x| x.as_str().unwrap().to_string()).collect())
        } else {
            Value::Null
        };
        fields.insert(name, field);
    }
    Some(fields)
}

/// A token as it goes over the wire, and back to its claims.
fn over_the_wire(token: &Token, paseto: &Paseto) -> FieldMap {
    let signed = paseto.sign(&claims_to_json(&token.to_claims())).unwrap();
    claims_from_json(&paseto.verify(&signed).unwrap()).unwrap()
}

#[test]
fn credential_check() {
    let mut users = Users::new();
    let paseto = paseto(3600);
    let alice = user(1, "alice@example.com", "secret123");
    let token = register(&alice, &mut users, &paseto, "issuer".to_string(), Audience::Nobody, id(100)).unwrap();
    assert_eq!(token.subject, id(1));

    let stored = users.get_item(&Key::Pk(id(1))).unwrap();
    assert_ne!(stored.password, "secret123");
    assert!(stored.password.starts_with("$argon2id$"));
    assert_eq!(stored.username, "user1");
    assert_eq!(stored.contact, contact("alice@example.com"));

    let token = authenticate(
        &contact("alice@example.com"),
        "secret123",
        &users,
        &paseto,
        "issuer".to_string(),
        Audience::One("api".to_string()),
        id(101),
    )
    .unwrap();
    assert_eq!(token.subject, id(1));
    assert_eq!(token.id, id(101));
    assert_eq!(token.issuer, "issuer");
    assert_eq!(token.audience, Audience::One("api".to_string()));
    assert_eq!(token.expiration, Some(token.issued_at + 3600 * S));
    assert_eq!(token.claims.names(), Vec::<String>::new());

    let refused = authenticate(
        &contact("alice@example.com"),
        "wrong-password",
        &users,
        &paseto,
        "issuer".to_string(),
        Audience::Nobody,
        id(102),
    );
    assert_eq!(refused, Err(Error::Unauthorized));

    let unknown = authenticate(
        &contact("bob@example.com"),
        "secret123",
        &users,
        &paseto,
        "issuer".to_string(),
        Audience::Nobody,
        id(103),
    );
    assert_eq!(unknown, Err(Error::NotFound("user")));
}

#[test]
fn token_lifecycle_over_the_wire() {
    let mut users = Users::new();
    let short = paseto(1);
    let alice = user(1, "alice@example.com", "secret123");
    let token = register(&alice, &mut users, &short, "issuer".to_string(), Audience::Nobody, id(100)).unwrap();
    assert_eq!(token.expiration, Some(token.issued_at + S));

    let claims = over_the_wire(&token, &short);
    // Immediately after issuance the subject comes back unchanged.
    assert_eq!(authorize_claims(&claims, token.issued_at), Ok(id(1)));
    assert_eq!(authorize_claims(&claims, token.issued_at + S - 1), Ok(id(1)));
    // Once the time to live has elapsed the token is expired.
    assert_eq!(authorize_claims(&claims, token.issued_at + S), Err(Error::ExpiredToken));
    assert_eq!(authorize_claims(&claims, token.issued_at + 1000 * S), Err(Error::ExpiredToken));

    // At the current time: a token of one day counts, one that expired
    // long ago does not.
    let day = paseto(0);
    let fresh = Token::issue(id(5), id(1), "issuer".to_string(), Audience::Nobody, Some(day.ttl), FieldMap::new(), token.issued_at);
    assert_eq!(authorize(&over_the_wire(&fresh, &day)), Ok(id(1)));
    let old = Token::issue(id(6), id(1), "issuer".to_string(), Audience::Nobody, Some(1), FieldMap::new(), 0);
    assert_eq!(authorize(&over_the_wire(&old, &day)), Err(Error::ExpiredToken));
    assert_eq!(authorize(&FieldMap::new()), Err(Error::InvalidToken));
}

#[test]
fn registration_conflicts_issue_no_token() {
    let mut users = Users::new();
    let paseto = paseto(60);
    let alice = user(1, "alice@example.com", "secret123");
    register(&alice, &mut users, &paseto, "i".to_string(), Audience::Nobody, id(100)).unwrap();
    assert_eq!(users.len(), 1);

    let same_id = user(1, "other@example.com", "pw");
    assert_eq!(
        register(&same_id, &mut users, &paseto, "i".to_string(), Audience::Nobody, id(101)),
        Err(Error::Conflict("user"))
    );
    let same_contact = user(2, "alice@example.com", "pw");
    assert_eq!(
        register(&same_contact, &mut users, &paseto, "i".to_string(), Audience::Nobody, id(102)),
        Err(Error::Conflict("user"))
    );
    assert_eq!(users.len(), 1);
    assert_eq!(users.get_item(&Key::Pk(id(2))), Err(StoreError::NotFound("user")));
}

#[test]
fn registration_given_the_hash() {
    let mut users = Users::new();
    let alice = user(1, "alice@example.com", "secret123");
    let failed = register_with(
        &alice,
        Err(Error::Internal("password hashing")),
        &mut users,
        60,
        "i".to_string(),
        Audience::Nobody,
        id(100),
        1_000,
    );
    assert_eq!(failed, Err(Error::Internal("password hashing")));
    assert_eq!(users.len(), 0);

    let token = register_with(
        &alice,
        Ok("$hash".to_string()),
        &mut users,
        60,
        "i".to_string(),
        Audience::Many(vec!["a".to_string()]),
        id(100),
        1_000,
    )
    .unwrap();
    assert_eq!(
        token,
        Token::issue(id(100), id(1), "i".to_string(), Audience::Many(vec!["a".to_string()]), Some(60), FieldMap::new(), 1_000)
    );
    assert_eq!(token.expiration, Some(1_000 + 60 * S));
    assert_eq!(users.get_item(&Key::Pk(id(1))).unwrap().password, "$hash");

    let again = register_with(&alice, Ok("$hash".to_string()), &mut users, 60, "i".to_string(), Audience::Nobody, id(101), 1_000);
    assert_eq!(again, Err(Error::Conflict("user")));
    assert_eq!(users.len(), 1);
}

#[test]
fn registration_hands_back_no_hash() {
    let mut users = Users::new();
    let alice = user(1, "alice@example.com", "secret123");
    let back = register_user(&alice, &mut users).unwrap();
    assert_eq!(back.password, "");
    assert_eq!(back.id, id(1));
    assert_eq!(back.username, alice.username);
    assert_eq!(back.contact, alice.contact);
    let stored = users.get_item(&Key::Sk(contact("alice@example.com"))).unwrap();
    assert_ne!(stored.password, "secret123");
    assert_ne!(stored.password, "");
    assert_eq!(register_user(&alice, &mut users), Err(Error::Conflict("user")));

    let bob = user(2, "bob@example.com", "pw");
    let back = register_user_with(&bob, Ok("$h".to_string()), &mut users).unwrap();
    assert_eq!(back, user(2, "bob@example.com", ""));
    assert_eq!(
        register_user_with(&user(3, "c@d.e", "pw"), Err(Error::Internal("password hashing")), &mut users),
        Err(Error::Internal("password hashing"))
    );
    assert_eq!(users.len(), 2);
}

#[test]
fn authentication_given_the_check() {
    let alice = user(1, "alice@example.com", "$hash");
    let issue = |found: Option<&User>, checked: Result<bool, Error>| {
        grant(found, checked, 60, "i".to_string(), Audience::Nobody, id(100), 1_000)
    };
    assert_eq!(
        issue(Some(&alice), Ok(true)),
        Ok(Token::issue(id(100), id(1), "i".to_string(), Audience::Nobody, Some(60), FieldMap::new(), 1_000))
    );
    assert_eq!(issue(Some(&alice), Ok(false)), Err(Error::Unauthorized));
    assert_eq!(
        issue(Some(&alice), Err(Error::Internal("stored password hash"))),
        Err(Error::Internal("stored password hash"))
    );
    assert_eq!(issue(None, Ok(true)), Err(Error::NotFound("user")));
    assert_eq!(issue(None, Ok(false)), Err(Error::NotFound("user")));
}

#[test]
fn malformed_stored_hash_is_internal() {
    let mut users = Users::new();
    users.create_item(user(1, "alice@example.com", "not a hash")).unwrap();
    let out = authenticate(
        &contact("alice@example.com"),
        "not a hash",
        &users,
        &paseto(60),
        "i".to_string(),
        Audience::Nobody,
        id(100),
    );
    assert_eq!(out, Err(Error::Internal("stored password hash")));
}

#[test]
fn users_are_unique_by_id_and_contact() {
    let mut users = Users::default();
    let alice = user(1, "alice@example.com", "$h");
    assert_eq!(users.create_item(alice.clone()).unwrap(), alice);
    assert_eq!(
        users.create_item(user(1, "x@y.z", "$h")),
        Err(StoreError::New(Error::Conflict("user")))
    );
    assert_eq!(users.create_item(user(2, "alice@example.com", "$h")), Err(StoreError::UserWithEmailExists));
    let phone = User { contact: Contact::Phone(Phone::New("+1".to_string())), ..user(2, "b@c.d", "$h") };
    users.create_item(phone.clone()).unwrap();
    assert_eq!(users.len(), 2);
    assert_eq!(users.get_item(&Key::Pk(id(2))).unwrap(), phone);
    assert_eq!(users.get_item(&Key::Sk(Contact::Phone(Phone::New("+1".to_string())))).unwrap(), phone);
    assert_eq!(users.get_item(&Key::Both(id(1), contact("nobody@example.com"))).unwrap(), alice);
    assert_eq!(
        users.get_item(&Key::Sk(Contact::Phone(Phone::Verified("+1".to_string())))),
        Err(StoreError::NotFound("user"))
    );
    assert_eq!(users.delete_item(id(1)), Ok(()));
    assert_eq!(users.delete_item(id(1)), Err(StoreError::NotFound("user")));
    assert_eq!(users.len(), 1);
    assert_eq!(users.get_item(&Key::Pk(id(1))), Err(StoreError::NotFound("user")));
    assert_eq!(users.create_item(alice.clone()).unwrap(), alice);
}

#[test]
fn users_are_replaced_and_patched() {
    let mut users = Users::new();
    let alice = user(1, "alice@example.com", "$h");
    let bob = user(2, "bob@example.com", "$h");
    users.create_item(alice.clone()).unwrap();
    users.create_item(bob.clone()).unwrap();

    assert_eq!(users.update_item(user(3, "c@d.e", "$h")), Err(StoreError::NotFound("user")));
    assert_eq!(users.update_item(user(1, "bob@example.com", "$h")), Err(StoreError::UserWithEmailExists));
    assert_eq!(users.get_item(&Key::Pk(id(1))).unwrap(), alice);

    let moved = user(1, "alice@elsewhere.com", "$other");
    assert_eq!(users.update_item(moved.clone()).unwrap(), moved);
    assert_eq!(users.get_item(&Key::Pk(id(1))).unwrap(), moved);
    assert_eq!(users.get_item(&Key::Sk(contact("alice@example.com"))), Err(StoreError::NotFound("user")));
    assert_eq!(users.get_item(&Key::Pk(id(2))).unwrap(), bob);
    // Replacing a principal by itself is no conflict.
    assert_eq!(users.update_item(moved.clone()).unwrap(), moved);
    assert_eq!(users.len(), 2);

    let mut fields = FieldMap::new();
    fields.insert("first_name", Value::String("Alice".to_string()));
    fields.insert("password", Value::String("ignored".to_string()));
    let patched = users.patch_item(id(1), &fields).unwrap();
    assert_eq!(patched, User { first_name: "Alice".to_string(), ..moved.clone() });
    assert_eq!(users.get_item(&Key::Pk(id(1))).unwrap(), patched);

    let mut fields = FieldMap::new();
    fields.insert("username", Value::String("al".to_string()));
    fields.insert("last_name", Value::Number(1));
    assert_eq!(
        users.patch_item(id(1), &fields),
        Err(StoreError::New(Error::ConversionError { field: Some("last_name"), status: 400, message: None }))
    );
    assert_eq!(users.get_item(&Key::Pk(id(1))).unwrap(), patched);
    assert_eq!(users.patch_item(id(9), &FieldMap::new()), Err(StoreError::NotFound("user")));
}

#[test]
fn signed_tokens_authorize_their_subject() {
    let paseto = paseto(60);
    let token = Token::issue(id(9), id(1), "issuer".to_string(), Audience::One("api".to_string()), Some(60), FieldMap::new(), 1_000);
    let signed = sign_token(&token, &paseto, encode).unwrap();
    assert!(signed.starts_with("v4.public."));
    assert_eq!(paseto.verify(&signed).unwrap(), claims_to_json(&token.to_claims()));

    assert_eq!(verify_token(&signed, &paseto, claims_from_json).unwrap(), token);
    assert_eq!(authorize_token_at(&signed, &paseto, claims_from_json, 1_000), Ok(id(1)));
    assert_eq!(authorize_token_at(&signed, &paseto, claims_from_json, 999 + 60 * S), Ok(id(1)));
    assert_eq!(
        authorize_token_at(&signed, &paseto, claims_from_json, 1_000 + 60 * S),
        Err(Error::ExpiredToken)
    );
    // Long after the year 1970 the token is expired at the current time.
    assert_eq!(authorize_token(&signed, &paseto, claims_from_json), Err(Error::ExpiredToken));
}

#[test]
fn the_signature_is_checked_before_the_expiration() {
    let paseto = paseto(60);
    let expired = Token::issue(id(9), id(1), "issuer".to_string(), Audience::Nobody, Some(1), FieldMap::new(), 0);
    let signed = sign_token(&expired, &paseto, encode).unwrap();
    assert_eq!(authorize_token_at(&signed, &paseto, claims_from_json, 5 * S), Err(Error::ExpiredToken));

    // The same token with a broken signature is invalid, not expired, and
    // the decoder is never asked.
    let mut bytes = signed.into_bytes();
    let last = bytes.len() - 2;
    bytes[last] = if bytes[last] == b'A' { b'B' } else { b'A' };
    let forged = String::from_utf8(bytes).unwrap();
    let never = |_: &str| -> Option<FieldMap> { panic!("the payload of a forged token was read") };
    assert_eq!(authorize_token_at(&forged, &paseto, never, 5 * S), Err(Error::InvalidToken));
    assert_eq!(authorize_token_at(&forged, &paseto, never, 0), Err(Error::InvalidToken));
    assert_eq!(authorize_token(&forged, &paseto, never), Err(Error::InvalidToken));
    assert_eq!(verify_token(&forged, &paseto, never), Err(Error::InvalidToken));
    assert_eq!(authorize_token_at("", &paseto, never, 0), Err(Error::InvalidToken));
}

#[test]
fn payloads_that_write_no_token_are_invalid() {
    let paseto = paseto(60);
    for payload in ["not json", "[]", "{}", r#"{"sub":"000000000000000000000001"}"#] {
        let signed = paseto.sign(payload).unwrap();
        assert_eq!(verify_token(&signed, &paseto, claims_from_json), Err(Error::InvalidToken));
        assert_eq!(authorize_token_at(&signed, &paseto, claims_from_json, 0), Err(Error::InvalidToken));
    }
    let token = Token::issue(id(9), id(1), String::new(), Audience::Nobody, None, FieldMap::new(), 7);
    let signed = sign_token(&token, &paseto, encode).unwrap();
    assert_eq!(authorize_token_at(&signed, &paseto, |_: &str| None, 7), Err(Error::InvalidToken));
    assert_eq!(authorize_token_at(&signed, &paseto, claims_from_json, i64::MAX), Ok(id(1)));
    assert_eq!(authorize_token(&signed, &paseto, claims_from_json), Ok(id(1)));
}

#[test]
fn registration_and_authentication_hand_out_signed_tokens() {
    let mut users = Users::new();
    let paseto = paseto(3600);
    let alice = user(1, "alice@example.com", "secret123");
    let signed =
        register_signed(&alice, &mut users, &paseto, "issuer".to_string(), Audience::Nobody, id(100), encode)
            .unwrap();
    assert!(signed.starts_with("v4.public."));
    let token = verify_token(&signed, &paseto, claims_from_json).unwrap();
    assert_eq!(token.id, id(100));
    assert_eq!(token.subject, id(1));
    assert_eq!(token.issuer, "issuer");
    assert_eq!(token.expiration, Some(token.issued_at + 3600 * S));
    assert_eq!(authorize_token(&signed, &paseto, claims_from_json), Ok(id(1)));
    assert_eq!(users.len(), 1);

    let signed = authenticate_signed(
        &contact("alice@example.com"),
        "secret123",
        &users,
        &paseto,
        "issuer".to_string(),
        Audience::Many(vec!["a".to_string(), "b".to_string()]),
        id(101),
        encode,
    )
    .unwrap();
    let token = verify_token(&signed, &paseto, claims_from_json).unwrap();
    assert_eq!(token.id, id(101));
    assert_eq!(token.subject, id(1));
    assert_eq!(token.audience, Audience::Many(vec!["a".to_string(), "b".to_string()]));

    let refused = |password: &str, address: &str| {
        authenticate_signed(
            &contact(address),
            password,
            &users,
            &paseto,
            "issuer".to_string(),
            Audience::Nobody,
            id(102),
            encode,
        )
    };
    assert_eq!(refused("wrong-password", "alice@example.com"), Err(Error::Unauthorized));
    assert_eq!(refused("secret123", "bob@example.com"), Err(Error::NotFound("user")));
}

#[test]
fn a_token_that_cannot_be_encoded_is_not_signed() {
    let paseto = paseto(60);
    let nothing = |_: &FieldMap| -> Option<String> { None };
    let token = Token::issue(id(9), id(1), String::new(), Audience::Nobody, None, FieldMap::new(), 7);
    assert_eq!(sign_token(&token, &paseto, nothing), Err(Error::Internal("token encoding")));

    // The principal that was stored stays; a second registration conflicts.
    let mut users = Users::new();
    let alice = user(1, "alice@example.com", "secret123");
    assert_eq!(
        register_signed(&alice, &mut users, &paseto, "i".to_string(), Audience::Nobody, id(100), nothing),
        Err(Error::Internal("token encoding"))
    );
    assert_eq!(users.len(), 1);
    assert_eq!(
        register_signed(&alice, &mut users, &paseto, "i".to_string(), Audience::Nobody, id(100), encode),
        Err(Error::Conflict("user"))
    );
    assert_eq!(users.len(), 1);
    assert_eq!(
        authenticate_signed(
            &contact("alice@example.com"),
            "secret123",
            &users,
            &paseto,
            "i".to_string(),
            Audience::Nobody,
            id(101),
            nothing
        ),
        Err(Error::Internal("token encoding"))
    );
}

#[test]
fn the_stored_password_is_the_hash_of_the_given_one() {
    let mut users = Users::new();
    let alice = user(1, "alice@example.com", "secret123");
    register(&alice, &mut users, &paseto(60), "i".to_string(), Audience::Nobody, id(100)).unwrap();
    let stored = users.get_item(&Key::Pk(id(1))).unwrap();
    assert_eq!(authz_core::password::verify("secret123", &stored.password), Ok(true));
    assert_eq!(authz_core::password::verify("secret1234", &stored.password), Ok(false));
    // The hash for the salt that the stored hash names is the stored hash.
    let salt = stored.password.split('$').nth(4).unwrap();
    assert_eq!(authz_core::password::hash_with_salt("secret123", salt).unwrap(), stored.password);

    let bob = user(2, "bob@example.com", "pw");
    register_user(&bob, &mut users).unwrap();
    let stored = users.get_item(&Key::Pk(id(2))).unwrap();
    let salt = stored.password.split('$').nth(4).unwrap();
    assert_eq!(authz_core::password::hash_with_salt("pw", salt).unwrap(), stored.password);
}
