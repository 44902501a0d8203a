use authz_core::error::Error;
use authz_core::id::Id;
use authz_core::token::{authorize_claims, expiry, Audience, Token, MICROS_PER_SECOND};

const S: i64 = 1_000_000;
use authz_core::value::{FieldMap, Value};

fn id(n: u128) -> Id {
    Id::new(n).unwrap()
}

fn sample(ttl: Option<i64>, now: i64) -> Token {
    Token::issue(id(1), id(2), "issuer".to_string(), Audience::One("api".to_string()), ttl, FieldMap::new(), now)
}

#[test]
fn audience_emptiness() {
    assert!(Audience::Nobody.is_empty());
    assert!(Audience::One(String::new()).is_empty());
    assert!(!Audience::One("a".to_string()).is_empty());
    assert!(Audience::Many(vec![]).is_empty());
    assert!(!Audience::Many(vec![String::new()]).is_empty());
    assert_eq!(Audience::default(), Audience::Nobody);
}

#[test]
fn issue_stamps_the_times() {
    let token = sample(Some(60), 1_000);
    assert_eq!(token.id, id(1));
    assert_eq!(token.subject, id(2));
    assert_eq!(token.issuer, "issuer");
    assert_eq!(token.audience, Audience::One("api".to_string()));
    assert_eq!(token.issued_at, 1_000);
    assert_eq!(token.expiration, Some(60_001_000));
    assert_eq!(token.not_before, None);
    assert_eq!(sample(None, 1_000).expiration, None);
    assert_eq!(sample(Some(0), 5).expiration, Some(5));
    assert_eq!(sample(Some(-10), 5).expiration, Some(-9_999_995));
    assert_eq!(sample(Some(1), 1_700_000_000_123_456).expiration, Some(1_700_000_001_123_456));
}

#[test]
fn expiration_stays_in_range() {
    assert_eq!(MICROS_PER_SECOND, S);
    assert_eq!(expiry(1, 2), 2_000_001);
    assert_eq!(expiry(0, 0), 0);
    assert_eq!(expiry(i64::MAX, 1), i64::MAX);
    assert_eq!(expiry(i64::MAX - S, 1), i64::MAX);
    assert_eq!(expiry(i64::MAX - S - 1, 1), i64::MAX - 1);
    assert_eq!(expiry(i64::MIN, -1), i64::MIN);
    assert_eq!(expiry(0, i64::MAX), i64::MAX);
    assert_eq!(expiry(0, i64::MIN), i64::MIN);
    assert_eq!(expiry(i64::MIN, i64::MAX), i64::MAX);
    // A product beyond the range whose sum is within it.
    assert_eq!(expiry(i64::MIN, 9_223_372_036_855), 224_192);
    assert_eq!(expiry(i64::MAX, -9_223_372_036_855), -224_193);
    assert_eq!(sample(Some(i64::MAX), 1).expiration, Some(i64::MAX));
}

#[test]
fn token_lifecycle() {
    let token = sample(Some(1), 1_000);
    assert!(!token.expired(999));
    assert!(!token.expired(1_000));
    // Within the second the token counts, to its last microsecond.
    assert!(!token.expired(1_001));
    assert!(!token.expired(1_000 + S - 1));
    assert!(token.expired(1_000 + S));
    assert!(token.expired(1_000 + 2 * S));
    assert!(!sample(None, 1_000).expired(i64::MAX));

    let claims = token.to_claims();
    assert_eq!(authorize_claims(&claims, 1_000), Ok(id(2)));
    assert_eq!(authorize_claims(&claims, 1_000 + S - 1), Ok(id(2)));
    assert_eq!(authorize_claims(&claims, 1_000 + S), Err(Error::ExpiredToken));
    assert_eq!(authorize_claims(&claims, i64::MAX), Err(Error::ExpiredToken));
    assert_eq!(authorize_claims(&sample(None, 1_000).to_claims(), i64::MAX), Ok(id(2)));
}

#[test]
fn claims_follow_the_fixed_mapping() {
    let mut more = FieldMap::new();
    more.insert("role", Value::String("admin".to_string()));
    more.insert("sub", Value::String("spoofed".to_string()));
    more.insert("aud", Value::String("spoofed".to_string()));
    let token = Token::issue(id(0xa), id(0xb), "me".to_string(), Audience::Nobody, Some(5), more, 100);
    let claims = token.to_claims();
    assert_eq!(claims.get("jti"), Some(&Value::String("00000000000000000000000a".to_string())));
    assert_eq!(claims.get("iss"), Some(&Value::String("me".to_string())));
    assert_eq!(claims.get("sub"), Some(&Value::String("00000000000000000000000b".to_string())));
    assert_eq!(claims.get("aud"), None);
    assert_eq!(claims.get("exp"), Some(&Value::Number(5_000_100)));
    assert_eq!(claims.get("nbf"), Some(&Value::Null));
    assert_eq!(claims.get("iat"), Some(&Value::Number(100)));
    assert_eq!(claims.get("role"), Some(&Value::String("admin".to_string())));

    let many = Token::issue(
        id(1),
        id(2),
        String::new(),
        Audience::Many(vec!["a".to_string(), "b".to_string()]),
        None,
        FieldMap::new(),
        0,
    );
    let claims = many.to_claims();
    assert_eq!(claims.get("aud"), Some(&Value::List(vec!["a".to_string(), "b".to_string()])));
    assert_eq!(claims.get("exp"), Some(&Value::Null));
    assert_eq!(sample(None, 0).to_claims().get("aud"), Some(&Value::String("api".to_string())));
}

#[test]
fn claims_are_written_in_order() {
    let mut more = FieldMap::new();
    more.insert("role", Value::Null);
    more.insert("iss", Value::Null);
    more.insert("aud", Value::Null);
    let token = Token::issue(id(1), id(2), "i".to_string(), Audience::Nobody, None, more.clone(), 0);
    assert_eq!(token.to_claims().names(), vec!["role", "iss", "jti", "sub", "exp", "nbf", "iat"]);
    let token = Token::issue(id(1), id(2), "i".to_string(), Audience::One("a".to_string()), None, more, 0);
    assert_eq!(token.to_claims().names(), vec!["role", "iss", "aud", "jti", "sub", "exp", "nbf", "iat"]);
    assert_eq!(
        sample(None, 0).to_claims().names(),
        vec!["jti", "iss", "sub", "exp", "nbf", "iat", "aud"]
    );
    let back = Token::from_claims(&token.to_claims()).unwrap();
    assert_eq!(back.claims.names(), vec!["role"]);
}

#[test]
fn claims_round_trip() {
    let mut more = FieldMap::new();
    more.insert("role", Value::String("admin".to_string()));
    more.insert("level", Value::Number(3));
    for audience in [
        Audience::Nobody,
        Audience::One("api".to_string()),
        Audience::Many(vec!["a".to_string(), "b".to_string()]),
    ] {
        for ttl in [None, Some(60)] {
            let token = Token::issue(id(7), id(8), "iss".to_string(), audience.clone(), ttl, more.clone(), 42);
            let back = Token::from_claims(&token.to_claims()).unwrap();
            assert_eq!(back.id, token.id);
            assert_eq!(back.issuer, token.issuer);
            assert_eq!(back.subject, token.subject);
            assert_eq!(back.audience, token.audience);
            assert_eq!(back.expiration, token.expiration);
            assert_eq!(back.not_before, token.not_before);
            assert_eq!(back.issued_at, token.issued_at);
            assert_eq!(back.claims.names(), vec!["role".to_string(), "level".to_string()]);
            assert_eq!(back.claims.get("role"), Some(&Value::String("admin".to_string())));
            assert_eq!(back.claims.get("level"), Some(&Value::Number(3)));
            assert_eq!(back.clone(), back);
        }
    }
}

#[test]
fn malformed_claims_write_no_token() {
    let good = sample(Some(1), 10).to_claims();
    assert!(Token::from_claims(&good).is_ok());
    assert_eq!(Token::from_claims(&FieldMap::new()).unwrap_err(), Error::InvalidToken);
    assert_eq!(authorize_claims(&FieldMap::new(), 0), Err(Error::InvalidToken));

    for name in ["jti", "sub", "iat"] {
        let mut claims = good.clone();
        claims.remove(name);
        assert_eq!(Token::from_claims(&claims).unwrap_err(), Error::InvalidToken);
    }
    for (name, value) in [
        ("jti", Value::String("short".to_string())),
        ("sub", Value::Number(2)),
        ("iss", Value::Number(2)),
        ("aud", Value::Bool(true)),
        ("exp", Value::String("2022-01-01".to_string())),
        ("nbf", Value::Bool(false)),
        ("iat", Value::Null),
    ] {
        let mut claims = good.clone();
        claims.insert(name, value);
        assert_eq!(Token::from_claims(&claims).unwrap_err(), Error::InvalidToken);
        // A malformed token is invalid, not expired, however late it is.
        assert_eq!(authorize_claims(&claims, i64::MAX), Err(Error::InvalidToken));
    }

    // What may be absent: the issuer, the audience and the two bounds.
    let mut claims = good.clone();
    for name in ["iss", "aud", "exp", "nbf"] {
        claims.remove(name);
    }
    let token = Token::from_claims(&claims).unwrap();
    assert_eq!(token.issuer, "");
    assert_eq!(token.audience, Audience::Nobody);
    assert_eq!(token.expiration, None);
    assert_eq!(token.not_before, None);
    let mut claims = good.clone();
    claims.insert("aud", Value::Null);
    assert_eq!(Token::from_claims(&claims).unwrap().audience, Audience::Nobody);
}
