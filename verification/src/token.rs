//! Tokens: time-bounded assertions of a principal's identity, their claims
//! and the rule by which a token counts as expired.

use vstd::prelude::*;
use crate::error::Error;
use crate::id::{hex_digits, lemma_id_text_round_trip, parsed_id, Id, HEX_LEN};
use crate::value::{clone_strings, with_name, without_name, FieldMap, Value, ValueView};

verus! {

/// For whom a token is meant: nobody in particular, one audience or many.
#[derive(Debug, PartialEq, Eq)]
pub enum Audience {
    Nobody,
    One(String),
    Many(Vec<String>),
}

/// What an [`Audience`] holds.
pub enum AudienceView {
    Nobody,
    One(Seq<char>),
    Many(Seq<Seq<char>>),
}

impl AudienceView {
    /// Whether the audience names nobody: none, an empty name or an empty
    /// list.
    pub open spec fn is_empty(self) -> bool {
        match self {
            AudienceView::Nobody => true,
            AudienceView::One(aud) => aud.len() == 0,
            AudienceView::Many(aud) => aud.len() == 0,
        }
    }

    /// The value that writes the audience down: a text for one, a list for
    /// many.
    pub open spec fn value(self) -> ValueView {
        match self {
            AudienceView::Nobody => ValueView::Null,
            AudienceView::One(aud) => ValueView::String(aud),
            AudienceView::Many(aud) => ValueView::List(aud),
        }
    }
}

impl View for Audience {
    type V = AudienceView;

    open spec fn view(&self) -> AudienceView {
        match self {
            Audience::Nobody => AudienceView::Nobody,
            Audience::One(aud) => AudienceView::One(aud@),
            Audience::Many(aud) => AudienceView::Many(aud.deep_view()),
        }
    }
}

impl Clone for Audience {
    fn clone(&self) -> (out: Audience)
        ensures
            out@ == self@,
    {
        match self {
            Audience::Nobody => Audience::Nobody,
            Audience::One(aud) => Audience::One(aud.clone()),
            Audience::Many(aud) => Audience::Many(clone_strings(aud)),
        }
    }
}

impl Default for Audience {
    fn default() -> (out: Audience)
        ensures
            out@ == AudienceView::Nobody,
    {
        Audience::Nobody
    }
}

impl Audience {
    /// Whether the audience names nobody: none, an empty name or an empty
    /// list.
    pub fn is_empty(&self) -> (out: bool)
        ensures
            out == self@.is_empty(),
    {
        match self {
            Audience::Nobody => true,
            Audience::One(aud) => aud.as_str().is_empty(),
            Audience::Many(aud) => aud.len() == 0,
        }
    }
}

/// The number of microseconds in a second.
pub const MICROS_PER_SECOND: i64 = 1_000_000;

/// The time at which a token expires that was issued at `issued_at`, in
/// microseconds, with the time to live `ttl`, in seconds: their sum, held
/// within the range of `i64`.
pub open spec fn expiry_time(issued_at: i64, ttl: i64) -> i64 {
    if issued_at + ttl * MICROS_PER_SECOND > i64::MAX {
        i64::MAX
    } else if issued_at + ttl * MICROS_PER_SECOND < i64::MIN {
        i64::MIN
    } else {
        (issued_at + ttl * MICROS_PER_SECOND) as i64
    }
}

/// A token: who issued it, about whom, for whom, and for how long. Times are
/// microseconds since the epoch, so that a token lives for its whole time to
/// live but for a microsecond.
#[derive(Debug, PartialEq, Eq)]
pub struct Token {
    /// The identifier of the token.
    pub id: Id,
    /// Who issued the token.
    pub issuer: String,
    /// The principal that the token speaks of.
    pub subject: Id,
    /// For whom the token is meant.
    pub audience: Audience,
    /// From when on the token no longer counts.
    pub expiration: Option<i64>,
    /// Before when the token does not count yet.
    pub not_before: Option<i64>,
    /// When the token was issued.
    pub issued_at: i64,
    /// Further claims, by name.
    pub claims: FieldMap,
}

/// What a [`Token`] holds.
pub struct TokenView {
    pub id: Id,
    pub issuer: Seq<char>,
    pub subject: Id,
    pub audience: AudienceView,
    pub expiration: Option<i64>,
    pub not_before: Option<i64>,
    pub issued_at: i64,
    pub claims: Map<Seq<char>, ValueView>,
}

impl View for Token {
    type V = TokenView;

    open spec fn view(&self) -> TokenView {
        TokenView {
            id: self.id,
            issuer: self.issuer@,
            subject: self.subject,
            audience: self.audience@,
            expiration: self.expiration,
            not_before: self.not_before,
            issued_at: self.issued_at,
            claims: self.claims@,
        }
    }
}

impl Clone for Token {
    fn clone(&self) -> (out: Token)
        ensures
            out@ == self@,
    {
        Token {
            id: self.id,
            issuer: self.issuer.clone(),
            subject: self.subject,
            audience: self.audience.clone(),
            expiration: self.expiration,
            not_before: self.not_before,
            issued_at: self.issued_at,
            claims: self.claims.clone(),
        }
    }
}

/// The value that writes an optional time down.
pub open spec fn time_value(time: Option<i64>) -> ValueView {
    match time {
        Some(t) => ValueView::Number(t),
        None => ValueView::Null,
    }
}

/// The optional time that the claim `name` gives: none where the claim is
/// absent or null. The outer `None` says that the claim is no time.
pub open spec fn time_claim(fields: Map<Seq<char>, ValueView>, name: Seq<char>) -> Option<
    Option<i64>,
> {
    if fields.contains_key(name) {
        match fields[name] {
            ValueView::Null => Some(None),
            ValueView::Number(t) => Some(Some(t)),
            _ => None,
        }
    } else {
        Some(None)
    }
}

/// The identifier that the claim `name` gives, if it writes one.
pub open spec fn id_claim(fields: Map<Seq<char>, ValueView>, name: Seq<char>) -> Option<Id> {
    if fields.contains_key(name) {
        match fields[name] {
            ValueView::String(s) => parsed_id(s),
            _ => None,
        }
    } else {
        None
    }
}

/// The issuer that the claims give: empty where `iss` is absent.
pub open spec fn issuer_claim(fields: Map<Seq<char>, ValueView>) -> Option<Seq<char>> {
    if fields.contains_key("iss"@) {
        match fields["iss"@] {
            ValueView::String(s) => Some(s),
            _ => None,
        }
    } else {
        Some(Seq::empty())
    }
}

/// The audience that the claims give: none where `aud` is absent or null.
pub open spec fn audience_claim(fields: Map<Seq<char>, ValueView>) -> Option<AudienceView> {
    if fields.contains_key("aud"@) {
        match fields["aud"@] {
            ValueView::Null => Some(AudienceView::Nobody),
            ValueView::String(s) => Some(AudienceView::One(s)),
            ValueView::List(l) => Some(AudienceView::Many(l)),
            _ => None,
        }
    } else {
        Some(AudienceView::Nobody)
    }
}

/// The issued-at time that the claims give.
pub open spec fn issued_claim(fields: Map<Seq<char>, ValueView>) -> Option<i64> {
    if fields.contains_key("iat"@) {
        match fields["iat"@] {
            ValueView::Number(t) => Some(t),
            _ => None,
        }
    } else {
        None
    }
}

/// The names of the claims that write a token down, in the order in which
/// they are written: the further claims in their own order, then those of
/// `jti`, `iss`, `sub`, `exp`, `nbf`, `iat` and `aud` that are not among them.
/// For an empty audience `aud` is struck.
pub open spec fn claim_names(further: Seq<Seq<char>>, audience_is_empty: bool) -> Seq<Seq<char>> {
    let registered = with_name(
        with_name(
            with_name(
                with_name(with_name(with_name(further, "jti"@), "iss"@), "sub"@),
                "exp"@,
            ),
            "nbf"@,
        ),
        "iat"@,
    );
    if audience_is_empty {
        without_name(registered, "aud"@)
    } else {
        with_name(registered, "aud"@)
    }
}

/// The names without the seven registered ones, the others in their order.
pub open spec fn open_names(names: Seq<Seq<char>>) -> Seq<Seq<char>> {
    without_name(
        without_name(
            without_name(
                without_name(
                    without_name(without_name(without_name(names, "jti"@), "iss"@), "sub"@),
                    "aud"@,
                ),
                "exp"@,
            ),
            "nbf"@,
        ),
        "iat"@,
    )
}

/// The claims without the seven registered ones.
pub open spec fn open_claims(fields: Map<Seq<char>, ValueView>) -> Map<Seq<char>, ValueView> {
    fields.remove("jti"@).remove("iss"@).remove("sub"@).remove("aud"@).remove("exp"@).remove(
        "nbf"@,
    ).remove("iat"@)
}

impl TokenView {
    /// The token that is issued at `now`: it expires `ttl` seconds later, if
    /// a `ttl` is given, and has no not-before time.
    pub open spec fn issued(
        id: Id,
        subject: Id,
        issuer: Seq<char>,
        audience: AudienceView,
        ttl: Option<i64>,
        claims: Map<Seq<char>, ValueView>,
        now: i64,
    ) -> TokenView {
        TokenView {
            id,
            issuer,
            subject,
            audience,
            expiration: match ttl {
                Some(span) => Some(expiry_time(now, span)),
                None => None,
            },
            not_before: None,
            issued_at: now,
            claims,
        }
    }

    /// Whether the token no longer counts at `now`: it has an expiration
    /// and `now` is not before it.
    pub open spec fn expired(self, now: i64) -> bool {
        self.expiration matches Some(end) && now >= end
    }

    /// The claims that write the token down. The further claims come first,
    /// so that none of them stands for a registered claim: `jti`, `iss`,
    /// `sub`, `exp`, `nbf` and `iat` are always the token's own, and `aud`
    /// is the token's own or, for an empty audience, absent.
    pub open spec fn claims_map(self) -> Map<Seq<char>, ValueView> {
        let registered = self.claims.insert(
            "jti"@,
            ValueView::String(hex_digits(self.id.number() as nat, HEX_LEN as nat)),
        ).insert("iss"@, ValueView::String(self.issuer)).insert(
            "sub"@,
            ValueView::String(hex_digits(self.subject.number() as nat, HEX_LEN as nat)),
        ).insert("exp"@, time_value(self.expiration)).insert(
            "nbf"@,
            time_value(self.not_before),
        ).insert("iat"@, ValueView::Number(self.issued_at));
        if self.audience.is_empty() {
            registered.remove("aud"@)
        } else {
            registered.insert("aud"@, self.audience.value())
        }
    }

    /// The token that claims write, if they write one: `jti` and `sub` are
    /// identifiers, `iat` is a time, and `iss`, `aud`, `exp` and `nbf`, where
    /// present, are of their kinds.
    pub open spec fn of_claims(fields: Map<Seq<char>, ValueView>) -> Option<TokenView> {
        match (
            id_claim(fields, "jti"@),
            issuer_claim(fields),
            id_claim(fields, "sub"@),
            audience_claim(fields),
            time_claim(fields, "exp"@),
            time_claim(fields, "nbf"@),
            issued_claim(fields),
        ) {
            (
                Some(id),
                Some(issuer),
                Some(subject),
                Some(audience),
                Some(expiration),
                Some(not_before),
                Some(issued_at),
            ) => Some(
                TokenView {
                    id,
                    issuer,
                    subject,
                    audience,
                    expiration,
                    not_before,
                    issued_at,
                    claims: open_claims(fields),
                },
            ),
            _ => None,
        }
    }
}

/// What an attempt to authorize with the given claims at `now` comes to: the
/// subject, unless the claims write no token (`InvalidToken`) or the token
/// is expired (`ExpiredToken`).
pub open spec fn authorized(fields: Map<Seq<char>, ValueView>, now: i64) -> Result<Id, Error> {
    match TokenView::of_claims(fields) {
        Some(token) => if token.expired(now) {
            Err(Error::ExpiredToken)
        } else {
            Ok(token.subject)
        },
        None => Err(Error::InvalidToken),
    }
}

/// The time at which a token expires that was issued at `issued_at`, in
/// microseconds, with the time to live `ttl`, in seconds.
pub fn expiry(issued_at: i64, ttl: i64) -> (out: i64)
    ensures
        out == expiry_time(issued_at, ttl),
{
    let sum: i128 = issued_at as i128 + ttl as i128 * 1_000_000i128;
    if sum > i64::MAX as i128 {
        i64::MAX
    } else if sum < i64::MIN as i128 {
        i64::MIN
    } else {
        sum as i64
    }
}

/// The optional time that the claim `name` gives.
fn read_time(fields: &FieldMap, name: &str) -> (out: Option<Option<i64>>)
    ensures
        out == time_claim(fields@, name@),
{
    match fields.get(name) {
        Some(Value::Null) => Some(None),
        Some(Value::Number(t)) => Some(Some(*t)),
        Some(_) => None,
        None => Some(None),
    }
}

/// The identifier that the claim `name` gives.
fn read_id(fields: &FieldMap, name: &str) -> (out: Option<Id>)
    ensures
        out == id_claim(fields@, name@),
{
    match fields.get(name) {
        Some(Value::String(s)) => Id::parse(s.as_str()),
        _ => None,
    }
}

impl Token {
    /// Issues a token at the time `now`, in microseconds: issued-at is `now`,
    /// the expiration is `ttl` seconds after `now` where a `ttl` is given,
    /// held within the range of the time, and there is no not-before time.
    pub fn issue(
        id: Id,
        subject: Id,
        issuer: String,
        audience: Audience,
        ttl: Option<i64>,
        claims: FieldMap,
        now: i64,
    ) -> (out: Token)
        ensures
            out@ == TokenView::issued(id, subject, issuer@, audience@, ttl, claims@, now),
    {
        let expiration = match ttl {
            Some(span) => Some(expiry(now, span)),
            None => None,
        };
        Token {
            id,
            issuer,
            subject,
            audience,
            expiration,
            not_before: None,
            issued_at: now,
            claims,
        }
    }

    /// Whether the token no longer counts at `now`.
    pub fn expired(&self, now: i64) -> (out: bool)
        ensures
            out == self@.expired(now),
    {
        match self.expiration {
            Some(end) => now >= end,
            None => false,
        }
    }

    /// The claims that write the token down, in the order in which they are
    /// written.
    pub fn to_claims(&self) -> (out: FieldMap)
        ensures
            out@ == self@.claims_map(),
            out.name_order() == claim_names(self.claims.name_order(), self@.audience.is_empty()),
    {
        let mut out = self.claims.clone();
        out.insert("jti", Value::String(self.id.to_hex()));
        out.insert("iss", Value::String(self.issuer.clone()));
        out.insert("sub", Value::String(self.subject.to_hex()));
        out.insert(
            "exp",
            match self.expiration {
                Some(t) => Value::Number(t),
                None => Value::Null,
            },
        );
        out.insert(
            "nbf",
            match self.not_before {
                Some(t) => Value::Number(t),
                None => Value::Null,
            },
        );
        out.insert("iat", Value::Number(self.issued_at));
        if self.audience.is_empty() {
            out.remove("aud");
        } else {
            match &self.audience {
                Audience::Nobody => {},
                Audience::One(aud) => {
                    out.insert("aud", Value::String(aud.clone()));
                },
                Audience::Many(aud) => {
                    out.insert("aud", Value::List(clone_strings(aud)));
                },
            }
        }
        out
    }

    /// The token that claims write. Fails with `InvalidToken` where they
    /// write none.
    pub fn from_claims(fields: &FieldMap) -> (out: Result<Token, Error>)
        ensures
            match out {
                Ok(token) => TokenView::of_claims(fields@) == Some(token@)
                    && token.claims.name_order() == open_names(fields.name_order()),
                Err(e) => TokenView::of_claims(fields@) is None && e == Error::InvalidToken,
            },
    {
        let id = match read_id(fields, "jti") {
            Some(id) => id,
            None => {
                return Err(Error::InvalidToken);
            },
        };
        let issuer = match fields.get("iss") {
            Some(Value::String(s)) => s.clone(),
            Some(_) => {
                return Err(Error::InvalidToken);
            },
            None => String::new(),
        };
        let subject = match read_id(fields, "sub") {
            Some(id) => id,
            None => {
                return Err(Error::InvalidToken);
            },
        };
        let audience = match fields.get("aud") {
            Some(Value::Null) => Audience::Nobody,
            Some(Value::String(s)) => Audience::One(s.clone()),
            Some(Value::List(l)) => Audience::Many(clone_strings(l)),
            Some(_) => {
                return Err(Error::InvalidToken);
            },
            None => Audience::Nobody,
        };
        let expiration = match read_time(fields, "exp") {
            Some(t) => t,
            None => {
                return Err(Error::InvalidToken);
            },
        };
        let not_before = match read_time(fields, "nbf") {
            Some(t) => t,
            None => {
                return Err(Error::InvalidToken);
            },
        };
        let issued_at = match fields.get("iat") {
            Some(Value::Number(t)) => *t,
            _ => {
                return Err(Error::InvalidToken);
            },
        };
        let mut claims = fields.clone();
        claims.remove("jti");
        claims.remove("iss");
        claims.remove("sub");
        claims.remove("aud");
        claims.remove("exp");
        claims.remove("nbf");
        claims.remove("iat");
        Ok(Token { id, issuer, subject, audience, expiration, not_before, issued_at, claims })
    }
}

/// Authorizes the bearer of verified claims at the time `now`, in
/// microseconds: gives the
/// subject of the token that the claims write. Fails with `InvalidToken`
/// where they write none and with `ExpiredToken` where the token has an
/// expiration that `now` has reached.
pub fn authorize_claims(fields: &FieldMap, now: i64) -> (out: Result<Id, Error>)
    ensures
        out == authorized(fields@, now),
{
    match Token::from_claims(fields) {
        Ok(token) => if token.expired(now) {
            Err(Error::ExpiredToken)
        } else {
            Ok(token.subject)
        },
        Err(e) => Err(e),
    }
}

/// Whether `name` is one of the seven registered claims.
pub open spec fn is_registered(name: Seq<char>) -> bool {
    name == "jti"@ || name == "iss"@ || name == "sub"@ || name == "aud"@ || name == "exp"@ || name
        == "nbf"@ || name == "iat"@
}

/// The names of the seven registered claims differ from one another.
pub proof fn lemma_registered_names()
    ensures
        "jti"@ != "iss"@,
        "jti"@ != "sub"@,
        "jti"@ != "aud"@,
        "jti"@ != "exp"@,
        "jti"@ != "nbf"@,
        "jti"@ != "iat"@,
        "iss"@ != "sub"@,
        "iss"@ != "aud"@,
        "iss"@ != "exp"@,
        "iss"@ != "nbf"@,
        "iss"@ != "iat"@,
        "sub"@ != "aud"@,
        "sub"@ != "exp"@,
        "sub"@ != "nbf"@,
        "sub"@ != "iat"@,
        "aud"@ != "exp"@,
        "aud"@ != "nbf"@,
        "aud"@ != "iat"@,
        "exp"@ != "nbf"@,
        "exp"@ != "iat"@,
        "nbf"@ != "iat"@,
{
    reveal_strlit("jti");
    reveal_strlit("iss");
    reveal_strlit("sub");
    reveal_strlit("aud");
    reveal_strlit("exp");
    reveal_strlit("nbf");
    reveal_strlit("iat");
    assert("jti"@[0] == 'j');
    assert("iss"@[0] == 'i' && "iss"@[1] == 's');
    assert("sub"@[0] == 's');
    assert("aud"@[0] == 'a');
    assert("exp"@[0] == 'e');
    assert("nbf"@[0] == 'n');
    assert("iat"@[0] == 'i' && "iat"@[1] == 'a');
}

/// Claims round trip: the claims that write a token down write that token,
/// provided that its identifiers are well-formed, that none of its further
/// claims has a registered name, and that its audience is nobody or names
/// somebody.
pub proof fn lemma_claims_round_trip(token: TokenView)
    requires
        token.id.wf(),
        token.subject.wf(),
        forall|name: Seq<char>| is_registered(name) ==> !token.claims.contains_key(name),
        token.audience is Nobody || !token.audience.is_empty(),
    ensures
        TokenView::of_claims(token.claims_map()) == Some(token),
{
    lemma_registered_names();
    lemma_id_text_round_trip(token.id);
    lemma_id_text_round_trip(token.subject);
    let fields = token.claims_map();
    assert(is_registered("jti"@) && is_registered("iss"@) && is_registered("sub"@)
        && is_registered("aud"@) && is_registered("exp"@) && is_registered("nbf"@)
        && is_registered("iat"@));
    assert(open_claims(fields) =~= token.claims);
}

/// Token lifecycle: the claims of a token that was issued at `now` with the
/// time to live `ttl` authorize its subject until `ttl` seconds after `now`
/// and fail with `ExpiredToken` from then on.
pub proof fn lemma_token_lifecycle(
    id: Id,
    subject: Id,
    issuer: Seq<char>,
    audience: AudienceView,
    ttl: i64,
    claims: Map<Seq<char>, ValueView>,
    now: i64,
    later: i64,
)
    requires
        id.wf(),
        subject.wf(),
        forall|name: Seq<char>| is_registered(name) ==> !claims.contains_key(name),
        audience is Nobody || !audience.is_empty(),
        i64::MIN <= now + ttl * MICROS_PER_SECOND <= i64::MAX,
    ensures
        authorized(
            TokenView::issued(id, subject, issuer, audience, Some(ttl), claims, now).claims_map(),
            later,
        ) == if later >= now + ttl * MICROS_PER_SECOND {
            Err::<Id, Error>(Error::ExpiredToken)
        } else {
            Ok::<Id, Error>(subject)
        },
{
    lemma_claims_round_trip(
        TokenView::issued(id, subject, issuer, audience, Some(ttl), claims, now),
    );
}

/// Token lifecycle: a token that was issued at `now` with the time to live
/// `ttl` is expired exactly from `ttl` seconds after `now` on, and one that
/// was issued without a time to live never is.
pub proof fn lemma_issued_expiry(
    id: Id,
    subject: Id,
    issuer: Seq<char>,
    audience: AudienceView,
    ttl: Option<i64>,
    claims: Map<Seq<char>, ValueView>,
    now: i64,
    later: i64,
)
    requires
        ttl matches Some(span) ==> i64::MIN <= now + span * MICROS_PER_SECOND <= i64::MAX,
    ensures
        TokenView::issued(id, subject, issuer, audience, ttl, claims, now).expired(later) <==> (
        ttl matches Some(span) && later >= now + span * MICROS_PER_SECOND),
        TokenView::issued(id, subject, issuer, audience, ttl, claims, now).subject == subject,
{
}

} // verus!
