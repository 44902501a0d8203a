//! The credential service: passwords are stored as Argon2 hashes in the PHC
//! string format and checked against them.
//!
//! A stored hash is handed to Argon2 only where it can be checked: it has a
//! salt and a hash output, and the costs that it asks for are within the
//! limits of this service. The costs decide how much memory and time a check
//! takes, and Argon2 allocates what a hash asks for before it computes, so a
//! hash that asks for more than the limits is not computed with. Everything
//! else of the format is left to the reader of Argon2.

use argon2::{PasswordHasher, PasswordVerifier};
use vstd::prelude::*;
use crate::error::{is_text_result, Error};
use crate::text::{
    begins_with, chars_of, contains_char, same_text, split, split_text, starts_with,
};

verus! {

/// How every hash that this service makes begins: Argon2id, version 19,
/// 19 MiB of memory, two passes, one lane.
pub const PHC_PREFIX: &'static str = "$argon2id$v=19$m=19456,t=2,p=1$";

/// The most memory, in KiB, that a stored hash may ask for: 64 MiB.
pub const MAX_MEMORY_KIB: u32 = 65536;

/// The most passes that a stored hash may ask for.
pub const MAX_PASSES: u32 = 16;

/// The most lanes that a stored hash may ask for.
pub const MAX_LANES: u32 = 16;

/// `10^n`.
pub open spec fn pow10(n: nat) -> nat
    decreases n,
{
    if n == 0 {
        1
    } else {
        10 * pow10((n - 1) as nat)
    }
}

/// Whether `c` is a decimal digit.
pub open spec fn is_digit(c: char) -> bool {
    '0' <= c <= '9'
}

/// The number that decimal digits write. Meaningful where every character
/// is a digit.
pub open spec fn decimal_value(digits: Seq<char>) -> nat
    decreases digits.len(),
{
    if digits.len() == 0 {
        0
    } else {
        decimal_value(digits.drop_last()) * 10 + (digits.last() as nat - '0' as nat) as nat
    }
}

/// Whether `text` writes a cost of at most `max`: one to seven decimal
/// digits, the first of several not a zero.
pub open spec fn is_cost(text: Seq<char>, max: nat) -> bool {
    &&& 1 <= text.len() <= 7
    &&& forall|i: int| 0 <= i < text.len() ==> is_digit(#[trigger] text[i])
    &&& text.len() > 1 ==> text[0] != '0'
    &&& decimal_value(text) <= max
}

/// Whether `part` keeps to the limit `max` where it is the cost `name`: a
/// part that begins with `name` goes on with a cost of at most `max`.
pub open spec fn cost_allowed(part: Seq<char>, name: Seq<char>, max: nat) -> bool {
    begins_with(part, name) ==> is_cost(part.skip(name.len() as int), max)
}

/// Whether a parameter keeps to the limits: the memory `m=`, the passes
/// `t=` and the lanes `p=` are within theirs; any other parameter asks for
/// no cost.
pub open spec fn part_allowed(part: Seq<char>) -> bool {
    &&& cost_allowed(part, "m="@, MAX_MEMORY_KIB as nat)
    &&& cost_allowed(part, "t="@, MAX_PASSES as nat)
    &&& cost_allowed(part, "p="@, MAX_LANES as nat)
}

/// Whether every parameter of a parameter field, parted by commas, keeps to
/// the limits.
pub open spec fn costs_allowed(field: Seq<char>) -> bool {
    forall|i: int|
        0 <= i < split_text(field, ',').len() ==> part_allowed(
            #[trigger] split_text(field, ',')[i],
        )
}

/// Whether a field is read as the version: it begins with `v=` and holds no
/// comma.
pub open spec fn is_version(field: Seq<char>) -> bool {
    begins_with(field, "v="@) && !field.contains(',')
}

/// Whether a field is read as the parameters: it holds an equals sign.
pub open spec fn is_params(field: Seq<char>) -> bool {
    field.contains('=')
}

/// Where the parameters would stand among the fields of a stored hash: after
/// the empty first field, the variant and, where there is one, the version.
pub open spec fn params_at(fields: Seq<Seq<char>>) -> int {
    if fields.len() > 2 && is_version(fields[2]) {
        3
    } else {
        2
    }
}

/// Where the salt stands among the fields of a stored hash: after the
/// parameters, where there are any.
pub open spec fn salt_at(fields: Seq<Seq<char>>) -> int {
    if fields.len() > params_at(fields) && is_params(fields[params_at(fields)]) {
        params_at(fields) + 1
    } else {
        params_at(fields)
    }
}

/// Whether a stored hash can be checked: of its fields, parted by `$`, the
/// last two are the salt and the hash output, and its parameters, where it
/// has any, keep to the limits. The version and the parameters may be
/// absent, and the parameters may come in any order.
pub open spec fn is_checkable(stored: Seq<char>) -> bool {
    let fields = split_text(stored, '$');
    &&& fields.len() == salt_at(fields) + 2
    &&& salt_at(fields) > params_at(fields) ==> costs_allowed(fields[params_at(fields)])
}

/// The PHC string that Argon2id with its default parameters gives for a
/// password and a salt in base 64; `None` where the salt is not accepted.
pub uninterp spec fn argon2_phc(plaintext: Seq<char>, salt: Seq<char>) -> Option<Seq<char>>;

/// Whether the password matches the stored PHC string: `Some(true)` where it
/// does, `Some(false)` where it does not, `None` where the string cannot be
/// read or computed with.
pub uninterp spec fn argon2_verdict(plaintext: Seq<char>, stored: Seq<char>) -> Option<bool>;

/// A fresh random salt in base 64, from `SaltString::generate` on the
/// operating system's generator. Nothing is claimed of the value.
#[verifier::external_body]
fn fresh_salt() -> String {
    argon2::password_hash::SaltString::generate(
        &mut argon2::password_hash::rand_core::OsRng,
    ).as_str().to_owned()
}

/// `Argon2::default().hash_password` on the bytes of the password and the
/// salt that `SaltString::from_b64` reads, written as a PHC string. The
/// result is a function of the password and the salt alone; no failure of
/// the outside functions is told from another.
#[verifier::external_body]
fn argon2_hash(plaintext: &str, salt: &str) -> (out: Option<String>)
    ensures
        match out {
            Some(h) => argon2_phc(plaintext@, salt@) == Some(h@),
            None => argon2_phc(plaintext@, salt@) is None,
        },
{
    let salt = argon2::password_hash::SaltString::from_b64(salt).ok()?;
    let hash = argon2::Argon2::default().hash_password(plaintext.as_bytes(), &salt).ok()?;
    Some(hash.to_string())
}

/// `Argon2::default().verify_password` on the bytes of the password and the
/// hash that `PasswordHash::new` reads from the stored string. A match is
/// `Some(true)`, the outside error `Password` is `Some(false)`, and every
/// other failure, of reading or of computing, is `None`. The stored string
/// must be one that can be checked. That bounds the memory that the
/// computation allocates (`vec![Block::default(); block_count]` in
/// `hash_password_into`) and the passes that it makes; and such a string is
/// read with a salt and a hash output, so that `Password` says that the
/// outputs differ.
#[verifier::external_body]
fn argon2_check(plaintext: &str, stored: &str) -> (out: Option<bool>)
    requires
        is_checkable(stored@),
    ensures
        out == argon2_verdict(plaintext@, stored@),
{
    let parsed = argon2::password_hash::PasswordHash::new(stored).ok()?;
    match argon2::Argon2::default().verify_password(plaintext.as_bytes(), &parsed) {
        Ok(()) => Some(true),
        Err(argon2::password_hash::Error::Password) => Some(false),
        Err(_) => None,
    }
}

/// What a hash attempt comes to, given what the hashing gave: the hash,
/// unless there is none or it is the password itself.
pub open spec fn hash_outcome(plaintext: Seq<char>, hashed: Option<Seq<char>>) -> Result<
    Seq<char>,
    Error,
> {
    match hashed {
        Some(h) => if h == plaintext {
            Err(Error::Internal("password hashing"))
        } else {
            Ok(h)
        },
        None => Err(Error::Internal("password hashing")),
    }
}

/// What a check comes to, given the stored hash and what the comparison
/// gave: whether the password matches, unless the stored hash cannot be
/// checked, or read, or computed with.
pub open spec fn check_outcome(stored: Seq<char>, verdict: Option<bool>) -> Result<bool, Error> {
    if !is_checkable(stored) {
        Err(Error::Internal("stored password hash"))
    } else {
        match verdict {
            Some(b) => Ok(b),
            None => Err(Error::Internal("stored password hash")),
        }
    }
}

/// Decides what a hash attempt comes to: the hash is handed on unless it is
/// the password itself. Never gives the password back.
pub fn accept_hash(plaintext: &str, hashed: Option<String>) -> (out: Result<String, Error>)
    ensures
        is_text_result(
            out,
            hash_outcome(
                plaintext@,
                match hashed {
                    Some(h) => Some(h@),
                    None => None,
                },
            ),
        ),
        out matches Ok(h) ==> h@ != plaintext@,
{
    match hashed {
        Some(h) => if same_text(h.as_str(), plaintext) {
            Err(Error::Internal("password hashing"))
        } else {
            Ok(h)
        },
        None => Err(Error::Internal("password hashing")),
    }
}

/// Hashes a password with the given salt. Fails with `Internal` where the
/// salt is not accepted or the hash would be the password itself.
pub fn hash_with_salt(plaintext: &str, salt: &str) -> (out: Result<String, Error>)
    ensures
        is_text_result(out, hash_outcome(plaintext@, argon2_phc(plaintext@, salt@))),
        out matches Ok(h) ==> h@ != plaintext@,
{
    accept_hash(plaintext, argon2_hash(plaintext, salt))
}

/// Hashes a password with a fresh random salt. What comes back is never the
/// password: it is the hash for some salt, or the failure `Internal`.
pub fn hash(plaintext: &str) -> (out: Result<String, Error>)
    ensures
        match out {
            Ok(h) => h@ != plaintext@ && exists|salt: Seq<char>|
                argon2_phc(plaintext@, salt) == Some(h@),
            Err(e) => e == Error::Internal("password hashing"),
        },
{
    let salt = fresh_salt();
    hash_with_salt(plaintext, salt.as_str())
}

/// Whether the characters of `chars` from `from` on write a cost of at most
/// `max`.
fn cost_within(chars: &Vec<char>, from: usize, max: u32) -> (out: bool)
    requires
        from <= chars@.len(),
    ensures
        out == is_cost(chars@.skip(from as int), max as nat),
{
    let ghost text = chars@.skip(from as int);
    let n = chars.len() - from;
    if n < 1 || n > 7 {
        return false;
    }
    if n > 1 && chars[from] == '0' {
        assert(text[0] == '0');
        return false;
    }
    let mut acc: u32 = 0;
    let mut i: usize = 0;
    assert(text.take(0) =~= Seq::<char>::empty());
    while i < n
        invariant
            i <= n <= 7,
            n == text.len(),
            from + n == chars.len(),
            text == chars@.skip(from as int),
            forall|j: int| 0 <= j < i ==> is_digit(#[trigger] text[j]),
            acc == decimal_value(text.take(i as int)),
            acc < pow10(i as nat),
        decreases n - i,
    {
        let c = chars[from + i];
        assert(c == text[i as int]);
        if !('0' <= c && c <= '9') {
            return false;
        }
        proof {
            reveal_with_fuel(pow10, 9);
            assert(text.take(i + 1).drop_last() == text.take(i as int));
            assert(text.take(i + 1).last() == c);
        }
        acc = acc * 10 + (c as u32 - '0' as u32);
        i += 1;
    }
    assert(text.take(n as int) == text);
    acc <= max
}

/// Whether `part` keeps to the limit `max` where it is the cost `name`.
fn allows_cost(part: &str, name: &str, max: u32) -> (out: bool)
    ensures
        out == cost_allowed(part@, name@, max as nat),
{
    if !starts_with(part, name) {
        return true;
    }
    let chars = chars_of(part);
    let skipped = chars_of(name).len();
    cost_within(&chars, skipped, max)
}

/// Whether every parameter of a parameter field keeps to the limits.
fn allows_costs(field: &str) -> (out: bool)
    ensures
        out == costs_allowed(field@),
{
    let parts = split(&chars_of(field), ',');
    let mut i: usize = 0;
    while i < parts.len()
        invariant
            i <= parts.len(),
            parts.deep_view() == split_text(field@, ','),
            forall|j: int| 0 <= j < i ==> part_allowed(#[trigger] split_text(field@, ',')[j]),
        decreases parts.len() - i,
    {
        assert(parts.deep_view()[i as int] == parts[i as int]@);
        let part = parts[i].as_str();
        if !(allows_cost(part, "m=", MAX_MEMORY_KIB) && allows_cost(part, "t=", MAX_PASSES)
            && allows_cost(part, "p=", MAX_LANES)) {
            assert(!part_allowed(split_text(field@, ',')[i as int]));
            return false;
        }
        i += 1;
    }
    true
}

/// Whether a stored hash can be checked.
pub fn checkable(stored: &str) -> (out: bool)
    ensures
        out == is_checkable(stored@),
{
    let fields = split(&chars_of(stored), '$');
    let n = fields.len();
    let mut at: usize = 2;
    if n > 2 {
        assert(fields.deep_view()[2] == fields[2]@);
        let field = fields[2].as_str();
        if starts_with(field, "v=") && !contains_char(&chars_of(field), ',') {
            at = 3;
        }
    }
    assert(at == params_at(fields.deep_view()));
    let mut within = true;
    let mut salt = at;
    if n > at {
        assert(fields.deep_view()[at as int] == fields[at as int]@);
        let field = fields[at].as_str();
        if contains_char(&chars_of(field), '=') {
            within = allows_costs(field);
            salt = at + 1;
        }
    }
    assert(salt == salt_at(fields.deep_view()));
    n == salt + 2 && within
}

/// Checks a password against a stored hash: `Ok(true)` where it matches and
/// `Ok(false)` where it does not. Fails with `Internal` only where the stored
/// hash is malformed or asks for too much: it lacks the salt or the hash
/// output, it cannot be read or computed with, or it asks for costs beyond
/// the limits of this service.
pub fn verify(plaintext: &str, stored: &str) -> (out: Result<bool, Error>)
    ensures
        out == check_outcome(stored@, argon2_verdict(plaintext@, stored@)),
{
    if !checkable(stored) {
        return Err(Error::Internal("stored password hash"));
    }
    match argon2_check(plaintext, stored) {
        Some(b) => Ok(b),
        None => Err(Error::Internal("stored password hash")),
    }
}

/// What a verified check means for the one who presented the password:
/// nothing on a match, `Unauthorized` on a mismatch, and the failure itself
/// where the check failed.
pub fn admit_password(checked: Result<bool, Error>) -> (out: Result<(), Error>)
    ensures
        out == match checked {
            Ok(true) => Ok::<(), Error>(()),
            Ok(false) => Err::<(), Error>(Error::Unauthorized),
            Err(e) => Err::<(), Error>(e),
        },
{
    match checked {
        Ok(true) => Ok(()),
        Ok(false) => Err(Error::Unauthorized),
        Err(e) => Err(e),
    }
}

} // verus!
