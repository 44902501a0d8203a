//! Record identifiers: 96-bit values written as 24 hexadecimal digits.

use vstd::arithmetic::div_mod::lemma_div_denominator;
use vstd::array::ArrayAdditionalExecFns;
use vstd::prelude::*;
use crate::text::chars_of;

verus! {

/// Number of hexadecimal digits in the textual form of an identifier.
pub const HEX_LEN: usize = 24;

/// Number of bytes in the binary form of an identifier.
pub const BYTE_LEN: usize = 12;

/// Exclusive upper bound of the identifier values, `2^96`.
pub const ID_LIMIT: u128 = 0x1_0000_0000_0000_0000_0000_0000u128;

/// `16^n`.
pub open spec fn pow16(n: nat) -> nat
    decreases n,
{
    if n == 0 {
        1
    } else {
        16 * pow16((n - 1) as nat)
    }
}

/// The value of one hexadecimal digit, in either case, if `c` is one.
pub open spec fn hex_digit_value(c: char) -> Option<nat> {
    if '0' <= c <= '9' {
        Some((c as nat - '0' as nat) as nat)
    } else if 'a' <= c <= 'f' {
        Some((c as nat - 'a' as nat + 10) as nat)
    } else if 'A' <= c <= 'F' {
        Some((c as nat - 'A' as nat + 10) as nat)
    } else {
        None
    }
}

/// The lower-case hexadecimal digit that stands for `d`, for `d < 16`.
pub open spec fn hex_digit_char(d: nat) -> char {
    if d < 10 {
        (('0' as nat) + d) as char
    } else {
        (('a' as nat) + d - 10) as char
    }
}

/// Whether every character of `s` is a hexadecimal digit.
pub open spec fn all_hex(s: Seq<char>) -> bool {
    forall|i: int| 0 <= i < s.len() ==> hex_digit_value(#[trigger] s[i]) is Some
}

/// The number that the digits of `s` write in base 16, most significant
/// digit first. Meaningful where `all_hex(s)`.
pub open spec fn hex_value(s: Seq<char>) -> nat
    decreases s.len(),
{
    if s.len() == 0 {
        0
    } else {
        hex_value(s.drop_last()) * 16 + match hex_digit_value(s.last()) {
            Some(d) => d,
            None => 0,
        }
    }
}

/// The `n` least significant hexadecimal digits of `v`, most significant
/// first, in lower case.
pub open spec fn hex_digits(v: nat, n: nat) -> Seq<char>
    decreases n,
{
    if n == 0 {
        Seq::empty()
    } else {
        hex_digits(v / 16, (n - 1) as nat).push(hex_digit_char(v % 16))
    }
}

/// The number that `bytes` write in base 256, most significant byte first.
pub open spec fn be_value(bytes: Seq<u8>) -> nat
    decreases bytes.len(),
{
    if bytes.len() == 0 {
        0
    } else {
        be_value(bytes.drop_last()) * 256 + bytes.last() as nat
    }
}

/// `256^n`.
pub open spec fn pow256(n: nat) -> nat
    decreases n,
{
    if n == 0 {
        1
    } else {
        256 * pow256((n - 1) as nat)
    }
}

/// The number of the identifier that a text writes: `Some` exactly for 24
/// hexadecimal digits.
pub open spec fn parse_hex(s: Seq<char>) -> Option<nat> {
    if s.len() == HEX_LEN && all_hex(s) {
        Some(hex_value(s))
    } else {
        None
    }
}

/// The identifier that a text writes: `Some` exactly for 24 hexadecimal
/// digits.
pub open spec fn parsed_id(s: Seq<char>) -> Option<Id> {
    match parse_hex(s) {
        Some(n) => Some(Id::of_number(n)),
        None => None,
    }
}

/// Whether `out` is the identifier that the text `s` writes, or `None` where
/// `s` writes none.
pub open spec fn is_parse_of(out: Option<Id>, s: Seq<char>) -> bool {
    &&& out == parsed_id(s)
    &&& out matches Some(id) ==> id.wf() && parse_hex(s) == Some(id.number() as nat)
}

/// A digit below 16 is the value of the character that stands for it.
pub proof fn lemma_hex_digit_round_trip(d: nat)
    requires
        d < 16,
    ensures
        hex_digit_value(hex_digit_char(d)) == Some(d),
{
    if d < 10 {
        let c = (('0' as nat) + d) as char;
        assert(c as nat == '0' as nat + d);
    } else {
        let c = (('a' as nat) + d - 10) as char;
        assert(c as nat == 'a' as nat + d - 10);
    }
}

/// Writing a number below `16^n` with `n` digits and reading the digits
/// gives the number back.
pub proof fn lemma_hex_round_trip(v: nat, n: nat)
    requires
        v < pow16(n),
    ensures
        hex_digits(v, n).len() == n,
        all_hex(hex_digits(v, n)),
        hex_value(hex_digits(v, n)) == v,
    decreases n,
{
    if n > 0 {
        let rest = hex_digits(v / 16, (n - 1) as nat);
        let c = hex_digit_char(v % 16);
        let s = hex_digits(v, n);
        lemma_hex_round_trip(v / 16, (n - 1) as nat);
        lemma_hex_digit_round_trip(v % 16);
        assert(s == rest.push(c));
        assert(s.drop_last() == rest);
        assert(s.last() == c);
        assert forall|i: int| 0 <= i < s.len() implies hex_digit_value(#[trigger] s[i]) is Some by {
            if i < rest.len() {
                assert(s[i] == rest[i]);
            }
        }
    }
}

/// The textual form of a well-formed identifier writes the identifier.
pub proof fn lemma_id_text_round_trip(id: Id)
    requires
        id.wf(),
    ensures
        parsed_id(hex_digits(id.number() as nat, HEX_LEN as nat)) == Some(id),
        hex_digits(id.number() as nat, HEX_LEN as nat).len() == HEX_LEN,
        all_hex(hex_digits(id.number() as nat, HEX_LEN as nat)),
{
    id.lemma_number_bound();
    lemma_pow16_hex_len();
    lemma_hex_round_trip(id.number() as nat, HEX_LEN as nat);
    id.lemma_of_number();
}

/// `16^24 == 2^96`.
pub proof fn lemma_pow16_hex_len()
    ensures
        pow16(HEX_LEN as nat) == ID_LIMIT,
{
    reveal_with_fuel(pow16, 25);
}

/// `256^12 == 2^96`.
pub proof fn lemma_pow256_byte_len()
    ensures
        pow256(BYTE_LEN as nat) == ID_LIMIT,
{
    reveal_with_fuel(pow256, 13);
}

/// The identifier of a record: a number below `2^96`.
#[derive(Clone, Copy, Debug, PartialEq, Eq, Hash, Structural)]
pub struct Id {
    value: u128,
}

impl Id {
    /// Every identifier that exists at run time is below the limit.
    #[verifier::type_invariant]
    pub closed spec fn wf(self) -> bool {
        self.value < ID_LIMIT
    }

    /// The number that identifies the record.
    pub closed spec fn number(self) -> u128 {
        self.value
    }

    /// The identifier with the number `n`.
    pub closed spec fn of_number(n: nat) -> Id {
        Id { value: n as u128 }
    }

    /// An identifier is the one with its number.
    pub broadcast proof fn lemma_of_number(self)
        ensures
            #[trigger] Id::of_number(self.number() as nat) == self,
    {
    }

    /// Below `2^96` every number is the number of a well-formed identifier.
    pub broadcast proof fn lemma_number_of(n: nat)
        requires
            n < ID_LIMIT,
        ensures
            (#[trigger] Id::of_number(n)).number() == n,
            Id::of_number(n).wf(),
    {
    }

    /// Two identifiers with one number are the same identifier.
    pub broadcast proof fn lemma_number_injective(a: Id, b: Id)
        requires
            #[trigger] a.number() == #[trigger] b.number(),
        ensures
            a == b,
    {
    }

    /// The number of a well-formed identifier is below `2^96`.
    pub proof fn lemma_number_bound(self)
        requires
            self.wf(),
        ensures
            self.number() < ID_LIMIT,
    {
    }

    /// The identifier with the given number, if the number is below `2^96`.
    pub fn new(value: u128) -> (out: Option<Id>)
        ensures
            out is Some <==> value < ID_LIMIT,
            out matches Some(id) ==> id.number() == value && id.wf(),
    {
        if value < ID_LIMIT {
            Some(Id { value })
        } else {
            None
        }
    }

    /// The number that identifies the record.
    pub fn value(&self) -> (out: u128)
        ensures
            out == self.number(),
            out < ID_LIMIT,
    {
        proof {
            use_type_invariant(self);
        }
        self.value
    }

    /// The identifier whose twelve bytes, most significant first, are `bytes`.
    pub fn from_bytes(bytes: &[u8; 12]) -> (out: Id)
        ensures
            out.number() == be_value(bytes@),
            out.wf(),
    {
        let mut acc: u128 = 0;
        let mut i: usize = 0;
        while i < 12
            invariant
                i <= 12,
                acc == be_value(bytes@.take(i as int)),
                acc < pow256(i as nat),
            decreases 12 - i,
        {
            proof {
                reveal_with_fuel(pow256, 13);
                assert(bytes@.take(i + 1).drop_last() == bytes@.take(i as int));
            }
            acc = acc * 256 + bytes[i] as u128;
            i += 1;
        }
        proof {
            assert(bytes@.take(12) == bytes@);
            lemma_pow256_byte_len();
        }
        Id { value: acc }
    }

    /// The twelve bytes of the identifier, most significant first.
    pub fn to_bytes(&self) -> (out: [u8; 12])
        ensures
            be_value(out@) == self.number(),
    {
        proof {
            use_type_invariant(self);
            reveal_with_fuel(pow256, 13);
        }
        let value: u128 = self.value;
        let mut out: [u8; 12] = [0u8; 12];
        let mut divisor: u128 = 0x100_0000_0000_0000_0000_0000u128;
        let mut i: usize = 0;
        proof {
            lemma_pow256_byte_len();
            assert(out@.take(0) =~= Seq::<u8>::empty());
            assert(value as nat / (ID_LIMIT as nat) == 0);
        }
        while i < 12
            invariant
                i <= 12,
                value < ID_LIMIT,
                i < 12 ==> divisor == pow256((11 - i) as nat),
                be_value(out@.take(i as int)) == value as nat / pow256((12 - i) as nat),
            decreases 12 - i,
        {
            let q: u128 = value / divisor;
            let b: u8 = (q % 256) as u8;
            proof {
                let p = pow256((11 - i) as nat);
                reveal_with_fuel(pow256, 13);
                assert(pow256((12 - i) as nat) == 256 * p);
                assert(p > 0);
                lemma_div_denominator(value as int, p as int, 256);
                assert((value as int / p as int) / 256 == value as int / (p as int * 256));
                assert(q as nat / 256 == value as nat / pow256((12 - i) as nat));
            }
            let ghost prior = out@;
            out.set(i, b);
            proof {
                assert(out@.take(i + 1).drop_last() =~= prior.take(i as int));
                assert(out@.take(i + 1).last() == b);
                assert(q as nat == (q as nat / 256) * 256 + q as nat % 256);
            }
            if i < 11 {
                divisor = divisor / 256;
            }
            i += 1;
        }
        assert(out@.take(12) =~= out@);
        out
    }

    /// The identifier in its textual form: 24 lower-case hexadecimal digits.
    pub fn to_hex(&self) -> (out: String)
        ensures
            out@ == hex_digits(self.number() as nat, HEX_LEN as nat),
    {
        let mut out = String::new();
        push_hex(&mut out, self.value, HEX_LEN);
        out
    }

    /// Reads an identifier from its textual form: exactly 24 hexadecimal
    /// digits, in either case.
    pub fn parse(s: &str) -> (out: Option<Id>)
        ensures
            is_parse_of(out, s@),
    {
        let chars = chars_of(s);
        if chars.len() != HEX_LEN {
            return None;
        }
        let mut acc: u128 = 0;
        let mut i: usize = 0;
        while i < HEX_LEN
            invariant
                i <= HEX_LEN,
                chars@.len() == HEX_LEN,
                chars@ == s@,
                all_hex(chars@.take(i as int)),
                acc == hex_value(chars@.take(i as int)),
                acc < pow16(i as nat),
            decreases HEX_LEN - i,
        {
            let c = chars[i];
            let d: u128 = match hex_digit(c) {
                Some(d) => d as u128,
                None => {
                    return None;
                },
            };
            proof {
                reveal_with_fuel(pow16, 25);
                let t = chars@.take(i + 1);
                assert(t.drop_last() == chars@.take(i as int));
                assert(t.last() == c);
                assert forall|j: int| 0 <= j < t.len() implies hex_digit_value(
                    #[trigger] t[j],
                ) is Some by {
                    if j < i {
                        assert(t[j] == chars@.take(i as int)[j]);
                    }
                }
            }
            acc = acc * 16 + d;
            i += 1;
        }
        proof {
            assert(chars@.take(HEX_LEN as int) == chars@);
            lemma_pow16_hex_len();
        }
        Some(Id { value: acc })
    }
}

/// The value of one hexadecimal digit.
pub fn hex_digit(c: char) -> (out: Option<u8>)
    ensures
        out is Some <==> hex_digit_value(c) is Some,
        out matches Some(d) ==> hex_digit_value(c) == Some(d as nat) && d < 16,
{
    if '0' <= c && c <= '9' {
        Some((c as u32 - '0' as u32) as u8)
    } else if 'a' <= c && c <= 'f' {
        Some((c as u32 - 'a' as u32 + 10) as u8)
    } else if 'A' <= c && c <= 'F' {
        Some((c as u32 - 'A' as u32 + 10) as u8)
    } else {
        None
    }
}

/// The lower-case hexadecimal digit that stands for `d`.
fn hex_char(d: u8) -> (out: char)
    requires
        d < 16,
    ensures
        out == hex_digit_char(d as nat),
{
    if d < 10 {
        (48u8 + d) as char
    } else {
        (97u8 + (d - 10)) as char
    }
}

/// Appends the `n` least significant hexadecimal digits of `v` to `out`.
fn push_hex(out: &mut String, v: u128, n: usize)
    ensures
        final(out)@ == old(out)@ + hex_digits(v as nat, n as nat),
    decreases n,
{
    if n > 0 {
        push_hex(out, v / 16, n - 1);
        out.push(hex_char((v % 16) as u8));
    }
}

} // verus!
