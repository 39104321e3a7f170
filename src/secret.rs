//! A data owner's private pair, held as arbitrary-precision naturals until
//! it is narrowed into signed 64-bit values for the wire.
use crate::error::ProtocolError;
use num_bigint::{BigUint, ParseBigIntError};
use vstd::prelude::*;

verus! {

#[verifier::external_type_specification]
#[verifier::external_body]
pub struct ExBigUint(BigUint);

#[verifier::external_type_specification]
#[verifier::external_body]
pub struct ExParseBigIntError(ParseBigIntError);

/// The natural number that a `BigUint` holds.
pub uninterp spec fn natural_of(b: BigUint) -> nat;

/// The text that remains once one leading `+` is dropped.
pub open spec fn unsigned_text(s: Seq<char>) -> Seq<char> {
    if s.len() > 0 && s[0] == '+' {
        s.drop_first()
    } else {
        s
    }
}

pub open spec fn is_decimal_char(c: char) -> bool {
    '0' <= c <= '9'
}

/// The decimal naturals that `BigUint` parses: an optional `+`, then a
/// digit, then digits and `_` separators.
pub open spec fn accepted_natural(s: Seq<char>) -> bool {
    let t = unsigned_text(s);
    &&& t.len() > 0
    &&& is_decimal_char(t[0])
    &&& forall|i: int| 0 <= i < t.len() ==> is_decimal_char(#[trigger] t[i]) || t[i] == '_'
}

/// The number that decimal digits write, `_` separators skipped.
pub open spec fn separated_value(t: Seq<char>) -> int
    decreases t.len(),
{
    if t.len() == 0 {
        0
    } else if t.last() == '_' {
        separated_value(t.drop_last())
    } else {
        separated_value(t.drop_last()) * 10 + (t.last() as u32 as int - '0' as u32 as int)
    }
}

/// The number that little-endian bytes write.
pub open spec fn le_value(b: Seq<u8>) -> int
    decreases b.len(),
{
    if b.len() == 0 {
        0
    } else {
        b[0] as int + 256 * le_value(b.drop_first())
    }
}

pub open spec fn pow256(k: nat) -> int
    decreases k,
{
    if k == 0 {
        1
    } else {
        256 * pow256((k - 1) as nat)
    }
}

/// Relies on `BigUint: From<u64>`: the result holds `v`.
#[verifier::external_body]
fn natural_from_u64(v: u64) -> (r: BigUint)
    ensures
        natural_of(r) == v as nat,
{
    BigUint::from(v)
}

/// Relies on `BigUint::from_str` (radix 10): it accepts exactly the texts of
/// `accepted_natural` and reads their digits, skipping `_`.
#[verifier::external_body]
fn parse_natural(s: &str) -> (r: Result<BigUint, ParseBigIntError>)
    ensures
        r is Ok <==> accepted_natural(s@),
        r matches Ok(b) ==> natural_of(b) == separated_value(unsigned_text(s@)),
{
    s.parse::<BigUint>()
}

/// Relies on `BigUint::to_bytes_le`: the shortest little-endian bytes of the
/// value, `[0]` for zero.
#[verifier::external_body]
fn natural_bytes_le(b: &BigUint) -> (r: Vec<u8>)
    ensures
        r@.len() >= 1,
        le_value(r@) == natural_of(*b),
        r@.len() == 1 || r@.last() != 0,
{
    b.to_bytes_le()
}

proof fn lemma_le_value_bounds(b: Seq<u8>)
    requires
        b.len() >= 1,
    ensures
        0 <= le_value(b) < pow256(b.len()),
        b.last() != 0 ==> le_value(b) >= pow256((b.len() - 1) as nat),
    decreases b.len(),
{
    let rest = b.drop_first();
    if b.len() == 1 {
        assert(le_value(rest) == 0);
        assert(pow256(1) == 256 * pow256(0));
    } else {
        lemma_le_value_bounds(rest);
        assert(rest.last() == b.last());
        assert(pow256(b.len()) == 256 * pow256(rest.len()));
        assert(pow256((b.len() - 1) as nat) == 256 * pow256((rest.len() - 1) as nat));
    }
}

proof fn lemma_pow256_grows(j: nat, k: nat)
    requires
        j <= k,
    ensures
        pow256(j) <= pow256(k),
    decreases k,
{
    if j < k {
        lemma_pow256_grows(j, (k - 1) as nat);
    }
    assert(pow256(j) >= 1) by {
        lemma_pow256_positive(j);
    }
}

proof fn lemma_pow256_positive(k: nat)
    ensures
        pow256(k) >= 1,
    decreases k,
{
    if k > 0 {
        lemma_pow256_positive((k - 1) as nat);
    }
}

/// The value of the shortest little-endian bytes of a natural, when it fits
/// in a signed 64-bit integer.
fn narrow_le_bytes(b: &Vec<u8>) -> (r: Option<i64>)
    requires
        b@.len() >= 1,
        b@.len() == 1 || b@.last() != 0,
    ensures
        r is Some <==> le_value(b@) <= i64::MAX,
        r matches Some(v) ==> v as int == le_value(b@),
{
    let n = b.len();
    proof {
        reveal_with_fuel(pow256, 9);
        assert(pow256(8) == 0x1_0000_0000_0000_0000int);
        lemma_le_value_bounds(b@);
    }
    if n > 8 {
        proof {
            assert(b@.last() != 0);
            lemma_pow256_grows(8, (n - 1) as nat);
        }
        return None;
    }
    let mut acc: u64 = 0;
    let mut i: usize = n;
    proof {
        assert(b@.subrange(n as int, n as int) =~= Seq::<u8>::empty());
    }
    while i > 0
        invariant
            0 <= i <= n <= 8,
            n == b@.len(),
            acc as int == le_value(b@.subrange(i as int, n as int)),
            pow256(8) == 0x1_0000_0000_0000_0000int,
        decreases i,
    {
        let ghost part = b@.subrange(i - 1, n as int);
        proof {
            assert(part.drop_first() =~= b@.subrange(i as int, n as int));
            lemma_le_value_bounds(part);
            lemma_pow256_grows(part.len(), 8);
        }
        acc = b[i - 1] as u64 + 256 * acc;
        i = i - 1;
    }
    proof {
        assert(b@.subrange(0, n as int) =~= b@);
    }
    if acc > 9_223_372_036_854_775_807u64 {
        None
    } else {
        Some(acc as i64)
    }
}

/// A data owner's two private values.
pub struct Secret {
    pub x: BigUint,
    pub y: BigUint,
}

impl Secret {
    pub fn new(x: u64, y: u64) -> (r: Secret)
        ensures
            natural_of(r.x) == x as nat,
            natural_of(r.y) == y as nat,
    {
        Secret { x: natural_from_u64(x), y: natural_from_u64(y) }
    }

    /// Parses two decimal naturals; a text that is not one is rejected.
    pub fn from_strings(x_str: &str, y_str: &str) -> (r: Result<Secret, ProtocolError>)
        ensures
            r is Ok <==> accepted_natural(x_str@) && accepted_natural(y_str@),
            r matches Ok(s) ==> natural_of(s.x) == separated_value(unsigned_text(x_str@))
                && natural_of(s.y) == separated_value(unsigned_text(y_str@)),
            r matches Err(e) ==> e == ProtocolError::MalformedNumber,
    {
        let x = match parse_natural(x_str) {
            Ok(v) => v,
            Err(_) => return Err(ProtocolError::MalformedNumber),
        };
        let y = match parse_natural(y_str) {
            Ok(v) => v,
            Err(_) => return Err(ProtocolError::MalformedNumber),
        };
        Ok(Secret { x, y })
    }

    /// Narrows both values into signed 64-bit integers, unreduced. A value
    /// above `2^63 - 1` is rejected, never truncated or reduced.
    pub fn to_i64_safely(&self) -> (r: Result<(i64, i64), ProtocolError>)
        ensures
            r is Ok <==> natural_of(self.x) <= i64::MAX && natural_of(self.y) <= i64::MAX,
            r matches Ok(p) ==> p.0 as int == natural_of(self.x) && p.1 as int == natural_of(
                self.y,
            ),
            r matches Err(e) ==> e == ProtocolError::ValueOverflow,
    {
        let x_bytes = natural_bytes_le(&self.x);
        let y_bytes = natural_bytes_le(&self.y);
        let x = narrow_le_bytes(&x_bytes);
        let y = narrow_le_bytes(&y_bytes);
        match (x, y) {
            (Some(a), Some(b)) => Ok((a, b)),
            _ => Err(ProtocolError::ValueOverflow),
        }
    }
}

} // verus!
