//! The wire format: each value is the decimal text of a signed 64-bit
//! integer followed by one line-break byte.
use crate::error::ProtocolError;
use vstd::prelude::*;

verus! {

/// The byte that ends every frame.
pub const LINE_BREAK: u8 = 10;

pub open spec fn is_digit(c: u8) -> bool {
    48 <= c <= 57
}

/// ASCII whitespace, as trimmed around a frame's text.
pub open spec fn is_space(c: u8) -> bool {
    c == 32 || (9 <= c <= 13)
}

pub open spec fn all_digits(s: Seq<u8>) -> bool {
    forall|i: int| 0 <= i < s.len() ==> is_digit(#[trigger] s[i])
}

/// The number written by a string of decimal digits, most significant first.
pub open spec fn digits_value(s: Seq<u8>) -> int
    decreases s.len(),
{
    if s.len() == 0 {
        0
    } else {
        digits_value(s.drop_last()) * 10 + (s.last() as int - 48)
    }
}

/// The shortest decimal digits of `n`.
pub open spec fn digits_of(n: nat) -> Seq<u8>
    decreases n,
{
    if n < 10 {
        seq![(48 + n) as u8]
    } else {
        digits_of(n / 10).push((48 + n % 10) as u8)
    }
}

/// The decimal text of `v`, with a leading `-` when it is negative.
pub open spec fn number_text(v: int) -> Seq<u8> {
    if v < 0 {
        seq![45u8] + digits_of((-v) as nat)
    } else {
        digits_of(v as nat)
    }
}

/// The frame that carries `v`.
pub open spec fn frame_of(v: int) -> Seq<u8> {
    number_text(v).push(LINE_BREAK)
}

pub open spec fn trim_start(s: Seq<u8>) -> Seq<u8>
    decreases s.len(),
{
    if s.len() > 0 && is_space(s[0]) {
        trim_start(s.drop_first())
    } else {
        s
    }
}

pub open spec fn trim_end(s: Seq<u8>) -> Seq<u8>
    decreases s.len(),
{
    if s.len() > 0 && is_space(s.last()) {
        trim_end(s.drop_last())
    } else {
        s
    }
}

/// A frame's text without the whitespace around it.
pub open spec fn payload(s: Seq<u8>) -> Seq<u8> {
    trim_end(trim_start(s))
}

/// The integer written by `t`: an optional `+` or `-` sign, then one or
/// more decimal digits.
pub open spec fn signed_value(t: Seq<u8>) -> Option<int> {
    if t.len() > 0 && (t[0] == 45u8 || t[0] == 43u8) {
        let rest = t.drop_first();
        if rest.len() > 0 && all_digits(rest) {
            if t[0] == 45u8 {
                Some(-digits_value(rest))
            } else {
                Some(digits_value(rest))
            }
        } else {
            None
        }
    } else if t.len() > 0 && all_digits(t) {
        Some(digits_value(t))
    } else {
        None
    }
}

/// What a received line stands for.
pub open spec fn decoded(line: Seq<u8>) -> Result<i64, ProtocolError> {
    if line.len() == 0 {
        Err(ProtocolError::PeerDisconnected)
    } else if payload(line).len() == 0 {
        Err(ProtocolError::EmptyPayload)
    } else {
        match signed_value(payload(line)) {
            Some(v) => if i64::MIN <= v <= i64::MAX {
                Ok(v as i64)
            } else {
                Err(ProtocolError::MalformedNumber)
            },
            None => Err(ProtocolError::MalformedNumber),
        }
    }
}

proof fn lemma_digits_of_well_formed(n: nat)
    ensures
        digits_of(n).len() > 0,
        all_digits(digits_of(n)),
        digits_value(digits_of(n)) == n,
    decreases n,
{
    let s = digits_of(n);
    if n >= 10 {
        lemma_digits_of_well_formed(n / 10);
        assert(s.drop_last() =~= digits_of(n / 10));
        assert(((48 + n % 10) as u8) as int == 48 + n % 10);
        assert(n == (n / 10) * 10 + n % 10);
    } else {
        assert(s.drop_last() =~= Seq::<u8>::empty());
        assert(digits_value(Seq::<u8>::empty()) == 0);
        assert(((48 + n) as u8) as int == 48 + n);
    }
}

proof fn lemma_digits_value_grows(s: Seq<u8>, k: int)
    requires
        0 <= k <= s.len(),
        all_digits(s),
    ensures
        digits_value(s.take(k)) <= digits_value(s),
        0 <= digits_value(s.take(k)),
        0 <= digits_value(s),
    decreases s.len(),
{
    if s.len() > 0 {
        let u = s.drop_last();
        assert(all_digits(u)) by {
            assert forall|x: int| 0 <= x < u.len() implies is_digit(#[trigger] u[x]) by {
                assert(u[x] == s[x]);
            }
        }
        assert(is_digit(s[s.len() - 1]));
        if k < s.len() {
            lemma_digits_value_grows(u, k);
            assert(u.take(k) =~= s.take(k));
        } else {
            lemma_digits_value_grows(u, 0);
            assert(s.take(k) =~= s);
        }
    } else {
        assert(s.take(k) =~= s);
    }
}

proof fn lemma_trim_start_step(s: Seq<u8>, i: int)
    requires
        0 <= i < s.len(),
        is_space(s[i]),
    ensures
        trim_start(s.subrange(i, s.len() as int)) == trim_start(s.subrange(i + 1, s.len() as int)),
{
    assert(s.subrange(i, s.len() as int).drop_first() =~= s.subrange(i + 1, s.len() as int));
}

/// Writes the frame that carries `v`.
pub fn encode_frame(v: i64) -> (r: Vec<u8>)
    ensures
        r@ == frame_of(v as int),
{
    let magnitude: u64 = if v < 0 {
        ((-(v + 1)) as u64) + 1
    } else {
        v as u64
    };
    let mut n: u64 = magnitude;
    let mut digits: Vec<u8> = Vec::new();
    while n >= 10
        invariant
            digits_of(magnitude as nat) == digits_of(n as nat) + digits@,
        decreases n,
    {
        let d = (48 + n % 10) as u8;
        proof {
            assert(digits_of(n as nat) + digits@ =~= digits_of((n / 10) as nat) + seq![d] + digits@);
        }
        digits.insert(0, d);
        n = n / 10;
    }
    digits.insert(0, (48 + n) as u8);
    let mut r: Vec<u8> = Vec::new();
    if v < 0 {
        r.push(45u8);
    }
    r.append(&mut digits);
    r.push(LINE_BREAK);
    proof {
        assert(digits_of(n as nat) =~= seq![(48 + n) as u8]);
        if v < 0 {
            assert(r@ =~= (seq![45u8] + digits_of(magnitude as nat)).push(LINE_BREAK));
        } else {
            assert(r@ =~= digits_of(magnitude as nat).push(LINE_BREAK));
        }
    }
    r
}

/// The bytes of a pair of values, each in its own frame.
pub open spec fn pair_text(a: int, b: int) -> Seq<u8> {
    frame_of(a) + frame_of(b)
}

/// Writes the frames of `a` and then `b`.
pub fn encode_pair(a: i64, b: i64) -> (r: Vec<u8>)
    ensures
        r@ == pair_text(a as int, b as int),
{
    let mut r = encode_frame(a);
    let mut second = encode_frame(b);
    r.append(&mut second);
    r
}

/// Reads the value out of one received line (the line break included, if
/// the sender wrote one). An empty line means the peer closed the channel.
pub fn decode_frame(line: &[u8]) -> (r: Result<i64, ProtocolError>)
    ensures
        r == decoded(line@),
{
    let n = line.len();
    if n == 0 {
        return Err(ProtocolError::PeerDisconnected);
    }
    let ghost s = line@;
    let mut i: usize = 0;
    proof {
        assert(s.subrange(0, n as int) =~= s);
    }
    while i < n && (line[i] == 32 || (9 <= line[i] && line[i] <= 13))
        invariant
            0 <= i <= n,
            n == s.len(),
            s == line@,
            trim_start(s) == trim_start(s.subrange(i as int, n as int)),
        decreases n - i,
    {
        proof {
            lemma_trim_start_step(s, i as int);
        }
        i = i + 1;
    }
    let ghost start = s.subrange(i as int, n as int);
    assert(trim_start(s) == start);
    let mut j: usize = n;
    while j > i && (line[j - 1] == 32 || (9 <= line[j - 1] && line[j - 1] <= 13))
        invariant
            i <= j <= n,
            n == s.len(),
            s == line@,
            start == s.subrange(i as int, n as int),
            trim_end(start) == trim_end(s.subrange(i as int, j as int)),
        decreases j,
    {
        proof {
            let t = s.subrange(i as int, j as int);
            assert(t.drop_last() =~= s.subrange(i as int, j as int - 1));
        }
        j = j - 1;
    }
    let ghost t = s.subrange(i as int, j as int);
    assert(payload(s) == t);
    if i == j {
        return Err(ProtocolError::EmptyPayload);
    }
    let negative = line[i] == 45;
    let mut k: usize = i;
    if line[i] == 45 || line[i] == 43 {
        k = k + 1;
        if k == j {
            return Err(ProtocolError::MalformedNumber);
        }
    }
    let first = k;
    let ghost rest = s.subrange(first as int, j as int);
    proof {
        if line[i as int] == 45 || line[i as int] == 43 {
            assert(t.drop_first() =~= rest);
        } else {
            assert(t =~= rest);
        }
    }
    // The largest magnitude that fits: 2^63 for a negative value, else 2^63 - 1.
    let limit: u64 = if negative {
        9_223_372_036_854_775_808u64
    } else {
        9_223_372_036_854_775_807u64
    };
    let mut acc: u64 = 0;
    while k < j
        invariant
            first <= k <= j <= n,
            n == s.len(),
            s == line@,
            rest == s.subrange(first as int, j as int),
            all_digits(rest.take(k - first)),
            acc as int == digits_value(rest.take(k - first)),
            acc <= limit,
            limit == (if negative { 9_223_372_036_854_775_808u64 } else { 9_223_372_036_854_775_807u64 }),
            line@.len() > 0,
            payload(line@) == t,
            t.len() > 0,
            rest.len() > 0,
            signed_value(t) == (if all_digits(rest) {
                Some(if negative { -digits_value(rest) } else { digits_value(rest) })
            } else {
                None::<int>
            }),
        decreases j - k,
    {
        let c = line[k];
        if c < 48 || c > 57 {
            proof {
                assert(rest[k - first] == c);
                assert(!all_digits(rest));
            }
            return Err(ProtocolError::MalformedNumber);
        }
        let d = (c - 48) as u64;
        proof {
            assert(rest.take(k - first + 1).drop_last() =~= rest.take(k - first));
            assert(rest.take(k - first + 1).last() == c);
        }
        if acc > (limit - d) / 10 {
            proof {
                assert(acc * 10 + d > limit) by (nonlinear_arith)
                    requires
                        acc > (limit - d) / 10,
                        d <= 9,
                        limit >= 9,
                ;
                if all_digits(rest) {
                    lemma_digits_value_grows(rest, k - first + 1);
                }
            }
            return Err(ProtocolError::MalformedNumber);
        }
        assert(acc * 10 + d <= limit) by (nonlinear_arith)
            requires
                acc <= (limit - d) / 10,
                d <= 9,
        ;
        acc = acc * 10 + d;
        k = k + 1;
    }
    proof {
        assert(rest.take(j - first) =~= rest);
        assert(all_digits(rest));
    }
    if negative {
        if acc == 9_223_372_036_854_775_808u64 {
            Ok(i64::MIN)
        } else {
            Ok(-(acc as i64))
        }
    } else {
        Ok(acc as i64)
    }
}

/// Round trip: decoding the frame of any signed 64-bit value gives it back.
pub proof fn lemma_frame_round_trip(v: i64)
    ensures
        decoded(frame_of(v as int)) == Ok::<i64, ProtocolError>(v),
{
    let text = number_text(v as int);
    let frame = frame_of(v as int);
    let mag: nat = if v < 0 { (-v) as nat } else { v as nat };
    lemma_digits_of_well_formed(mag);
    let digits = digits_of(mag);
    assert(frame.drop_last() =~= text);
    assert(!is_space(text[0]));
    assert(trim_start(frame) == frame);
    assert(trim_end(text) == text);
    assert(payload(frame) == text);
    if v < 0 {
        assert(text.drop_first() =~= digits);
    }
}

} // verus!
