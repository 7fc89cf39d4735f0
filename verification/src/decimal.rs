//! Decimal text of a signed 64-bit value, as sent to clients and kept in
//! the stored slot.

use vstd::prelude::*;

verus! {

/// The byte `-`.
pub const MINUS: u8 = 45;

/// The byte `+`.
pub const PLUS: u8 = 43;

/// The byte `0`.
pub const ZERO: u8 = 48;

/// The byte `9`.
pub const NINE: u8 = 57;

/// Largest magnitude a signed 64-bit value can have (that of the minimum).
pub const MAGNITUDE_LIMIT: u128 = 9223372036854775808;

/// Whether `b` is one of the ASCII digits `0` to `9`.
pub open spec fn is_digit(b: u8) -> bool {
    ZERO <= b <= NINE
}

/// Whether every byte of `s` is an ASCII digit.
pub open spec fn all_digits(s: Seq<u8>) -> bool {
    forall|i: int| 0 <= i < s.len() ==> is_digit(#[trigger] s[i])
}

/// The number that a run of digits denotes in base ten.
pub open spec fn digits_value(s: Seq<u8>) -> nat
    decreases s.len(),
{
    if s.len() == 0 {
        0
    } else {
        digits_value(s.drop_last()) * 10 + (s.last() - ZERO) as nat
    }
}

/// The digits of `n` in base ten, most significant first, with no leading
/// zero (and the single digit `0` for zero).
pub open spec fn digits_of(n: nat) -> Seq<u8>
    decreases n,
{
    if n < 10 {
        seq![(ZERO + n) as u8]
    } else {
        digits_of(n / 10).push((ZERO + n % 10) as u8)
    }
}

/// The decimal text of `v`: a `-` for a negative value, then the digits of
/// its magnitude.
pub open spec fn decimal_text(v: int) -> Seq<u8> {
    if v < 0 {
        seq![MINUS] + digits_of((-v) as nat)
    } else {
        digits_of(v as nat)
    }
}

/// Whether `s` starts with a sign.
pub open spec fn has_sign(s: Seq<u8>) -> bool {
    s.len() > 0 && (s[0] == PLUS || s[0] == MINUS)
}

/// The part of `s` behind its sign, if it has one.
pub open spec fn unsigned_part(s: Seq<u8>) -> Seq<u8> {
    if has_sign(s) {
        s.subrange(1, s.len() as int)
    } else {
        s
    }
}

/// The integer that `s` denotes without regard to range: an optional sign,
/// then the value of the digits.
pub open spec fn signed_value(s: Seq<u8>) -> int {
    if s.len() > 0 && s[0] == MINUS {
        -(digits_value(unsigned_part(s)) as int)
    } else {
        digits_value(unsigned_part(s)) as int
    }
}

/// What a text parses to: one optional `+` or `-`, then one or more digits
/// and nothing else, denoting a value within the signed 64-bit range.
pub open spec fn parse_decimal(s: Seq<u8>) -> Option<int> {
    if unsigned_part(s).len() == 0 || !all_digits(unsigned_part(s)) {
        None
    } else if i64::MIN <= signed_value(s) <= i64::MAX {
        Some(signed_value(s))
    } else {
        None
    }
}

/// A prefix of a run of digits denotes no more than the whole run.
pub proof fn lemma_prefix_value_le(s: Seq<u8>, k: int)
    requires
        0 <= k <= s.len(),
    ensures
        digits_value(s.take(k)) <= digits_value(s),
    decreases s.len(),
{
    if k == s.len() {
        assert(s.take(k) =~= s);
    } else {
        assert(s.drop_last().take(k) =~= s.take(k));
        lemma_prefix_value_le(s.drop_last(), k);
    }
}

/// Reading one more digit multiplies the value so far by ten and adds it.
pub proof fn lemma_value_step(s: Seq<u8>, k: int)
    requires
        0 <= k < s.len(),
    ensures
        digits_value(s.take(k + 1)) == digits_value(s.take(k)) * 10 + (s[k] - ZERO) as nat,
{
    assert(s.take(k + 1).drop_last() =~= s.take(k));
    assert(s.take(k + 1).last() == s[k]);
}

/// The digits written for `n` are digits, at least one of them, and denote
/// `n`.
pub proof fn lemma_digits_of(n: nat)
    ensures
        digits_of(n).len() >= 1,
        all_digits(digits_of(n)),
        digits_value(digits_of(n)) == n,
    decreases n,
{
    if n < 10 {
        let s = digits_of(n);
        assert(s.len() == 1);
        assert(s.drop_last().len() == 0);
        assert(digits_value(s.drop_last()) == 0);
        assert(s.last() == (ZERO + n) as u8);
    } else {
        lemma_digits_of(n / 10);
        let head = digits_of(n / 10);
        let s = digits_of(n);
        assert(s.drop_last() =~= head);
        assert(s.last() == (ZERO + n % 10) as u8);
    }
}

/// Parsing the decimal text of a signed 64-bit value gives that value back.
pub proof fn lemma_decimal_round_trip(v: i64)
    ensures
        parse_decimal(decimal_text(v as int)) == Some(v as int),
{
    let s = decimal_text(v as int);
    if v < 0 {
        let m = (-(v as int)) as nat;
        lemma_digits_of(m);
        assert(s[0] == MINUS);
        assert(unsigned_part(s) =~= digits_of(m));
    } else {
        let m = v as nat;
        lemma_digits_of(m);
        assert(is_digit(s[0]));
        assert(unsigned_part(s) =~= s);
    }
}

/// Appends the digits of `n` to `out`.
fn push_digits(n: u64, out: &mut Vec<u8>)
    ensures
        final(out)@ == old(out)@ + digits_of(n as nat),
    decreases n,
{
    if n < 10 {
        out.push(ZERO + n as u8);
        assert(final(out)@ =~= old(out)@ + digits_of(n as nat));
    } else {
        push_digits(n / 10, out);
        out.push(ZERO + (n % 10) as u8);
        assert(final(out)@ =~= old(out)@ + digits_of(n as nat));
    }
}

/// Writes `v` as decimal text.
pub fn format_decimal(v: i64) -> (text: Vec<u8>)
    ensures
        text@ == decimal_text(v as int),
{
    let mut text: Vec<u8> = Vec::new();
    if v < 0 {
        text.push(MINUS);
        let magnitude: u64 = (-(v + 1)) as u64 + 1;
        push_digits(magnitude, &mut text);
        assert(text@ =~= decimal_text(v as int));
    } else {
        push_digits(v as u64, &mut text);
        assert(text@ =~= decimal_text(v as int));
    }
    text
}

/// Reads decimal text: `Some` with the value exactly where the text is an
/// optional sign followed by digits only and the value fits, else `None`.
pub fn parse(text: &[u8]) -> (r: Option<i64>)
    ensures
        match r {
            Some(v) => parse_decimal(text@) == Some(v as int),
            None => parse_decimal(text@) is None,
        },
{
    let n: usize = text.len();
    if n == 0 {
        return None;
    }
    let negative: bool = text[0] == MINUS;
    let start: usize = if text[0] == PLUS || text[0] == MINUS { 1 } else { 0 };
    let ghost body = unsigned_part(text@);
    let mut acc: u128 = 0;
    let mut i: usize = start;
    while i < n
        invariant
            n == text@.len(),
            start <= i <= n,
            body == unsigned_part(text@),
            body.len() == n - start,
            forall|j: int| 0 <= j < body.len() ==> body[j] == text@[start + j],
            acc == digits_value(body.take(i - start)),
            all_digits(body.take(i - start)),
            acc <= MAGNITUDE_LIMIT,
        decreases n - i,
    {
        let b: u8 = text[i];
        if b < ZERO || b > NINE {
            assert(!is_digit(body[i - start]));
            return None;
        }
        let next: u128 = acc * 10 + (b - ZERO) as u128;
        proof {
            lemma_value_step(body, i - start);
        }
        if next > MAGNITUDE_LIMIT {
            proof {
                lemma_prefix_value_le(body, i - start + 1);
            }
            return None;
        }
        assert forall|j: int| 0 <= j < body.take(i - start + 1).len() implies is_digit(
            #[trigger] body.take(i - start + 1)[j],
        ) by {
            if j < i - start {
                assert(body.take(i - start + 1)[j] == body.take(i - start)[j]);
            }
        }
        acc = next;
        i = i + 1;
    }
    assert(body.take(n - start) =~= body);
    if start == n {
        return None;
    }
    if negative {
        if acc == MAGNITUDE_LIMIT {
            Some(i64::MIN)
        } else {
            Some(-(acc as i64))
        }
    } else if acc == MAGNITUDE_LIMIT {
        None
    } else {
        Some(acc as i64)
    }
}

} // verus!
