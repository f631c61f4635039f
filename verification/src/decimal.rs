//! Signed decimal text: what a counter file holds, as bytes.
//!
//! A number is written as an optional minus sign and its decimal digits, with
//! no leading zeros. It is read back more generously: a plus sign and leading
//! zeros are accepted too. Reading what was written gives the number back.

use vstd::prelude::*;

verus! {

/// The byte `-`.
pub const MINUS: u8 = 45;

/// The byte `+`.
pub const PLUS: u8 = 43;

/// The byte `0`; the other digits follow it.
pub const ZERO: u8 = 48;

/// The decimal digits of `n`, most significant first, without leading zeros.
pub open spec fn digits(n: nat) -> Seq<u8>
    decreases n,
{
    if n < 10 {
        seq![(ZERO + n) as u8]
    } else {
        digits(n / 10).push((ZERO + n % 10) as u8)
    }
}

/// The text of `v`: a minus sign if `v` is negative, then the digits of its
/// magnitude.
pub open spec fn decimal(v: int) -> Seq<u8> {
    if v < 0 {
        seq![MINUS] + digits((-v) as nat)
    } else {
        digits(v as nat)
    }
}

/// Whether `b` is one of the bytes `0` to `9`.
pub open spec fn is_digit(b: u8) -> bool {
    ZERO <= b <= ZERO + 9
}

/// Whether every byte of `s` is a digit.
pub open spec fn all_digits(s: Seq<u8>) -> bool {
    forall|i: int| 0 <= i < s.len() ==> is_digit(#[trigger] s[i])
}

/// What the byte `b` counts as a digit; a byte that is no digit counts 0.
pub open spec fn digit_value(b: u8) -> nat {
    if is_digit(b) {
        (b - ZERO) as nat
    } else {
        0
    }
}

/// The number that the digits `s` spell, most significant first.
pub open spec fn digits_value(s: Seq<u8>) -> nat
    decreases s.len(),
{
    if s.len() == 0 {
        0
    } else {
        digits_value(s.drop_last()) * 10 + digit_value(s.last())
    }
}

/// Whether `s` starts with a sign, `-` or `+`.
pub open spec fn has_sign(s: Seq<u8>) -> bool {
    s.len() > 0 && (s[0] == MINUS || s[0] == PLUS)
}

/// What is left of `s` once its sign, if it has one, is taken off.
pub open spec fn unsigned_part(s: Seq<u8>) -> Seq<u8> {
    if has_sign(s) {
        s.subrange(1, s.len() as int)
    } else {
        s
    }
}

/// The number that `s` spells, before any bound is put on it.
pub open spec fn signed_value(s: Seq<u8>) -> int {
    if s.len() > 0 && s[0] == MINUS {
        -(digits_value(unsigned_part(s)) as int)
    } else {
        digits_value(unsigned_part(s)) as int
    }
}

/// The signed 64-bit number that the text `s` spells, if it spells one: an
/// optional sign, then one digit or more and nothing else, with a value that
/// fits.
pub open spec fn parse_decimal(s: Seq<u8>) -> Option<int> {
    if unsigned_part(s).len() > 0 && all_digits(unsigned_part(s)) && i64::MIN <= signed_value(s)
        <= i64::MAX {
        Some(signed_value(s))
    } else {
        None
    }
}

/// The digits of a number are digits, there is at least one of them, and
/// together they spell the number.
pub proof fn lemma_digits_spell(n: nat)
    ensures
        digits(n).len() > 0,
        all_digits(digits(n)),
        digits_value(digits(n)) == n,
    decreases n,
{
    if n < 10 {
        let s = digits(n);
        assert(s.drop_last() =~= Seq::<u8>::empty());
        assert(digits_value(s.drop_last()) == 0);
    } else {
        lemma_digits_spell(n / 10);
        let s = digits(n);
        assert(s.drop_last() =~= digits(n / 10));
    }
}

/// Cutting digits off the end never makes the number they spell larger.
proof fn lemma_digits_value_prefix(s: Seq<u8>, k: int)
    requires
        0 <= k <= s.len(),
    ensures
        digits_value(s.subrange(0, k)) <= digits_value(s),
    decreases s.len(),
{
    if k == s.len() {
        assert(s.subrange(0, k) =~= s);
    } else {
        lemma_digits_value_prefix(s.drop_last(), k);
        assert(s.drop_last().subrange(0, k) =~= s.subrange(0, k));
    }
}

/// The text of a number is not empty and holds only digits and the minus sign.
pub proof fn lemma_decimal_bytes(v: int)
    ensures
        decimal(v).len() > 0,
        forall|i: int|
            0 <= i < decimal(v).len() ==> is_digit(#[trigger] decimal(v)[i]) || decimal(v)[i]
                == MINUS,
{
    if v < 0 {
        lemma_digits_spell((-v) as nat);
    } else {
        lemma_digits_spell(v as nat);
    }
}

/// Reading the text of a signed 64-bit number gives the number back.
pub proof fn lemma_parse_decimal_of_decimal(v: int)
    requires
        i64::MIN <= v <= i64::MAX,
    ensures
        parse_decimal(decimal(v)) == Some(v),
{
    let s = decimal(v);
    if v < 0 {
        let m = (-v) as nat;
        lemma_digits_spell(m);
        assert(s[0] == MINUS);
        assert(unsigned_part(s) =~= digits(m));
    } else {
        let m = v as nat;
        lemma_digits_spell(m);
        assert(is_digit(s[0]));
        assert(unsigned_part(s) =~= s);
    }
}

/// Appends the digits of `n` to `out`.
fn push_digits(n: u64, out: &mut Vec<u8>)
    ensures
        final(out)@ == old(out)@ + digits(n as nat),
    decreases n,
{
    if n >= 10 {
        push_digits(n / 10, out);
    }
    let d: u8 = (n % 10) as u8;
    out.push(ZERO + d);
}

/// Writes `v` as decimal text.
pub fn render(v: i64) -> (text: Vec<u8>)
    ensures
        text@ == decimal(v as int),
{
    let mut text: Vec<u8> = Vec::new();
    let magnitude: u64 = if v == i64::MIN {
        9223372036854775808
    } else if v < 0 {
        (-v) as u64
    } else {
        v as u64
    };
    if v < 0 {
        text.push(MINUS);
    }
    push_digits(magnitude, &mut text);
    text
}

/// Reads decimal text: `Some` of the number that `s` spells, or `None` where
/// it spells no signed 64-bit number.
pub fn parse(s: &[u8]) -> (r: Option<i64>)
    ensures
        match r {
            Some(v) => parse_decimal(s@) == Some(v as int),
            None => parse_decimal(s@).is_none(),
        },
{
    let n: usize = s.len();
    let signed: bool = n > 0 && (s[0] == MINUS || s[0] == PLUS);
    let negative: bool = n > 0 && s[0] == MINUS;
    let start: usize = if signed {
        1
    } else {
        0
    };
    if start == n {
        return None;
    }
    let ghost body = unsigned_part(s@);
    assert(body =~= s@.subrange(start as int, n as int));
    let limit: u128 = if negative {
        9223372036854775808
    } else {
        9223372036854775807
    };
    let mut total: u128 = 0;
    let mut i: usize = start;
    while i < n
        invariant
            start <= i <= n,
            n == s@.len(),
            body == unsigned_part(s@),
            body == s@.subrange(start as int, n as int),
            negative == (s@.len() > 0 && s@[0] == MINUS),
            limit == if negative { 9223372036854775808u128 } else { 9223372036854775807u128 },
            all_digits(body.subrange(0, i - start)),
            total == digits_value(body.subrange(0, i - start)),
            total <= limit,
        decreases n - i,
    {
        let b: u8 = s[i];
        let ghost before = body.subrange(0, i - start);
        let ghost after = body.subrange(0, i + 1 - start);
        assert(after.drop_last() =~= before);
        assert(after.last() == b);
        if b < ZERO || b > ZERO + 9 {
            assert(!is_digit(body[i - start]));
            return None;
        }
        let d: u128 = (b - ZERO) as u128;
        let next: u128 = total * 10 + d;
        assert(next == digits_value(after));
        if next > limit {
            proof {
                lemma_digits_value_prefix(body, i + 1 - start);
            }
            return None;
        }
        assert(all_digits(after)) by {
            assert forall|j: int| 0 <= j < after.len() implies is_digit(#[trigger] after[j]) by {
                if j < before.len() {
                    assert(after[j] == before[j]);
                }
            }
        }
        total = next;
        i = i + 1;
    }
    assert(body.subrange(0, n - start) =~= body);
    if negative {
        if total == 9223372036854775808 {
            Some(i64::MIN)
        } else {
            let m: i64 = total as i64;
            Some(-m)
        }
    } else {
        Some(total as i64)
    }
}

} // verus!
