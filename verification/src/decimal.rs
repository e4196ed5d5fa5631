//! Whole numbers in decimal: writing them as text and reading them from text.

use vstd::prelude::*;

verus! {

/// The character of the digit `d`.
pub open spec fn digit_char(d: nat) -> char {
    (48 + d) as char
}

/// Whether `c` is one of the ten digits.
pub open spec fn is_digit(c: char) -> bool {
    48 <= c as u32 <= 57
}

/// The digits of `n` in base ten, without leading zeros; zero is `0`.
pub open spec fn natural_text(n: nat) -> Seq<char>
    decreases n,
{
    if n < 10 {
        seq![digit_char(n)]
    } else {
        natural_text(n / 10).push(digit_char(n % 10))
    }
}

/// A whole number in base ten, with a minus sign where it is negative.
pub open spec fn integer_text(n: int) -> Seq<char> {
    if n < 0 {
        seq!['-'] + natural_text((-n) as nat)
    } else {
        natural_text(n as nat)
    }
}

/// Whether `s` holds digits only.
pub open spec fn all_digits(s: Seq<char>) -> bool {
    forall|i: int| 0 <= i < s.len() ==> is_digit(#[trigger] s[i])
}

/// The number that the digits of `s` write in base ten.
pub open spec fn digits_value(s: Seq<char>) -> nat
    decreases s.len(),
{
    if s.len() == 0 {
        0
    } else {
        digits_value(s.drop_last()) * 10 + (s.last() as u32 - 48) as nat
    }
}

/// The number that `s` writes: one digit or more, of a value up to `limit`.
pub open spec fn natural_of(s: Seq<char>, limit: nat) -> Option<nat> {
    if s.len() > 0 && all_digits(s) && digits_value(s) <= limit {
        Some(digits_value(s))
    } else {
        None
    }
}

/// The unsigned 64-bit number that `s` writes in base ten: digits, behind a
/// plus sign or none, of a value that fits.
pub open spec fn u64_of(s: Seq<char>) -> Option<u64> {
    let body = if s.len() > 0 && s[0] == '+' {
        s.skip(1)
    } else {
        s
    };
    match natural_of(body, u64::MAX as nat) {
        Some(v) => Some(v as u64),
        None => None,
    }
}

/// The signed 64-bit number that `s` writes in base ten: digits, behind a
/// plus sign, a minus sign or none, of a value that fits.
pub open spec fn i64_of(s: Seq<char>) -> Option<i64> {
    if s.len() > 0 && s[0] == '-' {
        match natural_of(s.skip(1), 0x8000_0000_0000_0000) {
            Some(v) => Some((-v) as i64),
            None => None,
        }
    } else {
        let body = if s.len() > 0 && s[0] == '+' {
            s.skip(1)
        } else {
            s
        };
        match natural_of(body, i64::MAX as nat) {
            Some(v) => Some(v as i64),
            None => None,
        }
    }
}

/// More digits write no smaller a number.
pub proof fn lemma_digits_grow(s: Seq<char>, i: int)
    requires
        0 <= i <= s.len(),
        all_digits(s),
    ensures
        digits_value(s.take(i)) <= digits_value(s),
    decreases s.len() - i,
{
    if i < s.len() {
        let next = s.take(i + 1);
        assert(next.drop_last() =~= s.take(i));
        assert(is_digit(s[i]));
        assert(next.last() == s[i]);
        lemma_digits_grow(s, i + 1);
    } else {
        assert(s.take(i) =~= s);
    }
}

/// Appends the digits of `n` to `out`.
pub fn push_natural(n: u64, out: &mut Vec<char>)
    ensures
        final(out)@ == old(out)@ + natural_text(n as nat),
    decreases n,
{
    if n >= 10 {
        push_natural(n / 10, out);
    }
    let d: u8 = (n % 10) as u8;
    let c: char = (48u8 + d) as char;
    assert(c == digit_char((n % 10) as nat));
    out.push(c);
    proof {
        if n >= 10 {
            assert(final(out)@ =~= old(out)@ + natural_text(n as nat / 10).push(c));
        } else {
            assert(final(out)@ =~= old(out)@ + seq![c]);
        }
    }
}

/// Appends `n` in base ten to `out`.
pub fn push_integer(n: i64, out: &mut Vec<char>)
    ensures
        final(out)@ == old(out)@ + integer_text(n as int),
{
    if n < 0 {
        out.push('-');
        let magnitude: u64 = ((-(n + 1)) as u64) + 1;
        push_natural(magnitude, out);
        assert(final(out)@ =~= old(out)@ + (seq!['-'] + natural_text((-n) as nat)));
    } else {
        push_natural(n as u64, out);
    }
}

/// Reads `s` as a number in base ten of a value up to `limit`.
pub fn read_natural(s: &[char], limit: u64) -> (r: Option<u64>)
    ensures
        match r {
            Some(v) => natural_of(s@, limit as nat) == Some(v as nat),
            None => natural_of(s@, limit as nat).is_none(),
        },
{
    if s.len() == 0 {
        return None;
    }
    let mut i: usize = 0;
    while i < s.len()
        invariant
            i <= s@.len(),
            forall|j: int| 0 <= j < i ==> is_digit(#[trigger] s@[j]),
        decreases s@.len() - i,
    {
        let c: u32 = s[i] as u32;
        if c < 48 || c > 57 {
            return None;
        }
        i += 1;
    }
    assert(all_digits(s@));
    let mut acc: u64 = 0;
    let mut k: usize = 0;
    assert(s@.take(0) =~= Seq::<char>::empty());
    while k < s.len()
        invariant
            k <= s@.len(),
            all_digits(s@),
            acc == digits_value(s@.take(k as int)),
            acc <= limit,
        decreases s@.len() - k,
    {
        let d: u64 = (s[k] as u32 - 48) as u64;
        proof {
            let next = s@.take(k + 1);
            assert(next.drop_last() =~= s@.take(k as int));
            assert(next.last() == s@[k as int]);
            assert(is_digit(s@[k as int]));
            lemma_digits_grow(s@, k + 1);
        }
        if d > limit || acc > (limit - d) / 10 {
            return None;
        }
        acc = acc * 10 + d;
        k += 1;
    }
    assert(s@.take(k as int) =~= s@);
    Some(acc)
}

/// Reads `s` as an unsigned 64-bit number in base ten.
pub fn read_u64(s: &[char]) -> (r: Option<u64>)
    ensures
        r == u64_of(s@),
{
    let body = if s.len() > 0 && s[0] == '+' {
        let rest = &s[1..s.len()];
        assert(rest@ =~= s@.skip(1));
        rest
    } else {
        s
    };
    read_natural(body, u64::MAX)
}

/// Reads `s` as a signed 64-bit number in base ten.
pub fn read_i64(s: &[char]) -> (r: Option<i64>)
    ensures
        r == i64_of(s@),
{
    if s.len() > 0 && s[0] == '-' {
        let rest = &s[1..s.len()];
        assert(rest@ =~= s@.skip(1));
        match read_natural(rest, 0x8000_0000_0000_0000) {
            Some(v) => if v == 0x8000_0000_0000_0000 {
                Some(i64::MIN)
            } else {
                Some(-(v as i64))
            },
            None => None,
        }
    } else {
        let body = if s.len() > 0 && s[0] == '+' {
            let rest = &s[1..s.len()];
            assert(rest@ =~= s@.skip(1));
            rest
        } else {
            s
        };
        match read_natural(body, 0x7fff_ffff_ffff_ffff) {
            Some(v) => Some(v as i64),
            None => None,
        }
    }
}

} // verus!
