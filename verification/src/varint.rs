//! The variable-length integer of the file format: one to nine bytes, big-endian.
//!
//! Each of the first eight bytes gives seven bits and says with its high bit
//! whether another byte follows; a ninth byte gives all eight of its bits.

use vstd::prelude::*;
use crate::error::Error;

verus! {

/// How many bytes at the start of `bytes` have their high bit set, counting at most `limit`.
pub open spec fn high_run(bytes: Seq<u8>, limit: nat) -> nat
    decreases limit,
{
    if limit > 0 && bytes.len() > 0 && bytes[0] >= 0x80 {
        1 + high_run(bytes.skip(1), (limit - 1) as nat)
    } else {
        0
    }
}

/// The number written in base 128 by the low seven bits of each byte, first byte highest.
pub open spec fn groups_value(bytes: Seq<u8>) -> nat
    decreases bytes.len(),
{
    if bytes.len() == 0 {
        0
    } else {
        groups_value(bytes.drop_last()) * 128 + (bytes.last() % 128) as nat
    }
}

/// The varint at the start of `bytes`: its value and the number of bytes it takes,
/// or `None` where `bytes` ends before the varint does.
pub open spec fn decode(bytes: Seq<u8>) -> Option<(u64, nat)> {
    let k = high_run(bytes, 8);
    if bytes.len() <= k {
        None
    } else if k == 8 {
        Some(((groups_value(bytes.take(8)) * 256 + bytes[8] as nat) as u64, 9))
    } else {
        Some(((groups_value(bytes.take(k as int)) * 128 + (bytes[k as int] % 128) as nat) as u64, k + 1))
    }
}

/// 128 to the power `k`.
pub open spec fn pow128(k: nat) -> nat
    decreases k,
{
    if k == 0 {
        1
    } else {
        128 * pow128((k - 1) as nat)
    }
}

/// A run of high bytes is as long as the prefix of high bytes that ends at the
/// limit, at the end of the input or before a low byte.
pub proof fn lemma_high_run(bytes: Seq<u8>, limit: nat, i: nat)
    requires
        i <= limit,
        i <= bytes.len(),
        forall|j: int| 0 <= j < i ==> bytes[j] >= 0x80,
        i == limit || i == bytes.len() || bytes[i as int] < 0x80,
    ensures
        high_run(bytes, limit) == i,
    decreases limit,
{
    if i > 0 {
        let rest = bytes.skip(1);
        assert forall|j: int| 0 <= j < i - 1 implies rest[j] >= 0x80 by {
            assert(rest[j] == bytes[j + 1]);
        }
        if i < limit && i < bytes.len() {
            assert(rest[i - 1] == bytes[i as int]);
        }
        lemma_high_run(rest, (limit - 1) as nat, (i - 1) as nat);
    }
}

/// The value of at most `k` groups is below 128 to the power `k`.
pub proof fn lemma_groups_bound(bytes: Seq<u8>)
    ensures
        groups_value(bytes) < pow128(bytes.len()),
    decreases bytes.len(),
{
    if bytes.len() > 0 {
        lemma_groups_bound(bytes.drop_last());
        let a = groups_value(bytes.drop_last());
        let p = pow128((bytes.len() - 1) as nat);
        assert(a * 128 + 127 < 128 * p) by (nonlinear_arith)
            requires
                a < p,
        ;
    }
}

/// The powers of 128 up to the eighth.
proof fn lemma_pow128_8()
    ensures
        pow128(0) == 1,
        pow128(1) == 0x80,
        pow128(2) == 0x4000,
        pow128(3) == 0x20_0000,
        pow128(4) == 0x1000_0000,
        pow128(5) == 0x8_0000_0000,
        pow128(6) == 0x400_0000_0000,
        pow128(7) == 0x2_0000_0000_0000,
        pow128(8) == 0x100_0000_0000_0000,
{
    reveal_with_fuel(pow128, 10);
}

/// The `k` lowest digits of `m` in base 128, highest first, each in a byte with
/// its high bit set.
pub open spec fn digits(m: nat, k: nat) -> Seq<u8>
    decreases k,
{
    if k == 0 {
        Seq::empty()
    } else {
        digits(m / 128, (k - 1) as nat).push((0x80 + m % 128) as u8)
    }
}

/// The number of digits of `m` in base 128; zero has none.
pub open spec fn digit_count(m: nat) -> nat
    decreases m,
{
    if m == 0 {
        0
    } else {
        1 + digit_count(m / 128)
    }
}

/// The shortest varint that holds `n`: the canonical encoding.
pub open spec fn encode(n: u64) -> Seq<u8> {
    if n < 0x100_0000_0000_0000 {
        digits(n as nat / 128, digit_count(n as nat / 128)).push((n % 128) as u8)
    } else {
        digits(n as nat / 256, 8).push((n % 256) as u8)
    }
}

/// `k` digits are `k` bytes with the high bit set, and they hold `m` where `m`
/// has at most `k` digits.
pub proof fn lemma_digits(m: nat, k: nat)
    ensures
        digits(m, k).len() == k,
        forall|j: int| 0 <= j < k ==> #[trigger] digits(m, k)[j] >= 0x80,
        m < pow128(k) ==> groups_value(digits(m, k)) == m,
    decreases k,
{
    if k > 0 {
        let front = digits(m / 128, (k - 1) as nat);
        let d = digits(m, k);
        lemma_digits(m / 128, (k - 1) as nat);
        assert(d.drop_last() =~= front);
        let b = (0x80 + m % 128) as u8;
        assert(d.last() == b);
        assert(b % 128 == m % 128);
        assert forall|j: int| 0 <= j < k implies #[trigger] d[j] >= 0x80 by {
            if j < k - 1 {
                assert(d[j] == front[j]);
            }
        }
        if m < pow128(k) {
            assert(m / 128 < pow128((k - 1) as nat));
        }
    }
}

/// A number has as many digits as it takes to hold it.
pub proof fn lemma_digit_count(m: nat, k: nat)
    requires
        m < pow128(k),
    ensures
        digit_count(m) <= k,
        m < pow128(digit_count(m)),
    decreases m,
{
    if m > 0 {
        assert(k > 0);
        lemma_digit_count(m / 128, (k - 1) as nat);
    }
}

/// Reading the canonical encoding of `n`, whatever follows it, gives `n` and
/// takes exactly the bytes of the encoding.
pub proof fn lemma_round_trip(n: u64, rest: Seq<u8>)
    ensures
        1 <= encode(n).len() <= 9,
        decode(encode(n) + rest) == Some((n, encode(n).len())),
{
    lemma_pow128_8();
    let all = encode(n) + rest;
    if n < 0x100_0000_0000_0000 {
        let m = n as nat / 128;
        lemma_digit_count(m, 7);
        let k = digit_count(m);
        lemma_digits(m, k);
        let front = digits(m, k);
        assert forall|j: int| 0 <= j < k implies all[j] >= 0x80 by {
            assert(all[j] == front[j]);
        }
        assert(all[k as int] == (n % 128) as u8);
        lemma_high_run(all, 8, k);
        assert(all.take(k as int) =~= front);
    } else {
        let m = n as nat / 256;
        lemma_digits(m, 8);
        let front = digits(m, 8);
        assert forall|j: int| 0 <= j < 8 implies all[j] >= 0x80 by {
            assert(all[j] == front[j]);
        }
        lemma_high_run(all, 8, 8);
        assert(all.take(8) =~= front);
        assert(all[8] == (n % 256) as u8);
    }
}

/// Reads the varint at the start of `input`. Gives what follows it and its value.
pub fn varint(input: &[u8]) -> (r: Result<(&[u8], u64), Error>)
    ensures
        match r {
            Ok((rest, value)) => {
                &&& decode(input@) matches Some((v, taken))
                &&& v == value
                &&& 1 <= taken <= input@.len()
                &&& rest@ == input@.skip(taken as int)
            },
            Err(e) => decode(input@).is_none() && e == Error::MalformedVarint,
        },
{
    let mut acc: u64 = 0;
    let mut i: usize = 0;
    while i < 8 && i < input.len() && input[i] >= 0x80
        invariant
            i <= 8,
            i <= input@.len(),
            forall|j: int| 0 <= j < i ==> input@[j] >= 0x80,
            acc == groups_value(input@.take(i as int)),
            acc < pow128(i as nat),
        decreases 8 - i,
    {
        let b: u8 = input[i];
        proof {
            lemma_pow128_8();
            let next = input@.take(i + 1);
            assert(next.drop_last() =~= input@.take(i as int));
            assert(next.last() == b);
            assert(acc < 0x2_0000_0000_0000);
            assert((acc << 7) | ((b & 0x7f) as u64) == acc * 128 + (b % 128) as u64) by (bit_vector)
                requires
                    acc < 0x2_0000_0000_0000u64,
            ;
            lemma_groups_bound(next);
        }
        acc = (acc << 7) | ((b & 0x7f) as u64);
        i += 1;
    }
    proof {
        lemma_high_run(input@, 8, i as nat);
        lemma_pow128_8();
    }
    if i >= input.len() {
        return Err(Error::MalformedVarint);
    }
    let last: u8 = input[i];
    let value: u64 = if i == 8 {
        assert((acc << 8) | (last as u64) == acc * 256 + last as u64) by (bit_vector)
            requires
                acc < 0x100_0000_0000_0000u64,
        ;
        (acc << 8) | (last as u64)
    } else {
        assert((acc << 7) | ((last & 0x7f) as u64) == acc * 128 + (last % 128) as u64) by (bit_vector)
            requires
                acc < 0x2_0000_0000_0000u64,
        ;
        (acc << 7) | ((last & 0x7f) as u64)
    };
    let rest = &input[i + 1..input.len()];
    proof {
        assert(rest@ =~= input@.skip(i + 1));
    }
    Ok((rest, value))
}

} // verus!
