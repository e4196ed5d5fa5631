//! Big-endian integers as the file format stores them.

use vstd::prelude::*;

verus! {

/// The unsigned number that `bytes` write in base 256, first byte highest.
pub open spec fn be_value(bytes: Seq<u8>) -> nat
    decreases bytes.len(),
{
    if bytes.len() == 0 {
        0
    } else {
        be_value(bytes.drop_last()) * 256 + bytes.last() as nat
    }
}

/// 256 to the power `k`.
pub open spec fn pow256(k: nat) -> nat
    decreases k,
{
    if k == 0 {
        1
    } else {
        256 * pow256((k - 1) as nat)
    }
}

/// The number that `bytes` write in two's complement, first byte highest.
pub open spec fn be_signed(bytes: Seq<u8>) -> int {
    if bytes.len() > 0 && bytes[0] >= 0x80 {
        be_value(bytes) - pow256(bytes.len())
    } else {
        be_value(bytes) as int
    }
}

/// `k` bytes write a number below 256 to the power `k`.
pub proof fn lemma_be_bound(bytes: Seq<u8>)
    ensures
        be_value(bytes) < pow256(bytes.len()),
    decreases bytes.len(),
{
    if bytes.len() > 0 {
        lemma_be_bound(bytes.drop_last());
        let a = be_value(bytes.drop_last());
        let p = pow256((bytes.len() - 1) as nat);
        assert(a * 256 + 255 < 256 * p) by (nonlinear_arith)
            requires
                a < p,
        ;
    }
}

/// The first byte decides in which half of the range a big-endian number lies.
pub proof fn lemma_be_first_byte(bytes: Seq<u8>)
    requires
        bytes.len() > 0,
    ensures
        bytes[0] as nat * pow256((bytes.len() - 1) as nat) <= be_value(bytes),
        be_value(bytes) < (bytes[0] as nat + 1) * pow256((bytes.len() - 1) as nat),
    decreases bytes.len(),
{
    let f = bytes[0] as nat;
    let q = pow256((bytes.len() - 1) as nat);
    if bytes.len() == 1 {
        assert(bytes.drop_last().len() == 0);
        assert(be_value(bytes.drop_last()) == 0);
        assert(bytes.last() == bytes[0]);
        assert(q == 1);
        assert(f * q == f && (f + 1) * q == f + 1) by (nonlinear_arith)
            requires
                q == 1,
        ;
    } else {
        let front = bytes.drop_last();
        lemma_be_first_byte(front);
        assert(front[0] == bytes[0]);
        let p = pow256((bytes.len() - 2) as nat);
        let a = be_value(front);
        assert(q == 256 * p);
        assert(be_value(bytes) == a * 256 + bytes.last() as nat);
        assert(f * q <= a * 256) by (nonlinear_arith)
            requires
                f * p <= a,
                q == 256 * p,
        ;
        assert(a * 256 + 255 < (f + 1) * q) by (nonlinear_arith)
            requires
                a < (f + 1) * p,
                q == 256 * p,
        ;
    }
}

/// The powers of 256 up to the eighth.
pub proof fn lemma_pow256_8()
    ensures
        pow256(0) == 1,
        pow256(1) == 0x100,
        pow256(2) == 0x1_0000,
        pow256(3) == 0x100_0000,
        pow256(4) == 0x1_0000_0000,
        pow256(5) == 0x100_0000_0000,
        pow256(6) == 0x1_0000_0000_0000,
        pow256(7) == 0x100_0000_0000_0000,
        pow256(8) == 0x1_0000_0000_0000_0000,
{
    reveal_with_fuel(pow256, 10);
}

/// Reads the first `n` bytes of `input` as an unsigned big-endian number.
pub fn be_unsigned(input: &[u8], n: usize) -> (r: u64)
    requires
        n <= 8,
        n <= input@.len(),
    ensures
        r == be_value(input@.take(n as int)),
{
    let mut acc: u64 = 0;
    let mut i: usize = 0;
    while i < n
        invariant
            i <= n,
            n <= 8,
            n <= input@.len(),
            acc == be_value(input@.take(i as int)),
            acc < pow256(i as nat),
        decreases n - i,
    {
        let b: u8 = input[i];
        proof {
            lemma_pow256_8();
            let next = input@.take(i + 1);
            assert(next.drop_last() =~= input@.take(i as int));
            assert(next.last() == b);
            assert((acc << 8) | (b as u64) == acc * 256 + b as u64) by (bit_vector)
                requires
                    acc < 0x100_0000_0000_0000u64,
            ;
            lemma_be_bound(next);
        }
        acc = (acc << 8) | (b as u64);
        i += 1;
    }
    acc
}

/// Reads the first `n` bytes of `input` as a big-endian number in two's complement.
pub fn be_integer(input: &[u8], n: usize) -> (r: i64)
    requires
        1 <= n <= 8,
        n <= input@.len(),
    ensures
        r == be_signed(input@.take(n as int)),
{
    let u: u64 = be_unsigned(input, n);
    let negative: bool = input[0] >= 0x80;
    proof {
        let bytes = input@.take(n as int);
        lemma_pow256_8();
        lemma_be_bound(bytes);
        lemma_be_first_byte(bytes);
        assert(bytes[0] == input@[0]);
        let p = pow256((n - 1) as nat);
        let f = bytes[0] as nat;
        if negative {
            assert(128 * p <= f * p) by (nonlinear_arith)
                requires
                    128 <= f,
            ;
        } else {
            assert((f + 1) * p <= 128 * p) by (nonlinear_arith)
                requires
                    f + 1 <= 128,
            ;
        }
    }
    if !negative {
        u as i64
    } else if n == 8 {
        -((u64::MAX - u) as i64) - 1
    } else {
        let span: u64 = 1u64 << ((8 * n) as u64);
        proof {
            let s: u64 = (8 * n) as u64;
            assert(s == 8 || s == 16 || s == 24 || s == 32 || s == 40 || s == 48 || s == 56);
            assert(1u64 << 8u64 == 0x100) by (bit_vector);
            assert(1u64 << 16u64 == 0x1_0000) by (bit_vector);
            assert(1u64 << 24u64 == 0x100_0000) by (bit_vector);
            assert(1u64 << 32u64 == 0x1_0000_0000) by (bit_vector);
            assert(1u64 << 40u64 == 0x100_0000_0000) by (bit_vector);
            assert(1u64 << 48u64 == 0x1_0000_0000_0000) by (bit_vector);
            assert(1u64 << 56u64 == 0x100_0000_0000_0000) by (bit_vector);
            assert(span == pow256(n as nat));
        }
        (u as i64) - (span as i64)
    }
}

/// The signed number with the same 64 bits as `u`.
pub open spec fn signed_of(u: u64) -> i64 {
    if u < 0x8000_0000_0000_0000 {
        u as i64
    } else {
        (u - 0x1_0000_0000_0000_0000) as i64
    }
}

/// The unsigned number with the same 64 bits as `n`.
pub open spec fn unsigned_of(n: i64) -> u64 {
    if n >= 0 {
        n as u64
    } else {
        (n + 0x1_0000_0000_0000_0000) as u64
    }
}

/// Reads the 64 bits of `u` as a signed number.
pub fn to_signed(u: u64) -> (r: i64)
    ensures
        r == signed_of(u),
{
    if u < 0x8000_0000_0000_0000 {
        u as i64
    } else {
        -((u64::MAX - u) as i64) - 1
    }
}

/// Reads the 64 bits of `n` as an unsigned number.
pub fn to_unsigned(n: i64) -> (r: u64)
    ensures
        r == unsigned_of(n),
{
    if n >= 0 {
        n as u64
    } else {
        u64::MAX - ((-(n + 1)) as u64)
    }
}

} // verus!
