//! Integers as bytes.

use vstd::prelude::*;

verus! {

/// The `k` least significant bytes of `n`, the least significant first.
pub open spec fn le_bytes(n: nat, k: nat) -> Seq<u8>
    decreases k,
{
    if k == 0 {
        Seq::empty()
    } else {
        seq![(n % 256) as u8] + le_bytes(n / 256, (k - 1) as nat)
    }
}

/// The number whose bytes these are, the least significant first.
pub open spec fn le_value(bytes: Seq<u8>) -> nat
    decreases bytes.len(),
{
    if bytes.len() == 0 {
        0
    } else {
        bytes[0] as nat + 256 * le_value(bytes.skip(1))
    }
}

/// Two hundred and fifty-six to the power of `k`.
pub open spec fn pow256(k: nat) -> nat
    decreases k,
{
    if k == 0 {
        1
    } else {
        256 * pow256((k - 1) as nat)
    }
}

/// A number that fits is the value of its bytes.
pub proof fn law_le_round_trip(n: nat, k: nat)
    requires
        n < pow256(k),
    ensures
        le_bytes(n, k).len() == k,
        le_value(le_bytes(n, k)) == n,
    decreases k,
{
    if k > 0 {
        law_le_round_trip(n / 256, (k - 1) as nat);
        assert(le_bytes(n, k).skip(1) =~= le_bytes(n / 256, (k - 1) as nat));
    }
}

/// The value of `k` bytes fits into them.
pub proof fn lemma_le_value_bound(bytes: Seq<u8>)
    ensures
        le_value(bytes) < pow256(bytes.len()),
    decreases bytes.len(),
{
    if bytes.len() > 0 {
        lemma_le_value_bound(bytes.skip(1));
    }
}

/// Appends the bytes of `n`, the least significant first.
pub fn append_le_bytes(data: &mut Vec<u8>, n: u64)
    ensures
        final(data)@ == old(data)@ + le_bytes(n as nat, 8),
{
    let ghost start = data@;
    let ghost all = le_bytes(n as nat, 8);
    let mut rest = n;
    let mut i: u8 = 0;
    assert(start + le_bytes(n as nat, 8) =~= data@ + le_bytes(rest as nat, (8 - i) as nat));
    while i < 8
        invariant
            i <= 8,
            all == le_bytes(n as nat, 8),
            start + all == data@ + le_bytes(rest as nat, (8 - i) as nat),
        decreases 8 - i,
    {
        let ghost before = data@;
        data.push((rest % 256) as u8);
        proof {
            assert(before + le_bytes(rest as nat, (8 - i) as nat) =~= data@ + le_bytes((rest / 256) as nat, (7 - i) as nat));
        }
        rest = rest / 256;
        i += 1;
    }
    assert(data@ =~= start + all);
}

/// Returns the number whose bytes the first eight are, the least significant first.
pub fn leading_le_u64(bytes: &[u8]) -> (r: u64)
    requires
        bytes@.len() >= 8,
    ensures
        r == le_value(bytes@.take(8)),
{
    let ghost eight = bytes@.take(8);
    let mut value: u64 = 0;
    let mut i: usize = 8;
    proof {
        assert(eight.skip(8) =~= Seq::empty());
        assert(pow256(0) == 1);
    }
    while i > 0
        invariant
            i <= 8,
            bytes@.len() >= 8,
            eight == bytes@.take(8),
            value == le_value(eight.skip(i as int)),
        decreases i,
    {
        i -= 1;
        proof {
            let rest = eight.skip(i as int);
            assert(rest.skip(1) =~= eight.skip(i + 1));
            assert(rest[0] == bytes@[i as int]);
            lemma_le_value_bound(rest);
            assert(pow256(rest.len()) <= 0x1_0000_0000_0000_0000) by {
                reveal_with_fuel(pow256, 9);
            }
        }
        value = bytes[i] as u64 + 256 * value;
    }
    assert(eight.skip(0) =~= eight);
    value
}

/// The byte at a place is the digit of the number at that place, to the base of two hundred and fifty-six.
pub proof fn law_bytes_are_digits(n: nat, k: nat, i: nat)
    requires
        i < k,
    ensures
        le_bytes(n, k).len() == k,
        le_bytes(n, k)[i as int] == n as int / vstd::arithmetic::power::pow(256, i) % 256,
    decreases k,
{
    vstd::arithmetic::power::lemma_pow_positive(256, i);
    if i == 0 {
        vstd::arithmetic::power::lemma_pow0(256);
        if k > 1 {
            law_bytes_are_digits(n / 256, (k - 1) as nat, 0);
        } else {
            assert(le_bytes(n / 256, 0) =~= Seq::<u8>::empty());
        }
    } else {
        law_bytes_are_digits(n / 256, (k - 1) as nat, (i - 1) as nat);
        vstd::arithmetic::power::lemma_pow_positive(256, (i - 1) as nat);
        vstd::arithmetic::power::lemma_pow_adds(256, 1, (i - 1) as nat);
        vstd::arithmetic::power::lemma_pow1(256);
        vstd::arithmetic::div_mod::lemma_div_denominator(n as int, 256, vstd::arithmetic::power::pow(256, (i - 1) as nat));
    }
}

/// Each further byte counts two hundred and fifty-six times as much as the one before.
pub proof fn law_later_bytes_count_more(bytes: Seq<u8>, last: u8)
    ensures
        le_value(Seq::empty()) == 0,
        le_value(bytes.push(last)) == le_value(bytes) + last * vstd::arithmetic::power::pow(256, bytes.len()),
    decreases bytes.len(),
{
    let all = bytes.push(last);
    vstd::arithmetic::power::lemma_pow0(256);
    if bytes.len() > 0 {
        let rest = bytes.skip(1);
        law_later_bytes_count_more(rest, last);
        assert(all.skip(1) =~= rest.push(last));
        vstd::arithmetic::power::lemma_pow_adds(256, 1, rest.len());
        vstd::arithmetic::power::lemma_pow1(256);
        let p = vstd::arithmetic::power::pow(256, rest.len());
        assert(256 * (last * p) == last * (256 * p)) by (nonlinear_arith);
    } else {
        assert(all.skip(1) =~= Seq::<u8>::empty());
        assert(bytes =~= Seq::<u8>::empty());
    }
}

} // verus!
