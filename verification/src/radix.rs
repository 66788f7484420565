//! Numbers written as little-endian digits, and what a row of digits amounts to in a base.
use vstd::arithmetic::power::{lemma_pow0, lemma_pow1, lemma_pow_adds, lemma_pow_positive, pow};
use vstd::prelude::*;

verus! {

/// What the digits amount to in the base: digit `i` weighs `base` to the power `i`.
pub open spec fn combine(digits: Seq<int>, base: int) -> int
    decreases digits.len(),
{
    if digits.len() == 0 {
        0
    } else {
        combine(digits.drop_last(), base) + digits.last() * pow(base, (digits.len() - 1) as nat)
    }
}

/// The bytes as integers.
pub open spec fn integers(bytes: Seq<u8>) -> Seq<int> {
    Seq::new(bytes.len(), |i: int| bytes[i] as int)
}

/// What the bytes amount to in the base, the least significant byte first.
pub open spec fn combine_bytes(bytes: Seq<u8>, base: int) -> int {
    combine(integers(bytes), base)
}

/// The `n` least significant bytes of a number, the least significant first.
pub open spec fn le_bytes(x: nat, n: nat) -> Seq<u8>
    decreases n,
{
    if n == 0 {
        Seq::empty()
    } else {
        seq![(x % 256) as u8] + le_bytes(x / 256, (n - 1) as nat)
    }
}

/// Taking the least significant digit apart: the rest weighs the base once.
pub proof fn lemma_combine_first(digits: Seq<int>, base: int)
    requires
        digits.len() > 0,
    ensures
        combine(digits, base) == digits[0] + base * combine(digits.drop_first(), base),
    decreases digits.len(),
{
    let n = digits.len();
    let rest = digits.drop_first();
    lemma_pow0(base);
    if n == 1 {
        assert(digits.drop_last() =~= Seq::<int>::empty());
        assert(combine(digits.drop_last(), base) == 0);
        assert(combine(rest, base) == 0);
        assert(digits.last() * 1 == digits[0]);
        assert(base * 0 == 0);
    } else {
        let front = digits.drop_last();
        lemma_combine_first(front, base);
        assert(front.drop_first() =~= rest.drop_last());
        let inner = combine(rest.drop_last(), base);
        let last = digits.last();
        lemma_pow1(base);
        lemma_pow_adds(base, 1, (n - 2) as nat);
        let p = pow(base, (n - 2) as nat);
        assert(pow(base, (n - 1) as nat) == base * p);
        assert(combine(rest, base) == inner + last * p);
        assert(base * (inner + last * p) == base * inner + last * (base * p)) by (nonlinear_arith);
    }
}

/// The bytes of a number amount, in base 256, to the number.
pub proof fn lemma_le_bytes_value(x: nat, n: nat)
    requires
        x < pow(256, n),
    ensures
        le_bytes(x, n).len() == n,
        combine_bytes(le_bytes(x, n), 256) == x,
    decreases n,
{
    lemma_pow0(256);
    let bytes = le_bytes(x, n);
    if n > 0 {
        lemma_pow1(256);
        lemma_pow_adds(256, 1, (n - 1) as nat);
        assert(x / 256 < pow(256, (n - 1) as nat));
        lemma_le_bytes_value(x / 256, (n - 1) as nat);
        lemma_combine_first(integers(bytes), 256);
        assert(integers(bytes).drop_first() =~= integers(le_bytes(x / 256, (n - 1) as nat)));
    } else {
        assert(integers(bytes) =~= Seq::<int>::empty());
    }
}

/// The number of bytes asked for is the number of bytes given.
pub proof fn lemma_le_bytes_len(x: nat, n: nat)
    ensures
        le_bytes(x, n).len() == n,
    decreases n,
{
    if n > 0 {
        lemma_le_bytes_len(x / 256, (n - 1) as nat);
    }
}

/// The bytes of `low + 256^k * high` are those of `low` followed by those of `high`.
pub proof fn lemma_le_bytes_split(low: nat, high: nat, k: nat, n: nat)
    requires
        low < pow(256, k),
    ensures
        le_bytes((low + pow(256, k) * high) as nat, k + n) == le_bytes(low, k) + le_bytes(high, n),
    decreases k,
{
    lemma_pow_positive(256, k);
    let whole = (low + pow(256, k) * high) as nat;
    assert(pow(256, k) * high >= 0) by (nonlinear_arith)
        requires
            pow(256, k) > 0,
    ;
    lemma_pow0(256);
    if k == 0 {
        assert(whole == high) by (nonlinear_arith)
            requires
                whole == low + pow(256, k) * high,
                pow(256, k) == 1,
                low == 0,
        ;
        assert(le_bytes(low, k) + le_bytes(high, n) =~= le_bytes(high, n));
    } else {
        let j = (k - 1) as nat;
        lemma_pow1(256);
        lemma_pow_adds(256, 1, j);
        let p = pow(256, j);
        assert((256 * p) * high == 256 * (p * high)) by (nonlinear_arith);
        assert(whole == low + 256 * (p * high));
        assert(whole / 256 == low / 256 + p * high);
        assert(whole % 256 == low % 256);
        lemma_le_bytes_split(low / 256, high, j, n);
        assert(le_bytes(whole, k + n) =~= le_bytes(low, k) + le_bytes(high, n));
    }
}

/// `n` bytes, all 0.
pub open spec fn zeros(n: nat) -> Seq<u8> {
    Seq::new(n, |i: int| 0u8)
}

/// Zeros above the other bytes add nothing, in any base.
pub proof fn lemma_combine_zeros(bytes: Seq<u8>, n: nat, base: int)
    ensures
        combine_bytes(bytes + zeros(n), base) == combine_bytes(bytes, base),
    decreases n,
{
    if n == 0 {
        assert(bytes + zeros(n) =~= bytes);
    } else {
        lemma_combine_zeros(bytes, (n - 1) as nat, base);
        let digits = integers(bytes + zeros(n));
        assert(digits.drop_last() =~= integers(bytes + zeros((n - 1) as nat)));
        assert(digits.last() == 0);
    }
}

/// Bytes are, up to zeros above them, the bytes of the number that they amount to.
pub proof fn lemma_le_bytes_of(bytes: Seq<u8>, n: nat)
    requires
        bytes.len() <= n,
    ensures
        combine_bytes(bytes, 256) >= 0,
        le_bytes(combine_bytes(bytes, 256) as nat, n) == bytes + zeros((n - bytes.len()) as nat),
    decreases n,
{
    let value = combine_bytes(bytes, 256);
    if n > 0 {
        let m = (n - 1) as nat;
        if bytes.len() == 0 {
            lemma_le_bytes_of(bytes, m);
            assert(integers(bytes) =~= Seq::<int>::empty());
            assert(le_bytes(0, n) =~= seq![0u8] + le_bytes(0, m));
            assert(le_bytes(value as nat, n) =~= bytes + zeros(n));
        } else {
            let rest = bytes.drop_first();
            lemma_le_bytes_of(rest, m);
            lemma_combine_first(integers(bytes), 256);
            assert(integers(bytes).drop_first() =~= integers(rest));
            assert(value == bytes[0] + 256 * combine_bytes(rest, 256));
            assert(le_bytes(value as nat, n) =~= bytes + zeros((n - bytes.len()) as nat));
        }
    } else {
        assert(integers(bytes) =~= Seq::<int>::empty());
        assert(le_bytes(value as nat, n) =~= bytes + zeros(0));
    }
}

/// The `n` least significant bytes of `x`, the least significant first.
pub fn to_le_bytes(x: u64, n: usize) -> (bytes: Vec<u8>)
    ensures
        bytes@ == le_bytes(x as nat, n as nat),
{
    let mut bytes: Vec<u8> = Vec::new();
    let mut rest: u64 = x;
    let mut i: usize = 0;
    while i < n
        invariant
            i <= n,
            bytes@ + le_bytes(rest as nat, (n - i) as nat) == le_bytes(x as nat, n as nat),
        decreases n - i,
    {
        let ghost before = bytes@;
        bytes.push((rest % 256) as u8);
        proof {
            assert(bytes@ + le_bytes((rest / 256) as nat, (n - i - 1) as nat) =~= before + le_bytes(
                rest as nat,
                (n - i) as nat,
            ));
        }
        rest = rest / 256;
        i = i + 1;
    }
    assert(bytes@ + le_bytes(rest as nat, 0) =~= bytes@);
    bytes
}

/// The bytes in the opposite order.
pub fn reversed(bytes: &[u8]) -> (result: Vec<u8>)
    ensures
        result@ == bytes@.reverse(),
{
    let mut result: Vec<u8> = Vec::new();
    let mut i: usize = bytes.len();
    while i > 0
        invariant
            i <= bytes@.len(),
            result@.len() == bytes@.len() - i,
            forall|j: int| 0 <= j < result@.len() ==> result@[j] == bytes@[bytes@.len() - 1 - j],
        decreases i,
    {
        i = i - 1;
        result.push(bytes[i]);
    }
    assert(result@ =~= bytes@.reverse());
    result
}

} // verus!
