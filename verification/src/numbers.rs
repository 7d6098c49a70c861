//! Mathematical model of integers as byte sequences, and the executable conversions between them.
use vstd::prelude::*;
use vstd::arithmetic::power2::*;
use vstd::arithmetic::div_mod::*;
use vstd::arithmetic::mul::*;

verus! {

/// value of a byte sequence read most significant byte first
pub open spec fn be_value(s: Seq<u8>) -> nat
    decreases s.len(),
{
    if s.len() == 0 {
        0
    } else {
        (be_value(s.drop_last()) * 256 + s.last()) as nat
    }
}

/// value of a byte sequence read least significant byte first
pub open spec fn le_value(s: Seq<u8>) -> nat
    decreases s.len(),
{
    if s.len() == 0 {
        0
    } else {
        (s[0] + 256 * le_value(s.drop_first())) as nat
    }
}

/// the `n` least significant bytes of `x`, most significant first
pub open spec fn be_bytes(x: nat, n: nat) -> Seq<u8>
    decreases n,
{
    if n == 0 {
        Seq::empty()
    } else {
        be_bytes(x / 256, (n - 1) as nat).push((x % 256) as u8)
    }
}

/// the `n` least significant bytes of `x`, least significant first
pub open spec fn le_bytes(x: nat, n: nat) -> Seq<u8>
    decreases n,
{
    if n == 0 {
        Seq::empty()
    } else {
        seq![(x % 256) as u8] + le_bytes(x / 256, (n - 1) as nat)
    }
}

/// two's complement reading of an unsigned value `raw` of `n` bytes
pub open spec fn to_signed(raw: nat, n: nat) -> int {
    if raw >= pow2((8 * n - 1) as nat) {
        raw - pow2(8 * n)
    } else {
        raw as int
    }
}

/// two's complement representation on `n` bytes of a signed value
pub open spec fn from_signed(v: int, n: nat) -> nat {
    if v < 0 {
        (v + pow2(8 * n)) as nat
    } else {
        v as nat
    }
}

/// the big-endian bytes of a number on `n` bytes are `n` bytes
pub proof fn lemma_be_bytes_len(x: nat, n: nat)
    ensures
        be_bytes(x, n).len() == n,
    decreases n,
{
    if n > 0 {
        lemma_be_bytes_len(x / 256, (n - 1) as nat);
    }
}

/// the little-endian bytes of a number on `n` bytes are `n` bytes
pub proof fn lemma_le_bytes_len(x: nat, n: nat)
    ensures
        le_bytes(x, n).len() == n,
    decreases n,
{
    if n > 0 {
        lemma_le_bytes_len(x / 256, (n - 1) as nat);
    }
}

/// the values of byte sequences are bounded by their length
pub proof fn lemma_be_value_bound(s: Seq<u8>)
    ensures
        be_value(s) < pow2(8 * s.len()),
    decreases s.len(),
{
    if s.len() > 0 {
        let k = (8 * (s.len() - 1)) as nat;
        lemma_be_value_bound(s.drop_last());
        let m = pow2(k);
        lemma_pow2_adds(k, 8);
        lemma2_to64();
        assert(8 * s.len() == k + 8);
        assert(be_value(s.drop_last()) + 1 <= m);
        lemma_mul_inequality(be_value(s.drop_last()) + 1int, m as int, 256);
        assert(be_value(s) < (be_value(s.drop_last()) + 1) * 256);
    } else {
        lemma2_to64();
    }
}

/// powers of two grow with their exponent
pub proof fn lemma_pow2_le(a: nat, b: nat)
    requires
        a <= b,
    ensures
        pow2(a) <= pow2(b),
{
    if a < b {
        lemma_pow2_strictly_increases(a, b);
    }
}

/// the little-endian value of a byte sequence is bounded by its length
pub proof fn lemma_le_value_bound(s: Seq<u8>)
    ensures
        le_value(s) < pow2(8 * s.len()),
    decreases s.len(),
{
    if s.len() > 0 {
        let k = (8 * (s.len() - 1)) as nat;
        lemma_le_value_bound(s.drop_first());
        let m = pow2(k);
        lemma_pow2_adds(k, 8);
        lemma2_to64();
        assert(8 * s.len() == k + 8);
        assert(le_value(s.drop_first()) + 1 <= m);
        lemma_mul_inequality(le_value(s.drop_first()) + 1int, m as int, 256);
        lemma_mul_is_commutative(256, (le_value(s.drop_first()) + 1) as int);
        assert(le_value(s) < 256 * (le_value(s.drop_first()) + 1));
    } else {
        lemma2_to64();
    }
}

/// reading back the big-endian bytes of a number gives the number truncated to these bytes
pub proof fn lemma_be_value_of_bytes(x: nat, n: nat)
    ensures
        be_value(be_bytes(x, n)) == x % pow2(8 * n),
    decreases n,
{
    lemma2_to64();
    if n == 0 {
        assert(pow2(0) == 1);
    } else {
        lemma_be_value_of_bytes(x / 256, (n - 1) as nat);
        let s = be_bytes(x, n);
        assert(s.drop_last() == be_bytes(x / 256, (n - 1) as nat));
        lemma_pow2_adds(8, 8 * (n - 1) as nat);
        lemma_pow2_pos(8 * (n - 1) as nat);
        // x % (256 * m) == 256 * ((x / 256) % m) + x % 256
        lemma_mod_breakdown(x as int, 256, pow2(8 * (n - 1) as nat) as int);
        lemma_mul_is_commutative(256, ((x / 256) % pow2(8 * (n - 1) as nat)) as int);
    }
}

/// reading back the little-endian bytes of a number gives the number truncated to these bytes
pub proof fn lemma_le_value_of_bytes(x: nat, n: nat)
    ensures
        le_value(le_bytes(x, n)) == x % pow2(8 * n),
    decreases n,
{
    lemma2_to64();
    if n == 0 {
        assert(pow2(0) == 1);
    } else {
        lemma_le_value_of_bytes(x / 256, (n - 1) as nat);
        let s = le_bytes(x, n);
        assert(s.drop_first() == le_bytes(x / 256, (n - 1) as nat));
        lemma_pow2_adds(8, 8 * (n - 1) as nat);
        lemma_pow2_pos(8 * (n - 1) as nat);
        lemma_mod_breakdown(x as int, 256, pow2(8 * (n - 1) as nat) as int);
    }
}

/// big-endian bytes of a byte sequence's value give back the sequence
pub proof fn lemma_be_bytes_of_value(s: Seq<u8>)
    ensures
        be_bytes(be_value(s), s.len()) == s,
    decreases s.len(),
{
    if s.len() > 0 {
        let v = be_value(s);
        lemma_be_bytes_of_value(s.drop_last());
        assert(v / 256 == be_value(s.drop_last()));
        assert(v % 256 == s.last());
        assert(be_bytes(v, s.len()) =~= s.drop_last().push(s.last()));
        assert(s.drop_last().push(s.last()) =~= s);
    }
}

/// little-endian bytes of a byte sequence's value give back the sequence
pub proof fn lemma_le_bytes_of_value(s: Seq<u8>)
    ensures
        le_bytes(le_value(s), s.len()) == s,
    decreases s.len(),
{
    if s.len() > 0 {
        let v = le_value(s);
        lemma_le_bytes_of_value(s.drop_first());
        assert(v / 256 == le_value(s.drop_first())) by {
            lemma_div_multiples_vanish_fancy(le_value(s.drop_first()) as int, s[0] as int, 256);
        }
        assert(v % 256 == s[0]) by {
            lemma_mod_multiples_vanish(le_value(s.drop_first()) as int, s[0] as int, 256);
        }
        assert(le_bytes(v, s.len()) =~= seq![s[0]] + s.drop_first());
    }
}

/// the little-endian value of two concatenated byte sequences
pub proof fn lemma_le_value_concat(a: Seq<u8>, b: Seq<u8>)
    ensures
        le_value(a + b) == le_value(a) + pow2(8 * a.len()) * le_value(b),
    decreases a.len(),
{
    lemma2_to64();
    if a.len() == 0 {
        assert(a + b =~= b);
        assert(pow2(8 * a.len()) == 1);
        lemma_mul_basics(le_value(b) as int);
    } else {
        let rest = a.drop_first();
        lemma_le_value_concat(rest, b);
        assert((a + b).drop_first() =~= rest + b);
        assert((a + b)[0] == a[0]);
        lemma_pow2_adds(8, 8 * rest.len());
        let p = pow2(8 * rest.len()) as int;
        let vb = le_value(b) as int;
        assert(256 * (le_value(rest) + p * vb) == 256 * le_value(rest) + (256 * p) * vb) by (nonlinear_arith);
        assert(pow2(8 * a.len()) == 256 * p) by {
            assert(8 * a.len() == 8 + 8 * rest.len());
        }
        assert(le_value(a) == a[0] + 256 * le_value(rest));
        assert(le_value(a + b) == a[0] + 256 * le_value(rest + b));
    }
}

/// the big-endian bytes of `x` on `n` bytes, as a vector
pub fn be_bytes_of(x: u64, n: usize) -> (r: Vec<u8>)
    ensures
        r@ == be_bytes(x as nat, n as nat),
{
    let mut v: Vec<u8> = Vec::new();
    let mut y: u64 = x;
    let mut i: usize = 0;
    proof {
        assert(be_bytes(x as nat, n as nat) + v@ =~= be_bytes(x as nat, n as nat));
    }
    while i < n
        invariant
            i <= n,
            be_bytes(y as nat, (n - i) as nat) + v@ == be_bytes(x as nat, n as nat),
        decreases n - i,
    {
        let b: u8 = (y % 256) as u8;
        proof {
            let m = (n - i) as nat;
            assert(be_bytes(y as nat, m) == be_bytes((y / 256) as nat, (m - 1) as nat).push(b));
            assert(be_bytes((y / 256) as nat, (m - 1) as nat) + (seq![b] + v@) =~= be_bytes(
                y as nat,
                m,
            ) + v@);
        }
        v.insert(0, b);
        y = y / 256;
        i = i + 1;
    }
    proof {
        assert(be_bytes(y as nat, 0) + v@ =~= v@);
    }
    v
}

/// the little-endian bytes of `x` on `n` bytes, as a vector
pub fn le_bytes_of(x: u64, n: usize) -> (r: Vec<u8>)
    ensures
        r@ == le_bytes(x as nat, n as nat),
{
    let mut v: Vec<u8> = Vec::new();
    let mut y: u64 = x;
    let mut i: usize = 0;
    proof {
        assert(v@ + le_bytes(x as nat, n as nat) =~= le_bytes(x as nat, n as nat));
    }
    while i < n
        invariant
            i <= n,
            v@ + le_bytes(y as nat, (n - i) as nat) == le_bytes(x as nat, n as nat),
        decreases n - i,
    {
        let b: u8 = (y % 256) as u8;
        proof {
            let m = (n - i) as nat;
            assert(le_bytes(y as nat, m) == seq![b] + le_bytes((y / 256) as nat, (m - 1) as nat));
            assert(v@.push(b) + le_bytes((y / 256) as nat, (m - 1) as nat) =~= v@ + le_bytes(
                y as nat,
                m,
            ));
        }
        v.push(b);
        y = y / 256;
        i = i + 1;
    }
    proof {
        assert(v@ + le_bytes(y as nat, 0) =~= v@);
    }
    v
}

/// the value of at most 8 bytes read in big-endian order
pub fn be_value_of(s: &[u8]) -> (r: u64)
    requires
        s@.len() <= 8,
    ensures
        r == be_value(s@),
{
    let mut acc: u64 = 0;
    let mut i: usize = 0;
    proof {
        assert(s@.subrange(0, 0) =~= Seq::<u8>::empty());
    }
    while i < s.len()
        invariant
            i <= s@.len() <= 8,
            acc == be_value(s@.subrange(0, i as int)),
        decreases s@.len() - i,
    {
        proof {
            lemma_be_value_bound(s@.subrange(0, i as int));
            lemma_pow2_le((8 * i) as nat, 56);
            lemma2_to64();
            lemma_pow2_adds(56, 8);
            assert(s@.subrange(0, i + 1).drop_last() =~= s@.subrange(0, i as int));
        }
        acc = acc * 256 + s[i] as u64;
        i = i + 1;
    }
    proof {
        assert(s@.subrange(0, s@.len() as int) =~= s@);
    }
    acc
}

/// the value of at most 8 bytes read in little-endian order
pub fn le_value_of(s: &[u8]) -> (r: u64)
    requires
        s@.len() <= 8,
    ensures
        r == le_value(s@),
{
    let mut acc: u64 = 0;
    let mut i: usize = s.len();
    proof {
        assert(s@.subrange(s@.len() as int, s@.len() as int) =~= Seq::<u8>::empty());
    }
    while i > 0
        invariant
            i <= s@.len() <= 8,
            acc == le_value(s@.subrange(i as int, s@.len() as int)),
        decreases i,
    {
        proof {
            let t = s@.subrange(i as int, s@.len() as int);
            lemma_le_value_bound(t);
            lemma_pow2_le((8 * t.len()) as nat, 56);
            lemma2_to64();
            lemma_pow2_adds(56, 8);
            assert(s@.subrange(i - 1, s@.len() as int).drop_first() =~= t);
        }
        acc = s[i - 1] as u64 + 256 * acc;
        i = i - 1;
    }
    proof {
        assert(s@.subrange(0, s@.len() as int) =~= s@);
    }
    acc
}

} // verus!
