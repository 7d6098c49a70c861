//! Traits and impls used to read/write data to/from the wire.
use vstd::prelude::*;
use vstd::arithmetic::power2::*;
use vstd::arithmetic::div_mod::*;
use vstd::arithmetic::mul::*;
use vstd::bits::*;
use core::marker::PhantomData;
use vstd::arithmetic::power2::{lemma2_to64, lemma2_to64_rest};
use crate::numbers::{le_value, le_bytes, le_bytes_of, le_value_of, to_signed, from_signed, lemma_pow2_le, lemma_le_value_bound, lemma_le_bytes_len};

verus! {

/// Offset maximal allowed for bit shift
pub const MAX_OFFSET: u8 = 8;

/// Identifier used to define the position of the most significant byte in a field
#[derive(Copy, Clone, PartialEq, Eq, Debug, Hash, Structural)]
pub enum Endianness {
    Little,
    Big,
    Middle,
}

impl Default for Endianness {
    fn default() -> (r: Self)
        ensures
            r == Endianness::Little,
    {
        Endianness::Little
    }
}

impl Endianness {
    /// name of the byte ordering, as it is displayed
    pub fn name(&self) -> (r: &'static str)
        ensures
            r == (match *self {
                Endianness::Big => "Big",
                Endianness::Little => "Little",
                Endianness::Middle => "Mixed",
            }),
    {
        match self {
            Endianness::Big => "Big",
            Endianness::Little => "Little",
            Endianness::Middle => "Mixed",
        }
    }
}

/// Enum to identify and raise adapted error raised by this package
#[derive(Copy, Clone, Debug)]
pub enum PackingError {
    BadSize(usize, &'static str),
    BadAlignment(usize, &'static str),
    BadOrdering(Endianness, &'static str),
    InvalidValue(&'static str),
}

/// result of a packing or unpacking operation
pub type PackingResult<T> = Result<T, PackingError>;

/// dtype identifiers associated to dtypes allowing to dynamically check the type of a [PduData] implementor
///
/// It is only convering the common useful types and not all the possible implementors of [PduData]
#[derive(Copy, Clone, Debug, PartialEq, Eq, Structural)]
pub enum TypeId {
    /// default value of the enum, used in case the matching [PduData] does not fit in any of these integers
    CUSTOM,
    BOOL,
    I8,
    I16,
    I32,
    I64,
    U8,
    U16,
    U32,
    U64,
    F32,
    F64,
}

// ---------------------------------------------------------------------------
// model of the packing of integers at a bit position

/// the bit at position `p` of the bytes, the positions counting from the most significant bit of the first byte
pub open spec fn data_bit(data: Seq<u8>, p: int) -> bool {
    (data[p / 8] >> ((7 - p % 8) as u8)) & 1u8 == 1u8
}

/// the bit `k` of an integer, counting from the least significant one
pub open spec fn nat_bit(x: nat, k: int) -> bool {
    (x / pow2(k as nat)) % 2 == 1
}

/**
    the bit of a value placed at position `j` of a field of `len` bits, and conversely (the placement is its own inverse)

    - in big endian, the bits of the value come most significant first
    - in little endian, the bytes of the value come least significant first, each most significant bit first;
      the last byte holds the `len % 8` remaining bits of the value
*/
pub open spec fn field_bit(j: int, len: int, ordering: Endianness) -> int {
    if ordering == Endianness::Big {
        len - 1 - j
    } else if j / 8 < len / 8 {
        8 * (j / 8) + 7 - j % 8
    } else {
        8 * (j / 8) + len % 8 - 1 - j % 8
    }
}

/// the bit at position `p` after writing the `bitsize` low bits of `raw` from the position `bitoffset` of `data`
pub open spec fn written_bit(raw: nat, data: Seq<u8>, bitoffset: int, bitsize: int, ordering: Endianness, p: int) -> bool {
    if bitoffset <= p < bitoffset + bitsize {
        nat_bit(raw, field_bit(p - bitoffset, bitsize, ordering))
    } else {
        data_bit(data, p)
    }
}

/// the byte made of 8 bits, the most significant first
pub open spec fn byte_of(b0: bool, b1: bool, b2: bool, b3: bool, b4: bool, b5: bool, b6: bool, b7: bool) -> u8 {
    (if b0 { 0x80u8 } else { 0u8 }) | (if b1 { 0x40u8 } else { 0u8 }) | (if b2 { 0x20u8 } else { 0u8 })
        | (if b3 { 0x10u8 } else { 0u8 }) | (if b4 { 0x08u8 } else { 0u8 }) | (if b5 { 0x04u8 } else { 0u8 })
        | (if b6 { 0x02u8 } else { 0u8 }) | (if b7 { 0x01u8 } else { 0u8 })
}

/// the byte `i` after writing the `bitsize` low bits of `raw` from the position `bitoffset` of `data`
pub open spec fn written_byte(raw: nat, data: Seq<u8>, bitoffset: int, bitsize: int, ordering: Endianness, i: int) -> u8 {
    byte_of(
        written_bit(raw, data, bitoffset, bitsize, ordering, 8 * i),
        written_bit(raw, data, bitoffset, bitsize, ordering, 8 * i + 1),
        written_bit(raw, data, bitoffset, bitsize, ordering, 8 * i + 2),
        written_bit(raw, data, bitoffset, bitsize, ordering, 8 * i + 3),
        written_bit(raw, data, bitoffset, bitsize, ordering, 8 * i + 4),
        written_bit(raw, data, bitoffset, bitsize, ordering, 8 * i + 5),
        written_bit(raw, data, bitoffset, bitsize, ordering, 8 * i + 6),
        written_bit(raw, data, bitoffset, bitsize, ordering, 8 * i + 7),
    )
}

/// the bytes after writing the `bitsize` low bits of `raw` from the bit position `bitoffset` of `data`, in the given ordering
pub open spec fn packed_int_bytes(raw: nat, data: Seq<u8>, bitoffset: u8, bitsize: usize, ordering: Endianness) -> Seq<u8> {
    Seq::new(data.len(), |i: int| written_byte(raw, data, bitoffset as int, bitsize as int, ordering, i))
}

/// the integer whose bit `k` is `bits[k]`
pub open spec fn bits_value(bits: Seq<bool>) -> nat
    decreases bits.len(),
{
    if bits.len() == 0 {
        0
    } else {
        2 * bits_value(bits.drop_first()) + bit(bits[0])
    }
}

/// the bits of the value held by the field of `bitsize` bits at the position `bitoffset` of `src`, least significant first
pub open spec fn field_bits(src: Seq<u8>, bitoffset: int, bitsize: int, ordering: Endianness) -> Seq<bool> {
    Seq::new(bitsize as nat, |k: int| data_bit(src, bitoffset + field_bit(k, bitsize, ordering)))
}

/// the checks of integer packing pass
pub open spec fn int_pack_accepted(len: nat, bitoffset: u8, bitsize: usize) -> bool {
    bitsize >= 1 && bitoffset < MAX_OFFSET && bitsize + bitoffset <= len * 8
}

/// packing an integer of `n` bytes on a slice of length `len` runs to completion: the field is not wider than the integer
pub open spec fn int_pack_defined(len: nat, n: nat, bitoffset: u8, bitsize: usize, ordering: Endianness) -> bool {
    &&& len * 8 <= usize::MAX
    &&& bitoffset + bitsize <= usize::MAX
    &&& (int_pack_accepted(len, bitoffset, bitsize) && ordering != Endianness::Middle) ==> bitsize <= 8 * n
}

/// result of packing an integer of `n` bytes with representation `raw` in the slice `data`
pub open spec fn pack_int_result(
    raw: nat,
    n: nat,
    signed: bool,
    data: Seq<u8>,
    bitoffset: u8,
    bitsize: usize,
    ordering: Endianness,
) -> Result<Seq<u8>, PackingError> {
    if bitsize == 0 {
        Err(PackingError::InvalidValue("Bit size couldn't be negative"))
    } else if bitoffset >= MAX_OFFSET {
        Err(PackingError::BadAlignment(bitoffset as usize, "Offset greater than 8"))
    } else if bitsize + bitoffset > data.len() * 8 {
        Err(PackingError::BadSize(bitsize, "Data too large for the given slice"))
    } else if ordering == Endianness::Middle {
        Err(PackingError::BadOrdering(ordering, "Mixed endian is invalid in this case"))
    } else {
        Ok(packed_int_bytes(raw, data, bitoffset, bitsize, ordering))
    }
}

/// unpacking an integer from a slice of length `len` runs to completion
pub open spec fn int_unpack_defined(len: nat, n: nat, bitoffset: u8, bitsize: usize) -> bool {
    &&& len * 8 <= usize::MAX
    &&& bitoffset + bitsize <= usize::MAX
}

/// result of unpacking the representation of an integer of `n` bytes from the slice `src`
pub open spec fn unpack_int_result(
    src: Seq<u8>,
    n: nat,
    bitoffset: u8,
    bitsize: usize,
    ordering: Endianness,
) -> Result<nat, PackingError> {
    if bitoffset >= MAX_OFFSET {
        Err(PackingError::BadAlignment(bitoffset as usize, "Alignement superior than one byte"))
    } else if bitsize + bitoffset > src.len() * 8 || bitsize > 8 * n {
        Err(PackingError::BadSize(bitsize, "Size greater than input slice size"))
    } else if ordering == Endianness::Middle {
        Err(PackingError::BadOrdering(ordering, "Mixed endian is invalid in this case"))
    } else {
        Ok(bits_value(field_bits(src, bitoffset as int, bitsize as int, ordering)))
    }
}

/// byte widths of the integers that can be packed
pub open spec fn valid_int_width(n: nat) -> bool {
    n == 1 || n == 2 || n == 4 || n == 8
}

/// the placement of the bits of a field is a permutation of its positions, its own inverse
proof fn lemma_field_bit(j: int, len: int, ordering: Endianness)
    requires
        0 <= j < len,
    ensures
        0 <= field_bit(j, len, ordering) < len,
        field_bit(field_bit(j, len, ordering), len, ordering) == j,
{
    let q = j / 8;
    let t = j % 8;
    assert(j == 8 * q + t && 0 <= t < 8) by {
        lemma_fundamental_div_mod(j, 8);
    }
    let lq = len / 8;
    let r = len % 8;
    assert(len == 8 * lq + r && 0 <= r < 8) by {
        lemma_fundamental_div_mod(len, 8);
    }
    if ordering != Endianness::Big {
        if q < lq {
            let f = 8 * q + 7 - t;
            assert(f / 8 == q && f % 8 == 7 - t) by {
                lemma_fundamental_div_mod_converse(f, 8, q, 7 - t);
            }
        } else {
            assert(q == lq);
            assert(t < r);
            let f = 8 * q + r - 1 - t;
            assert(f / 8 == q && f % 8 == r - 1 - t) by {
                lemma_fundamental_div_mod_converse(f, 8, q, r - 1 - t);
            }
        }
    }
}

/// setting or clearing one bit of a byte changes that bit only
proof fn lemma_set_bit(b: u8, s: u8, v: bool, t: u8)
    by (bit_vector)
    requires
        s < 8,
        t < 8,
    ensures
        (((if v { b | (1u8 << s) } else { b & !(1u8 << s) }) >> t) & 1u8 == 1u8) == (if t == s { v } else { (b >> t) & 1u8 == 1u8 }),
{
}

/// a byte is made of its bits
proof fn lemma_byte_bits(b: u8)
    by (bit_vector)
    ensures
        b == byte_of(
            (b >> 7u8) & 1u8 == 1u8, (b >> 6u8) & 1u8 == 1u8, (b >> 5u8) & 1u8 == 1u8, (b >> 4u8) & 1u8 == 1u8,
            (b >> 3u8) & 1u8 == 1u8, (b >> 2u8) & 1u8 == 1u8, (b >> 1u8) & 1u8 == 1u8, (b >> 0u8) & 1u8 == 1u8,
        ),
{
}

/// the bits of a byte made of bits are these bits
proof fn lemma_byte_of_bits(b0: bool, b1: bool, b2: bool, b3: bool, b4: bool, b5: bool, b6: bool, b7: bool)
    by (bit_vector)
    ensures
        ((byte_of(b0, b1, b2, b3, b4, b5, b6, b7) >> 7u8) & 1u8 == 1u8) == b0,
        ((byte_of(b0, b1, b2, b3, b4, b5, b6, b7) >> 6u8) & 1u8 == 1u8) == b1,
        ((byte_of(b0, b1, b2, b3, b4, b5, b6, b7) >> 5u8) & 1u8 == 1u8) == b2,
        ((byte_of(b0, b1, b2, b3, b4, b5, b6, b7) >> 4u8) & 1u8 == 1u8) == b3,
        ((byte_of(b0, b1, b2, b3, b4, b5, b6, b7) >> 3u8) & 1u8 == 1u8) == b4,
        ((byte_of(b0, b1, b2, b3, b4, b5, b6, b7) >> 2u8) & 1u8 == 1u8) == b5,
        ((byte_of(b0, b1, b2, b3, b4, b5, b6, b7) >> 1u8) & 1u8 == 1u8) == b6,
        ((byte_of(b0, b1, b2, b3, b4, b5, b6, b7) >> 0u8) & 1u8 == 1u8) == b7,
{
}

/// position `8 * i + t` is the bit `t` of the byte `i`
proof fn lemma_position(i: int, t: int)
    requires
        0 <= t < 8,
    ensures
        (8 * i + t) / 8 == i,
        (8 * i + t) % 8 == t,
{
    lemma_fundamental_div_mod_converse(8 * i + t, 8, i, t);
}

/// a byte whose bits are known is known
proof fn lemma_byte_from_bits(data: Seq<u8>, i: int, b: spec_fn(int) -> bool)
    requires
        0 <= i < data.len(),
        forall|t: int| 0 <= t < 8 ==> #[trigger] data_bit(data, 8 * i + t) == b(8 * i + t),
    ensures
        data[i] == byte_of(b(8 * i), b(8 * i + 1), b(8 * i + 2), b(8 * i + 3), b(8 * i + 4), b(8 * i + 5), b(8 * i + 6), b(8 * i + 7)),
{
    let x = data[i];
    assert forall|t: int| 0 <= t < 8 implies ((x >> ((7 - t) as u8)) & 1u8 == 1u8) == #[trigger] b(8 * i + t) by {
        lemma_position(i, t);
        assert(data_bit(data, 8 * i + t) == b(8 * i + t));
    }
    lemma_byte_bits(x);
    assert(((x >> 7u8) & 1u8 == 1u8) == b(8 * i)) by { assert(((x >> ((7 - 0) as u8)) & 1u8 == 1u8) == b(8 * i + 0)); }
    assert(((x >> 6u8) & 1u8 == 1u8) == b(8 * i + 1)) by { assert(((x >> ((7 - 1) as u8)) & 1u8 == 1u8) == b(8 * i + 1)); }
    assert(((x >> 5u8) & 1u8 == 1u8) == b(8 * i + 2)) by { assert(((x >> ((7 - 2) as u8)) & 1u8 == 1u8) == b(8 * i + 2)); }
    assert(((x >> 4u8) & 1u8 == 1u8) == b(8 * i + 3)) by { assert(((x >> ((7 - 3) as u8)) & 1u8 == 1u8) == b(8 * i + 3)); }
    assert(((x >> 3u8) & 1u8 == 1u8) == b(8 * i + 4)) by { assert(((x >> ((7 - 4) as u8)) & 1u8 == 1u8) == b(8 * i + 4)); }
    assert(((x >> 2u8) & 1u8 == 1u8) == b(8 * i + 5)) by { assert(((x >> ((7 - 5) as u8)) & 1u8 == 1u8) == b(8 * i + 5)); }
    assert(((x >> 1u8) & 1u8 == 1u8) == b(8 * i + 6)) by { assert(((x >> ((7 - 6) as u8)) & 1u8 == 1u8) == b(8 * i + 6)); }
    assert(((x >> 0u8) & 1u8 == 1u8) == b(8 * i + 7)) by { assert(((x >> ((7 - 7) as u8)) & 1u8 == 1u8) == b(8 * i + 7)); }
}

/// the bits of the packed bytes are the written bits
proof fn lemma_packed_bits(raw: nat, data: Seq<u8>, bitoffset: u8, bitsize: usize, ordering: Endianness, p: int)
    requires
        0 <= p < 8 * data.len(),
    ensures
        data_bit(packed_int_bytes(raw, data, bitoffset, bitsize, ordering), p)
            == written_bit(raw, data, bitoffset as int, bitsize as int, ordering, p),
{
    let i = p / 8;
    let t = p % 8;
    lemma_fundamental_div_mod(p, 8);
    let w = |q: int| written_bit(raw, data, bitoffset as int, bitsize as int, ordering, q);
    lemma_byte_of_bits(w(8 * i), w(8 * i + 1), w(8 * i + 2), w(8 * i + 3), w(8 * i + 4), w(8 * i + 5), w(8 * i + 6), w(8 * i + 7));
    assert(p == 8 * i + t);
}

/// the value of the bits `k ..` of an integer, from its bits
proof fn lemma_bits_value_of_nat(x: nat, k: nat, m: nat)
    ensures
        bits_value(Seq::new(m, |i: int| nat_bit(x, k + i))) == (x / pow2(k)) % pow2(m),
    decreases m,
{
    let s = Seq::new(m, |i: int| nat_bit(x, k + i));
    if m == 0 {
        assert(pow2(0) == 1) by { lemma2_to64(); }
    } else {
        lemma_bits_value_of_nat(x, k + 1, (m - 1) as nat);
        assert(s.drop_first() =~= Seq::new((m - 1) as nat, |i: int| nat_bit(x, (k + 1) + i)));
        lemma_pow2_pos(k);
        lemma_pow2_pos((m - 1) as nat);
        let y = x / pow2(k);
        assert(x / pow2(k + 1) == y / 2) by {
            lemma_pow2_unfold(k + 1);
            lemma_mul_is_commutative(2, pow2(k) as int);
            lemma_div_denominator(x as int, pow2(k) as int, 2);
        }
        lemma_pow2_unfold(m);
        lemma_mod_breakdown(y as int, 2, pow2((m - 1) as nat) as int);
        assert(bit(s[0]) == y % 2);
    }
}

/// the value of bits is below 2 to the number of bits
proof fn lemma_bits_value_bound(bits: Seq<bool>)
    ensures
        bits_value(bits) < pow2(bits.len()),
    decreases bits.len(),
{
    if bits.len() == 0 {
        assert(pow2(0) == 1) by { lemma2_to64(); }
    } else {
        lemma_bits_value_bound(bits.drop_first());
        lemma_pow2_unfold(bits.len());
    }
}

/// bit `k` of a machine integer
proof fn lemma_u64_bit(x: u64, k: u64)
    requires
        k < 64,
    ensures
        (((x >> k) & 1u64) == 1u64) == nat_bit(x as nat, k as int),
        ((x >> k) & 1u64) <= 1,
{
    lemma_u64_shr_is_div(x, k);
    let y = x >> k;
    assert((y & 1u64 == 1u64) == (y % 2 == 1)) by (bit_vector);
    assert(y & 1u64 <= 1) by (bit_vector);
}

/// the placement of bit `j` of a field, computed
fn field_bit_exec(j: usize, len: usize, ordering: Endianness) -> (r: usize)
    requires
        j < len,
        ordering != Endianness::Middle,
    ensures
        r == field_bit(j as int, len as int, ordering),
        r < len,
{
    proof {
        lemma_field_bit(j as int, len as int, ordering);
    }
    if ordering == Endianness::Big {
        len - 1 - j
    } else if j / 8 < len / 8 {
        8 * (j / 8) + 7 - j % 8
    } else {
        8 * (j / 8) + len % 8 - 1 - j % 8
    }
}

/// pack the `n` bytes representation `raw` of an integer at the given bit position in `data`
fn pack_raw(
    raw: u64,
    n: usize,
    signed: bool,
    data: &mut [u8],
    bitoffset: u8,
    bitsize: usize,
    bitordering: Endianness,
) -> (r: PackingResult<()>)
    requires
        valid_int_width(n as nat),
        raw < pow2(8 * n as nat),
        int_pack_defined(old(data)@.len(), n as nat, bitoffset, bitsize, bitordering),
    ensures
        match pack_int_result(raw as nat, n as nat, signed, old(data)@, bitoffset, bitsize, bitordering) {
            Ok(s) => r is Ok && final(data)@ == s,
            Err(e) => r == Err::<(), PackingError>(e) && final(data)@ == old(data)@,
        },
{
    if bitsize == 0 {
        return Err(PackingError::InvalidValue("Bit size couldn't be negative"));
    }
    if bitoffset >= MAX_OFFSET {
        return Err(PackingError::BadAlignment(bitoffset as usize, "Offset greater than 8"));
    }
    if bitsize + bitoffset as usize > data.len() * 8 {
        return Err(PackingError::BadSize(bitsize, "Data too large for the given slice"));
    }
    if bitordering == Endianness::Middle {
        return Err(PackingError::BadOrdering(bitordering, "Mixed endian is invalid in this case"));
    }
    let ghost d0 = data@;
    let ghost off = bitoffset as int;
    let ghost len = bitsize as int;
    let mut j: usize = 0;
    while j < bitsize
        invariant
            bitsize <= 8 * n,
            n <= 8,
            bitoffset < 8,
            bitsize + bitoffset <= 8 * d0.len(),
            bitordering != Endianness::Middle,
            off == bitoffset as int,
            len == bitsize as int,
            j <= bitsize,
            data@.len() == d0.len(),
            forall|q: int| 0 <= q < 8 * d0.len() ==> #[trigger] data_bit(data@, q) == (
                if off <= q < off + j { nat_bit(raw as nat, field_bit(q - off, len, bitordering)) } else { data_bit(d0, q) }),
        decreases bitsize - j,
    {
        let fb = field_bit_exec(j, bitsize, bitordering);
        proof {
            lemma_u64_bit(raw, fb as u64);
        }
        let v = (raw >> fb as u64) & 1 == 1;
        let p = bitoffset as usize + j;
        let byte = p / 8;
        let s = (7 - p % 8) as u8;
        let ghost before = data@;
        let old_byte = data[byte];
        data[byte] = if v { old_byte | (1u8 << s) } else { old_byte & !(1u8 << s) };
        proof {
            assert forall|q: int| 0 <= q < 8 * d0.len() implies #[trigger] data_bit(data@, q) == (
                if off <= q < off + j + 1 { nat_bit(raw as nat, field_bit(q - off, len, bitordering)) } else { data_bit(d0, q) }) by {
                lemma_fundamental_div_mod(q, 8);
                lemma_fundamental_div_mod(p as int, 8);
                let expected = if off <= q < off + j + 1 { nat_bit(raw as nat, field_bit(q - off, len, bitordering)) } else { data_bit(d0, q) };
                if q / 8 == byte as int {
                    let t = (7 - q % 8) as u8;
                    lemma_set_bit(old_byte, s, v, t);
                    assert(data@[q / 8] == (if v { old_byte | (1u8 << s) } else { old_byte & !(1u8 << s) }));
                    assert(data_bit(data@, q) == (((if v { old_byte | (1u8 << s) } else { old_byte & !(1u8 << s) }) >> t) & 1u8 == 1u8));
                    if q == p as int {
                        assert(t == s);
                        assert(data_bit(data@, q) == v);
                        assert(q - off == j as int);
                        assert(data_bit(data@, q) == expected);
                    } else {
                        assert(t != s);
                        assert(data_bit(before, q) == ((old_byte >> t) & 1u8 == 1u8));
                        assert(data_bit(data@, q) == data_bit(before, q));
                        assert(data_bit(data@, q) == expected);
                    }
                } else {
                    assert(data@[q / 8] == before[q / 8]);
                    assert(data_bit(data@, q) == data_bit(before, q));
                    assert(data_bit(data@, q) == expected);
                }
            }
        }
        j = j + 1;
    }
    proof {
        let expected = packed_int_bytes(raw as nat, d0, bitoffset, bitsize, bitordering);
        assert forall|i: int| 0 <= i < d0.len() implies #[trigger] data@[i] == expected[i] by {
            let w = |q: int| written_bit(raw as nat, d0, off, len, bitordering, q);
            assert forall|t: int| 0 <= t < 8 implies #[trigger] data_bit(data@, 8 * i + t) == w(8 * i + t) by {
                lemma_position(i, t);
            }
            lemma_byte_from_bits(data@, i, w);
        }
        assert(data@ =~= expected);
    }
    Ok(())
}

/// extract the `n` bytes representation of an integer at the given bit position in `src`
fn unpack_raw(
    src: &[u8],
    n: usize,
    bitoffset: u8,
    bitsize: usize,
    bitordering: Endianness,
) -> (r: PackingResult<u64>)
    requires
        valid_int_width(n as nat),
        int_unpack_defined(src@.len(), n as nat, bitoffset, bitsize),
    ensures
        match unpack_int_result(src@, n as nat, bitoffset, bitsize, bitordering) {
            Ok(v) => r == Ok::<u64, PackingError>(v as u64) && v < pow2(8 * n as nat),
            Err(e) => r == Err::<u64, PackingError>(e),
        },
{
    if bitoffset >= MAX_OFFSET {
        return Err(PackingError::BadAlignment(bitoffset as usize, "Alignement superior than one byte"));
    }
    if bitsize + bitoffset as usize > src.len() * 8 || bitsize > n * 8 {
        return Err(PackingError::BadSize(bitsize, "Size greater than input slice size"));
    }
    if bitordering == Endianness::Middle {
        return Err(PackingError::BadOrdering(bitordering, "Mixed endian is invalid in this case"));
    }
    let ghost bits = field_bits(src@, bitoffset as int, bitsize as int, bitordering);
    let mut value: u64 = 0;
    let mut k: usize = bitsize;
    proof {
        assert(bits.subrange(bitsize as int, bitsize as int).len() == 0);
        assert(pow2(0) == 1) by { lemma2_to64(); }
    }
    while k > 0
        invariant
            bitsize <= 8 * n,
            n <= 8,
            bitoffset < 8,
            bitsize + bitoffset <= 8 * src@.len(),
            bitordering != Endianness::Middle,
            bits == field_bits(src@, bitoffset as int, bitsize as int, bitordering),
            k <= bitsize,
            value == bits_value(bits.subrange(k as int, bitsize as int)),
            value < pow2((bitsize - k) as nat),
        decreases k,
    {
        let kk = k - 1;
        let fb = field_bit_exec(kk, bitsize, bitordering);
        let p = bitoffset as usize + fb;
        let b = (src[p / 8] >> (7 - p % 8) as u8) & 1 == 1;
        proof {
            let s1 = bits.subrange(kk as int, bitsize as int);
            assert(s1.drop_first() =~= bits.subrange(k as int, bitsize as int));
            assert(s1[0] == bits[kk as int]);
            assert(b == bits[kk as int]);
            lemma_pow2_unfold((bitsize - kk) as nat);
            lemma_pow2_le(((bitsize - kk) as nat), 64);
            lemma2_to64();
        }
        value = 2 * value + if b { 1 } else { 0 };
        k = kk;
    }
    proof {
        assert(bits.subrange(0, bitsize as int) =~= bits);
        lemma_pow2_le(bitsize as nat, 8 * n as nat);
    }
    Ok(value)
}


/// fixed size byte storage, able to hold the packed representation of a [PduData]
pub trait Storage: Sized {
    /// number of bytes in the storage
    spec fn spec_len() -> nat;

    /// number of bytes in the storage
    fn len() -> (r: usize)
        ensures
            r == Self::spec_len(),
    ;

    /// bytes held by the storage
    spec fn spec_bytes(&self) -> Seq<u8>;

    /// a storage filled with zeros
    fn uninit() -> (r: Self)
        ensures
            r.spec_bytes() == Seq::new(Self::spec_len(), |i: int| 0u8),
    ;

    /// bytes held by the storage
    fn as_bytes(&self) -> (r: &[u8])
        ensures
            r@ == self.spec_bytes(),
            r@.len() == Self::spec_len(),
    ;

    /// write one byte of the storage
    fn set_byte(&mut self, index: usize, value: u8)
        requires
            index < Self::spec_len(),
        ensures
            final(self).spec_bytes() == old(self).spec_bytes().update(index as int, value),
    ;
}

impl<const N: usize> Storage for [u8; N] {
    open spec fn spec_len() -> nat {
        N as nat
    }

    open spec fn spec_bytes(&self) -> Seq<u8> {
        self@
    }

    fn len() -> (r: usize) {
        N
    }

    fn uninit() -> (r: Self) {
        let r = [0u8; N];
        proof {
            assert(r@ =~= Seq::new(N as nat, |i: int| 0u8));
        }
        r
    }

    fn as_bytes(&self) -> (r: &[u8]) {
        self.as_slice()
    }

    fn set_byte(&mut self, index: usize, value: u8) {
        self.set(index, value);
    }
}

/// what a writing operation on a slice did, compared to its model: on success the slice
/// holds the modeled bytes, on failure it is left unchanged and the modeled error is returned
pub open spec fn write_outcome(
    model: PackingResult<Seq<u8>>,
    r: PackingResult<()>,
    before: Seq<u8>,
    after: Seq<u8>,
) -> bool {
    match model {
        Ok(s) => r is Ok && after == s,
        Err(e) => r == Err::<(), PackingError>(e) && after == before,
    }
}

/// trait for data types than can be packed/unpacked to/from a PDU
pub trait PduData: Sized {
    const ID: TypeId;
    type Packed: Storage;

    /// packing runs to completion on a slice of length `len` with these parameters
    spec fn pack_defined(len: nat, bitoffset: u8, bitsize: usize, bitordering: Endianness) -> bool;

    /// bytes of the slice after packing, or the error raised
    spec fn spec_pack_slice(
        &self,
        data: Seq<u8>,
        bitoffset: u8,
        bitsize: usize,
        bitordering: Endianness,
    ) -> PackingResult<Seq<u8>>;

    /// unpacking runs to completion on a slice of length `len` with these parameters
    spec fn unpack_defined(len: nat, bitoffset: u8, bitsize: usize, bitordering: Endianness) -> bool;

    /// value extracted from the slice, or the error raised
    spec fn spec_unpack_slice(
        src: Seq<u8>,
        bitoffset: u8,
        bitsize: usize,
        bitordering: Endianness,
    ) -> PackingResult<Self>;

    /// packing the whole value runs to completion on a slice of length `len`
    spec fn pack_whole_defined(len: nat) -> bool;

    /// bytes of the slice after packing the whole value at its start, or the error raised
    spec fn spec_pack(&self, data: Seq<u8>) -> PackingResult<Seq<u8>>;

    /// unpacking the whole value runs to completion on a slice of length `len`
    spec fn unpack_whole_defined(len: nat) -> bool;

    /// whole value extracted from the start of the slice, or the error raised
    spec fn spec_unpack(src: Seq<u8>) -> PackingResult<Self>;

    fn pack(&self, data: &mut [u8]) -> (r: PackingResult<()>)
        requires
            Self::pack_whole_defined(old(data)@.len()),
        ensures
            write_outcome(self.spec_pack(old(data)@), r, old(data)@, final(data)@),
    ;

    fn unpack(src: &[u8]) -> (r: PackingResult<Self>)
        requires
            Self::unpack_whole_defined(src@.len()),
        ensures
            r == Self::spec_unpack(src@),
    ;

    fn pack_slice(
        &self,
        data: &mut [u8],
        bitoffset: u8,
        bitsize: usize,
        bitordering: Endianness,
    ) -> (r: PackingResult<()>)
        requires
            Self::pack_defined(old(data)@.len(), bitoffset, bitsize, bitordering),
        ensures
            write_outcome(self.spec_pack_slice(old(data)@, bitoffset, bitsize, bitordering), r, old(data)@, final(data)@),
    ;

    fn unpack_slice(src: &[u8], bitoffset: u8, bitsize: usize, bitordering: Endianness) -> (r: PackingResult<Self>)
        requires
            Self::unpack_defined(src@.len(), bitoffset, bitsize, bitordering),
        ensures
            r == Self::spec_unpack_slice(src@, bitoffset, bitsize, bitordering),
    ;

    fn packed_size() -> (r: usize)
        ensures
            r == Self::Packed::spec_len(),
    {
        Self::Packed::len()
    }

    fn packed_bitsize() -> (r: usize)
        requires
            Self::Packed::spec_len() * 8 <= usize::MAX,
        ensures
            r == Self::Packed::spec_len() * 8,
    {
        Self::Packed::len() * 8
    }
}

impl PduData for bool {
    const ID: TypeId = TypeId::BOOL;
    type Packed = [u8; 1];

    open spec fn pack_whole_defined(len: nat) -> bool {
        true
    }

    open spec fn spec_pack(&self, data: Seq<u8>) -> PackingResult<Seq<u8>> {
        self.spec_pack_slice(data, 0, 8, Endianness::Little)
    }

    open spec fn unpack_whole_defined(len: nat) -> bool {
        true
    }

    open spec fn spec_unpack(src: Seq<u8>) -> PackingResult<Self> {
        Self::spec_unpack_slice(src, 0, 8, Endianness::Little)
    }

    fn pack(&self, data: &mut [u8]) -> (r: PackingResult<()>) {
        self.pack_slice(data, 0, 8, Endianness::Little)
    }

    fn unpack(src: &[u8]) -> (r: PackingResult<Self>) {
        Self::unpack_slice(src, 0, 8, Endianness::Little)
    }

    open spec fn pack_defined(len: nat, bitoffset: u8, bitsize: usize, bitordering: Endianness) -> bool {
        (bitoffset < MAX_OFFSET && bitsize == 1 && bitoffset > 0) ==> len >= 1
    }

    open spec fn spec_pack_slice(
        &self,
        data: Seq<u8>,
        bitoffset: u8,
        bitsize: usize,
        bitordering: Endianness,
    ) -> PackingResult<Seq<u8>> {
        if bitoffset >= MAX_OFFSET {
            Err(PackingError::BadAlignment(bitoffset as usize, "Offset greater tan 8 excluded is not supported"))
        } else if bitsize != 1 {
            Err(PackingError::BadSize(bitoffset as usize, "For this type,the size cannot be different than 1"))
        } else if bitoffset == 0 && data.len() != 1 {
            Err(PackingError::InvalidValue("Data slice too short, must equal or greater than sizeof 1"))
        } else {
            Ok(data.update(0, ((if *self { 1u8 } else { 0u8 }) >> bitoffset) as u8))
        }
    }

    open spec fn unpack_defined(len: nat, bitoffset: u8, bitsize: usize, bitordering: Endianness) -> bool {
        true
    }

    open spec fn spec_unpack_slice(
        src: Seq<u8>,
        bitoffset: u8,
        bitsize: usize,
        bitordering: Endianness,
    ) -> PackingResult<Self> {
        if bitoffset != 0 {
            Err(PackingError::BadAlignment(bitoffset as usize, "For this type, offset different than 0 is not supported"))
        } else if bitsize != 1 {
            Err(PackingError::BadSize(bitoffset as usize, "For this type,the size cannot be different than 1"))
        } else if src.len() != 1 {
            Err(PackingError::InvalidValue("Data slice too short, must equal or greater than sizeof 1"))
        } else {
            Ok(src[0] == 1)
        }
    }

    fn pack_slice(
        &self,
        data: &mut [u8],
        bitoffset: u8,
        bitsize: usize,
        bitordering: Endianness,
    ) -> (r: PackingResult<()>) {
        if bitoffset >= MAX_OFFSET {
            return Err(PackingError::BadAlignment(bitoffset as usize, "Offset greater tan 8 excluded is not supported"));
        }
        if bitsize != 1 {
            return Err(PackingError::BadSize(bitoffset as usize, "For this type,the size cannot be different than 1"));
        }
        if bitoffset == 0 && data.len() != 1 {
            return Err(PackingError::InvalidValue("Data slice too short, must equal or greater than sizeof 1"));
        }
        let bit: u8 = if *self { 1 } else { 0 };
        data[0] = bit >> bitoffset;
        Ok(())
    }

    fn unpack_slice(src: &[u8], bitoffset: u8, bitsize: usize, bitordering: Endianness) -> (r: PackingResult<Self>) {
        if bitoffset != 0 {
            return Err(PackingError::BadAlignment(bitoffset as usize, "For this type, offset different than 0 is not supported"));
        }
        if bitsize != 1 {
            return Err(PackingError::BadSize(bitoffset as usize, "For this type,the size cannot be different than 1"));
        }
        if src.len() != 1 {
            return Err(PackingError::InvalidValue("Data slice too short, must equal or greater than sizeof 1"));
        }
        Ok(src[0] == 1)
    }
}

impl PduData for u8 {
    const ID: TypeId = TypeId::U8;
    type Packed = [u8; 1];

    open spec fn pack_whole_defined(len: nat) -> bool {
        Self::pack_defined(len, 0, 8, Endianness::Little)
    }

    open spec fn spec_pack(&self, data: Seq<u8>) -> PackingResult<Seq<u8>> {
        self.spec_pack_slice(data, 0, 8, Endianness::Little)
    }

    open spec fn unpack_whole_defined(len: nat) -> bool {
        Self::unpack_defined(len, 0, 8, Endianness::Little)
    }

    open spec fn spec_unpack(src: Seq<u8>) -> PackingResult<Self> {
        Self::spec_unpack_slice(src, 0, 8, Endianness::Little)
    }

    fn pack(&self, data: &mut [u8]) -> (r: PackingResult<()>) {
        self.pack_slice(data, 0, 8, Endianness::Little)
    }

    fn unpack(src: &[u8]) -> (r: PackingResult<Self>) {
        Self::unpack_slice(src, 0, 8, Endianness::Little)
    }

    open spec fn pack_defined(len: nat, bitoffset: u8, bitsize: usize, bitordering: Endianness) -> bool {
        int_pack_defined(len, 1, bitoffset, bitsize, bitordering)
    }

    open spec fn spec_pack_slice(
        &self,
        data: Seq<u8>,
        bitoffset: u8,
        bitsize: usize,
        bitordering: Endianness,
    ) -> PackingResult<Seq<u8>> {
        pack_int_result(*self as nat, 1, false, data, bitoffset, bitsize, bitordering)
    }

    open spec fn unpack_defined(len: nat, bitoffset: u8, bitsize: usize, bitordering: Endianness) -> bool {
        int_unpack_defined(len, 1, bitoffset, bitsize)
    }

    open spec fn spec_unpack_slice(
        src: Seq<u8>,
        bitoffset: u8,
        bitsize: usize,
        bitordering: Endianness,
    ) -> PackingResult<Self> {
        match unpack_int_result(src, 1, bitoffset, bitsize, bitordering) {
            Ok(v) => Ok(v as u8),
            Err(e) => Err(e),
        }
    }

    fn pack_slice(
        &self,
        data: &mut [u8],
        bitoffset: u8,
        bitsize: usize,
        bitordering: Endianness,
    ) -> (r: PackingResult<()>) {
        proof {
            lemma2_to64();
        }
        let raw: u64 = *self as u64;
        pack_raw(raw, 1, false, data, bitoffset, bitsize, bitordering)
    }

    fn unpack_slice(src: &[u8], bitoffset: u8, bitsize: usize, bitordering: Endianness) -> (r: PackingResult<Self>) {
        proof {
            lemma2_to64();
        }
        match unpack_raw(src, 1, bitoffset, bitsize, bitordering) {
            Ok(v) => Ok(v as u8),
            Err(e) => Err(e),
        }
    }
}

impl PduData for u16 {
    const ID: TypeId = TypeId::U16;
    type Packed = [u8; 2];

    open spec fn pack_whole_defined(len: nat) -> bool {
        Self::pack_defined(len, 0, 16, Endianness::Little)
    }

    open spec fn spec_pack(&self, data: Seq<u8>) -> PackingResult<Seq<u8>> {
        self.spec_pack_slice(data, 0, 16, Endianness::Little)
    }

    open spec fn unpack_whole_defined(len: nat) -> bool {
        Self::unpack_defined(len, 0, 16, Endianness::Little)
    }

    open spec fn spec_unpack(src: Seq<u8>) -> PackingResult<Self> {
        Self::spec_unpack_slice(src, 0, 16, Endianness::Little)
    }

    fn pack(&self, data: &mut [u8]) -> (r: PackingResult<()>) {
        self.pack_slice(data, 0, 16, Endianness::Little)
    }

    fn unpack(src: &[u8]) -> (r: PackingResult<Self>) {
        Self::unpack_slice(src, 0, 16, Endianness::Little)
    }

    open spec fn pack_defined(len: nat, bitoffset: u8, bitsize: usize, bitordering: Endianness) -> bool {
        int_pack_defined(len, 2, bitoffset, bitsize, bitordering)
    }

    open spec fn spec_pack_slice(
        &self,
        data: Seq<u8>,
        bitoffset: u8,
        bitsize: usize,
        bitordering: Endianness,
    ) -> PackingResult<Seq<u8>> {
        pack_int_result(*self as nat, 2, false, data, bitoffset, bitsize, bitordering)
    }

    open spec fn unpack_defined(len: nat, bitoffset: u8, bitsize: usize, bitordering: Endianness) -> bool {
        int_unpack_defined(len, 2, bitoffset, bitsize)
    }

    open spec fn spec_unpack_slice(
        src: Seq<u8>,
        bitoffset: u8,
        bitsize: usize,
        bitordering: Endianness,
    ) -> PackingResult<Self> {
        match unpack_int_result(src, 2, bitoffset, bitsize, bitordering) {
            Ok(v) => Ok(v as u16),
            Err(e) => Err(e),
        }
    }

    fn pack_slice(
        &self,
        data: &mut [u8],
        bitoffset: u8,
        bitsize: usize,
        bitordering: Endianness,
    ) -> (r: PackingResult<()>) {
        proof {
            lemma2_to64();
        }
        let raw: u64 = *self as u64;
        pack_raw(raw, 2, false, data, bitoffset, bitsize, bitordering)
    }

    fn unpack_slice(src: &[u8], bitoffset: u8, bitsize: usize, bitordering: Endianness) -> (r: PackingResult<Self>) {
        proof {
            lemma2_to64();
        }
        match unpack_raw(src, 2, bitoffset, bitsize, bitordering) {
            Ok(v) => Ok(v as u16),
            Err(e) => Err(e),
        }
    }
}

impl PduData for u32 {
    const ID: TypeId = TypeId::U32;
    type Packed = [u8; 4];

    open spec fn pack_whole_defined(len: nat) -> bool {
        Self::pack_defined(len, 0, 32, Endianness::Little)
    }

    open spec fn spec_pack(&self, data: Seq<u8>) -> PackingResult<Seq<u8>> {
        self.spec_pack_slice(data, 0, 32, Endianness::Little)
    }

    open spec fn unpack_whole_defined(len: nat) -> bool {
        Self::unpack_defined(len, 0, 32, Endianness::Little)
    }

    open spec fn spec_unpack(src: Seq<u8>) -> PackingResult<Self> {
        Self::spec_unpack_slice(src, 0, 32, Endianness::Little)
    }

    fn pack(&self, data: &mut [u8]) -> (r: PackingResult<()>) {
        self.pack_slice(data, 0, 32, Endianness::Little)
    }

    fn unpack(src: &[u8]) -> (r: PackingResult<Self>) {
        Self::unpack_slice(src, 0, 32, Endianness::Little)
    }

    open spec fn pack_defined(len: nat, bitoffset: u8, bitsize: usize, bitordering: Endianness) -> bool {
        int_pack_defined(len, 4, bitoffset, bitsize, bitordering)
    }

    open spec fn spec_pack_slice(
        &self,
        data: Seq<u8>,
        bitoffset: u8,
        bitsize: usize,
        bitordering: Endianness,
    ) -> PackingResult<Seq<u8>> {
        pack_int_result(*self as nat, 4, false, data, bitoffset, bitsize, bitordering)
    }

    open spec fn unpack_defined(len: nat, bitoffset: u8, bitsize: usize, bitordering: Endianness) -> bool {
        int_unpack_defined(len, 4, bitoffset, bitsize)
    }

    open spec fn spec_unpack_slice(
        src: Seq<u8>,
        bitoffset: u8,
        bitsize: usize,
        bitordering: Endianness,
    ) -> PackingResult<Self> {
        match unpack_int_result(src, 4, bitoffset, bitsize, bitordering) {
            Ok(v) => Ok(v as u32),
            Err(e) => Err(e),
        }
    }

    fn pack_slice(
        &self,
        data: &mut [u8],
        bitoffset: u8,
        bitsize: usize,
        bitordering: Endianness,
    ) -> (r: PackingResult<()>) {
        proof {
            lemma2_to64();
        }
        let raw: u64 = *self as u64;
        pack_raw(raw, 4, false, data, bitoffset, bitsize, bitordering)
    }

    fn unpack_slice(src: &[u8], bitoffset: u8, bitsize: usize, bitordering: Endianness) -> (r: PackingResult<Self>) {
        proof {
            lemma2_to64();
        }
        match unpack_raw(src, 4, bitoffset, bitsize, bitordering) {
            Ok(v) => Ok(v as u32),
            Err(e) => Err(e),
        }
    }
}

impl PduData for u64 {
    const ID: TypeId = TypeId::U64;
    type Packed = [u8; 8];

    open spec fn pack_whole_defined(len: nat) -> bool {
        Self::pack_defined(len, 0, 64, Endianness::Little)
    }

    open spec fn spec_pack(&self, data: Seq<u8>) -> PackingResult<Seq<u8>> {
        self.spec_pack_slice(data, 0, 64, Endianness::Little)
    }

    open spec fn unpack_whole_defined(len: nat) -> bool {
        Self::unpack_defined(len, 0, 64, Endianness::Little)
    }

    open spec fn spec_unpack(src: Seq<u8>) -> PackingResult<Self> {
        Self::spec_unpack_slice(src, 0, 64, Endianness::Little)
    }

    fn pack(&self, data: &mut [u8]) -> (r: PackingResult<()>) {
        self.pack_slice(data, 0, 64, Endianness::Little)
    }

    fn unpack(src: &[u8]) -> (r: PackingResult<Self>) {
        Self::unpack_slice(src, 0, 64, Endianness::Little)
    }

    open spec fn pack_defined(len: nat, bitoffset: u8, bitsize: usize, bitordering: Endianness) -> bool {
        int_pack_defined(len, 8, bitoffset, bitsize, bitordering)
    }

    open spec fn spec_pack_slice(
        &self,
        data: Seq<u8>,
        bitoffset: u8,
        bitsize: usize,
        bitordering: Endianness,
    ) -> PackingResult<Seq<u8>> {
        pack_int_result(*self as nat, 8, false, data, bitoffset, bitsize, bitordering)
    }

    open spec fn unpack_defined(len: nat, bitoffset: u8, bitsize: usize, bitordering: Endianness) -> bool {
        int_unpack_defined(len, 8, bitoffset, bitsize)
    }

    open spec fn spec_unpack_slice(
        src: Seq<u8>,
        bitoffset: u8,
        bitsize: usize,
        bitordering: Endianness,
    ) -> PackingResult<Self> {
        match unpack_int_result(src, 8, bitoffset, bitsize, bitordering) {
            Ok(v) => Ok(v as u64),
            Err(e) => Err(e),
        }
    }

    fn pack_slice(
        &self,
        data: &mut [u8],
        bitoffset: u8,
        bitsize: usize,
        bitordering: Endianness,
    ) -> (r: PackingResult<()>) {
        proof {
            lemma2_to64();
        }
        let raw: u64 = *self as u64;
        pack_raw(raw, 8, false, data, bitoffset, bitsize, bitordering)
    }

    fn unpack_slice(src: &[u8], bitoffset: u8, bitsize: usize, bitordering: Endianness) -> (r: PackingResult<Self>) {
        proof {
            lemma2_to64();
        }
        match unpack_raw(src, 8, bitoffset, bitsize, bitordering) {
            Ok(v) => Ok(v as u64),
            Err(e) => Err(e),
        }
    }
}

impl PduData for i8 {
    const ID: TypeId = TypeId::I8;
    type Packed = [u8; 1];

    open spec fn pack_whole_defined(len: nat) -> bool {
        Self::pack_defined(len, 0, 8, Endianness::Little)
    }

    open spec fn spec_pack(&self, data: Seq<u8>) -> PackingResult<Seq<u8>> {
        self.spec_pack_slice(data, 0, 8, Endianness::Little)
    }

    open spec fn unpack_whole_defined(len: nat) -> bool {
        Self::unpack_defined(len, 0, 8, Endianness::Little)
    }

    open spec fn spec_unpack(src: Seq<u8>) -> PackingResult<Self> {
        Self::spec_unpack_slice(src, 0, 8, Endianness::Little)
    }

    fn pack(&self, data: &mut [u8]) -> (r: PackingResult<()>) {
        self.pack_slice(data, 0, 8, Endianness::Little)
    }

    fn unpack(src: &[u8]) -> (r: PackingResult<Self>) {
        Self::unpack_slice(src, 0, 8, Endianness::Little)
    }

    open spec fn pack_defined(len: nat, bitoffset: u8, bitsize: usize, bitordering: Endianness) -> bool {
        int_pack_defined(len, 1, bitoffset, bitsize, bitordering)
    }

    open spec fn spec_pack_slice(
        &self,
        data: Seq<u8>,
        bitoffset: u8,
        bitsize: usize,
        bitordering: Endianness,
    ) -> PackingResult<Seq<u8>> {
        pack_int_result(from_signed(*self as int, 1), 1, true, data, bitoffset, bitsize, bitordering)
    }

    open spec fn unpack_defined(len: nat, bitoffset: u8, bitsize: usize, bitordering: Endianness) -> bool {
        int_unpack_defined(len, 1, bitoffset, bitsize)
    }

    open spec fn spec_unpack_slice(
        src: Seq<u8>,
        bitoffset: u8,
        bitsize: usize,
        bitordering: Endianness,
    ) -> PackingResult<Self> {
        match unpack_int_result(src, 1, bitoffset, bitsize, bitordering) {
            Ok(v) => Ok(to_signed(v, 1) as i8),
            Err(e) => Err(e),
        }
    }

    fn pack_slice(
        &self,
        data: &mut [u8],
        bitoffset: u8,
        bitsize: usize,
        bitordering: Endianness,
    ) -> (r: PackingResult<()>) {
        proof {
            lemma2_to64();
        }
        let raw: u64 = if *self < 0 {
            (*self as i128 + 0x100i128) as u64
        } else {
            *self as u64
        };
        pack_raw(raw, 1, true, data, bitoffset, bitsize, bitordering)
    }

    fn unpack_slice(src: &[u8], bitoffset: u8, bitsize: usize, bitordering: Endianness) -> (r: PackingResult<Self>) {
        proof {
            lemma2_to64();
        }
        match unpack_raw(src, 1, bitoffset, bitsize, bitordering) {
            Ok(v) => {
                if v >= 0x80 {
                    Ok((v as i128 - 0x100i128) as i8)
                } else {
                    Ok(v as i8)
                }
            },
            Err(e) => Err(e),
        }
    }
}

impl PduData for i16 {
    const ID: TypeId = TypeId::I16;
    type Packed = [u8; 2];

    open spec fn pack_whole_defined(len: nat) -> bool {
        Self::pack_defined(len, 0, 16, Endianness::Little)
    }

    open spec fn spec_pack(&self, data: Seq<u8>) -> PackingResult<Seq<u8>> {
        self.spec_pack_slice(data, 0, 16, Endianness::Little)
    }

    open spec fn unpack_whole_defined(len: nat) -> bool {
        Self::unpack_defined(len, 0, 16, Endianness::Little)
    }

    open spec fn spec_unpack(src: Seq<u8>) -> PackingResult<Self> {
        Self::spec_unpack_slice(src, 0, 16, Endianness::Little)
    }

    fn pack(&self, data: &mut [u8]) -> (r: PackingResult<()>) {
        self.pack_slice(data, 0, 16, Endianness::Little)
    }

    fn unpack(src: &[u8]) -> (r: PackingResult<Self>) {
        Self::unpack_slice(src, 0, 16, Endianness::Little)
    }

    open spec fn pack_defined(len: nat, bitoffset: u8, bitsize: usize, bitordering: Endianness) -> bool {
        int_pack_defined(len, 2, bitoffset, bitsize, bitordering)
    }

    open spec fn spec_pack_slice(
        &self,
        data: Seq<u8>,
        bitoffset: u8,
        bitsize: usize,
        bitordering: Endianness,
    ) -> PackingResult<Seq<u8>> {
        pack_int_result(from_signed(*self as int, 2), 2, true, data, bitoffset, bitsize, bitordering)
    }

    open spec fn unpack_defined(len: nat, bitoffset: u8, bitsize: usize, bitordering: Endianness) -> bool {
        int_unpack_defined(len, 2, bitoffset, bitsize)
    }

    open spec fn spec_unpack_slice(
        src: Seq<u8>,
        bitoffset: u8,
        bitsize: usize,
        bitordering: Endianness,
    ) -> PackingResult<Self> {
        match unpack_int_result(src, 2, bitoffset, bitsize, bitordering) {
            Ok(v) => Ok(to_signed(v, 2) as i16),
            Err(e) => Err(e),
        }
    }

    fn pack_slice(
        &self,
        data: &mut [u8],
        bitoffset: u8,
        bitsize: usize,
        bitordering: Endianness,
    ) -> (r: PackingResult<()>) {
        proof {
            lemma2_to64();
        }
        let raw: u64 = if *self < 0 {
            (*self as i128 + 0x10000i128) as u64
        } else {
            *self as u64
        };
        pack_raw(raw, 2, true, data, bitoffset, bitsize, bitordering)
    }

    fn unpack_slice(src: &[u8], bitoffset: u8, bitsize: usize, bitordering: Endianness) -> (r: PackingResult<Self>) {
        proof {
            lemma2_to64();
        }
        match unpack_raw(src, 2, bitoffset, bitsize, bitordering) {
            Ok(v) => {
                if v >= 0x8000 {
                    Ok((v as i128 - 0x10000i128) as i16)
                } else {
                    Ok(v as i16)
                }
            },
            Err(e) => Err(e),
        }
    }
}

impl PduData for i32 {
    const ID: TypeId = TypeId::I32;
    type Packed = [u8; 4];

    open spec fn pack_whole_defined(len: nat) -> bool {
        Self::pack_defined(len, 0, 32, Endianness::Little)
    }

    open spec fn spec_pack(&self, data: Seq<u8>) -> PackingResult<Seq<u8>> {
        self.spec_pack_slice(data, 0, 32, Endianness::Little)
    }

    open spec fn unpack_whole_defined(len: nat) -> bool {
        Self::unpack_defined(len, 0, 32, Endianness::Little)
    }

    open spec fn spec_unpack(src: Seq<u8>) -> PackingResult<Self> {
        Self::spec_unpack_slice(src, 0, 32, Endianness::Little)
    }

    fn pack(&self, data: &mut [u8]) -> (r: PackingResult<()>) {
        self.pack_slice(data, 0, 32, Endianness::Little)
    }

    fn unpack(src: &[u8]) -> (r: PackingResult<Self>) {
        Self::unpack_slice(src, 0, 32, Endianness::Little)
    }

    open spec fn pack_defined(len: nat, bitoffset: u8, bitsize: usize, bitordering: Endianness) -> bool {
        int_pack_defined(len, 4, bitoffset, bitsize, bitordering)
    }

    open spec fn spec_pack_slice(
        &self,
        data: Seq<u8>,
        bitoffset: u8,
        bitsize: usize,
        bitordering: Endianness,
    ) -> PackingResult<Seq<u8>> {
        pack_int_result(from_signed(*self as int, 4), 4, true, data, bitoffset, bitsize, bitordering)
    }

    open spec fn unpack_defined(len: nat, bitoffset: u8, bitsize: usize, bitordering: Endianness) -> bool {
        int_unpack_defined(len, 4, bitoffset, bitsize)
    }

    open spec fn spec_unpack_slice(
        src: Seq<u8>,
        bitoffset: u8,
        bitsize: usize,
        bitordering: Endianness,
    ) -> PackingResult<Self> {
        match unpack_int_result(src, 4, bitoffset, bitsize, bitordering) {
            Ok(v) => Ok(to_signed(v, 4) as i32),
            Err(e) => Err(e),
        }
    }

    fn pack_slice(
        &self,
        data: &mut [u8],
        bitoffset: u8,
        bitsize: usize,
        bitordering: Endianness,
    ) -> (r: PackingResult<()>) {
        proof {
            lemma2_to64();
        }
        let raw: u64 = if *self < 0 {
            (*self as i128 + 0x100000000i128) as u64
        } else {
            *self as u64
        };
        pack_raw(raw, 4, true, data, bitoffset, bitsize, bitordering)
    }

    fn unpack_slice(src: &[u8], bitoffset: u8, bitsize: usize, bitordering: Endianness) -> (r: PackingResult<Self>) {
        proof {
            lemma2_to64();
        }
        match unpack_raw(src, 4, bitoffset, bitsize, bitordering) {
            Ok(v) => {
                if v >= 0x80000000 {
                    Ok((v as i128 - 0x100000000i128) as i32)
                } else {
                    Ok(v as i32)
                }
            },
            Err(e) => Err(e),
        }
    }
}

impl PduData for i64 {
    const ID: TypeId = TypeId::I64;
    type Packed = [u8; 8];

    open spec fn pack_whole_defined(len: nat) -> bool {
        Self::pack_defined(len, 0, 64, Endianness::Little)
    }

    open spec fn spec_pack(&self, data: Seq<u8>) -> PackingResult<Seq<u8>> {
        self.spec_pack_slice(data, 0, 64, Endianness::Little)
    }

    open spec fn unpack_whole_defined(len: nat) -> bool {
        Self::unpack_defined(len, 0, 64, Endianness::Little)
    }

    open spec fn spec_unpack(src: Seq<u8>) -> PackingResult<Self> {
        Self::spec_unpack_slice(src, 0, 64, Endianness::Little)
    }

    fn pack(&self, data: &mut [u8]) -> (r: PackingResult<()>) {
        self.pack_slice(data, 0, 64, Endianness::Little)
    }

    fn unpack(src: &[u8]) -> (r: PackingResult<Self>) {
        Self::unpack_slice(src, 0, 64, Endianness::Little)
    }

    open spec fn pack_defined(len: nat, bitoffset: u8, bitsize: usize, bitordering: Endianness) -> bool {
        int_pack_defined(len, 8, bitoffset, bitsize, bitordering)
    }

    open spec fn spec_pack_slice(
        &self,
        data: Seq<u8>,
        bitoffset: u8,
        bitsize: usize,
        bitordering: Endianness,
    ) -> PackingResult<Seq<u8>> {
        pack_int_result(from_signed(*self as int, 8), 8, true, data, bitoffset, bitsize, bitordering)
    }

    open spec fn unpack_defined(len: nat, bitoffset: u8, bitsize: usize, bitordering: Endianness) -> bool {
        int_unpack_defined(len, 8, bitoffset, bitsize)
    }

    open spec fn spec_unpack_slice(
        src: Seq<u8>,
        bitoffset: u8,
        bitsize: usize,
        bitordering: Endianness,
    ) -> PackingResult<Self> {
        match unpack_int_result(src, 8, bitoffset, bitsize, bitordering) {
            Ok(v) => Ok(to_signed(v, 8) as i64),
            Err(e) => Err(e),
        }
    }

    fn pack_slice(
        &self,
        data: &mut [u8],
        bitoffset: u8,
        bitsize: usize,
        bitordering: Endianness,
    ) -> (r: PackingResult<()>) {
        proof {
            lemma2_to64();
            lemma2_to64_rest();
        }
        let raw: u64 = if *self < 0 {
            (*self as i128 + 0x10000000000000000i128) as u64
        } else {
            *self as u64
        };
        pack_raw(raw, 8, true, data, bitoffset, bitsize, bitordering)
    }

    fn unpack_slice(src: &[u8], bitoffset: u8, bitsize: usize, bitordering: Endianness) -> (r: PackingResult<Self>) {
        proof {
            lemma2_to64();
            lemma2_to64_rest();
        }
        match unpack_raw(src, 8, bitoffset, bitsize, bitordering) {
            Ok(v) => {
                if v >= 0x8000000000000000 {
                    Ok((v as i128 - 0x10000000000000000i128) as i64)
                } else {
                    Ok(v as i64)
                }
            },
            Err(e) => Err(e),
        }
    }
}


/// what a writing operation at byte `offset` of a slice did: on success the bytes from `offset`
/// are replaced by the modeled ones, on failure the slice is left unchanged
pub open spec fn write_outcome_at(
    model: PackingResult<Seq<u8>>,
    r: PackingResult<()>,
    before: Seq<u8>,
    after: Seq<u8>,
    offset: int,
) -> bool {
    match model {
        Ok(s) => r is Ok && after == before.subrange(0, offset) + s,
        Err(e) => r == Err::<(), PackingError>(e) && after == before,
    }
}

/**
    locate some data in a datagram by its byte position and length, which must be extracted to type `T` to be processed in rust

    It acts like a getter/setter of a value in a byte sequence. One can think of it as an offset to a data location because it does not actually point the data but only its offset in the byte sequence, it also contains its length to dynamically check memory bounds.
*/
#[derive(Copy, Debug, Hash)]
pub struct Field<T: PduData> {
    /// type of the value located
    pub extracted: PhantomData<T>,
    /// start byte index of the object
    pub offset: usize,
    /// byte length of the object
    pub len: usize,
    /// define byte the alignement used by the field. Can be set only on "Ctor."
    pub endian: Endianness,
}

impl<T: PduData> Clone for Field<T> {
    fn clone(&self) -> (r: Self)
        ensures
            r.offset == self.offset,
            r.len == self.len,
            r.endian == self.endian,
    {
        Self { extracted: PhantomData, offset: self.offset, len: self.len, endian: self.endian }
    }
}

impl<T: PduData> Field<T> {
    /// build a Field from its content
    pub fn new(byte: usize, len: usize) -> (r: Self)
        ensures
            r.offset == byte,
            r.len == len,
            r.endian == Endianness::Little,
    {
        Self { extracted: PhantomData, offset: byte, len, endian: Endianness::Little }
    }

    /// build a Field from its byte offset, infering its length from the data nominal size
    pub fn simple(byte: usize) -> (r: Self)
        ensures
            r.offset == byte,
            r.len == T::Packed::spec_len(),
            r.endian == Endianness::Little,
    {
        Self { extracted: PhantomData, offset: byte, len: T::packed_size(), endian: Endianness::Little }
    }

    /// Build a field with default value:
    /// - 0 byte offset
    /// - 0 bit offset
    /// - Lenght = field type size
    /// - Little endian by ordering
    pub fn default() -> (r: Self)
        ensures
            r.offset == 0,
            r.len == vstd::layout::size_of::<T>(),
            r.endian == Endianness::Little,
    {
        Self {
            extracted: PhantomData,
            offset: 0,
            len: core::mem::size_of::<T>(),
            endian: Endianness::Little,
        }
    }

    /// extract the value pointed by the field in the given byte array
    pub fn get(&self, data: &[u8]) -> (r: PackingResult<T>)
        requires
            self.offset <= data@.len(),
            self.len * 8 <= usize::MAX,
            T::unpack_defined((data@.len() - self.offset) as nat, 0, (self.len * 8) as usize, self.endian),
        ensures
            r == T::spec_unpack_slice(
                data@.subrange(self.offset as int, data@.len() as int),
                0,
                (self.len * 8) as usize,
                self.endian,
            ),
    {
        let sub = vstd::slice::slice_subrange(data, self.offset, data.len());
        T::unpack_slice(sub, 0, self.get_bits_len(), self.endian)
    }

    /// dump the given value to the place pointed by the field in the byte array
    pub fn set(&self, data: &mut [u8], value: T) -> (r: PackingResult<()>)
        requires
            self.offset <= old(data)@.len(),
            self.len * 8 <= usize::MAX,
            T::pack_defined((old(data)@.len() - self.offset) as nat, 0, (self.len * 8) as usize, self.endian),
        ensures
            write_outcome_at(
                value.spec_pack_slice(
                    old(data)@.subrange(self.offset as int, old(data)@.len() as int),
                    0,
                    (self.len * 8) as usize,
                    self.endian,
                ),
                r,
                old(data)@,
                final(data)@,
                self.offset as int,
            ),
    {
        let bits = self.get_bits_len();
        let ghost before = data@;
        let r = {
            let (head, sub_data) = data.split_at_mut(self.offset);
            value.pack_slice(sub_data, 0, bits, self.endian)
        };
        proof {
            assert(before =~= before.subrange(0, self.offset as int) + before.subrange(
                self.offset as int,
                before.len() as int,
            ));
        }
        r
    }

    /// Return field size in **byte**
    /// Caveat: This value can be different than size of the type
    pub fn len(&self) -> (r: usize)
        ensures
            r == self.len,
    {
        self.len
    }

    /// Return the field size in **bit**
    pub fn get_bits_len(&self) -> (r: usize)
        requires
            self.len * 8 <= usize::MAX,
        ensures
            r == self.len * 8,
    {
        self.len * 8
    }

    /// Consume a [BitField] and perform a transmutation into [Field]
    /// Caveat: If alignement is different than 0 or size is not a multiple of 8 an error is raised.
    pub fn try_from(src: BitField<T>) -> (r: Result<Self, PackingError>)
        ensures
            src.offset != 0 ==> r == Err::<Self, PackingError>(
                PackingError::BadAlignment(src.offset, "Bit alignement different from 0"),
            ),
            src.offset == 0 && src.len % 8 != 0 ==> r == Err::<Self, PackingError>(
                PackingError::BadSize(src.len, "Must be a multiple of 8"),
            ),
            src.offset == 0 && src.len % 8 == 0 ==> (r matches Ok(f) && f.offset == 0 && f.len
                == src.len / 8 && f.endian == src.endian),
    {
        if src.offset != 0 {
            return Err(PackingError::BadAlignment(src.offset, "Bit alignement different from 0"));
        }
        if src.len % 8 == 0 {
            Ok(Self { extracted: src.extracted, offset: 0, len: src.len() / 8, endian: src.endian })
        } else {
            Err(PackingError::BadSize(src.len(), "Must be a multiple of 8"))
        }
    }
}

/**
    locate some data in a datagram by its bit position and length, which must be extracted to type `T` to be processed in rust

    It acts like a getter/setter of a value in a byte sequence. One can think of it as an offset to a data location because it does not actually point the data but only its offset in the byte sequence, it also contains its length to dynamically check memory bounds.
*/
#[derive(Debug)]
pub struct BitField<T: PduData> {
    /// type of the value located
    pub extracted: PhantomData<T>,
    /// start bit index of the object
    pub offset: usize,
    /// bit length of the object
    pub len: usize,
    /// define bit the ordering used by the field. Can be set only on "Ctor."
    pub endian: Endianness,
}

impl<T: PduData> Clone for BitField<T> {
    fn clone(&self) -> (r: Self)
        ensures
            r.offset == self.offset,
            r.len == self.len,
            r.endian == self.endian,
    {
        Self { extracted: PhantomData, offset: self.offset, len: self.len, endian: self.endian }
    }
}

impl<T: PduData> BitField<T> {
    /// build a Field from its content
    pub fn new_full(offset: usize, len: usize, endian: Endianness) -> (r: Self)
        ensures
            r.offset == offset,
            r.len == len,
            r.endian == endian,
    {
        Self { extracted: PhantomData, offset, len, endian }
    }

    /// build a Field from its bit offset and bit length, in little endian
    pub fn new(offset: usize, len: usize) -> (r: Self)
        ensures
            r.offset == offset,
            r.len == len,
            r.endian == Endianness::Little,
    {
        Self { extracted: PhantomData, offset, len, endian: Endianness::Little }
    }

    /// a bitfield of null offset and size
    pub fn default() -> (r: Self)
        ensures
            r.offset == 0,
            r.len == 0,
            r.endian == Endianness::Little,
    {
        Self { extracted: PhantomData, offset: 0, len: 0, endian: Endianness::Little }
    }

    /// extract the value pointed by the field in the given byte array
    pub fn get(&self, data: &[u8]) -> (r: PackingResult<T>)
        requires
            self.offset / 8 <= data@.len(),
            T::unpack_defined((data@.len() - self.offset / 8) as nat, (self.offset % 8) as u8, self.len, self.endian),
        ensures
            r == T::spec_unpack_slice(
                data@.subrange((self.offset / 8) as int, data@.len() as int),
                (self.offset % 8) as u8,
                self.len,
                self.endian,
            ),
    {
        let sub = vstd::slice::slice_subrange(data, self.offset / 8, data.len());
        T::unpack_slice(sub, (self.offset % 8) as u8, self.len, self.endian)
    }

    /// dump the given value to the place pointed by the field in the byte array
    pub fn set(&self, data: &mut [u8], value: T) -> (r: PackingResult<()>)
        requires
            self.offset / 8 <= old(data)@.len(),
            T::pack_defined((old(data)@.len() - self.offset / 8) as nat, (self.offset % 8) as u8, self.len, self.endian),
        ensures
            write_outcome_at(
                value.spec_pack_slice(
                    old(data)@.subrange((self.offset / 8) as int, old(data)@.len() as int),
                    (self.offset % 8) as u8,
                    self.len,
                    self.endian,
                ),
                r,
                old(data)@,
                final(data)@,
                (self.offset / 8) as int,
            ),
    {
        let ghost before = data@;
        let r = {
            let (head, sub_data) = data.split_at_mut(self.offset / 8);
            value.pack_slice(sub_data, (self.offset % 8) as u8, self.len, self.endian)
        };
        proof {
            assert(before =~= before.subrange(0, (self.offset / 8) as int) + before.subrange(
                (self.offset / 8) as int,
                before.len() as int,
            ));
        }
        r
    }

    /// Return field size in **bit**
    pub fn len(&self) -> (r: usize)
        ensures
            r == self.len,
    {
        self.len
    }

    /// Consume a [Field] and perfom a transmutation into [BitField]
    pub fn try_from(src: Field<T>) -> (r: Result<Self, PackingError>)
        requires
            src.len * 8 <= usize::MAX,
        ensures
            src.offset != 0 ==> r == Err::<Self, PackingError>(
                PackingError::BadAlignment(src.offset, "Bit alignement different from 0"),
            ),
            src.offset == 0 ==> (r matches Ok(f) && f.offset == 0 && f.len == src.len * 8 && f.endian
                == src.endian),
    {
        if src.offset != 0 {
            return Err(PackingError::BadAlignment(src.offset, "Bit alignement different from 0"));
        }
        Ok(Self { extracted: src.extracted, offset: 0, len: src.len() * 8, endian: src.endian })
    }
}


/** helper to read/write sequencial data from/to a byte slice

    It is close to what [std::io::Cursor] is doing, but this struct allows reading forward without consuming the stream, and returns slices without copying the data. It is also meant to work with [PduData]

    Depending on the mutability of the slice this struct is built on, different capabilities are provided.
*/
pub struct Cursor<T> {
    position: usize,
    data: T,
}

impl<T> Cursor<T> {
    /// current position of the cursor
    pub closed spec fn spec_position(&self) -> usize {
        self.position
    }

    /// the slice the cursor runs on
    pub closed spec fn content(&self) -> T {
        self.data
    }

    /// create a new cursor starting at position zero in the given slice
    pub fn new(data: T) -> (r: Self)
        ensures
            r.spec_position() == 0,
            r.content() == data,
    {
        Self { position: 0, data }
    }

    /** current position in the read/write slice

        bytes before this position are considered read or written, and bytes after are coming for use in next read/write calls
    */
    pub fn position(&self) -> (r: usize)
        ensures
            r == self.spec_position(),
    {
        self.position
    }
}

impl<'a> Cursor<&'a mut [u8]> {
    /// write the next coming bytes with the given slice, and increment the position
    pub fn write(&mut self, value: &[u8]) -> (r: PackingResult<()>)
        requires
            old(self).spec_position() + value@.len() <= old(self).content()@.len(),
        ensures
            r is Ok,
            final(self).spec_position() == old(self).spec_position() + value@.len(),
            final(self).content()@ == old(self).content()@.subrange(0, old(self).spec_position() as int)
                + value@ + old(self).content()@.subrange(
                old(self).spec_position() + value@.len(),
                old(self).content()@.len() as int,
            ),
    {
        let start = self.position;
        let ghost d0 = self.data@;
        let dlen = self.data.len();
        let mut i: usize = 0;
        while i < value.len()
            invariant
                start == old(self).position,
                self.position == start,
                start + value@.len() <= d0.len(),
                d0 == old(self).data@,
                dlen == d0.len(),
                self.data@.len() == d0.len(),
                i <= value@.len(),
                forall|j: int| 0 <= j < d0.len() ==> #[trigger] self.data@[j] == if start <= j < start + i {
                    value@[j - start]
                } else {
                    d0[j]
                },
            decreases value@.len() - i,
        {
            self.data[start + i] = value[i];
            i = i + 1;
        }
        self.position = start + value.len();
        proof {
            assert(self.data@ =~= d0.subrange(0, start as int) + value@ + d0.subrange(
                start + value@.len(),
                d0.len() as int,
            ));
        }
        Ok(())
    }
}


impl<'a> Cursor<&'a [u8]> {
    /// read the next coming bytes with a [PduData] value, and increment the position
    pub fn unpack<T: PduData>(&mut self) -> (r: PackingResult<T>)
        requires
            old(self).spec_position() + T::Packed::spec_len() <= old(self).content()@.len(),
            T::unpack_whole_defined(T::Packed::spec_len()),
        ensures
            final(self).content() == old(self).content(),
            final(self).spec_position() == old(self).spec_position() + T::Packed::spec_len(),
            r == T::spec_unpack(
                old(self).content()@.subrange(
                    old(self).spec_position() as int,
                    old(self).spec_position() + T::Packed::spec_len(),
                ),
            ),
    {
        let start = self.position;
        proof {
            assert(self.data.len() == self.data@.len());
        }
        self.position = self.position + T::packed_size();
        T::unpack(vstd::slice::slice_subrange(self.data, start, self.position))
    }

    /// read the next coming `size` bytes and increment the position
    pub fn read(&mut self, size: usize) -> (r: PackingResult<&'a [u8]>)
        requires
            old(self).spec_position() + size <= old(self).content()@.len(),
        ensures
            final(self).content() == old(self).content(),
            final(self).spec_position() == old(self).spec_position() + size,
            r matches Ok(s) && s@ == old(self).content()@.subrange(
                old(self).spec_position() as int,
                old(self).spec_position() + size,
            ),
    {
        let start = self.position;
        proof {
            assert(self.data.len() == self.data@.len());
        }
        self.position = self.position + size;
        Ok(vstd::slice::slice_subrange(self.data, start, self.position))
    }

    /// return all the remaining bytes after current position, but does not advance the cursor
    pub fn remain(&self) -> (r: &'a [u8])
        requires
            self.spec_position() <= self.content()@.len(),
        ensures
            r@ == self.content()@.subrange(self.spec_position() as int, self.content()@.len() as int),
    {
        vstd::slice::slice_subrange(self.data, self.position, self.data.len())
    }

    /// consume self and return a slice until current position
    pub fn finish(self) -> (r: &'a [u8])
        requires
            self.spec_position() <= self.content()@.len(),
        ensures
            r@ == self.content()@.subrange(0, self.spec_position() as int),
    {
        vstd::slice::slice_subrange(self.data, 0, self.position)
    }
}

impl<'a> Cursor<&'a mut [u8]> {
    /// read the next coming bytes with a [PduData] value, and increment the position
    pub fn unpack<T: PduData>(&mut self) -> (r: PackingResult<T>)
        requires
            old(self).spec_position() + T::Packed::spec_len() <= old(self).content()@.len(),
            T::unpack_whole_defined(T::Packed::spec_len()),
        ensures
            final(self).content()@ == old(self).content()@,
            final(self).spec_position() == old(self).spec_position() + T::Packed::spec_len(),
            r == T::spec_unpack(
                old(self).content()@.subrange(
                    old(self).spec_position() as int,
                    old(self).spec_position() + T::Packed::spec_len(),
                ),
            ),
    {
        let start = self.position;
        proof {
            assert(self.data.len() == self.data@.len());
        }
        self.position = self.position + T::packed_size();
        T::unpack(vstd::slice::slice_subrange(&*self.data, start, self.position))
    }

    /// read the next coming `size` bytes and increment the position
    pub fn read(&mut self, size: usize) -> (r: PackingResult<&[u8]>)
        requires
            old(self).spec_position() + size <= old(self).content()@.len(),
        ensures
            final(self).content()@ == old(self).content()@,
            final(self).spec_position() == old(self).spec_position() + size,
            r matches Ok(s) && s@ == old(self).content()@.subrange(
                old(self).spec_position() as int,
                old(self).spec_position() + size,
            ),
    {
        let start = self.position;
        proof {
            assert(self.data.len() == self.data@.len());
        }
        self.position = self.position + size;
        Ok(vstd::slice::slice_subrange(&*self.data, start, self.position))
    }

    /// write the next coming bytes with a [PduData] value, and increment the position
    pub fn pack<T: PduData>(&mut self, value: &T) -> (r: PackingResult<()>)
        requires
            old(self).spec_position() + T::Packed::spec_len() <= old(self).content()@.len(),
            T::pack_whole_defined(T::Packed::spec_len()),
        ensures
            final(self).spec_position() == old(self).spec_position() + T::Packed::spec_len(),
            ({
                let before = old(self).content()@;
                let start = old(self).spec_position() as int;
                let end = start + T::Packed::spec_len();
                match value.spec_pack(before.subrange(start, end)) {
                    Ok(s) => r is Ok && final(self).content()@ == before.subrange(0, start) + s
                        + before.subrange(end, before.len() as int),
                    Err(e) => r == Err::<(), PackingError>(e) && final(self).content()@ == before,
                }
            }),
    {
        let start = self.position;
        let size = T::packed_size();
        proof {
            assert(self.data.len() == self.data@.len());
        }
        self.position = self.position + size;
        let ghost before = self.data@;
        let ghost mut written: Seq<u8> = Seq::empty();
        let r = {
            let (head, rest) = self.data.split_at_mut(start);
            let (mid, tail) = rest.split_at_mut(size);
            proof {
                assert(mid@ =~= before.subrange(start as int, start + size));
            }
            let r = value.pack(mid);
            proof {
                written = mid@;
                assert(write_outcome(
                    value.spec_pack(before.subrange(start as int, start + size)),
                    r,
                    before.subrange(start as int, start + size),
                    written,
                ));
            }
            r
        };
        proof {
            let prefix = before.subrange(0, start as int);
            let suffix = before.subrange(start + size, before.len() as int);
            assert(self.data@ =~= prefix + written + suffix);
            assert(before =~= prefix + before.subrange(start as int, start + size) + suffix);
            match value.spec_pack(before.subrange(start as int, start + size)) {
                Ok(s) => {
                    assert(written == s);
                },
                Err(e) => {
                    assert(written == before.subrange(start as int, start + size));
                },
            }
        }
        r
    }

    /// return all the remaining bytes after current position, but does not advance the cursor
    pub fn remain(&mut self) -> (r: &mut [u8])
        requires
            old(self).spec_position() <= old(self).content()@.len(),
        ensures
            r@ == old(self).content()@.subrange(
                old(self).spec_position() as int,
                old(self).content()@.len() as int,
            ),
            final(self).spec_position() == old(self).spec_position(),
            final(self).content()@ == old(self).content()@.subrange(0, old(self).spec_position() as int)
                + final(r)@,
    {
        let (head, tail) = self.data.split_at_mut(self.position);
        tail
    }

    /// consume self and return a slice until current position
    pub fn finish(self) -> (r: &'a mut [u8])
        requires
            self.spec_position() <= self.content()@.len(),
        ensures
            r@ == self.content()@.subrange(0, self.spec_position() as int),
    {
        let position = self.position;
        let data = self.data;
        let (head, tail) = data.split_at_mut(position);
        head
    }
}


/// the bits of a slice read at the same place in a longer slice it ends
proof fn lemma_data_bit_after(prefix: Seq<u8>, s: Seq<u8>, p: int)
    requires
        8 * prefix.len() <= p < 8 * (prefix.len() + s.len()),
    ensures
        data_bit(prefix + s, p) == data_bit(s, p - 8 * prefix.len()),
{
    let b = prefix.len() as int;
    let q = p - 8 * b;
    lemma_fundamental_div_mod(q, 8);
    lemma_position(q / 8 + b, q % 8);
    assert(p == 8 * (q / 8 + b) + q % 8);
}

/**
    Writing the `bitsize` low bits of an integer at a bit position, then reading the field back with the same
    byte ordering, gives these bits back; the bits and the bytes outside the field are kept.
*/
pub proof fn law_int_roundtrip(raw: nat, n: nat, signed: bool, data: Seq<u8>, bitoffset: u8, bitsize: usize, ordering: Endianness)
    requires
        valid_int_width(n),
        1 <= bitsize <= 8 * n,
        bitoffset < 8,
        bitoffset + bitsize <= 8 * data.len(),
        ordering != Endianness::Middle,
    ensures
        pack_int_result(raw, n, signed, data, bitoffset, bitsize, ordering) matches Ok(s) && {
            &&& s.len() == data.len()
            &&& unpack_int_result(s, n, bitoffset, bitsize, ordering) == Ok::<nat, PackingError>(raw % pow2(bitsize as nat))
            &&& forall|p: int| 0 <= p < 8 * data.len() && !(bitoffset <= p < bitoffset + bitsize)
                ==> #[trigger] data_bit(s, p) == data_bit(data, p)
            &&& forall|i: int| 0 <= i < data.len() && (8 * i + 8 <= bitoffset || 8 * i >= bitoffset + bitsize)
                ==> #[trigger] s[i] == data[i]
        },
{
    let s = packed_int_bytes(raw, data, bitoffset, bitsize, ordering);
    let off = bitoffset as int;
    let len = bitsize as int;
    assert forall|k: int| 0 <= k < len implies #[trigger] field_bits(s, off, len, ordering)[k] == nat_bit(raw, 0 + k) by {
        lemma_field_bit(k, len, ordering);
        lemma_packed_bits(raw, data, bitoffset, bitsize, ordering, off + field_bit(k, len, ordering));
    }
    assert(field_bits(s, off, len, ordering) =~= Seq::new(bitsize as nat, |i: int| nat_bit(raw, 0 + i)));
    lemma_bits_value_of_nat(raw, 0, bitsize as nat);
    assert(pow2(0) == 1) by {
        lemma2_to64();
    }
    lemma_div_basics(raw as int);
    assert forall|p: int| 0 <= p < 8 * data.len() && !(bitoffset <= p < bitoffset + bitsize) implies #[trigger] data_bit(s, p) == data_bit(data, p) by {
        lemma_packed_bits(raw, data, bitoffset, bitsize, ordering, p);
    }
    assert forall|i: int| 0 <= i < data.len() && (8 * i + 8 <= bitoffset || 8 * i >= bitoffset + bitsize) implies #[trigger] s[i] == data[i] by {
        let d = |q: int| data_bit(data, q);
        assert forall|t: int| 0 <= t < 8 implies #[trigger] data_bit(data, 8 * i + t) == d(8 * i + t) by {}
        lemma_byte_from_bits(data, i, d);
    }
}

/// a field of `len` bytes at `offset` of the data, written with an integer then read back, gives the low bytes of
/// the integer, and the other bytes are kept
proof fn lemma_field_int(raw: nat, n: nat, signed: bool, data: Seq<u8>, offset: int, len: int, ordering: Endianness)
    requires
        valid_int_width(n),
        1 <= len <= n,
        0 <= offset,
        offset + len <= data.len(),
        ordering != Endianness::Middle,
    ensures
        pack_int_result(raw, n, signed, data.subrange(offset, data.len() as int), 0, (len * 8) as usize, ordering) matches Ok(s) && {
            &&& (data.subrange(0, offset) + s).len() == data.len()
            &&& unpack_int_result((data.subrange(0, offset) + s).subrange(offset, data.len() as int), n, 0, (len * 8) as usize, ordering)
                == Ok::<nat, PackingError>(raw % pow2((8 * len) as nat))
            &&& forall|i: int| 0 <= i < data.len() && !(offset <= i < offset + len)
                ==> #[trigger] (data.subrange(0, offset) + s)[i] == data[i]
        },
{
    let sub = data.subrange(offset, data.len() as int);
    law_int_roundtrip(raw, n, signed, sub, 0, (len * 8) as usize, ordering);
    let s = packed_int_bytes(raw, sub, 0, (len * 8) as usize, ordering);
    let whole = data.subrange(0, offset) + s;
    assert(whole.subrange(offset, data.len() as int) =~= s);
    assert forall|i: int| 0 <= i < data.len() && !(offset <= i < offset + len) implies #[trigger] whole[i] == data[i] by {
        if i >= offset + len {
            assert(s[i - offset] == sub[i - offset]);
        }
    }
}

/// a field of `len` bits at the bit `offset` of the data, written with an integer then read back, gives the low bits
/// of the integer, and the other bits are kept
proof fn lemma_bitfield_int(raw: nat, n: nat, signed: bool, data: Seq<u8>, offset: int, len: int, ordering: Endianness)
    requires
        valid_int_width(n),
        1 <= len <= 8 * n,
        0 <= offset,
        offset / 8 <= data.len(),
        offset % 8 + len <= 8 * (data.len() - offset / 8),
        ordering != Endianness::Middle,
    ensures
        pack_int_result(raw, n, signed, data.subrange(offset / 8, data.len() as int), (offset % 8) as u8, len as usize, ordering) matches Ok(s) && {
            &&& (data.subrange(0, offset / 8) + s).len() == data.len()
            &&& unpack_int_result((data.subrange(0, offset / 8) + s).subrange(offset / 8, data.len() as int), n, (offset % 8) as u8, len as usize, ordering)
                == Ok::<nat, PackingError>(raw % pow2(len as nat))
            &&& forall|p: int| 0 <= p < 8 * data.len() && !(offset <= p < offset + len)
                ==> #[trigger] data_bit(data.subrange(0, offset / 8) + s, p) == data_bit(data, p)
        },
{
    let b = offset / 8;
    let o = offset % 8;
    lemma_fundamental_div_mod(offset, 8);
    let sub = data.subrange(b, data.len() as int);
    let prefix = data.subrange(0, b);
    law_int_roundtrip(raw, n, signed, sub, o as u8, len as usize, ordering);
    let s = packed_int_bytes(raw, sub, o as u8, len as usize, ordering);
    let whole = prefix + s;
    assert(whole.subrange(b, data.len() as int) =~= s);
    assert(data =~= prefix + sub);
    assert forall|p: int| 0 <= p < 8 * data.len() && !(offset <= p < offset + len) implies #[trigger] data_bit(whole, p) == data_bit(data, p) by {
        if p < 8 * b {
            lemma_fundamental_div_mod(p, 8);
            assert(p / 8 < b);
            assert(whole[p / 8] == data[p / 8]);
        } else {
            lemma_data_bit_after(prefix, s, p);
            lemma_data_bit_after(prefix, sub, p);
            assert(data_bit(s, p - 8 * b) == data_bit(sub, p - 8 * b));
        }
    }
}

/// A [Field] of `len` bytes holding a `u8`, written with `set` then read with `get`, gives back the `len` low bytes
/// of the written value, in big or little endian; the bytes outside the field are kept.
pub proof fn law_field_roundtrip_u8(field: Field<u8>, data: Seq<u8>, value: u8)
    requires
        1 <= field.len <= 1,
        field.offset + field.len <= data.len(),
        field.endian != Endianness::Middle,
    ensures
        value.spec_pack_slice(data.subrange(field.offset as int, data.len() as int), 0, (field.len * 8) as usize, field.endian)
            matches Ok(s) && {
            &&& (data.subrange(0, field.offset as int) + s).len() == data.len()
            &&& u8::spec_unpack_slice(
                (data.subrange(0, field.offset as int) + s).subrange(field.offset as int, data.len() as int),
                0,
                (field.len * 8) as usize,
                field.endian,
            ) == Ok::<u8, PackingError>((value as nat % pow2((8 * field.len) as nat)) as u8)
            &&& forall|i: int| 0 <= i < data.len() && !(field.offset <= i < field.offset + field.len)
                ==> #[trigger] (data.subrange(0, field.offset as int) + s)[i] == data[i]
        },
{
    lemma_field_int(value as nat, 1, false, data, field.offset as int, field.len as int, field.endian);
}

/// A [BitField] of `len` bits holding a `u8`, written with `set` then read with `get`, gives back the `len` low bits
/// of the written value, in big or little endian; the bits outside the field are kept.
pub proof fn law_bitfield_roundtrip_u8(field: BitField<u8>, data: Seq<u8>, value: u8)
    requires
        1 <= field.len <= 8,
        field.offset / 8 <= data.len(),
        field.offset % 8 + field.len <= 8 * (data.len() - field.offset / 8),
        field.endian != Endianness::Middle,
    ensures
        value.spec_pack_slice(data.subrange((field.offset / 8) as int, data.len() as int), (field.offset % 8) as u8, field.len, field.endian)
            matches Ok(s) && {
            &&& (data.subrange(0, (field.offset / 8) as int) + s).len() == data.len()
            &&& u8::spec_unpack_slice(
                (data.subrange(0, (field.offset / 8) as int) + s).subrange((field.offset / 8) as int, data.len() as int),
                (field.offset % 8) as u8,
                field.len,
                field.endian,
            ) == Ok::<u8, PackingError>((value as nat % pow2(field.len as nat)) as u8)
            &&& forall|p: int| 0 <= p < 8 * data.len() && !(field.offset <= p < field.offset + field.len)
                ==> #[trigger] data_bit(data.subrange(0, (field.offset / 8) as int) + s, p) == data_bit(data, p)
        },
{
    lemma_bitfield_int(value as nat, 1, false, data, field.offset as int, field.len as int, field.endian);
}

/// A [Field] of `len` bytes holding a `u16`, written with `set` then read with `get`, gives back the `len` low bytes
/// of the written value, in big or little endian; the bytes outside the field are kept.
pub proof fn law_field_roundtrip_u16(field: Field<u16>, data: Seq<u8>, value: u16)
    requires
        1 <= field.len <= 2,
        field.offset + field.len <= data.len(),
        field.endian != Endianness::Middle,
    ensures
        value.spec_pack_slice(data.subrange(field.offset as int, data.len() as int), 0, (field.len * 8) as usize, field.endian)
            matches Ok(s) && {
            &&& (data.subrange(0, field.offset as int) + s).len() == data.len()
            &&& u16::spec_unpack_slice(
                (data.subrange(0, field.offset as int) + s).subrange(field.offset as int, data.len() as int),
                0,
                (field.len * 8) as usize,
                field.endian,
            ) == Ok::<u16, PackingError>((value as nat % pow2((8 * field.len) as nat)) as u16)
            &&& forall|i: int| 0 <= i < data.len() && !(field.offset <= i < field.offset + field.len)
                ==> #[trigger] (data.subrange(0, field.offset as int) + s)[i] == data[i]
        },
{
    lemma_field_int(value as nat, 2, false, data, field.offset as int, field.len as int, field.endian);
}

/// A [BitField] of `len` bits holding a `u16`, written with `set` then read with `get`, gives back the `len` low bits
/// of the written value, in big or little endian; the bits outside the field are kept.
pub proof fn law_bitfield_roundtrip_u16(field: BitField<u16>, data: Seq<u8>, value: u16)
    requires
        1 <= field.len <= 16,
        field.offset / 8 <= data.len(),
        field.offset % 8 + field.len <= 8 * (data.len() - field.offset / 8),
        field.endian != Endianness::Middle,
    ensures
        value.spec_pack_slice(data.subrange((field.offset / 8) as int, data.len() as int), (field.offset % 8) as u8, field.len, field.endian)
            matches Ok(s) && {
            &&& (data.subrange(0, (field.offset / 8) as int) + s).len() == data.len()
            &&& u16::spec_unpack_slice(
                (data.subrange(0, (field.offset / 8) as int) + s).subrange((field.offset / 8) as int, data.len() as int),
                (field.offset % 8) as u8,
                field.len,
                field.endian,
            ) == Ok::<u16, PackingError>((value as nat % pow2(field.len as nat)) as u16)
            &&& forall|p: int| 0 <= p < 8 * data.len() && !(field.offset <= p < field.offset + field.len)
                ==> #[trigger] data_bit(data.subrange(0, (field.offset / 8) as int) + s, p) == data_bit(data, p)
        },
{
    lemma_bitfield_int(value as nat, 2, false, data, field.offset as int, field.len as int, field.endian);
}

/// A [Field] of `len` bytes holding a `u32`, written with `set` then read with `get`, gives back the `len` low bytes
/// of the written value, in big or little endian; the bytes outside the field are kept.
pub proof fn law_field_roundtrip_u32(field: Field<u32>, data: Seq<u8>, value: u32)
    requires
        1 <= field.len <= 4,
        field.offset + field.len <= data.len(),
        field.endian != Endianness::Middle,
    ensures
        value.spec_pack_slice(data.subrange(field.offset as int, data.len() as int), 0, (field.len * 8) as usize, field.endian)
            matches Ok(s) && {
            &&& (data.subrange(0, field.offset as int) + s).len() == data.len()
            &&& u32::spec_unpack_slice(
                (data.subrange(0, field.offset as int) + s).subrange(field.offset as int, data.len() as int),
                0,
                (field.len * 8) as usize,
                field.endian,
            ) == Ok::<u32, PackingError>((value as nat % pow2((8 * field.len) as nat)) as u32)
            &&& forall|i: int| 0 <= i < data.len() && !(field.offset <= i < field.offset + field.len)
                ==> #[trigger] (data.subrange(0, field.offset as int) + s)[i] == data[i]
        },
{
    lemma_field_int(value as nat, 4, false, data, field.offset as int, field.len as int, field.endian);
}

/// A [BitField] of `len` bits holding a `u32`, written with `set` then read with `get`, gives back the `len` low bits
/// of the written value, in big or little endian; the bits outside the field are kept.
pub proof fn law_bitfield_roundtrip_u32(field: BitField<u32>, data: Seq<u8>, value: u32)
    requires
        1 <= field.len <= 32,
        field.offset / 8 <= data.len(),
        field.offset % 8 + field.len <= 8 * (data.len() - field.offset / 8),
        field.endian != Endianness::Middle,
    ensures
        value.spec_pack_slice(data.subrange((field.offset / 8) as int, data.len() as int), (field.offset % 8) as u8, field.len, field.endian)
            matches Ok(s) && {
            &&& (data.subrange(0, (field.offset / 8) as int) + s).len() == data.len()
            &&& u32::spec_unpack_slice(
                (data.subrange(0, (field.offset / 8) as int) + s).subrange((field.offset / 8) as int, data.len() as int),
                (field.offset % 8) as u8,
                field.len,
                field.endian,
            ) == Ok::<u32, PackingError>((value as nat % pow2(field.len as nat)) as u32)
            &&& forall|p: int| 0 <= p < 8 * data.len() && !(field.offset <= p < field.offset + field.len)
                ==> #[trigger] data_bit(data.subrange(0, (field.offset / 8) as int) + s, p) == data_bit(data, p)
        },
{
    lemma_bitfield_int(value as nat, 4, false, data, field.offset as int, field.len as int, field.endian);
}

/// A [Field] of `len` bytes holding a `u64`, written with `set` then read with `get`, gives back the `len` low bytes
/// of the written value, in big or little endian; the bytes outside the field are kept.
pub proof fn law_field_roundtrip_u64(field: Field<u64>, data: Seq<u8>, value: u64)
    requires
        1 <= field.len <= 8,
        field.offset + field.len <= data.len(),
        field.endian != Endianness::Middle,
    ensures
        value.spec_pack_slice(data.subrange(field.offset as int, data.len() as int), 0, (field.len * 8) as usize, field.endian)
            matches Ok(s) && {
            &&& (data.subrange(0, field.offset as int) + s).len() == data.len()
            &&& u64::spec_unpack_slice(
                (data.subrange(0, field.offset as int) + s).subrange(field.offset as int, data.len() as int),
                0,
                (field.len * 8) as usize,
                field.endian,
            ) == Ok::<u64, PackingError>((value as nat % pow2((8 * field.len) as nat)) as u64)
            &&& forall|i: int| 0 <= i < data.len() && !(field.offset <= i < field.offset + field.len)
                ==> #[trigger] (data.subrange(0, field.offset as int) + s)[i] == data[i]
        },
{
    lemma_field_int(value as nat, 8, false, data, field.offset as int, field.len as int, field.endian);
}

/// A [BitField] of `len` bits holding a `u64`, written with `set` then read with `get`, gives back the `len` low bits
/// of the written value, in big or little endian; the bits outside the field are kept.
pub proof fn law_bitfield_roundtrip_u64(field: BitField<u64>, data: Seq<u8>, value: u64)
    requires
        1 <= field.len <= 64,
        field.offset / 8 <= data.len(),
        field.offset % 8 + field.len <= 8 * (data.len() - field.offset / 8),
        field.endian != Endianness::Middle,
    ensures
        value.spec_pack_slice(data.subrange((field.offset / 8) as int, data.len() as int), (field.offset % 8) as u8, field.len, field.endian)
            matches Ok(s) && {
            &&& (data.subrange(0, (field.offset / 8) as int) + s).len() == data.len()
            &&& u64::spec_unpack_slice(
                (data.subrange(0, (field.offset / 8) as int) + s).subrange((field.offset / 8) as int, data.len() as int),
                (field.offset % 8) as u8,
                field.len,
                field.endian,
            ) == Ok::<u64, PackingError>((value as nat % pow2(field.len as nat)) as u64)
            &&& forall|p: int| 0 <= p < 8 * data.len() && !(field.offset <= p < field.offset + field.len)
                ==> #[trigger] data_bit(data.subrange(0, (field.offset / 8) as int) + s, p) == data_bit(data, p)
        },
{
    lemma_bitfield_int(value as nat, 8, false, data, field.offset as int, field.len as int, field.endian);
}

/// A [Field] spanning exactly the bytes of a `i8`, written with `set` then read with `get`, gives back the
/// written value, in big or little endian; the bytes outside the field are kept.
pub proof fn law_field_roundtrip_i8(field: Field<i8>, data: Seq<u8>, value: i8)
    requires
        field.len == 1,
        field.offset + field.len <= data.len(),
        field.endian != Endianness::Middle,
    ensures
        value.spec_pack_slice(data.subrange(field.offset as int, data.len() as int), 0, (field.len * 8) as usize, field.endian)
            matches Ok(s) && {
            &&& (data.subrange(0, field.offset as int) + s).len() == data.len()
            &&& i8::spec_unpack_slice(
                (data.subrange(0, field.offset as int) + s).subrange(field.offset as int, data.len() as int),
                0,
                (field.len * 8) as usize,
                field.endian,
            ) == Ok::<i8, PackingError>(value)
            &&& forall|i: int| 0 <= i < data.len() && !(field.offset <= i < field.offset + field.len)
                ==> #[trigger] (data.subrange(0, field.offset as int) + s)[i] == data[i]
        },
{
    lemma2_to64();
    lemma2_to64_rest();
    let raw = from_signed(value as int, 1);
    lemma_field_int(raw, 1, true, data, field.offset as int, field.len as int, field.endian);
    lemma_small_mod(raw, pow2(8));
}

/// A [Field] spanning exactly the bytes of a `i16`, written with `set` then read with `get`, gives back the
/// written value, in big or little endian; the bytes outside the field are kept.
pub proof fn law_field_roundtrip_i16(field: Field<i16>, data: Seq<u8>, value: i16)
    requires
        field.len == 2,
        field.offset + field.len <= data.len(),
        field.endian != Endianness::Middle,
    ensures
        value.spec_pack_slice(data.subrange(field.offset as int, data.len() as int), 0, (field.len * 8) as usize, field.endian)
            matches Ok(s) && {
            &&& (data.subrange(0, field.offset as int) + s).len() == data.len()
            &&& i16::spec_unpack_slice(
                (data.subrange(0, field.offset as int) + s).subrange(field.offset as int, data.len() as int),
                0,
                (field.len * 8) as usize,
                field.endian,
            ) == Ok::<i16, PackingError>(value)
            &&& forall|i: int| 0 <= i < data.len() && !(field.offset <= i < field.offset + field.len)
                ==> #[trigger] (data.subrange(0, field.offset as int) + s)[i] == data[i]
        },
{
    lemma2_to64();
    lemma2_to64_rest();
    let raw = from_signed(value as int, 2);
    lemma_field_int(raw, 2, true, data, field.offset as int, field.len as int, field.endian);
    lemma_small_mod(raw, pow2(16));
}

/// A [Field] spanning exactly the bytes of a `i32`, written with `set` then read with `get`, gives back the
/// written value, in big or little endian; the bytes outside the field are kept.
pub proof fn law_field_roundtrip_i32(field: Field<i32>, data: Seq<u8>, value: i32)
    requires
        field.len == 4,
        field.offset + field.len <= data.len(),
        field.endian != Endianness::Middle,
    ensures
        value.spec_pack_slice(data.subrange(field.offset as int, data.len() as int), 0, (field.len * 8) as usize, field.endian)
            matches Ok(s) && {
            &&& (data.subrange(0, field.offset as int) + s).len() == data.len()
            &&& i32::spec_unpack_slice(
                (data.subrange(0, field.offset as int) + s).subrange(field.offset as int, data.len() as int),
                0,
                (field.len * 8) as usize,
                field.endian,
            ) == Ok::<i32, PackingError>(value)
            &&& forall|i: int| 0 <= i < data.len() && !(field.offset <= i < field.offset + field.len)
                ==> #[trigger] (data.subrange(0, field.offset as int) + s)[i] == data[i]
        },
{
    lemma2_to64();
    lemma2_to64_rest();
    let raw = from_signed(value as int, 4);
    lemma_field_int(raw, 4, true, data, field.offset as int, field.len as int, field.endian);
    lemma_small_mod(raw, pow2(32));
}

/// A [Field] spanning exactly the bytes of a `i64`, written with `set` then read with `get`, gives back the
/// written value, in big or little endian; the bytes outside the field are kept.
pub proof fn law_field_roundtrip_i64(field: Field<i64>, data: Seq<u8>, value: i64)
    requires
        field.len == 8,
        field.offset + field.len <= data.len(),
        field.endian != Endianness::Middle,
    ensures
        value.spec_pack_slice(data.subrange(field.offset as int, data.len() as int), 0, (field.len * 8) as usize, field.endian)
            matches Ok(s) && {
            &&& (data.subrange(0, field.offset as int) + s).len() == data.len()
            &&& i64::spec_unpack_slice(
                (data.subrange(0, field.offset as int) + s).subrange(field.offset as int, data.len() as int),
                0,
                (field.len * 8) as usize,
                field.endian,
            ) == Ok::<i64, PackingError>(value)
            &&& forall|i: int| 0 <= i < data.len() && !(field.offset <= i < field.offset + field.len)
                ==> #[trigger] (data.subrange(0, field.offset as int) + s)[i] == data[i]
        },
{
    lemma2_to64();
    lemma2_to64_rest();
    let raw = from_signed(value as int, 8);
    lemma_field_int(raw, 8, true, data, field.offset as int, field.len as int, field.endian);
    lemma_small_mod(raw, pow2(64));
}


/// value of a bit
pub open spec fn bit(b: bool) -> nat {
    if b {
        1
    } else {
        0
    }
}

/// packing of a bit-packed struct of `n` bytes whose bits read as the integer `raw`: its
/// bytes least significant first at the start of the slice, the rest of the slice kept
pub open spec fn bits_pack_result(raw: nat, n: nat, data: Seq<u8>) -> PackingResult<Seq<u8>> {
    if data.len() < n {
        Err(PackingError::BadSize(data.len() as usize, "bilge struct needs exact size"))
    } else {
        Ok(le_bytes(raw, n) + data.subrange(n as int, data.len() as int))
    }
}

/// integer read from the first `n` bytes of the slice, least significant first
pub open spec fn bits_unpack_result(src: Seq<u8>, n: nat) -> PackingResult<nat> {
    if src.len() < n {
        Err(PackingError::BadSize(src.len() as usize, "bilge struct needs exact size"))
    } else {
        Ok(le_value(src.subrange(0, n as int)))
    }
}

/// packing of a bit-packed struct at a bit position: only the null position and null size are accepted
pub open spec fn bits_pack_slice_result(
    raw: nat,
    n: nat,
    data: Seq<u8>,
    bitoffset: u8,
    bitsize: usize,
) -> PackingResult<Seq<u8>> {
    if bitoffset != 0 {
        Err(PackingError::BadAlignment(bitoffset as usize, "Bit offset must be at 0 on this implementation"))
    } else if bitsize != 0 {
        Err(PackingError::BadSize(bitsize, "Bit size must be at 0 on this implementation"))
    } else {
        bits_pack_result(raw, n, data)
    }
}

/// unpacking of a bit-packed struct at a bit position: only the null position and null size are accepted
pub open spec fn bits_unpack_slice_result(
    src: Seq<u8>,
    n: nat,
    bitoffset: u8,
    bitsize: usize,
) -> PackingResult<nat> {
    if bitoffset != 0 {
        Err(PackingError::BadAlignment(bitoffset as usize, "Bit offset must be at 0 on this implementation"))
    } else if bitsize != 0 {
        Err(PackingError::BadSize(bitsize, "Bit size must be at 0 on this implementation"))
    } else {
        bits_unpack_result(src, n)
    }
}

/// write the `n` bytes of a bit-packed struct whose bits read as `raw`
pub fn pack_bits(raw: u64, n: usize, data: &mut [u8]) -> (r: PackingResult<()>)
    requires
        n <= 8,
    ensures
        write_outcome(bits_pack_result(raw as nat, n as nat, old(data)@), r, old(data)@, final(data)@),
{
    if data.len() < n {
        return Err(PackingError::BadSize(data.len(), "bilge struct needs exact size"));
    }
    let bytes = le_bytes_of(raw, n);
    proof {
        lemma_le_bytes_len(raw as nat, n as nat);
    }
    let ghost d0 = data@;
    let mut i: usize = 0;
    while i < n
        invariant
            i <= n,
            n <= d0.len(),
            bytes@ == le_bytes(raw as nat, n as nat),
            bytes@.len() == n,
            data@.len() == d0.len(),
            forall|j: int| 0 <= j < d0.len() ==> #[trigger] data@[j] == if j < i { bytes@[j] } else { d0[j] },
        decreases n - i,
    {
        data[i] = bytes[i];
        i = i + 1;
    }
    proof {
        assert(data@ =~= le_bytes(raw as nat, n as nat) + d0.subrange(n as int, d0.len() as int));
    }
    Ok(())
}

/// read the `n` bytes of a bit-packed struct, as an integer
pub fn unpack_bits(src: &[u8], n: usize) -> (r: PackingResult<u64>)
    requires
        n <= 8,
    ensures
        match bits_unpack_result(src@, n as nat) {
            Ok(v) => r == Ok::<u64, PackingError>(v as u64) && v < pow2(8 * n as nat),
            Err(e) => r == Err::<u64, PackingError>(e),
        },
{
    if src.len() < n {
        return Err(PackingError::BadSize(src.len(), "bilge struct needs exact size"));
    }
    let head = vstd::slice::slice_subrange(src, 0, n);
    proof {
        lemma_le_value_bound(head@);
    }
    Ok(le_value_of(head))
}


/// the empty value: it takes no byte, packing it changes nothing and unpacking it always succeeds
impl PduData for () {
    const ID: TypeId = TypeId::CUSTOM;
    type Packed = [u8; 0];

    open spec fn pack_defined(len: nat, bitoffset: u8, bitsize: usize, bitordering: Endianness) -> bool {
        true
    }

    open spec fn spec_pack_slice(
        &self,
        data: Seq<u8>,
        bitoffset: u8,
        bitsize: usize,
        bitordering: Endianness,
    ) -> PackingResult<Seq<u8>> {
        Ok(data)
    }

    open spec fn unpack_defined(len: nat, bitoffset: u8, bitsize: usize, bitordering: Endianness) -> bool {
        true
    }

    open spec fn spec_unpack_slice(src: Seq<u8>, bitoffset: u8, bitsize: usize, bitordering: Endianness) -> PackingResult<Self> {
        Ok(())
    }

    open spec fn pack_whole_defined(len: nat) -> bool {
        true
    }

    open spec fn spec_pack(&self, data: Seq<u8>) -> PackingResult<Seq<u8>> {
        Ok(data)
    }

    open spec fn unpack_whole_defined(len: nat) -> bool {
        true
    }

    open spec fn spec_unpack(src: Seq<u8>) -> PackingResult<Self> {
        Ok(())
    }

    fn pack(&self, data: &mut [u8]) -> (r: PackingResult<()>) {
        Ok(())
    }

    fn unpack(src: &[u8]) -> (r: PackingResult<Self>) {
        Ok(())
    }

    fn pack_slice(&self, data: &mut [u8], bitoffset: u8, bitsize: usize, bitordering: Endianness) -> (r: PackingResult<()>) {
        Ok(())
    }

    fn unpack_slice(src: &[u8], bitoffset: u8, bitsize: usize, bitordering: Endianness) -> (r: PackingResult<Self>) {
        Ok(())
    }
}

} // verus!
