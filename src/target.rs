//! Proof-of-work targets: decoding the compact `nbits` form of a block
//! header and testing a block hash against the decoded target.
//!
//! Hashes and targets are 32-byte little-endian numbers.

use vstd::prelude::*;

verus! {

/// Byte length of a block hash and of a target.
pub const HASH_LEN: usize = 32;

/// The exponent of a compact target: its length in bytes.
pub open spec fn compact_size(bits: u32) -> u32 {
    bits >> 24u32
}

/// The 23-bit mantissa of a compact target.
pub open spec fn compact_word(bits: u32) -> u32 {
    bits & 0x007fffffu32
}

/// The compact form has its sign bit set on a non-zero mantissa.
pub open spec fn compact_negative(bits: u32) -> bool {
    compact_word(bits) != 0 && (bits & 0x00800000u32) != 0
}

/// The compact form denotes a number of more than 256 bits.
pub open spec fn compact_overflow(bits: u32) -> bool {
    compact_word(bits) != 0 && (compact_size(bits) > 34 || (compact_word(bits) > 0xff
        && compact_size(bits) > 33) || (compact_word(bits) > 0xffff && compact_size(bits) > 32))
}

/// The mantissa, shifted right when the exponent is below three bytes.
pub open spec fn compact_mantissa(bits: u32) -> u32 {
    if compact_size(bits) <= 3 {
        compact_word(bits) >> (8 * (3 - compact_size(bits))) as u32
    } else {
        compact_word(bits)
    }
}

/// How many zero bytes stand below the mantissa.
pub open spec fn compact_shift(bits: u32) -> int {
    if compact_size(bits) <= 3 {
        0
    } else {
        compact_size(bits) - 3
    }
}

/// Byte `p` (little-endian) of the target that `bits` encodes.
pub open spec fn target_byte(bits: u32, p: int) -> u8 {
    let q = p - compact_shift(bits);
    if 0 <= q < 3 {
        ((compact_mantissa(bits) >> (8 * q) as u32) & 0xffu32) as u8
    } else {
        0
    }
}

/// The 32-byte target that `bits` encodes.
pub open spec fn target_bytes(bits: u32) -> Seq<u8> {
    Seq::new(HASH_LEN as nat, |p: int| target_byte(bits, p))
}

/// `hash <= target` on their low `i` bytes, comparing from byte `i - 1` down.
pub open spec fn meets_below(hash: Seq<u8>, target: Seq<u8>, i: int) -> bool
    decreases i,
{
    if i <= 0 {
        true
    } else if hash[i - 1] < target[i - 1] {
        true
    } else if hash[i - 1] > target[i - 1] {
        false
    } else {
        meets_below(hash, target, i - 1)
    }
}

/// The hash, as a little-endian number, is at most the target.
pub open spec fn meets_target(hash: Seq<u8>, target: Seq<u8>) -> bool {
    meets_below(hash, target, HASH_LEN as int)
}

/// `256` to the power `i`.
pub open spec fn pow256(i: nat) -> nat
    decreases i,
{
    if i == 0 {
        1
    } else {
        256 * pow256((i - 1) as nat)
    }
}

/// The number whose little-endian bytes are the low `i` bytes of `b`.
pub open spec fn le_value(b: Seq<u8>, i: nat) -> nat
    decreases i,
{
    if i == 0 {
        0
    } else {
        b[i - 1] as nat * pow256((i - 1) as nat) + le_value(b, (i - 1) as nat)
    }
}

proof fn lemma_le_value_bound(b: Seq<u8>, i: nat)
    ensures
        le_value(b, i) < pow256(i),
    decreases i,
{
    if i > 0 {
        let k = (i - 1) as nat;
        lemma_le_value_bound(b, k);
        let x = b[i - 1] as nat;
        let p = pow256(k);
        let v = le_value(b, k);
        assert(x * p + v < 256 * p) by (nonlinear_arith)
            requires
                x <= 255,
                v < p,
        ;
    }
}

/// The byte-wise comparison is the numeric one: a hash meets a target
/// exactly when its little-endian value is at most the target's.
pub proof fn lemma_meets_target_is_numeric(hash: Seq<u8>, target: Seq<u8>)
    requires
        hash.len() == HASH_LEN,
        target.len() == HASH_LEN,
    ensures
        meets_target(hash, target) <==> le_value(hash, HASH_LEN as nat) <= le_value(
            target,
            HASH_LEN as nat,
        ),
{
    lemma_meets_below_is_numeric(hash, target, HASH_LEN as nat);
}

proof fn lemma_meets_below_is_numeric(hash: Seq<u8>, target: Seq<u8>, i: nat)
    requires
        i <= hash.len(),
        i <= target.len(),
    ensures
        meets_below(hash, target, i as int) <==> le_value(hash, i) <= le_value(target, i),
    decreases i,
{
    if i > 0 {
        let k = (i - 1) as nat;
        lemma_meets_below_is_numeric(hash, target, k);
        lemma_le_value_bound(hash, k);
        lemma_le_value_bound(target, k);
        let x = hash[i - 1] as nat;
        let y = target[i - 1] as nat;
        let p = pow256(k);
        let u = le_value(hash, k);
        let v = le_value(target, k);
        if x < y {
            assert(x * p + u < y * p + v) by (nonlinear_arith)
                requires
                    x < y,
                    u < p,
            ;
        } else if x > y {
            assert(x * p + u > y * p + v) by (nonlinear_arith)
                requires
                    x > y,
                    v < p,
            ;
        }
    }
}

/// The value of the low `j` bytes of `m`.
spec fn low_value(m: u32, j: int) -> nat {
    let b0 = (m & 0xffu32) as nat;
    let b1 = ((m >> 8u32) & 0xffu32) as nat;
    let b2 = ((m >> 16u32) & 0xffu32) as nat;
    if j <= 0 {
        0
    } else if j == 1 {
        b0
    } else if j == 2 {
        b0 + b1 * 256
    } else {
        b0 + b1 * 256 + b2 * 65536
    }
}

proof fn lemma_pow256_add(a: nat, b: nat)
    ensures
        pow256((a + b) as nat) == pow256(a) * pow256(b),
    decreases b,
{
    if b == 0 {
        assert(pow256(0) == 1);
        assert((a + b) as nat == a);
    } else {
        let c = (b - 1) as nat;
        lemma_pow256_add(a, c);
        let pa = pow256(a);
        let pc = pow256(c);
        assert(pow256((a + b) as nat) == 256 * pow256((a + c) as nat));
        assert(pow256(b) == 256 * pc);
        assert(pa * (256 * pc) == 256 * (pa * pc)) by (nonlinear_arith);
    }
}

proof fn lemma_mantissa_bytes(m: u32)
    ensures
        m < 0x1000000u32 ==> low_value(m, 3) == m as nat,
        m < 0x10000u32 ==> low_value(m, 2) == m as nat,
        m < 0x100u32 ==> low_value(m, 1) == m as nat,
{
    assert(m < 0x1000000u32 ==> (m & 0xffu32) + ((m >> 8u32) & 0xffu32) * 256u32 + ((m >> 16u32)
        & 0xffu32) * 65536u32 == m) by (bit_vector);
    assert(m < 0x10000u32 ==> (m & 0xffu32) + ((m >> 8u32) & 0xffu32) * 256u32 == m)
        by (bit_vector);
    assert(m < 0x100u32 ==> (m & 0xffu32) == m) by (bit_vector);
}

proof fn lemma_target_prefix_value(bits: u32, i: nat)
    requires
        i <= HASH_LEN,
    ensures
        le_value(target_bytes(bits), i) == (if i <= compact_shift(bits) {
            0
        } else {
            low_value(compact_mantissa(bits), i - compact_shift(bits)) * pow256(
                compact_shift(bits) as nat,
            )
        }),
    decreases i,
{
    let t = target_bytes(bits);
    let sh = compact_shift(bits);
    let m = compact_mantissa(bits);
    if i > 0 {
        let k = (i - 1) as nat;
        lemma_target_prefix_value(bits, k);
        let q = k - sh;
        let by = t[k as int] as nat;
        let pk = pow256(k);
        let ps = pow256(sh as nat);
        assert(le_value(t, i) == by * pk + le_value(t, k));
        if q < 0 {
            assert(by == 0);
            assert(by * pk == 0);
        } else if q < 3 {
            lemma_pow256_add(sh as nat, q as nat);
            assert(pow256(1) == 256 * pow256(0));
            assert(pow256(2) == 256 * pow256(1));
            assert(pk == ps * pow256(q as nat));
            let lo = low_value(m, q);
            if q == 0 {
                assert(lo == 0);
                assert(lo * ps == 0) by (nonlinear_arith)
                    requires
                        lo == 0,
                ;
            }
            assert(le_value(t, k) == lo * ps);
            assert(((m & 0xffu32) as u8) as u32 == m & 0xffu32) by (bit_vector);
            assert((((m >> 8u32) & 0xffu32) as u8) as u32 == (m >> 8u32) & 0xffu32) by (bit_vector);
            assert((((m >> 16u32) & 0xffu32) as u8) as u32 == (m >> 16u32) & 0xffu32)
                by (bit_vector);
            assert(m >> 0u32 == m) by (bit_vector);
            if q == 0 {
                assert(by == (m & 0xffu32) as nat);
                assert(pow256(q as nat) == 1);
            } else if q == 1 {
                assert(by == ((m >> 8u32) & 0xffu32) as nat);
                assert(pow256(q as nat) == 256);
            } else {
                assert(by == ((m >> 16u32) & 0xffu32) as nat);
                assert(pow256(q as nat) == 65536);
            }
            assert(low_value(m, q + 1) == lo + by * pow256(q as nat));
            assert(by * (ps * pow256(q as nat)) + lo * ps == (lo + by * pow256(q as nat)) * ps)
                by (nonlinear_arith);
        } else {
            assert(by == 0);
            assert(by * pk == 0);
            assert(low_value(m, q + 1) == low_value(m, q));
        }
    }
}

/// Without overflow, the decoded target is the compact mantissa times
/// `256` to the power of the exponent less three (the mantissa shifted right
/// instead for an exponent below three).
pub proof fn lemma_target_value(bits: u32)
    requires
        !compact_overflow(bits),
    ensures
        le_value(target_bytes(bits), HASH_LEN as nat) == compact_mantissa(bits) * pow256(
            compact_shift(bits) as nat,
        ),
{
    let m = compact_mantissa(bits);
    let w = compact_word(bits);
    let sz = compact_size(bits);
    lemma_target_prefix_value(bits, HASH_LEN as nat);
    lemma_mantissa_bytes(m);
    assert(w < 0x800000u32) by (bit_vector)
        requires
            w == bits & 0x007fffffu32,
    ;
    if sz <= 3 {
        let sa = (8 * (3 - sz)) as u32;
        assert(m == w >> sa);
        assert((w >> sa) <= w) by (bit_vector);
    }
    if w == 0 {
        assert(m == 0) by (bit_vector)
            requires
                w == 0,
                m == (if sz <= 3 {
                    w >> (8 * (3 - sz)) as u32
                } else {
                    w
                }),
        ;
    }
}

/// Decodes a compact target: its 32 little-endian bytes, and whether the
/// compact form is negative or overflows.
pub fn nbits_to_target(bits: u32) -> (r: (Vec<u8>, bool, bool))
    ensures
        r.0@ == target_bytes(bits),
        r.1 == compact_negative(bits),
        r.2 == compact_overflow(bits),
{
    let size: u32 = bits >> 24u32;
    let word: u32 = bits & 0x007fffffu32;
    let mantissa: u32 = if size <= 3 {
        word >> (8 * (3 - size))
    } else {
        word
    };
    let shift: usize = if size <= 3 {
        0
    } else {
        (size - 3) as usize
    };
    assert(mantissa == compact_mantissa(bits));
    let mut t: Vec<u8> = Vec::with_capacity(HASH_LEN);
    let mut p: usize = 0;
    while p < HASH_LEN
        invariant
            p <= HASH_LEN,
            shift == compact_shift(bits),
            mantissa == compact_mantissa(bits),
            t@.len() == p,
            forall|i: int| 0 <= i < p ==> #[trigger] t@[i] == target_byte(bits, i),
        decreases HASH_LEN - p,
    {
        let byte: u8 = if p >= shift && p - shift < 3 {
            ((mantissa >> (8 * (p - shift)) as u32) & 0xffu32) as u8
        } else {
            0
        };
        t.push(byte);
        p = p + 1;
    }
    assert(t@ =~= target_bytes(bits));
    let negative = word != 0 && (bits & 0x00800000u32) != 0;
    let overflow = word != 0 && (size > 34 || (word > 0xff && size > 33) || (word > 0xffff && size
        > 32));
    (t, negative, overflow)
}

/// Whether `hash` is at most `target`, both 32-byte little-endian numbers.
pub fn does_hash_meet_target(hash: &[u8], target: &[u8]) -> (r: bool)
    requires
        hash@.len() == HASH_LEN,
        target@.len() == HASH_LEN,
    ensures
        r == meets_target(hash@, target@),
{
    let mut i: usize = HASH_LEN;
    while i > 0
        invariant
            i <= HASH_LEN,
            hash@.len() == HASH_LEN,
            target@.len() == HASH_LEN,
            meets_target(hash@, target@) == meets_below(hash@, target@, i as int),
        decreases i,
    {
        if hash[i - 1] < target[i - 1] {
            return true;
        } else if hash[i - 1] > target[i - 1] {
            return false;
        }
        i = i - 1;
    }
    true
}

/// Whether a weak block is also a good block: `None` when its compact target
/// is negative or overflows (the block is then not reported as good, nor at
/// all), else whether its hash meets the decoded target.
pub fn weak_block_is_good(bits: u32, hash: &[u8]) -> (r: Option<bool>)
    requires
        hash@.len() == HASH_LEN,
    ensures
        r is None <==> (compact_negative(bits) || compact_overflow(bits)),
        r is Some ==> r.unwrap() == meets_target(hash@, target_bytes(bits)),
        r is Some ==> r.unwrap() == (le_value(hash@, HASH_LEN as nat) <= compact_mantissa(bits)
            * pow256(compact_shift(bits) as nat)),
{
    let (target, negative, overflow) = nbits_to_target(bits);
    if negative || overflow {
        return None;
    }
    proof {
        lemma_target_value(bits);
        lemma_meets_target_is_numeric(hash@, target@);
    }
    Some(does_hash_meet_target(hash, target.as_slice()))
}

} // verus!
