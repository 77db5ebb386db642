use vstd::prelude::*;

verus! {

/// The value of a big-endian 16-bit field.
pub open spec fn be16(b0: u8, b1: u8) -> int {
    b0 * 256 + b1
}

/// The value of a big-endian 32-bit field.
pub open spec fn be32(b0: u8, b1: u8, b2: u8, b3: u8) -> int {
    ((b0 * 256 + b1) * 256 + b2) * 256 + b3
}

/// The value of a big-endian unsigned integer of any width.
pub open spec fn be_uint(s: Seq<u8>) -> int
    decreases s.len(),
{
    if s.len() == 0 {
        0
    } else {
        be_uint(s.drop_last()) * 256 + s.last()
    }
}

/// 256 raised to `n`: the number of values a big-endian field of `n` bytes
/// can hold.
pub open spec fn pow256(n: nat) -> int
    decreases n,
{
    if n == 0 {
        1
    } else {
        256 * pow256((n - 1) as nat)
    }
}

/// The value of a big-endian two's-complement signed integer: the unsigned
/// reading, shifted down by one modulus when the top bit of the first byte
/// is set.
pub open spec fn be_int(s: Seq<u8>) -> int {
    if s.len() > 0 && s[0] >= 128 {
        be_uint(s) - pow256(s.len())
    } else {
        be_uint(s)
    }
}

pub proof fn lemma_pow256_pos(n: nat)
    ensures
        pow256(n) >= 1,
    decreases n,
{
    if n > 0 {
        lemma_pow256_pos((n - 1) as nat);
    }
}

pub proof fn lemma_pow256_monotonic(a: nat, b: nat)
    requires
        a <= b,
    ensures
        pow256(a) <= pow256(b),
    decreases b,
{
    if a < b {
        lemma_pow256_monotonic(a, (b - 1) as nat);
        lemma_pow256_pos((b - 1) as nat);
    }
}

pub proof fn lemma_pow256_values()
    ensures
        pow256(0) == 1,
        pow256(1) == 0x100,
        pow256(2) == 0x1_0000,
        pow256(3) == 0x100_0000,
        pow256(4) == 0x1_0000_0000,
        pow256(5) == 0x100_0000_0000,
        pow256(6) == 0x1_0000_0000_0000,
        pow256(7) == 0x100_0000_0000_0000,
        pow256(8) == 0x1_0000_0000_0000_0000,
{
    assert(pow256(0) == 1);
    assert(pow256(1) == 0x100);
    assert(pow256(2) == 0x1_0000);
    assert(pow256(3) == 0x100_0000);
    assert(pow256(4) == 0x1_0000_0000);
    assert(pow256(5) == 0x100_0000_0000);
    assert(pow256(6) == 0x1_0000_0000_0000);
    assert(pow256(7) == 0x100_0000_0000_0000);
    assert(pow256(8) == 0x1_0000_0000_0000_0000);
}

pub proof fn lemma_be_uint_bounds(s: Seq<u8>)
    ensures
        0 <= be_uint(s) < pow256(s.len()),
    decreases s.len(),
{
    if s.len() == 0 {
    } else {
        lemma_be_uint_bounds(s.drop_last());
        assert(be_uint(s.drop_last()) * 256 + s.last() < 256 * pow256((s.len() - 1) as nat))
            by (nonlinear_arith)
            requires
                0 <= be_uint(s.drop_last()) < pow256((s.len() - 1) as nat),
                0 <= s.last() < 256,
        ;
    }
}

/// The first byte of a big-endian field carries the most weight: the value
/// splits into that byte times the modulus of the remainder, plus the
/// remainder.
pub proof fn lemma_be_uint_first_byte(s: Seq<u8>)
    requires
        s.len() >= 1,
    ensures
        be_uint(s) == s[0] * pow256((s.len() - 1) as nat) + be_uint(s.drop_first()),
    decreases s.len(),
{
    if s.len() == 1 {
        assert(s.drop_last() =~= Seq::<u8>::empty());
        assert(s.drop_first() =~= Seq::<u8>::empty());
        assert(be_uint(s.drop_last()) == 0);
        assert(be_uint(s.drop_first()) == 0);
        assert(s.last() == s[0]);
        assert(be_uint(s) == s[0]);
    } else {
        let head = s.drop_last();
        lemma_be_uint_first_byte(head);
        assert(head.drop_first() =~= s.drop_first().drop_last());
        assert(s.drop_first().last() == s.last());
        let n = (s.len() - 2) as nat;
        assert((s[0] * pow256(n) + be_uint(head.drop_first())) * 256 == s[0] * (256 * pow256(n))
            + be_uint(head.drop_first()) * 256) by (nonlinear_arith);
    }
}

/// With eight bytes, the sign bit of the first byte decides whether the
/// unsigned reading reaches the upper half of the 64-bit range.
pub proof fn lemma_be_uint_top_bit(s: Seq<u8>)
    requires
        s.len() == 8,
    ensures
        (be_uint(s) >= 0x8000_0000_0000_0000) == (s[0] >= 128),
{
    lemma_be_uint_first_byte(s);
    lemma_be_uint_bounds(s.drop_first());
    lemma_pow256_values();
    if s[0] >= 128 {
        assert(s[0] * pow256(7) >= 128 * pow256(7)) by (nonlinear_arith)
            requires
                s[0] >= 128,
                pow256(7) > 0,
        ;
    } else {
        assert(s[0] * pow256(7) <= 127 * pow256(7)) by (nonlinear_arith)
            requires
                s[0] <= 127,
                pow256(7) > 0,
        ;
    }
}

/// Reads a big-endian 16-bit field.
pub fn read_be16(bytes: &[u8], off: usize) -> (r: u16)
    requires
        off + 2 <= bytes@.len(),
    ensures
        r as int == be16(bytes@[off as int], bytes@[off as int + 1]),
{
    (bytes[off] as u16) * 256 + (bytes[off + 1] as u16)
}

/// Reads a big-endian 32-bit field.
pub fn read_be32(bytes: &[u8], off: usize) -> (r: u32)
    requires
        off + 4 <= bytes@.len(),
    ensures
        r as int == be32(
            bytes@[off as int],
            bytes@[off as int + 1],
            bytes@[off as int + 2],
            bytes@[off as int + 3],
        ),
{
    (((bytes[off] as u32) * 256 + (bytes[off + 1] as u32)) * 256 + (bytes[off + 2] as u32)) * 256
        + (bytes[off + 3] as u32)
}

/// Copies `bytes[start..end]` into a fresh vector.
#[verifier::loop_isolation(false)]
pub fn copy_range(bytes: &[u8], start: usize, end: usize) -> (r: Vec<u8>)
    requires
        start <= end <= bytes@.len(),
    ensures
        r@ == bytes@.subrange(start as int, end as int),
{
    let mut r: Vec<u8> = Vec::new();
    let mut i: usize = start;
    while i < end
        invariant
            start <= i <= end,
            r@ =~= bytes@.subrange(start as int, i as int),
        decreases end - i,
    {
        r.push(bytes[i]);
        proof {
            assert(r@ =~= bytes@.subrange(start as int, i as int + 1));
        }
        i = i + 1;
    }
    proof {
        assert(r@ =~= bytes@.subrange(start as int, end as int));
    }
    r
}

/// Reads a big-endian two's-complement signed integer of `width` bytes.
#[verifier::loop_isolation(false)]
pub fn read_be_int(bytes: &[u8], off: usize, width: usize) -> (r: i64)
    requires
        1 <= width <= 8,
        off + width <= bytes@.len(),
    ensures
        r as int == be_int(bytes@.subrange(off as int, off as int + width)),
{
    let ghost s = bytes@.subrange(off as int, off as int + width as int);
    // Binds the slice length as a machine integer, so the index arithmetic
    // below is known not to overflow.
    let _n: usize = bytes.len();
    let mut acc: u64 = 0;
    let mut k: usize = 0;
    while k < width
        invariant
            k <= width,
            acc == be_uint(s.take(k as int)),
            acc < pow256(k as nat),
        decreases width - k,
    {
        let b = bytes[off + k];
        proof {
            lemma_pow256_values();
            lemma_pow256_monotonic(k as nat, 7);
            assert(acc * 256 + b < 256 * pow256(k as nat)) by (nonlinear_arith)
                requires
                    acc < pow256(k as nat),
                    0 <= b < 256,
                    0 <= acc,
            ;
            assert(256 * pow256(k as nat) == pow256((k + 1) as nat));
            assert(pow256((k + 1) as nat) <= pow256(8)) by {
                lemma_pow256_monotonic((k + 1) as nat, 8);
            }
            assert(s.take(k as int + 1).drop_last() =~= s.take(k as int));
            assert(s.take(k as int + 1).last() == s[k as int]);
            assert(s[k as int] == bytes@[off + k]);
        }
        acc = acc * 256 + (b as u64);
        k = k + 1;
    }
    proof {
        assert(s.take(width as int) =~= s);
        lemma_pow256_values();
    }
    if bytes[off] < 128 {
        // Non-negative: for width 8 the top-bit lemma keeps the cast in range.
        proof {
            if width == 8 {
                lemma_be_uint_top_bit(s);
            } else {
                lemma_pow256_monotonic(width as nat, 7);
            }
        }
        acc as i64
    } else if width < 8 {
        let modulus: i64 = if width == 1 {
            0x100
        } else if width == 2 {
            0x1_0000
        } else if width == 3 {
            0x100_0000
        } else if width == 4 {
            0x1_0000_0000
        } else if width == 5 {
            0x100_0000_0000
        } else if width == 6 {
            0x1_0000_0000_0000
        } else {
            0x100_0000_0000_0000
        };
        proof {
            lemma_pow256_monotonic(width as nat, 7);
            assert(modulus as int == pow256(width as nat));
        }
        (acc as i64) - modulus
    } else {
        // Eight bytes with the sign bit set: the value is acc - 2^64, which
        // the two's-complement reinterpretation below computes without
        // leaving the 64-bit signed range.
        proof {
            lemma_be_uint_top_bit(s);
        }
        let magnitude = u64::MAX - acc;
        -((magnitude) as i64) - 1
    }
}

} // verus!
