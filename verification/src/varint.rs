use vstd::prelude::*;

use crate::error::Error;

verus! {

/// One decoded variable-length integer: its value and how many input bytes
/// it consumed, so that a caller can advance its cursor.
#[derive(Clone, Copy, Debug, PartialEq, Eq, Structural)]
pub struct VarInt {
    pub value: i64,
    pub byte_length: usize,
}

/// The signed value whose two's-complement bit pattern is `u`.
pub open spec fn i64_of_bits(u: u64) -> int {
    if u < 0x8000_0000_0000_0000 {
        u as int
    } else {
        u - 0x1_0000_0000_0000_0000
    }
}

/// The two's-complement bit pattern of a signed value.
pub open spec fn bits_of_i64(v: i64) -> u64 {
    if v >= 0 {
        v as u64
    } else {
        (v + 0x1_0000_0000_0000_0000) as u64
    }
}

/// Reading the bits of a signed value back as a signed value is the
/// identity.
pub proof fn lemma_bits_round_trip(v: i64)
    ensures
        i64_of_bits(bits_of_i64(v)) == v as int,
{
}

/// Holds when `s` starts with a complete varint: one of the first eight
/// bytes has its high bit clear, or at least nine bytes are available.
pub open spec fn varint_complete(s: Seq<u8>) -> bool {
    s.len() >= 9 || exists|i: int| 0 <= i < 8 && i < s.len() && s[i] < 128
}

/// The number of bytes a varint starting at index `i` of `s` occupies:
/// one past the first byte with a clear high bit, capped at nine.
pub open spec fn varint_len_from(s: Seq<u8>, i: int) -> int
    decreases 8 - i,
{
    if i < 0 || i >= 8 {
        9
    } else if s[i] < 128 {
        i + 1
    } else {
        varint_len_from(s, i + 1)
    }
}

pub open spec fn varint_len(s: Seq<u8>) -> int {
    varint_len_from(s, 0)
}

/// The accumulated bits of a varint: each of the first eight bytes
/// contributes its low seven bits, most significant first; a ninth byte,
/// if reached, contributes all eight of its bits.
pub open spec fn varint_value_from(s: Seq<u8>, i: int, acc: u64) -> u64
    decreases 8 - i,
{
    if i < 0 || i >= 8 {
        (acc << 8) | (s[8] as u64)
    } else {
        let acc2 = (acc << 7) | ((s[i] as u64) & 0x7f);
        if s[i] < 128 {
            acc2
        } else {
            varint_value_from(s, i + 1, acc2)
        }
    }
}

pub open spec fn varint_value(s: Seq<u8>) -> u64 {
    varint_value_from(s, 0, 0)
}

/// One accumulation step of the varint scheme: seven more bits, most
/// significant first.
pub open spec fn step7(acc: u64, b: u64) -> u64 {
    (acc << 7) | (b & 0x7f)
}

/// Reinterprets an unsigned bit pattern as a signed value.
fn i64_from_bits(u: u64) -> (r: i64)
    ensures
        r as int == i64_of_bits(u),
{
    if u < 0x8000_0000_0000_0000 {
        u as i64
    } else {
        -((u64::MAX - u) as i64) - 1
    }
}

/// Produces the unsigned bit pattern of a signed value.
fn bits_from_i64(v: i64) -> (r: u64)
    ensures
        r == bits_of_i64(v),
{
    if v >= 0 {
        v as u64
    } else {
        u64::MAX - ((-(v + 1)) as u64)
    }
}

impl VarInt {
    /// Decodes one varint from `bytes` starting at `offset`. Fails with
    /// `TruncatedInput` exactly when the slice ends before a terminator
    /// byte (or a ninth byte) is reached.
    #[verifier::loop_isolation(false)]
    pub fn read(bytes: &[u8], offset: usize) -> (r: Result<VarInt, Error>)
        ensures
            (r is Ok) == (offset <= bytes@.len() && varint_complete(
                bytes@.skip(offset as int),
            )),
            r matches Ok(v) ==> {
                let s = bytes@.skip(offset as int);
                &&& 1 <= v.byte_length <= 9
                &&& v.byte_length == varint_len(s)
                &&& offset + v.byte_length <= bytes@.len()
                &&& v.value as int == i64_of_bits(varint_value(s))
            },
            r matches Err(e) ==> e == Error::TruncatedInput,
    {
        if offset >= bytes.len() {
            return Err(Error::TruncatedInput);
        }
        let ghost s = bytes@.skip(offset as int);
        let avail = bytes.len() - offset;
        let mut acc: u64 = 0;
        let mut i: usize = 0;
        while i < 8
            invariant
                i <= 8,
                i <= avail,
                forall|j: int| 0 <= j < i ==> s[j] >= 128,
                varint_value_from(s, 0, 0) == varint_value_from(s, i as int, acc),
                varint_len_from(s, 0) == varint_len_from(s, i as int),
            decreases 8 - i,
        {
            if i >= avail {
                proof {
                    assert(s.len() == avail);
                    assert(!varint_complete(s));
                }
                return Err(Error::TruncatedInput);
            }
            let b = bytes[offset + i];
            proof {
                assert(s[i as int] == bytes@[offset + i]);
            }
            acc = (acc << 7) | ((b as u64) & 0x7f);
            if b < 128 {
                proof {
                    assert(varint_value_from(s, 0, 0) == acc);
                    assert(varint_len_from(s, 0) == i + 1);
                    assert(varint_complete(s));
                }
                return Ok(VarInt { value: i64_from_bits(acc), byte_length: i + 1 });
            }
            i = i + 1;
        }
        if avail <= 8 {
            proof {
                assert(s.len() == avail);
                assert(!varint_complete(s));
            }
            return Err(Error::TruncatedInput);
        }
        let b = bytes[offset + 8];
        proof {
            assert(s[8] == bytes@[offset + 8]);
        }
        acc = (acc << 8) | (b as u64);
        proof {
            assert(varint_value_from(s, 0, 0) == acc);
            assert(varint_len_from(s, 0) == 9);
            assert(varint_complete(s));
        }
        Ok(VarInt { value: i64_from_bits(acc), byte_length: 9 })
    }

    /// Encodes `value` in the fewest bytes the scheme allows, one to nine.
    /// Decoding the result gives back `value` and consumes exactly the
    /// encoded length, which states the round trip of the codec.
    pub fn encode(value: i64) -> (r: Vec<u8>)
        ensures
            1 <= r@.len() <= 9,
            varint_complete(r@),
            varint_len(r@) == r@.len(),
            varint_value(r@) == bits_of_i64(value),
            i64_of_bits(varint_value(r@)) == value as int,
    {
        proof {
            lemma_bits_round_trip(value);
        }
        let u = bits_from_i64(value);
        let mut r: Vec<u8> = Vec::new();
        if u < 0x80 {
            proof {
                assert(step7(0u64, u) == u && (u & 0x7f) < 128) by (bit_vector)
                    requires
                        u < 0x80,
                ;
            }
            r.push(u as u8);
            proof {
                assert(r@ =~= seq![(u as u8)]);
                assert(varint_value(r@) == u);
                assert(varint_len(r@) == 1);
            }
        } else if u < 0x4000 {
            let t0: u64 = ((u >> 7) & 0x7f) | 0x80;
            let t1: u64 = u & 0x7f;
            proof {
                assert(128 <= t0 < 256 && t1 < 128 && step7(step7(0u64, t0), t1) == u) by (
                bit_vector)
                    requires
                        t0 == ((u >> 7) & 0x7f) | 0x80,
                        t1 == u & 0x7f,
                        0x80 <= u < 0x4000,
                ;
            }
            r.push(t0 as u8);
            r.push(t1 as u8);
            proof {
                assert(r@ =~= seq![(t0 as u8), (t1 as u8)]);
                reveal_with_fuel(varint_value_from, 3);
                reveal_with_fuel(varint_len_from, 3);
                assert(varint_value(r@) == u);
                assert(varint_len(r@) == 2);
            }
        } else if u < 0x20_0000 {
            let t0: u64 = ((u >> 14) & 0x7f) | 0x80;
            let t1: u64 = ((u >> 7) & 0x7f) | 0x80;
            let t2: u64 = u & 0x7f;
            proof {
                assert(128 <= t0 < 256 && 128 <= t1 < 256 && t2 < 128 && step7(
                    step7(step7(0u64, t0), t1),
                    t2,
                ) == u) by (bit_vector)
                    requires
                        t0 == ((u >> 14) & 0x7f) | 0x80,
                        t1 == ((u >> 7) & 0x7f) | 0x80,
                        t2 == u & 0x7f,
                        0x4000 <= u < 0x20_0000,
                ;
            }
            r.push(t0 as u8);
            r.push(t1 as u8);
            r.push(t2 as u8);
            proof {
                assert(r@ =~= seq![(t0 as u8), (t1 as u8), (t2 as u8)]);
                reveal_with_fuel(varint_value_from, 4);
                reveal_with_fuel(varint_len_from, 4);
                assert(varint_value(r@) == u);
                assert(varint_len(r@) == 3);
            }
        } else if u < 0x1000_0000 {
            let t0: u64 = ((u >> 21) & 0x7f) | 0x80;
            let t1: u64 = ((u >> 14) & 0x7f) | 0x80;
            let t2: u64 = ((u >> 7) & 0x7f) | 0x80;
            let t3: u64 = u & 0x7f;
            proof {
                assert(128 <= t0 < 256 && 128 <= t1 < 256 && 128 <= t2 < 256 && t3 < 128 && step7(
                    step7(step7(step7(0u64, t0), t1), t2),
                    t3,
                ) == u) by (bit_vector)
                    requires
                        t0 == ((u >> 21) & 0x7f) | 0x80,
                        t1 == ((u >> 14) & 0x7f) | 0x80,
                        t2 == ((u >> 7) & 0x7f) | 0x80,
                        t3 == u & 0x7f,
                        0x20_0000 <= u < 0x1000_0000,
                ;
            }
            r.push(t0 as u8);
            r.push(t1 as u8);
            r.push(t2 as u8);
            r.push(t3 as u8);
            proof {
                assert(r@ =~= seq![(t0 as u8), (t1 as u8), (t2 as u8), (t3 as u8)]);
                reveal_with_fuel(varint_value_from, 5);
                reveal_with_fuel(varint_len_from, 5);
                assert(varint_value(r@) == u);
                assert(varint_len(r@) == 4);
            }
        } else if u < 0x8_0000_0000 {
            let t0: u64 = ((u >> 28) & 0x7f) | 0x80;
            let t1: u64 = ((u >> 21) & 0x7f) | 0x80;
            let t2: u64 = ((u >> 14) & 0x7f) | 0x80;
            let t3: u64 = ((u >> 7) & 0x7f) | 0x80;
            let t4: u64 = u & 0x7f;
            proof {
                assert(128 <= t0 < 256 && 128 <= t1 < 256 && 128 <= t2 < 256 && 128 <= t3 < 256
                    && t4 < 128 && step7(step7(step7(step7(step7(0u64, t0), t1), t2), t3), t4)
                    == u) by (bit_vector)
                    requires
                        t0 == ((u >> 28) & 0x7f) | 0x80,
                        t1 == ((u >> 21) & 0x7f) | 0x80,
                        t2 == ((u >> 14) & 0x7f) | 0x80,
                        t3 == ((u >> 7) & 0x7f) | 0x80,
                        t4 == u & 0x7f,
                        0x1000_0000 <= u < 0x8_0000_0000,
                ;
            }
            r.push(t0 as u8);
            r.push(t1 as u8);
            r.push(t2 as u8);
            r.push(t3 as u8);
            r.push(t4 as u8);
            proof {
                assert(r@ =~= seq![(t0 as u8), (t1 as u8), (t2 as u8), (t3 as u8), (t4 as u8)]);
                reveal_with_fuel(varint_value_from, 6);
                reveal_with_fuel(varint_len_from, 6);
                assert(varint_value(r@) == u);
                assert(varint_len(r@) == 5);
            }
        } else if u < 0x400_0000_0000 {
            let t0: u64 = ((u >> 35) & 0x7f) | 0x80;
            let t1: u64 = ((u >> 28) & 0x7f) | 0x80;
            let t2: u64 = ((u >> 21) & 0x7f) | 0x80;
            let t3: u64 = ((u >> 14) & 0x7f) | 0x80;
            let t4: u64 = ((u >> 7) & 0x7f) | 0x80;
            let t5: u64 = u & 0x7f;
            proof {
                assert(128 <= t0 < 256 && 128 <= t1 < 256 && 128 <= t2 < 256 && 128 <= t3 < 256
                    && 128 <= t4 < 256 && t5 < 128 && step7(
                    step7(step7(step7(step7(step7(0u64, t0), t1), t2), t3), t4),
                    t5,
                ) == u) by (bit_vector)
                    requires
                        t0 == ((u >> 35) & 0x7f) | 0x80,
                        t1 == ((u >> 28) & 0x7f) | 0x80,
                        t2 == ((u >> 21) & 0x7f) | 0x80,
                        t3 == ((u >> 14) & 0x7f) | 0x80,
                        t4 == ((u >> 7) & 0x7f) | 0x80,
                        t5 == u & 0x7f,
                        0x8_0000_0000 <= u < 0x400_0000_0000,
                ;
            }
            r.push(t0 as u8);
            r.push(t1 as u8);
            r.push(t2 as u8);
            r.push(t3 as u8);
            r.push(t4 as u8);
            r.push(t5 as u8);
            proof {
                assert(r@ =~= seq![
                    (t0 as u8),
                    (t1 as u8),
                    (t2 as u8),
                    (t3 as u8),
                    (t4 as u8),
                    (t5 as u8),
                ]);
                reveal_with_fuel(varint_value_from, 7);
                reveal_with_fuel(varint_len_from, 7);
                assert(varint_value(r@) == u);
                assert(varint_len(r@) == 6);
            }
        } else if u < 0x2_0000_0000_0000 {
            let t0: u64 = ((u >> 42) & 0x7f) | 0x80;
            let t1: u64 = ((u >> 35) & 0x7f) | 0x80;
            let t2: u64 = ((u >> 28) & 0x7f) | 0x80;
            let t3: u64 = ((u >> 21) & 0x7f) | 0x80;
            let t4: u64 = ((u >> 14) & 0x7f) | 0x80;
            let t5: u64 = ((u >> 7) & 0x7f) | 0x80;
            let t6: u64 = u & 0x7f;
            proof {
                assert(128 <= t0 < 256 && 128 <= t1 < 256 && 128 <= t2 < 256 && 128 <= t3 < 256
                    && 128 <= t4 < 256 && 128 <= t5 < 256 && t6 < 128 && step7(
                    step7(step7(step7(step7(step7(step7(0u64, t0), t1), t2), t3), t4), t5),
                    t6,
                ) == u) by (bit_vector)
                    requires
                        t0 == ((u >> 42) & 0x7f) | 0x80,
                        t1 == ((u >> 35) & 0x7f) | 0x80,
                        t2 == ((u >> 28) & 0x7f) | 0x80,
                        t3 == ((u >> 21) & 0x7f) | 0x80,
                        t4 == ((u >> 14) & 0x7f) | 0x80,
                        t5 == ((u >> 7) & 0x7f) | 0x80,
                        t6 == u & 0x7f,
                        0x400_0000_0000 <= u < 0x2_0000_0000_0000,
                ;
            }
            r.push(t0 as u8);
            r.push(t1 as u8);
            r.push(t2 as u8);
            r.push(t3 as u8);
            r.push(t4 as u8);
            r.push(t5 as u8);
            r.push(t6 as u8);
            proof {
                assert(r@ =~= seq![
                    (t0 as u8),
                    (t1 as u8),
                    (t2 as u8),
                    (t3 as u8),
                    (t4 as u8),
                    (t5 as u8),
                    (t6 as u8),
                ]);
                reveal_with_fuel(varint_value_from, 8);
                reveal_with_fuel(varint_len_from, 8);
                assert(varint_value(r@) == u);
                assert(varint_len(r@) == 7);
            }
        } else if u < 0x100_0000_0000_0000 {
            let t0: u64 = ((u >> 49) & 0x7f) | 0x80;
            let t1: u64 = ((u >> 42) & 0x7f) | 0x80;
            let t2: u64 = ((u >> 35) & 0x7f) | 0x80;
            let t3: u64 = ((u >> 28) & 0x7f) | 0x80;
            let t4: u64 = ((u >> 21) & 0x7f) | 0x80;
            let t5: u64 = ((u >> 14) & 0x7f) | 0x80;
            let t6: u64 = ((u >> 7) & 0x7f) | 0x80;
            let t7: u64 = u & 0x7f;
            proof {
                assert(128 <= t0 < 256 && 128 <= t1 < 256 && 128 <= t2 < 256 && 128 <= t3 < 256
                    && 128 <= t4 < 256 && 128 <= t5 < 256 && 128 <= t6 < 256 && t7 < 128 && step7(
                    step7(step7(step7(step7(step7(step7(step7(0u64, t0), t1), t2), t3), t4), t5), t6),
                    t7,
                ) == u) by (bit_vector)
                    requires
                        t0 == ((u >> 49) & 0x7f) | 0x80,
                        t1 == ((u >> 42) & 0x7f) | 0x80,
                        t2 == ((u >> 35) & 0x7f) | 0x80,
                        t3 == ((u >> 28) & 0x7f) | 0x80,
                        t4 == ((u >> 21) & 0x7f) | 0x80,
                        t5 == ((u >> 14) & 0x7f) | 0x80,
                        t6 == ((u >> 7) & 0x7f) | 0x80,
                        t7 == u & 0x7f,
                        0x2_0000_0000_0000 <= u < 0x100_0000_0000_0000,
                ;
            }
            r.push(t0 as u8);
            r.push(t1 as u8);
            r.push(t2 as u8);
            r.push(t3 as u8);
            r.push(t4 as u8);
            r.push(t5 as u8);
            r.push(t6 as u8);
            r.push(t7 as u8);
            proof {
                assert(r@ =~= seq![
                    (t0 as u8),
                    (t1 as u8),
                    (t2 as u8),
                    (t3 as u8),
                    (t4 as u8),
                    (t5 as u8),
                    (t6 as u8),
                    (t7 as u8),
                ]);
                reveal_with_fuel(varint_value_from, 9);
                reveal_with_fuel(varint_len_from, 9);
                assert(varint_value(r@) == u);
                assert(varint_len(r@) == 8);
            }
        } else {
            let t0: u64 = ((u >> 57) & 0x7f) | 0x80;
            let t1: u64 = ((u >> 50) & 0x7f) | 0x80;
            let t2: u64 = ((u >> 43) & 0x7f) | 0x80;
            let t3: u64 = ((u >> 36) & 0x7f) | 0x80;
            let t4: u64 = ((u >> 29) & 0x7f) | 0x80;
            let t5: u64 = ((u >> 22) & 0x7f) | 0x80;
            let t6: u64 = ((u >> 15) & 0x7f) | 0x80;
            let t7: u64 = ((u >> 8) & 0x7f) | 0x80;
            let t8: u64 = u & 0xff;
            proof {
                assert(128 <= t0 < 256 && 128 <= t1 < 256 && 128 <= t2 < 256 && 128 <= t3 < 256
                    && 128 <= t4 < 256 && 128 <= t5 < 256 && 128 <= t6 < 256 && 128 <= t7 < 256
                    && t8 < 256 && ((step7(
                    step7(step7(step7(step7(step7(step7(step7(0u64, t0), t1), t2), t3), t4), t5), t6),
                    t7,
                ) << 8) | t8) == u) by (bit_vector)
                    requires
                        t0 == ((u >> 57) & 0x7f) | 0x80,
                        t1 == ((u >> 50) & 0x7f) | 0x80,
                        t2 == ((u >> 43) & 0x7f) | 0x80,
                        t3 == ((u >> 36) & 0x7f) | 0x80,
                        t4 == ((u >> 29) & 0x7f) | 0x80,
                        t5 == ((u >> 22) & 0x7f) | 0x80,
                        t6 == ((u >> 15) & 0x7f) | 0x80,
                        t7 == ((u >> 8) & 0x7f) | 0x80,
                        t8 == u & 0xff,
                        0x100_0000_0000_0000 <= u,
                ;
            }
            r.push(t0 as u8);
            r.push(t1 as u8);
            r.push(t2 as u8);
            r.push(t3 as u8);
            r.push(t4 as u8);
            r.push(t5 as u8);
            r.push(t6 as u8);
            r.push(t7 as u8);
            r.push(t8 as u8);
            proof {
                assert(r@ =~= seq![
                    (t0 as u8),
                    (t1 as u8),
                    (t2 as u8),
                    (t3 as u8),
                    (t4 as u8),
                    (t5 as u8),
                    (t6 as u8),
                    (t7 as u8),
                    (t8 as u8),
                ]);
                reveal_with_fuel(varint_value_from, 10);
                reveal_with_fuel(varint_len_from, 10);
                assert(varint_value(r@) == u);
                assert(varint_len(r@) == 9);
            }
        }
        r
    }
}

} // verus!
