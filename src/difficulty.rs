//! Compact difficulty targets and the comparison of a hash against one.
//!
//! A compact target `bits` has an exponent `e` in its top byte and a 23-bit
//! mantissa `m` in its low bits; bit 23 is a sign flag. The target is
//! `m * 256^(e - 3)`, written here as 32 big-endian bytes.
use vstd::prelude::*;

verus! {

/// The numeric value of `s` read as a big-endian unsigned integer.
pub open spec fn be_value(s: Seq<u8>) -> nat
    decreases s.len(),
{
    if s.len() == 0 {
        0
    } else {
        (s[0] * pow256((s.len() - 1) as nat) + be_value(s.drop_first())) as nat
    }
}

/// `256^n`.
pub open spec fn pow256(n: nat) -> nat
    decreases n,
{
    if n == 0 {
        1
    } else {
        256 * pow256((n - 1) as nat)
    }
}

/// The exponent of a compact target.
pub open spec fn compact_exponent(bits: u32) -> int {
    (bits / 0x100_0000) as int
}

/// The mantissa of a compact target, without the sign flag.
pub open spec fn compact_mantissa(bits: u32) -> int {
    (bits % 0x80_0000) as int
}

/// Whether the sign flag of a compact target is set.
pub open spec fn compact_negative(bits: u32) -> bool {
    (bits / 0x80_0000) % 2 == 1
}

/// Byte `k` (0 the least significant) of a mantissa.
pub open spec fn mantissa_byte(m: int, k: int) -> int {
    if k == 0 {
        m % 0x100
    } else if k == 1 {
        (m / 0x100) % 0x100
    } else {
        (m / 0x1_0000) % 0x100
    }
}

/// The mantissa byte that lands at big-endian position `j` of the 32-byte
/// target, 0 where none does.
pub open spec fn target_byte(bits: u32, j: int) -> u8 {
    let k = 34 - compact_exponent(bits) - j;
    if 0 <= k < 3 {
        mantissa_byte(compact_mantissa(bits), k) as u8
    } else {
        0
    }
}

/// The 32 big-endian bytes of the target that `bits` encodes.
pub open spec fn compact_target(bits: u32) -> Seq<u8> {
    Seq::new(32, |j: int| target_byte(bits, j))
}

/// A compact target is valid when its sign flag is clear, no nonzero
/// mantissa byte lies above the 256-bit range, and the target is not zero.
pub open spec fn compact_valid(bits: u32) -> bool {
    &&& !compact_negative(bits)
    &&& forall|k: int|
        0 <= k < 3 && 34 - compact_exponent(bits) - k < 0 ==> mantissa_byte(
            compact_mantissa(bits),
            k,
        ) == 0
    &&& exists|j: int| 0 <= j < 32 && target_byte(bits, j) != 0
}

/// A 32-byte hash meets a target when, read big-endian, it is at most the
/// target.
pub open spec fn meets_target(hash: Seq<u8>, target: Seq<u8>) -> bool {
    be_value(hash) <= be_value(target)
}

/// The value of a byte sequence is below `256^len`.
pub proof fn lemma_be_value_bound(s: Seq<u8>)
    ensures
        be_value(s) < pow256(s.len()),
    decreases s.len(),
{
    if s.len() > 0 {
        let p = pow256((s.len() - 1) as nat);
        lemma_be_value_bound(s.drop_first());
        assert(s[0] * p + be_value(s.drop_first()) < 256 * p) by (nonlinear_arith)
            requires
                s[0] <= 255,
                be_value(s.drop_first()) < p,
        ;
    }
}

/// Two sequences of one length that agree before `i` and have a smaller
/// byte at `i` in `s` than in `t` have `be_value(s) < be_value(t)`.
pub proof fn lemma_be_value_lex(s: Seq<u8>, t: Seq<u8>, i: int)
    requires
        s.len() == t.len(),
        0 <= i < s.len(),
        forall|j: int| 0 <= j < i ==> s[j] == t[j],
        s[i] < t[i],
    ensures
        be_value(s) < be_value(t),
    decreases i,
{
    let p = pow256((s.len() - 1) as nat);
    if i == 0 {
        lemma_be_value_bound(s.drop_first());
        let a = s[0] as int;
        let b = t[0] as int;
        let rs = be_value(s.drop_first()) as int;
        let rt = be_value(t.drop_first()) as int;
        assert(a * p + rs < b * p + rt) by (nonlinear_arith)
            requires
                a < b,
                rs < p,
                rt >= 0,
        ;
    } else {
        lemma_be_value_lex(s.drop_first(), t.drop_first(), i - 1);
    }
}

/// Expands a compact target into 32 big-endian bytes; `None` where it is not
/// valid.
pub fn compact_to_target(bits: u32) -> (r: Option<[u8; 32]>)
    ensures
        r is Some <==> compact_valid(bits),
        r is Some ==> r->Some_0@ == compact_target(bits),
{
    let e: u32 = bits / 0x100_0000;
    let m: u32 = bits % 0x80_0000;
    if (bits / 0x80_0000) % 2 == 1 {
        return None;
    }
    let mut k: u32 = 0;
    while k < 3
        invariant
            k <= 3,
            e as int == compact_exponent(bits),
            m as int == compact_mantissa(bits),
            forall|k2: int|
                0 <= k2 < k && 34 - compact_exponent(bits) - k2 < 0 ==> mantissa_byte(
                    compact_mantissa(bits),
                    k2,
                ) == 0,
        decreases 3 - k,
    {
        let byte: u32 = if k == 0 {
            m % 0x100
        } else if k == 1 {
            (m / 0x100) % 0x100
        } else {
            (m / 0x1_0000) % 0x100
        };
        assert(byte as int == mantissa_byte(compact_mantissa(bits), k as int));
        if (k as i64) > 34 - (e as i64) && byte != 0 {
            assert(!compact_valid(bits)) by {
                let kk = k as int;
                assert(0 <= kk < 3 && 34 - compact_exponent(bits) - kk < 0);
            }
            return None;
        }
        k = k + 1;
    }
    let mut out = [0u8; 32];
    let mut nonzero = false;
    let mut j: usize = 0;
    while j < 32
        invariant
            j <= 32,
            e as int == compact_exponent(bits),
            m as int == compact_mantissa(bits),
            forall|j2: int| 0 <= j2 < j ==> out@[j2] == target_byte(bits, j2),
            nonzero <==> exists|j2: int| 0 <= j2 < j && target_byte(bits, j2) != 0,
        decreases 32 - j,
    {
        let kk: i64 = 34 - (e as i64) - (j as i64);
        let byte: u8 = if kk == 0 {
            (m % 0x100) as u8
        } else if kk == 1 {
            ((m / 0x100) % 0x100) as u8
        } else if kk == 2 {
            ((m / 0x1_0000) % 0x100) as u8
        } else {
            0
        };
        assert(byte == target_byte(bits, j as int));
        out[j] = byte;
        if byte != 0 {
            nonzero = true;
        }
        proof {
            if !nonzero {
                assert forall|j2: int| 0 <= j2 < j + 1 implies target_byte(bits, j2) == 0 by {
                    if j2 < j {
                        if target_byte(bits, j2) != 0 {
                            assert(exists|j3: int| 0 <= j3 < j && target_byte(bits, j3) != 0);
                        }
                    }
                }
            }
        }
        j = j + 1;
    }
    if !nonzero {
        return None;
    }
    assert(out@ =~= compact_target(bits));
    Some(out)
}

/// Whether `hash`, read big-endian, is at most `target`.
pub fn hash_meets_target(hash: &[u8; 32], target: &[u8; 32]) -> (r: bool)
    ensures
        r == meets_target(hash@, target@),
{
    let mut i: usize = 0;
    while i < 32
        invariant
            i <= 32,
            forall|j: int| 0 <= j < i ==> hash@[j] == target@[j],
        decreases 32 - i,
    {
        if hash[i] < target[i] {
            proof {
                lemma_be_value_lex(hash@, target@, i as int);
            }
            return true;
        }
        if hash[i] > target[i] {
            proof {
                lemma_be_value_lex(target@, hash@, i as int);
            }
            return false;
        }
        i = i + 1;
    }
    assert(hash@ =~= target@);
    true
}

} // verus!
