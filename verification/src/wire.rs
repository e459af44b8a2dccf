//! Base-128 variable-width integers, the building block of the record codec.
use vstd::prelude::*;
use vstd::arithmetic::power2::{pow2, lemma_pow2_adds, lemma_pow2_strictly_increases, lemma2_to64};

verus! {

/// Longest byte run that one variable-width integer may occupy.
pub const MAX_VARINT_BYTES: usize = 10;

/// Encoding of `n` base 128, least-significant group first, with the
/// continuation bit set on every byte but the last.
pub open spec fn spec_varint(n: nat) -> Seq<u8>
    decreases n,
{
    if n < 0x80 {
        seq![n as u8]
    } else {
        seq![(0x80 + n % 0x80) as u8] + spec_varint(n / 0x80)
    }
}

/// Value and byte count of the varint at the head of `b`, if `b` starts with
/// one that is minimally encoded and no longer than `fuel` bytes.
pub open spec fn spec_take_varint_rec(b: Seq<u8>, fuel: nat) -> Option<(nat, int)>
    decreases fuel,
{
    if b.len() == 0 || fuel == 0 {
        None
    } else if b[0] < 0x80 {
        Some((b[0] as nat, 1))
    } else {
        match spec_take_varint_rec(b.drop_first(), (fuel - 1) as nat) {
            None => None,
            Some((v, k)) => if v == 0 {
                None
            } else {
                Some(((b[0] - 0x80) as nat + 0x80 * v, k + 1))
            },
        }
    }
}

/// Value and byte count of the varint at the head of `b`, if any.
pub open spec fn spec_take_varint(b: Seq<u8>) -> Option<(nat, int)> {
    spec_take_varint_rec(b, MAX_VARINT_BYTES as nat)
}

/// A decoded varint occupies at least one byte and never reads past `b`.
pub proof fn lemma_take_varint_bounds(b: Seq<u8>, fuel: nat)
    ensures
        spec_take_varint_rec(b, fuel) matches Some(vk) ==> 1 <= vk.1 <= b.len() && vk.1 <= fuel,
    decreases fuel,
{
    if b.len() == 0 || fuel == 0 {
    } else if b[0] < 0x80 {
    } else {
        lemma_take_varint_bounds(b.drop_first(), (fuel - 1) as nat);
    }
}

proof fn lemma_varint_len_pow(n: nat, k: nat)
    requires
        1 <= k,
        n < pow2(7 * k),
    ensures
        spec_varint(n).len() <= k,
    decreases k,
{
    if n < 0x80 {
    } else {
        lemma_pow2_adds(7, 7 * (k - 1) as nat);
        lemma2_to64();
        assert(pow2(7 * k) == 0x80 * pow2((7 * (k - 1)) as nat));
        assert(n / 0x80 < pow2((7 * (k - 1)) as nat)) by (nonlinear_arith)
            requires
                n < 0x80 * pow2((7 * (k - 1)) as nat),
                pow2((7 * (k - 1)) as nat) >= 1,
        ;
        assert(k >= 2) by {
            if k == 1 {
                lemma2_to64();
                assert(n < pow2(7));
            }
        }
        lemma_varint_len_pow(n / 0x80, (k - 1) as nat);
    }
}

/// An encoded 64-bit value takes between 1 and 10 bytes.
pub proof fn lemma_varint_len(n: nat)
    requires
        n <= u64::MAX,
    ensures
        1 <= spec_varint(n).len() <= MAX_VARINT_BYTES,
    decreases n,
{
    lemma2_to64();
    lemma_pow2_adds(64, 6);
    assert(pow2(70) == pow2(64) * pow2(6));
    lemma_varint_len_pow(n, 10);
}

proof fn lemma_take_varint_encode(n: nat, rest: Seq<u8>, fuel: nat)
    requires
        spec_varint(n).len() <= fuel,
    ensures
        spec_take_varint_rec(spec_varint(n) + rest, fuel) == Some(
            (n, spec_varint(n).len() as int),
        ),
    decreases n,
{
    let b = spec_varint(n) + rest;
    if n < 0x80 {
        assert(b[0] == n as u8);
    } else {
        assert(b[0] == (0x80 + n % 0x80) as u8);
        assert(b[0] >= 0x80);
        assert(b.drop_first() =~= spec_varint(n / 0x80) + rest);
        lemma_take_varint_encode(n / 0x80, rest, (fuel - 1) as nat);
        assert(n / 0x80 >= 1);
        assert((b[0] - 0x80) as nat + 0x80 * (n / 0x80) == n);
    }
}

/// Decoding reverses encoding: the varint of `n` followed by anything else
/// reads back as `n`, consuming exactly the encoding's bytes.
pub proof fn lemma_take_varint_roundtrip(n: nat, rest: Seq<u8>)
    requires
        n <= u64::MAX,
    ensures
        spec_take_varint(spec_varint(n) + rest) == Some((n, spec_varint(n).len() as int)),
{
    lemma_varint_len(n);
    lemma_take_varint_encode(n, rest, MAX_VARINT_BYTES as nat);
}

/// Appends the varint encoding of `n` to `out`.
pub fn encode_varint(n0: u64, out: &mut Vec<u8>)
    ensures
        final(out)@ == old(out)@ + spec_varint(n0 as nat),
{
    let mut n: u64 = n0;
    while n >= 0x80
        invariant
            out@ + spec_varint(n as nat) == old(out)@ + spec_varint(n0 as nat),
        decreases n,
    {
        let ghost prev = out@;
        out.push(((n % 0x80) as u8) + 0x80);
        assert(out@ =~= prev + seq![(0x80 + (n as nat) % 0x80) as u8]);
        assert(out@ + spec_varint((n / 0x80) as nat) =~= prev + spec_varint(n as nat));
        n = n / 0x80;
    }
    let ghost prev = out@;
    out.push(n as u8);
    assert(out@ =~= prev + spec_varint(n as nat));
    assert(out@ =~= old(out)@ + spec_varint(n0 as nat));
}

fn take_varint_rec(b: &Vec<u8>, i: usize, fuel: usize) -> (r: Option<(u64, usize)>)
    requires
        i <= b.len(),
    ensures
        (match spec_take_varint_rec(b@.skip(i as int), fuel as nat) {
            Some(vk) => if vk.0 <= u64::MAX {
                r == Some((vk.0 as u64, vk.1 as usize))
            } else {
                r is None
            },
            None => r is None,
        }),
    decreases fuel,
{
    proof {
        lemma_take_varint_bounds(b@.skip(i as int), fuel as nat);
    }
    if fuel == 0 || i == b.len() {
        return None;
    }
    let byte = b[i];
    if byte < 0x80 {
        Some((byte as u64, 1))
    } else {
        proof {
            assert(b@.skip(i as int).drop_first() =~= b@.skip(i as int + 1));
        }
        match take_varint_rec(b, i + 1, fuel - 1) {
            None => None,
            Some((v, k)) => {
                let low: u64 = (byte - 0x80) as u64;
                if v == 0 {
                    None
                } else if v <= (u64::MAX - low) / 0x80 {
                    assert(0x80 * v + low <= u64::MAX) by (nonlinear_arith)
                        requires
                            v <= (u64::MAX - low) / 0x80,
                            low < 0x80,
                    ;
                    Some((low + 0x80 * v, k + 1))
                } else {
                    assert(0x80 * v + low > u64::MAX) by (nonlinear_arith)
                        requires
                            v > (u64::MAX - low) / 0x80,
                            low < 0x80,
                    ;
                    None
                }
            },
        }
    }
}

/// Reads the varint starting at position `i` of `b`; `None` on a run that is
/// absent, over-long, non-minimal, or too large for 64 bits.
pub fn take_varint(b: &Vec<u8>, i: usize) -> (r: Option<(u64, usize)>)
    requires
        i <= b.len(),
    ensures
        (match spec_take_varint(b@.skip(i as int)) {
            Some(vk) => if vk.0 <= u64::MAX {
                r == Some((vk.0 as u64, vk.1 as usize))
            } else {
                r is None
            },
            None => r is None,
        }),
{
    take_varint_rec(b, i, MAX_VARINT_BYTES)
}

/// Copies `b[from..to]` into a fresh vector.
pub fn copy_range(b: &Vec<u8>, from: usize, to: usize) -> (r: Vec<u8>)
    requires
        from <= to <= b.len(),
    ensures
        r@ == b@.subrange(from as int, to as int),
{
    let mut r: Vec<u8> = Vec::new();
    let mut j: usize = from;
    while j < to
        invariant
            from <= j <= to <= b.len(),
            r@ == b@.subrange(from as int, j as int),
        decreases to - j,
    {
        r.push(b[j]);
        assert(r@ =~= b@.subrange(from as int, j as int + 1));
        j += 1;
    }
    r
}

} // verus!
