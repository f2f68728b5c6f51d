//! Fixed-width binary integer encoding: little- and big-endian byte strings
//! of a given width, with the arithmetic facts the codec needs about them.

use vstd::prelude::*;

verus! {

/// 256 to the power `w`: the number of distinct `w`-byte strings.
pub open spec fn pow256(w: nat) -> nat
    decreases w,
{
    if w == 0 {
        1
    } else {
        256 * pow256((w - 1) as nat)
    }
}

/// The `w` low-order bytes of `val`, least significant first.
pub open spec fn le_bytes(val: u64, w: nat) -> Seq<u8>
    decreases w,
{
    if w == 0 {
        Seq::empty()
    } else {
        seq![(val % 256) as u8] + le_bytes(val / 256, (w - 1) as nat)
    }
}

/// The value of a little-endian byte string.
pub open spec fn le_val(s: Seq<u8>) -> nat
    decreases s.len(),
{
    if s.len() == 0 {
        0
    } else {
        (s[0] + 256 * le_val(s.drop_first())) as nat
    }
}

/// The value of a big-endian byte string.
pub open spec fn be_val(s: Seq<u8>) -> nat
    decreases s.len(),
{
    if s.len() == 0 {
        0
    } else {
        (256 * be_val(s.drop_last()) + s.last()) as nat
    }
}

pub proof fn lemma_le_bytes_len(val: u64, w: nat)
    ensures
        le_bytes(val, w).len() == w,
    decreases w,
{
    if w > 0 {
        lemma_le_bytes_len(val / 256, (w - 1) as nat);
    }
}

pub proof fn lemma_pow256_monotone(a: nat, b: nat)
    requires
        a <= b,
    ensures
        pow256(a) <= pow256(b),
    decreases b,
{
    if a < b && b > 0 {
        lemma_pow256_monotone(a, (b - 1) as nat);
        assert(pow256((b - 1) as nat) <= 256 * pow256((b - 1) as nat)) by (nonlinear_arith)
            requires pow256((b - 1) as nat) >= 0;
    }
}

/// The concrete values of `pow256` for every width the codec uses.
pub proof fn lemma_pow256_vals()
    ensures
        pow256(0) == 1,
        pow256(1) == 0x100,
        pow256(2) == 0x1_0000,
        pow256(3) == 0x100_0000,
        pow256(4) == 0x1_0000_0000,
        pow256(5) == 0x100_0000_0000,
        pow256(6) == 0x1_0000_0000_0000,
        pow256(7) == 0x100_0000_0000_0000,
        pow256(8) == 0x1_0000_0000_0000_0000,
{
    assert(pow256(0) == 1);
    assert(pow256(1) == 0x100);
    assert(pow256(2) == 0x1_0000);
    assert(pow256(3) == 0x100_0000);
    assert(pow256(4) == 0x1_0000_0000);
    assert(pow256(5) == 0x100_0000_0000);
    assert(pow256(6) == 0x1_0000_0000_0000);
    assert(pow256(7) == 0x100_0000_0000_0000);
    assert(pow256(8) == 0x1_0000_0000_0000_0000);
}

/// A little-endian byte string of length `w` denotes a value below 256^w.
pub proof fn lemma_le_val_bound(s: Seq<u8>)
    ensures
        le_val(s) < pow256(s.len()),
    decreases s.len(),
{
    if s.len() > 0 {
        lemma_le_val_bound(s.drop_first());
        let r = le_val(s.drop_first());
        let p = pow256((s.len() - 1) as nat);
        assert(r < p ==> 256 * r <= 256 * (p - 1)) by (nonlinear_arith);
    }
}

/// Decoding inverts encoding: the little-endian bytes of `val` denote `val`.
pub proof fn lemma_le_roundtrip(val: u64, w: nat)
    requires
        (val as nat) < pow256(w),
    ensures
        le_val(le_bytes(val, w)) == val,
    decreases w,
{
    if w == 0 {
    } else {
        let q = val / 256;
        assert((q as int) < pow256((w - 1) as nat)) by {
            vstd::arithmetic::div_mod::lemma_multiply_divide_lt(
                val as int,
                256,
                pow256((w - 1) as nat) as int,
            );
        }
        lemma_le_roundtrip(q, (w - 1) as nat);
        lemma_le_bytes_len(q, (w - 1) as nat);
        assert(le_bytes(val, w).drop_first() =~= le_bytes(q, (w - 1) as nat));
    }
}

/// Appends the `w` low-order bytes of `val`, least significant first.
pub fn push_le_bytes(out: &mut Vec<u8>, val: u64, w: usize)
    requires
        w <= 8,
    ensures
        final(out)@ == old(out)@ + le_bytes(val, w as nat),
{
    proof {
        lemma_le_bytes_len(val, w as nat);
    }
    let ghost base = out@;
    let mut cur: u64 = val;
    let mut j: usize = 0;
    while j < w
        invariant
            j <= w,
            out@ == base + le_bytes(val, w as nat).take(j as int),
            le_bytes(cur, (w - j) as nat) == le_bytes(val, w as nat).skip(j as int),
            le_bytes(val, w as nat).len() == w,
        decreases w - j,
    {
        proof {
            lemma_le_bytes_len(cur, (w - j) as nat);
            lemma_le_bytes_len(cur / 256, (w - j - 1) as nat);
            assert(le_bytes(val, w as nat).skip(j as int)[0] == (cur % 256) as u8);
            assert(le_bytes(val, w as nat).take(j + 1) =~= le_bytes(val, w as nat).take(
                j as int,
            ).push((cur % 256) as u8));
            assert(le_bytes(val, w as nat).skip(j + 1) =~= le_bytes(val, w as nat).skip(
                j as int,
            ).drop_first());
            assert(le_bytes(cur, (w - j) as nat).drop_first() =~= le_bytes(
                cur / 256,
                (w - j - 1) as nat,
            ));
        }
        out.push((cur % 256) as u8);
        cur = cur / 256;
        j = j + 1;
    }
    proof {
        assert(le_bytes(val, w as nat).take(w as int) =~= le_bytes(val, w as nat));
    }
}

/// Appends a whole byte string.
pub fn push_bytes(out: &mut Vec<u8>, src: &[u8])
    ensures
        final(out)@ == old(out)@ + src@,
{
    let ghost base = out@;
    let n = src.len();
    let mut i: usize = 0;
    while i < n
        invariant
            i <= n,
            n == src@.len(),
            out@ == base + src@.take(i as int),
        decreases n - i,
    {
        proof {
            assert(src@.take(i + 1) =~= src@.take(i as int).push(src@[i as int]));
        }
        out.push(src[i]);
        i = i + 1;
    }
    proof {
        assert(src@.take(n as int) =~= src@);
    }
}

/// Reads the value of the `w` little-endian bytes of `data` starting at `start`.
pub fn read_le_val(data: &[u8], start: usize, w: usize) -> (r: u64)
    requires
        w <= 8,
        start + w <= data@.len(),
    ensures
        r == le_val(data@.subrange(start as int, start + w)),
{
    let ghost chunk = data@.subrange(start as int, start + w);
    let n: usize = data.len();
    let mut acc: u64 = 0;
    let mut j: usize = w;
    proof {
        assert(chunk.skip(w as int) =~= Seq::<u8>::empty());
        lemma_pow256_vals();
    }
    while j > 0
        invariant
            j <= w,
            w <= 8,
            start + w <= data@.len(),
            start + w <= usize::MAX,
            chunk == data@.subrange(start as int, start + w),
            acc == le_val(chunk.skip(j as int)),
            (acc as nat) < pow256((w - j) as nat),
            pow256(8) == 0x1_0000_0000_0000_0000,
        decreases j,
    {
        proof {
            lemma_pow256_monotone((w - j) as nat, 7);
            assert(pow256(8) == 256 * pow256(7));
            assert((acc as nat) < pow256(7) ==> 256 * (acc as nat) <= 256 * (pow256(7) - 1))
                by (nonlinear_arith);
            assert(chunk.skip(j - 1).drop_first() =~= chunk.skip(j as int));
            assert(chunk.skip(j - 1)[0] == chunk[j - 1]);
            assert((w - (j - 1)) as nat == ((w - j) + 1) as nat);
            assert(pow256(((w - j) + 1) as nat) == 256 * pow256((w - j) as nat));
            assert((acc as nat) < pow256((w - j) as nat) ==> 256 * (acc as nat) + 255 < 256
                * pow256((w - j) as nat)) by (nonlinear_arith);
        }
        acc = acc * 256 + (data[start + j - 1] as u64);
        j = j - 1;
    }
    proof {
        assert(chunk.skip(0) =~= chunk);
    }
    acc
}

/// Reads the value of the `w` big-endian bytes of `data` starting at `start`.
pub fn read_be_val(data: &[u8], start: usize, w: usize) -> (r: u64)
    requires
        w <= 8,
        start + w <= data@.len(),
    ensures
        r == be_val(data@.subrange(start as int, start + w)),
{
    let ghost chunk = data@.subrange(start as int, start + w);
    let n: usize = data.len();
    let mut acc: u64 = 0;
    let mut j: usize = 0;
    proof {
        assert(chunk.take(0) =~= Seq::<u8>::empty());
        lemma_pow256_vals();
    }
    while j < w
        invariant
            j <= w,
            w <= 8,
            start + w <= data@.len(),
            start + w <= usize::MAX,
            chunk == data@.subrange(start as int, start + w),
            acc == be_val(chunk.take(j as int)),
            (acc as nat) < pow256(j as nat),
            pow256(8) == 0x1_0000_0000_0000_0000,
        decreases w - j,
    {
        proof {
            lemma_pow256_monotone(j as nat, 7);
            assert(pow256(8) == 256 * pow256(7));
            assert(chunk.take(j + 1).drop_last() =~= chunk.take(j as int));
            assert(chunk.take(j + 1).last() == chunk[j as int]);
            assert(pow256((j + 1) as nat) == 256 * pow256(j as nat));
            assert((acc as nat) < pow256(j as nat) ==> 256 * (acc as nat) + 255 < 256 * pow256(
                j as nat,
            )) by (nonlinear_arith);
            assert((acc as nat) < pow256(7) ==> 256 * (acc as nat) <= 256 * (pow256(7) - 1))
                by (nonlinear_arith);
        }
        acc = acc * 256 + (data[start + j] as u64);
        j = j + 1;
    }
    proof {
        assert(chunk.take(w as int) =~= chunk);
    }
    acc
}

} // verus!
