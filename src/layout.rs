//! Little-endian integers and the header at the start of the shared region.

use vstd::prelude::*;

verus! {

/// Unsigned value of the `n` bytes of `b` from `off` on, least significant first.
pub open spec fn le_value(b: Seq<u8>, off: int, n: nat) -> nat
    decreases n,
{
    if n == 0 {
        0
    } else {
        b[off] as nat + 256 * le_value(b, off + 1, (n - 1) as nat)
    }
}

/// The `u32` stored at `off`.
pub open spec fn le_u32(b: Seq<u8>, off: int) -> u32 {
    le_value(b, off, 4) as u32
}

/// The `i64` stored at `off`, in two's complement.
pub open spec fn le_i64(b: Seq<u8>, off: int) -> i64 {
    let u = le_value(b, off, 8);
    if u < 0x8000_0000_0000_0000 {
        u as i64
    } else {
        (u - 0x1_0000_0000_0000_0000) as i64
    }
}

/// The `u64` stored at `off`.
pub open spec fn le_u64(b: Seq<u8>, off: int) -> u64 {
    le_value(b, off, 8) as u64
}

proof fn lemma_le_value_bound(b: Seq<u8>, off: int, n: nat)
    ensures
        le_value(b, off, n) < pow256(n),
    decreases n,
{
    if n > 0 {
        lemma_le_value_bound(b, off + 1, (n - 1) as nat);
    }
}

/// `256` to the power `n`.
pub open spec fn pow256(n: nat) -> nat
    decreases n,
{
    if n == 0 {
        1
    } else {
        256 * pow256((n - 1) as nat)
    }
}

/// Reads the `u32` at `off`.
pub fn read_u32(b: &[u8], off: usize) -> (r: u32)
    requires
        off + 4 <= b@.len(),
    ensures
        r == le_u32(b@, off as int),
{
    let r = b[off] as u32 + 256 * (b[off + 1] as u32 + 256 * (b[off + 2] as u32 + 256
        * b[off + 3] as u32));
    proof {
        reveal_with_fuel(le_value, 5);
    }
    r
}

/// Reads the `u64` at `off`.
pub fn read_u64(b: &[u8], off: usize) -> (r: u64)
    requires
        off + 8 <= b@.len(),
    ensures
        r == le_u64(b@, off as int),
{
    let _len = b.len();
    let lo = read_u32(b, off) as u64;
    let hi = read_u32(b, off + 4) as u64;
    proof {
        reveal_with_fuel(le_value, 5);
        lemma_split8(b@, off as int);
    }
    lo + 0x1_0000_0000 * hi
}

proof fn lemma_split8(b: Seq<u8>, off: int)
    ensures
        le_value(b, off, 8) == le_value(b, off, 4) + 0x1_0000_0000 * le_value(b, off + 4, 4),
{
    reveal_with_fuel(le_value, 9);
}

/// Reads the `i64` at `off`.
pub fn read_i64(b: &[u8], off: usize) -> (r: i64)
    requires
        off + 8 <= b@.len(),
    ensures
        r == le_i64(b@, off as int),
{
    let u = read_u64(b, off);
    proof {
        lemma_le_value_bound(b@, off as int, 8);
        reveal_with_fuel(pow256, 9);
    }
    if u < 0x8000_0000_0000_0000 {
        u as i64
    } else {
        let below: u64 = u - 0x8000_0000_0000_0000;
        (below as i64) - 0x4000_0000_0000_0000 - 0x4000_0000_0000_0000
    }
}

/// The `n` bytes that store `x`, least significant first.
pub open spec fn le_bytes(x: nat, n: nat) -> Seq<u8>
    decreases n,
{
    if n == 0 {
        Seq::empty()
    } else {
        seq![(x % 256) as u8] + le_bytes(x / 256, (n - 1) as nat)
    }
}

proof fn lemma_le_bytes_len(x: nat, n: nat)
    ensures
        le_bytes(x, n).len() == n,
    decreases n,
{
    if n > 0 {
        lemma_le_bytes_len(x / 256, (n - 1) as nat);
    }
}

/// Reading back the bytes that store `x` gives `x`.
pub proof fn lemma_le_round_trip(b: Seq<u8>, off: int, x: nat, n: nat)
    requires
        x < pow256(n),
        0 <= off,
        off + n <= b.len(),
        b.subrange(off, off + n) == le_bytes(x, n),
    ensures
        le_value(b, off, n) == x,
    decreases n,
{
    if n > 0 {
        let s = le_bytes(x, n);
        let rest = le_bytes(x / 256, (n - 1) as nat);
        lemma_le_bytes_len(x / 256, (n - 1) as nat);
        assert(s == seq![(x % 256) as u8] + rest);
        assert(b[off] == b.subrange(off, off + n)[0]);
        assert(b.subrange(off + 1, off + n) =~= b.subrange(off, off + n).subrange(1, n as int));
        assert(s.subrange(1, n as int) =~= rest);
        let p = pow256((n - 1) as nat);
        assert(x / 256 < p) by (nonlinear_arith)
            requires
                x < 256 * p,
        ;
        lemma_le_round_trip(b, off + 1, x / 256, (n - 1) as nat);
        assert(x == 256 * (x / 256) + x % 256) by (nonlinear_arith);
    }
}

/// The four bytes that store `x` read back as `x`.
pub proof fn lemma_u32_round_trip(b: Seq<u8>, off: int, x: u32)
    requires
        0 <= off,
        off + 4 <= b.len(),
        b.subrange(off, off + 4) == le_bytes(x as nat, 4),
    ensures
        le_u32(b, off) == x,
{
    reveal_with_fuel(pow256, 5);
    lemma_le_round_trip(b, off, x as nat, 4);
}

/// The eight bytes that store `x` read back as `x`.
pub proof fn lemma_u64_round_trip(b: Seq<u8>, off: int, x: u64)
    requires
        0 <= off,
        off + 8 <= b.len(),
        b.subrange(off, off + 8) == le_bytes(x as nat, 8),
    ensures
        le_u64(b, off) == x,
{
    reveal_with_fuel(pow256, 9);
    lemma_le_round_trip(b, off, x as nat, 8);
}

} // verus!
