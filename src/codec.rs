use vstd::prelude::*;

use crate::reading::CTReading;

verus! {

/// The `n` little-endian bytes of `x` (the low byte first).
pub open spec fn le_bytes(x: nat, n: nat) -> Seq<u8>
    decreases n,
{
    if n == 0 {
        Seq::empty()
    } else {
        seq![(x % 256) as u8].add(le_bytes(x / 256, (n - 1) as nat))
    }
}

/// The number that the little-endian bytes `b` stand for.
pub open spec fn le_value(b: Seq<u8>) -> nat
    decreases b.len(),
{
    if b.len() == 0 {
        0
    } else {
        b[0] as nat + 256 * le_value(b.drop_first())
    }
}

/// Reading back the bytes of a value that fits gives the value.
pub proof fn lemma_le_round_trip(x: nat, n: nat)
    requires
        x < pow256(n),
    ensures
        le_bytes(x, n).len() == n,
        le_value(le_bytes(x, n)) == x,
    decreases n,
{
    if n > 0 {
        lemma_le_round_trip(x / 256, (n - 1) as nat);
        assert(x / 256 < pow256((n - 1) as nat)) by (nonlinear_arith)
            requires
                x < 256 * pow256((n - 1) as nat),
        ;
        assert(le_bytes(x, n).drop_first() =~= le_bytes(x / 256, (n - 1) as nat));
    }
}

/// `256` raised to `n`.
pub open spec fn pow256(n: nat) -> nat
    decreases n,
{
    if n == 0 {
        1
    } else {
        256 * pow256((n - 1) as nat)
    }
}

/// Appends the `n` little-endian bytes of `x` to `out`.
fn push_le(out: &mut Vec<u8>, x: u64, n: usize)
    requires
        n <= 8,
    ensures
        final(out)@ == old(out)@ + le_bytes(x as nat, n as nat),
{
    let ghost start = out@;
    let mut v: u64 = x;
    let mut k: usize = 0;
    while k < n
        invariant
            k <= n <= 8,
            out@ + le_bytes(v as nat, (n - k) as nat) == start + le_bytes(x as nat, n as nat),
        decreases n - k,
    {
        let ghost rest = le_bytes(v as nat, (n - k) as nat);
        assert(rest =~= seq![(v % 256) as u8] + le_bytes((v / 256) as nat, (n - k - 1) as nat));
        out.push((v % 256) as u8);
        v = v / 256;
        k = k + 1;
        assert(out@ + le_bytes(v as nat, (n - k) as nat) =~= start + le_bytes(x as nat, n as nat));
    }
}

/// The value of the `n` little-endian bytes of `b` that start at `at`.
fn read_le(b: &[u8], at: usize, n: usize) -> (r: u64)
    requires
        n <= 8,
        at + n <= b.len(),
    ensures
        r as nat == le_value(b@.subrange(at as int, at + n)),
{
    let mut v: u64 = 0;
    let mut k: usize = n;
    while k > 0
        invariant
            k <= n <= 8,
            at + n <= b.len(),
            v as nat == le_value(b@.subrange(at + k, at + n)),
            v < pow256((n - k) as nat),
        decreases k,
    {
        k = k - 1;
        let ghost s = b@.subrange(at + k, at + n);
        assert(s.drop_first() =~= b@.subrange(at + k + 1, at + n));
        proof {
            lemma_pow256_at_most_8((n - k - 1) as nat);
        }
        assert(v * 256 + b[at + k] < pow256((n - k) as nat)) by (nonlinear_arith)
            requires
                v < pow256((n - k - 1) as nat),
                b[at + k] < 256,
                pow256((n - k) as nat) == 256 * pow256((n - k - 1) as nat),
        ;
        v = v * 256 + b[at + k] as u64;
    }
    v
}

proof fn lemma_pow256_at_most_8(n: nat)
    requires
        n <= 7,
    ensures
        256 * pow256(n) <= 0x1_0000_0000_0000_0000,
{
    reveal_with_fuel(pow256, 9);
}

/// Bytes in one encoded record: a `u16` phase id, five binary32 values and a
/// `u64` timestamp.
pub const RECORD_SIZE: usize = 30;

/// The record of `r` for phase `id`, little-endian and in field order:
/// `[id: u16][real_power][apparent_power][i_rms][v_rms][kwh][timestamp: u64]`.
pub open spec fn record_bytes(id: u16, r: CTReading) -> Seq<u8> {
    le_bytes(id as nat, 2) + le_bytes(r.real_power as nat, 4) + le_bytes(r.apparent_power as nat, 4)
        + le_bytes(r.i_rms as nat, 4) + le_bytes(r.v_rms as nat, 4) + le_bytes(r.kwh as nat, 4)
        + le_bytes(r.timestamp as nat, 8)
}

/// What a reader that follows the record layout finds in the record `b`.
pub open spec fn record_fields(b: Seq<u8>) -> (u16, CTReading) {
    (
        le_value(b.subrange(0, 2)) as u16,
        CTReading {
            real_power: le_value(b.subrange(2, 6)) as u32,
            apparent_power: le_value(b.subrange(6, 10)) as u32,
            i_rms: le_value(b.subrange(10, 14)) as u32,
            v_rms: le_value(b.subrange(14, 18)) as u32,
            kwh: le_value(b.subrange(18, 22)) as u32,
            timestamp: le_value(b.subrange(22, 30)) as u64,
        },
    )
}

/// Decoding the record of a reading gives back its phase id and every field
/// exactly, and the record is `RECORD_SIZE` bytes long.
pub proof fn lemma_record_round_trip(id: u16, r: CTReading)
    ensures
        record_bytes(id, r).len() == RECORD_SIZE,
        record_fields(record_bytes(id, r)) == (id, r),
{
    reveal_with_fuel(pow256, 9);
    lemma_le_round_trip(id as nat, 2);
    lemma_le_round_trip(r.real_power as nat, 4);
    lemma_le_round_trip(r.apparent_power as nat, 4);
    lemma_le_round_trip(r.i_rms as nat, 4);
    lemma_le_round_trip(r.v_rms as nat, 4);
    lemma_le_round_trip(r.kwh as nat, 4);
    lemma_le_round_trip(r.timestamp as nat, 8);
    let b = record_bytes(id, r);
    assert(b.subrange(0, 2) =~= le_bytes(id as nat, 2));
    assert(b.subrange(2, 6) =~= le_bytes(r.real_power as nat, 4));
    assert(b.subrange(6, 10) =~= le_bytes(r.apparent_power as nat, 4));
    assert(b.subrange(10, 14) =~= le_bytes(r.i_rms as nat, 4));
    assert(b.subrange(14, 18) =~= le_bytes(r.v_rms as nat, 4));
    assert(b.subrange(18, 22) =~= le_bytes(r.kwh as nat, 4));
    assert(b.subrange(22, 30) =~= le_bytes(r.timestamp as nat, 8));
}

/// Appends the record of `r` for phase `id` to `out`.
pub fn encode_record(id: u16, r: &CTReading, out: &mut Vec<u8>)
    ensures
        final(out)@ == old(out)@ + record_bytes(id, *r),
{
    push_le(out, id as u64, 2);
    push_le(out, r.real_power as u64, 4);
    push_le(out, r.apparent_power as u64, 4);
    push_le(out, r.i_rms as u64, 4);
    push_le(out, r.v_rms as u64, 4);
    push_le(out, r.kwh as u64, 4);
    push_le(out, r.timestamp, 8);
    assert(final(out)@ =~= old(out)@ + record_bytes(id, *r));
}

/// Reads one record: `None` unless `b` is exactly `RECORD_SIZE` bytes long.
pub fn decode_record(b: &[u8]) -> (res: Option<(u16, CTReading)>)
    ensures
        b@.len() != RECORD_SIZE ==> res is None,
        b@.len() == RECORD_SIZE ==> res == Some(record_fields(b@)),
{
    if b.len() != RECORD_SIZE {
        return None;
    }
    reveal_with_fuel(pow256, 9);
    let id = read_le(b, 0, 2);
    let real_power = read_le(b, 2, 4);
    let apparent_power = read_le(b, 6, 4);
    let i_rms = read_le(b, 10, 4);
    let v_rms = read_le(b, 14, 4);
    let kwh = read_le(b, 18, 4);
    let timestamp = read_le(b, 22, 8);
    proof {
        lemma_le_value_bound(b@.subrange(0, 2));
        lemma_le_value_bound(b@.subrange(2, 6));
        lemma_le_value_bound(b@.subrange(6, 10));
        lemma_le_value_bound(b@.subrange(10, 14));
        lemma_le_value_bound(b@.subrange(14, 18));
        lemma_le_value_bound(b@.subrange(18, 22));
    }
    Some(
        (
            id as u16,
            CTReading {
                real_power: real_power as u32,
                apparent_power: apparent_power as u32,
                i_rms: i_rms as u32,
                v_rms: v_rms as u32,
                kwh: kwh as u32,
                timestamp,
            },
        ),
    )
}

proof fn lemma_le_value_bound(b: Seq<u8>)
    ensures
        le_value(b) < pow256(b.len()),
    decreases b.len(),
{
    if b.len() > 0 {
        lemma_le_value_bound(b.drop_first());
        assert(b[0] + 256 * le_value(b.drop_first()) < 256 * pow256((b.len() - 1) as nat))
            by (nonlinear_arith)
            requires
                b[0] < 256,
                le_value(b.drop_first()) < pow256((b.len() - 1) as nat),
        ;
    }
}

} // verus!
