use vstd::prelude::*;
use vstd::arithmetic::div_mod::lemma_fundamental_div_mod_converse;

use crate::error::Error;

verus! {

/// Size in bytes of an encoded accumulator snapshot.
pub const SNAPSHOT_LEN: usize = 32;

/// The accumulator snapshot a block carries: cumulative issuance, the
/// secondary-issuance rate, cumulative secondary issuance and the capacity
/// locked on chain. A walk over the chain checks the total (bytes 0..8) and
/// occupied capacity (bytes 24..32) of every block, and the secondary
/// issuance (bytes 16..24) of genesis only; the rate (bytes 8..16) is carried
/// through unchecked.
#[derive(Debug, Clone, Copy, PartialEq, Eq, Structural, Default)]
pub struct Dao {
    pub total: u64,
    pub rate: u64,
    pub secondary: u64,
    pub occupied: u64,
}

/// The little-endian value of the `n` bytes of `b` that start at `off`.
pub open spec fn le_value(b: Seq<u8>, off: int, n: nat) -> int
    decreases n,
{
    if n == 0 {
        0
    } else {
        b[off] as int + 256 * le_value(b, off + 1, (n - 1) as nat)
    }
}

/// The `n` little-endian bytes of `v`.
pub open spec fn le_bytes(v: int, n: nat) -> Seq<u8>
    decreases n,
{
    if n == 0 {
        Seq::empty()
    } else {
        seq![(v % 256) as u8] + le_bytes(v / 256, (n - 1) as nat)
    }
}

/// `256` to the power `n`.
pub open spec fn byte_range(n: nat) -> int
    decreases n,
{
    if n == 0 {
        1
    } else {
        256 * byte_range((n - 1) as nat)
    }
}

/// The snapshot that a 32-byte record encodes.
pub open spec fn snapshot_of(b: Seq<u8>) -> Dao {
    Dao {
        total: le_value(b, 0, 8) as u64,
        rate: le_value(b, 8, 8) as u64,
        secondary: le_value(b, 16, 8) as u64,
        occupied: le_value(b, 24, 8) as u64,
    }
}

/// The 32-byte record of a snapshot: its four fields, little-endian, in order.
pub open spec fn encoding_of(d: Dao) -> Seq<u8> {
    le_bytes(d.total as int, 8) + le_bytes(d.rate as int, 8) + le_bytes(d.secondary as int, 8)
        + le_bytes(d.occupied as int, 8)
}

proof fn lemma_le_value_bound(b: Seq<u8>, off: int, n: nat)
    requires
        0 <= off,
        off + n <= b.len(),
    ensures
        0 <= le_value(b, off, n) < byte_range(n),
    decreases n,
{
    if n > 0 {
        lemma_le_value_bound(b, off + 1, (n - 1) as nat);
        let r = le_value(b, off + 1, (n - 1) as nat);
        let m = byte_range((n - 1) as nat);
        let x = b[off] as int;
        assert(0 <= x + 256 * r < 256 * m) by (nonlinear_arith)
            requires
                0 <= x < 256,
                0 <= r < m,
        ;
    }
}

proof fn lemma_le_round_trip(b: Seq<u8>, off: int, n: nat)
    requires
        0 <= off,
        off + n <= b.len(),
    ensures
        le_bytes(le_value(b, off, n), n) == b.subrange(off, off + n),
    decreases n,
{
    if n > 0 {
        let v = le_value(b, off, n);
        let rest = le_value(b, off + 1, (n - 1) as nat);
        lemma_fundamental_div_mod_converse(v, 256, rest, b[off] as int);
        lemma_le_round_trip(b, off + 1, (n - 1) as nat);
        assert(le_bytes(v, n) =~= b.subrange(off, off + n));
    }
}

proof fn lemma_byte_range_8()
    ensures
        byte_range(8) == 0x1_0000_0000_0000_0000,
{
    assert(byte_range(0) == 1);
    assert(byte_range(1) == 0x100);
    assert(byte_range(2) == 0x1_0000);
    assert(byte_range(3) == 0x100_0000);
    assert(byte_range(4) == 0x1_0000_0000);
    assert(byte_range(5) == 0x100_0000_0000);
    assert(byte_range(6) == 0x1_0000_0000_0000);
    assert(byte_range(7) == 0x100_0000_0000_0000);
}

/// Decoding a 32-byte record and encoding the four fields again at their
/// offsets gives back the record.
pub proof fn lemma_snapshot_round_trip(b: Seq<u8>)
    requires
        b.len() == SNAPSHOT_LEN,
    ensures
        encoding_of(snapshot_of(b)) == b,
{
    lemma_byte_range_8();
    lemma_le_value_bound(b, 0, 8);
    lemma_le_value_bound(b, 8, 8);
    lemma_le_value_bound(b, 16, 8);
    lemma_le_value_bound(b, 24, 8);
    lemma_le_round_trip(b, 0, 8);
    lemma_le_round_trip(b, 8, 8);
    lemma_le_round_trip(b, 16, 8);
    lemma_le_round_trip(b, 24, 8);
    assert(encoding_of(snapshot_of(b)) =~= b);
}

/// Reads the little-endian integer held by `b[off..off + 8]`.
fn read_u64_le(b: &[u8], off: usize) -> (r: u64)
    requires
        off + 8 <= b@.len(),
    ensures
        r as int == le_value(b@, off as int, 8),
{
    let len: usize = b.len();
    let mut acc: u64 = 0;
    let mut k: usize = 8;
    proof {
        lemma_byte_range_8();
    }
    while k > 0
        invariant
            k <= 8,
            off + 8 <= b@.len(),
            len == b@.len(),
            acc as int == le_value(b@, off + k, (8 - k) as nat),
            byte_range(8) == 0x1_0000_0000_0000_0000,
        decreases k,
    {
        k = k - 1;
        proof {
            lemma_le_value_bound(b@, off + k + 1, (7 - k) as nat);
            lemma_byte_range_mono((8 - k) as nat, 8);
        }
        let byte = b[off + k];
        assert(acc * 256 + byte < byte_range((8 - k) as nat)) by (nonlinear_arith)
            requires
                acc < byte_range((7 - k) as nat),
                byte < 256,
                byte_range((8 - k) as nat) == 256 * byte_range((7 - k) as nat),
        ;
        acc = acc * 256 + byte as u64;
    }
    acc
}

proof fn lemma_byte_range_mono(a: nat, b: nat)
    requires
        a <= b,
    ensures
        1 <= byte_range(a) <= byte_range(b),
    decreases b,
{
    if b > 0 {
        if a < b {
            lemma_byte_range_mono(a, (b - 1) as nat);
        } else {
            lemma_byte_range_mono((b - 1) as nat, (b - 1) as nat);
        }
    }
}

/// Splits a 32-byte accumulator record into its four little-endian fields.
pub fn decode_snapshot(bytes: &[u8]) -> (r: Result<Dao, Error>)
    ensures
        bytes@.len() == SNAPSHOT_LEN ==> r == Ok::<Dao, Error>(snapshot_of(bytes@)),
        bytes@.len() != SNAPSHOT_LEN ==> r == Err::<Dao, Error>(Error::MalformedRecord),
{
    if bytes.len() != SNAPSHOT_LEN {
        return Err(Error::MalformedRecord);
    }
    let total = read_u64_le(bytes, 0);
    let rate = read_u64_le(bytes, 8);
    let secondary = read_u64_le(bytes, 16);
    let occupied = read_u64_le(bytes, 24);
    Ok(Dao { total, rate, secondary, occupied })
}

/// Appends the eight little-endian bytes of `v` to `out`.
fn write_u64_le(out: &mut Vec<u8>, v: u64)
    ensures
        final(out)@ == old(out)@ + le_bytes(v as int, 8),
{
    let mut rest: u64 = v;
    let mut k: usize = 8;
    while k > 0
        invariant
            k <= 8,
            out@ + le_bytes(rest as int, k as nat) == old(out)@ + le_bytes(v as int, 8),
        decreases k,
    {
        let ghost before = out@;
        out.push((rest % 256) as u8);
        proof {
            assert(le_bytes(rest as int, k as nat) =~= seq![(rest % 256) as u8] + le_bytes(
                rest as int / 256,
                (k - 1) as nat,
            ));
            assert(out@ + le_bytes(rest as int / 256, (k - 1) as nat) =~= before + le_bytes(
                rest as int,
                k as nat,
            ));
        }
        rest = rest / 256;
        k = k - 1;
    }
    assert(le_bytes(rest as int, 0) =~= Seq::<u8>::empty());
    assert(out@ =~= out@ + le_bytes(rest as int, 0));
}

impl Dao {
    /// The 32-byte record of this snapshot.
    pub fn to_bytes(&self) -> (r: Vec<u8>)
        ensures
            r@ == encoding_of(*self),
    {
        let mut out: Vec<u8> = Vec::new();
        write_u64_le(&mut out, self.total);
        write_u64_le(&mut out, self.rate);
        write_u64_le(&mut out, self.secondary);
        write_u64_le(&mut out, self.occupied);
        assert(out@ =~= encoding_of(*self));
        out
    }
}

} // verus!
