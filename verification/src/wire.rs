//! Little-endian integer fields of the wire formats.

use vstd::bytes::{
    lemma_auto_spec_u16_to_from_le_bytes, lemma_auto_spec_u32_to_from_le_bytes,
    lemma_auto_spec_u64_to_from_le_bytes, spec_u16_from_le_bytes, spec_u16_to_le_bytes,
    spec_u32_from_le_bytes, spec_u32_to_le_bytes, spec_u64_from_le_bytes, spec_u64_to_le_bytes,
    u16_from_le_bytes, u16_to_le_bytes, u32_from_le_bytes, u32_to_le_bytes, u64_from_le_bytes,
    u64_to_le_bytes,
};
use vstd::prelude::*;

verus! {

/// Reads the u16 whose little-endian bytes sit at `data[off .. off + 2]`.
pub fn read_u16_at(data: &[u8], off: usize) -> (r: u16)
    requires
        off + 2 <= data@.len(),
    ensures
        r == spec_u16_from_le_bytes(data@.subrange(off as int, off + 2)),
{
    let n = data.len();
    assert(off + 2 <= n);
    u16_from_le_bytes(vstd::slice::slice_subrange(data, off, off + 2))
}

/// The wire byte of a boolean.
pub open spec fn bool_byte(b: bool) -> u8 {
    if b {
        1u8
    } else {
        0u8
    }
}

/// The wire byte of a boolean.
pub fn bool_to_byte(b: bool) -> (r: u8)
    ensures
        r == bool_byte(b),
{
    if b {
        1
    } else {
        0
    }
}

/// Reads the u32 whose little-endian bytes sit at `data[off .. off + 4]`.
pub fn read_u32_at(data: &[u8], off: usize) -> (r: u32)
    requires
        off + 4 <= data@.len(),
    ensures
        r == spec_u32_from_le_bytes(data@.subrange(off as int, off + 4)),
{
    let n = data.len();
    assert(off + 4 <= n);
    u32_from_le_bytes(vstd::slice::slice_subrange(data, off, off + 4))
}

/// Reads the u64 whose little-endian bytes sit at `data[off .. off + 8]`.
pub fn read_u64_at(data: &[u8], off: usize) -> (r: u64)
    requires
        off + 8 <= data@.len(),
    ensures
        r == spec_u64_from_le_bytes(data@.subrange(off as int, off + 8)),
{
    let n = data.len();
    assert(off + 8 <= n);
    u64_from_le_bytes(vstd::slice::slice_subrange(data, off, off + 8))
}

/// Appends the two little-endian bytes of `v` to `buf`.
pub fn push_u16_le(buf: &mut Vec<u8>, v: u16)
    ensures
        final(buf)@ == old(buf)@ + spec_u16_to_le_bytes(v),
{
    let mut b = u16_to_le_bytes(v);
    buf.append(&mut b);
}

/// Appends the four little-endian bytes of `v` to `buf`.
pub fn push_u32_le(buf: &mut Vec<u8>, v: u32)
    ensures
        final(buf)@ == old(buf)@ + spec_u32_to_le_bytes(v),
{
    let mut b = u32_to_le_bytes(v);
    buf.append(&mut b);
}

/// Appends the eight little-endian bytes of `v` to `buf`.
pub fn push_u64_le(buf: &mut Vec<u8>, v: u64)
    ensures
        final(buf)@ == old(buf)@ + spec_u64_to_le_bytes(v),
{
    let mut b = u64_to_le_bytes(v);
    buf.append(&mut b);
}

/// The `n` u64 values whose little-endian bytes sit back to back at the
/// front of `data`.
pub open spec fn spec_u64s(data: Seq<u8>, n: nat) -> Seq<u64>
    recommends
        data.len() >= 8 * n,
    decreases n,
{
    if n == 0 {
        Seq::empty()
    } else {
        seq![spec_u64_from_le_bytes(data.subrange(0, 8))] + spec_u64s(data.skip(8), (n - 1) as nat)
    }
}

/// Reading one more value appends the one at offset `8 * n`.
pub proof fn lemma_spec_u64s_snoc(data: Seq<u8>, n: nat)
    requires
        data.len() >= 8 * (n + 1),
    ensures
        spec_u64s(data, n + 1) == spec_u64s(data, n).push(
            spec_u64_from_le_bytes(data.subrange(8 * n as int, 8 * n as int + 8)),
        ),
    decreases n,
{
    if n == 0 {
        assert(spec_u64s(data.skip(8), 0) == Seq::<u64>::empty());
        assert(spec_u64s(data, 1) =~= spec_u64s(data, 0).push(
            spec_u64_from_le_bytes(data.subrange(0, 8)),
        ));
    } else {
        lemma_spec_u64s_snoc(data.skip(8), (n - 1) as nat);
        assert(data.skip(8).subrange(8 * (n - 1), 8 * (n - 1) + 8) =~= data.subrange(
            8 * n as int,
            8 * n as int + 8,
        ));
        assert(spec_u64s(data, n + 1) =~= spec_u64s(data, n).push(
            spec_u64_from_le_bytes(data.subrange(8 * n as int, 8 * n as int + 8)),
        ));
    }
}

/// Reads `n` u64 values sitting back to back at `data[off ..]`.
pub fn read_u64s(data: &[u8], off: usize, n: usize) -> (r: Vec<u64>)
    requires
        off + 8 * n <= data@.len(),
    ensures
        r@ == spec_u64s(data@.skip(off as int), n as nat),
        r@.len() == n,
{
    let ghost tail = data@.skip(off as int);
    let len = data.len();
    let mut vals: Vec<u64> = Vec::new();
    let mut i: usize = 0;
    proof {
        assert(vals@ =~= spec_u64s(tail, 0));
    }
    while i < n
        invariant
            i <= n,
            off + 8 * n <= len,
            len == data@.len(),
            tail == data@.skip(off as int),
            vals@ == spec_u64s(tail, i as nat),
            vals@.len() == i,
        decreases n - i,
    {
        let v = read_u64_at(data, off + 8 * i);
        proof {
            lemma_spec_u64s_snoc(tail, i as nat);
            assert(data@.subrange(off + 8 * i, off + 8 * i + 8) =~= tail.subrange(
                8 * i as int,
                8 * i as int + 8,
            ));
        }
        vals.push(v);
        i = i + 1;
    }
    vals
}

/// The little-endian forms of the values in `vals`, back to back.
pub open spec fn u64s_bytes(vals: Seq<u64>) -> Seq<u8>
    decreases vals.len(),
{
    if vals.len() == 0 {
        Seq::empty()
    } else {
        spec_u64_to_le_bytes(vals.first()) + u64s_bytes(vals.drop_first())
    }
}

/// The wire form of `n` values is `8 * n` bytes long.
pub proof fn lemma_u64s_bytes_len(vals: Seq<u64>)
    ensures
        u64s_bytes(vals).len() == 8 * vals.len(),
    decreases vals.len(),
{
    if vals.len() == 0 {
    } else {
        lemma_le_round_trips();
        lemma_u64s_bytes_len(vals.drop_first());
    }
}

/// Appending one value appends its 8 bytes.
pub proof fn lemma_u64s_bytes_snoc(vals: Seq<u64>, v: u64)
    ensures
        u64s_bytes(vals.push(v)) == u64s_bytes(vals) + spec_u64_to_le_bytes(v),
    decreases vals.len(),
{
    if vals.len() == 0 {
        assert(vals.push(v).drop_first() =~= Seq::<u64>::empty());
        assert(vals.push(v).first() == v);
        assert(u64s_bytes(vals.push(v)) == spec_u64_to_le_bytes(v) + u64s_bytes(
            vals.push(v).drop_first(),
        ));
        assert(u64s_bytes(vals.push(v).drop_first()) == Seq::<u8>::empty());
        assert(u64s_bytes(vals.push(v)) =~= u64s_bytes(vals) + spec_u64_to_le_bytes(v));
    } else {
        lemma_u64s_bytes_snoc(vals.drop_first(), v);
        assert(vals.push(v).drop_first() =~= vals.drop_first().push(v));
        assert(vals.push(v).first() == vals.first());
        assert(u64s_bytes(vals.push(v)) == spec_u64_to_le_bytes(vals.first()) + u64s_bytes(
            vals.drop_first().push(v),
        ));
        assert(u64s_bytes(vals.push(v)) =~= u64s_bytes(vals) + spec_u64_to_le_bytes(v));
    }
}

/// Reading back the wire form of `vals`, with anything following it, yields
/// `vals` again.
pub proof fn lemma_u64s_round_trip(vals: Seq<u64>, tail: Seq<u8>)
    ensures
        spec_u64s(u64s_bytes(vals) + tail, vals.len()) == vals,
    decreases vals.len(),
{
    lemma_u64s_bytes_len(vals);
    if vals.len() == 0 {
        assert(spec_u64s(u64s_bytes(vals) + tail, 0) =~= vals);
    } else {
        lemma_le_round_trips();
        lemma_u64s_round_trip(vals.drop_first(), tail);
        let whole = u64s_bytes(vals) + tail;
        assert(whole.subrange(0, 8) =~= spec_u64_to_le_bytes(vals.first()));
        assert(whole.skip(8) =~= u64s_bytes(vals.drop_first()) + tail);
        assert(spec_u64s(whole, vals.len()) =~= vals);
    }
}

/// Appends the little-endian forms of all values in `vals` to `buf`.
pub fn write_u64s(vals: &Vec<u64>, buf: &mut Vec<u8>)
    ensures
        final(buf)@ == old(buf)@ + u64s_bytes(vals@),
{
    let mut i: usize = 0;
    proof {
        assert(vals@.take(0) =~= Seq::<u64>::empty());
        assert(buf@ =~= buf@ + u64s_bytes(vals@.take(0)));
    }
    while i < vals.len()
        invariant
            i <= vals@.len(),
            buf@ == old(buf)@ + u64s_bytes(vals@.take(i as int)),
        decreases vals@.len() - i,
    {
        let v = vals[i];
        push_u64_le(buf, v);
        proof {
            assert(vals@.take(i + 1) =~= vals@.take(i as int).push(vals@[i as int]));
            lemma_u64s_bytes_snoc(vals@.take(i as int), vals@[i as int]);
        }
        i = i + 1;
    }
    proof {
        assert(vals@.take(vals@.len() as int) =~= vals@);
    }
}

/// The lengths of the little-endian forms, and that decoding inverts encoding.
pub proof fn lemma_le_round_trips()
    ensures
        forall|x: u16|
            {
                &&& (#[trigger] spec_u16_to_le_bytes(x)).len() == 2
                &&& spec_u16_from_le_bytes(spec_u16_to_le_bytes(x)) == x
            },
        forall|s: Seq<u8>|
            s.len() == 2 ==> #[trigger] spec_u16_to_le_bytes(spec_u16_from_le_bytes(s)) == s,
        forall|x: u32|
            {
                &&& (#[trigger] spec_u32_to_le_bytes(x)).len() == 4
                &&& spec_u32_from_le_bytes(spec_u32_to_le_bytes(x)) == x
            },
        forall|s: Seq<u8>|
            s.len() == 4 ==> #[trigger] spec_u32_to_le_bytes(spec_u32_from_le_bytes(s)) == s,
        forall|x: u64|
            {
                &&& (#[trigger] spec_u64_to_le_bytes(x)).len() == 8
                &&& spec_u64_from_le_bytes(spec_u64_to_le_bytes(x)) == x
            },
        forall|s: Seq<u8>|
            s.len() == 8 ==> #[trigger] spec_u64_to_le_bytes(spec_u64_from_le_bytes(s)) == s,
{
    lemma_auto_spec_u16_to_from_le_bytes();
    lemma_auto_spec_u32_to_from_le_bytes();
    lemma_auto_spec_u64_to_from_le_bytes();
}

} // verus!
