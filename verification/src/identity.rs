//! The 32-byte identities that name admins, mints, stakers and accounts.

use vstd::bytes::{
    lemma_auto_spec_u64_to_from_le_bytes, spec_u64_from_le_bytes, spec_u64_to_le_bytes,
    u64_from_le_bytes, u64_to_le_bytes,
};
use vstd::prelude::*;

verus! {

/// A 32-byte identity, held as four 64-bit words; the wire form is the
/// words' little-endian bytes in order, 32 bytes in all.
#[derive(Clone, Copy, Debug, PartialEq, Eq, Structural, Hash)]
pub struct Identity {
    pub w0: u64,
    pub w1: u64,
    pub w2: u64,
    pub w3: u64,
}

impl Identity {
    /// The 32-byte wire form of this identity.
    pub open spec fn bytes(&self) -> Seq<u8> {
        spec_u64_to_le_bytes(self.w0) + spec_u64_to_le_bytes(self.w1)
            + spec_u64_to_le_bytes(self.w2) + spec_u64_to_le_bytes(self.w3)
    }

    /// The identity whose wire form is `s`.
    pub open spec fn spec_from_bytes(s: Seq<u8>) -> Identity
        recommends
            s.len() == 32,
    {
        Identity {
            w0: spec_u64_from_le_bytes(s.subrange(0, 8)),
            w1: spec_u64_from_le_bytes(s.subrange(8, 16)),
            w2: spec_u64_from_le_bytes(s.subrange(16, 24)),
            w3: spec_u64_from_le_bytes(s.subrange(24, 32)),
        }
    }

    /// Appends the 32-byte wire form to `buf`.
    pub fn write_bytes(&self, buf: &mut Vec<u8>)
        ensures
            final(buf)@ == old(buf)@ + self.bytes(),
    {
        proof {
            lemma_auto_spec_u64_to_from_le_bytes();
        }
        let mut b0 = u64_to_le_bytes(self.w0);
        let mut b1 = u64_to_le_bytes(self.w1);
        let mut b2 = u64_to_le_bytes(self.w2);
        let mut b3 = u64_to_le_bytes(self.w3);
        buf.append(&mut b0);
        buf.append(&mut b1);
        buf.append(&mut b2);
        buf.append(&mut b3);
        proof {
            assert(buf@ =~= old(buf)@ + self.bytes());
        }
    }

    /// The 32-byte wire form as a fresh vector.
    pub fn to_bytes(&self) -> (r: Vec<u8>)
        ensures
            r@ == self.bytes(),
            r@.len() == 32,
    {
        let mut buf: Vec<u8> = Vec::new();
        self.write_bytes(&mut buf);
        proof {
            lemma_bytes_len(*self);
        }
        buf
    }

    /// Reads the identity whose wire form sits at `data[off .. off + 32]`.
    pub fn read_bytes(data: &[u8], off: usize) -> (r: Identity)
        requires
            off + 32 <= data@.len(),
        ensures
            r == Identity::spec_from_bytes(data@.subrange(off as int, off + 32)),
    {
        let n = data.len();
        assert(off + 32 <= n);
        let w0 = u64_from_le_bytes(vstd::slice::slice_subrange(data, off, off + 8));
        let w1 = u64_from_le_bytes(vstd::slice::slice_subrange(data, off + 8, off + 16));
        let w2 = u64_from_le_bytes(vstd::slice::slice_subrange(data, off + 16, off + 24));
        let w3 = u64_from_le_bytes(vstd::slice::slice_subrange(data, off + 24, off + 32));
        let r = Identity { w0, w1, w2, w3 };
        proof {
            let s = data@.subrange(off as int, off + 32);
            assert(data@.subrange(off as int, off + 8) =~= s.subrange(0, 8));
            assert(data@.subrange(off + 8, off + 16) =~= s.subrange(8, 16));
            assert(data@.subrange(off + 16, off + 24) =~= s.subrange(16, 24));
            assert(data@.subrange(off + 24, off + 32) =~= s.subrange(24, 32));
        }
        r
    }
}

/// The wire forms of the identities in `ids`, back to back.
pub open spec fn ids_bytes(ids: Seq<Identity>) -> Seq<u8>
    decreases ids.len(),
{
    if ids.len() == 0 {
        Seq::empty()
    } else {
        ids.first().bytes() + ids_bytes(ids.drop_first())
    }
}

/// The wire form of `n` identities is `32 * n` bytes long.
pub proof fn lemma_ids_bytes_len(ids: Seq<Identity>)
    ensures
        ids_bytes(ids).len() == 32 * ids.len(),
    decreases ids.len(),
{
    if ids.len() == 0 {
    } else {
        lemma_bytes_len(ids.first());
        lemma_ids_bytes_len(ids.drop_first());
    }
}

/// Appending one identity appends its 32 bytes.
pub proof fn lemma_ids_bytes_snoc(ids: Seq<Identity>, id: Identity)
    ensures
        ids_bytes(ids.push(id)) == ids_bytes(ids) + id.bytes(),
    decreases ids.len(),
{
    if ids.len() == 0 {
        assert(ids.push(id).drop_first() =~= Seq::<Identity>::empty());
        assert(ids.push(id).first() == id);
        assert(ids_bytes(ids.push(id)) == id.bytes() + ids_bytes(ids.push(id).drop_first()));
        assert(ids_bytes(ids.push(id).drop_first()) == Seq::<u8>::empty());
        assert(ids_bytes(ids.push(id)) =~= ids_bytes(ids) + id.bytes());
    } else {
        lemma_ids_bytes_snoc(ids.drop_first(), id);
        assert(ids.push(id).drop_first() =~= ids.drop_first().push(id));
        assert(ids.push(id).first() == ids.first());
        assert(ids_bytes(ids.push(id)) == ids.first().bytes() + ids_bytes(
            ids.drop_first().push(id),
        ));
        assert(ids_bytes(ids.push(id)) =~= ids_bytes(ids) + id.bytes());
    }
}

/// Reading back the wire form of `ids`, with anything following it, yields
/// `ids` again.
pub proof fn lemma_ids_round_trip(ids: Seq<Identity>, tail: Seq<u8>)
    ensures
        spec_ids(ids_bytes(ids) + tail, ids.len()) == ids,
    decreases ids.len(),
{
    lemma_ids_bytes_len(ids);
    if ids.len() == 0 {
        assert(spec_ids(ids_bytes(ids) + tail, 0) =~= ids);
    } else {
        lemma_bytes_len(ids.first());
        lemma_ids_round_trip(ids.drop_first(), tail);
        lemma_identity_round_trip(ids.first());
        let whole = ids_bytes(ids) + tail;
        assert(whole.subrange(0, 32) =~= ids.first().bytes());
        assert(whole.skip(32) =~= ids_bytes(ids.drop_first()) + tail);
        assert(spec_ids(whole, ids.len()) =~= ids);
    }
}

/// Appends the wire forms of all identities in `ids` to `buf`.
pub fn write_ids(ids: &Vec<Identity>, buf: &mut Vec<u8>)
    ensures
        final(buf)@ == old(buf)@ + ids_bytes(ids@),
{
    let mut i: usize = 0;
    proof {
        assert(ids@.take(0) =~= Seq::<Identity>::empty());
        assert(buf@ =~= buf@ + ids_bytes(ids@.take(0)));
    }
    while i < ids.len()
        invariant
            i <= ids@.len(),
            buf@ == old(buf)@ + ids_bytes(ids@.take(i as int)),
        decreases ids@.len() - i,
    {
        let id = ids[i];
        id.write_bytes(buf);
        proof {
            assert(ids@.take(i + 1) =~= ids@.take(i as int).push(ids@[i as int]));
            lemma_ids_bytes_snoc(ids@.take(i as int), ids@[i as int]);
        }
        i = i + 1;
    }
    proof {
        assert(ids@.take(ids@.len() as int) =~= ids@);
    }
}

/// The wire form of an identity is 32 bytes long.
pub proof fn lemma_bytes_len(id: Identity)
    ensures
        id.bytes().len() == 32,
{
    lemma_auto_spec_u64_to_from_le_bytes();
}

/// Decoding inverts encoding: an identity is recovered from its wire form.
pub proof fn lemma_identity_round_trip(id: Identity)
    ensures
        Identity::spec_from_bytes(id.bytes()) == id,
        id.bytes().len() == 32,
{
    lemma_auto_spec_u64_to_from_le_bytes();
    let s = id.bytes();
    assert(s.subrange(0, 8) =~= spec_u64_to_le_bytes(id.w0));
    assert(s.subrange(8, 16) =~= spec_u64_to_le_bytes(id.w1));
    assert(s.subrange(16, 24) =~= spec_u64_to_le_bytes(id.w2));
    assert(s.subrange(24, 32) =~= spec_u64_to_le_bytes(id.w3));
}

/// The `n` identities whose wire forms sit back to back at the front of
/// `data`.
pub open spec fn spec_ids(data: Seq<u8>, n: nat) -> Seq<Identity>
    recommends
        data.len() >= 32 * n,
    decreases n,
{
    if n == 0 {
        Seq::empty()
    } else {
        seq![Identity::spec_from_bytes(data.subrange(0, 32))] + spec_ids(
            data.skip(32),
            (n - 1) as nat,
        )
    }
}

/// Reading one more identity appends the one at offset `32 * n`.
pub proof fn lemma_spec_ids_snoc(data: Seq<u8>, n: nat)
    requires
        data.len() >= 32 * (n + 1),
    ensures
        spec_ids(data, n + 1) == spec_ids(data, n).push(
            Identity::spec_from_bytes(data.subrange(32 * n as int, 32 * n as int + 32)),
        ),
    decreases n,
{
    if n == 0 {
        assert(spec_ids(data.skip(32), 0) == Seq::<Identity>::empty());
        assert(spec_ids(data, 1) =~= spec_ids(data, 0).push(
            Identity::spec_from_bytes(data.subrange(0, 32)),
        ));
    } else {
        lemma_spec_ids_snoc(data.skip(32), (n - 1) as nat);
        assert(data.skip(32).subrange(32 * (n - 1), 32 * (n - 1) + 32) =~= data.subrange(
            32 * n as int,
            32 * n as int + 32,
        ));
        assert(spec_ids(data, n + 1) =~= spec_ids(data, n).push(
            Identity::spec_from_bytes(data.subrange(32 * n as int, 32 * n as int + 32)),
        ));
    }
}

/// Reads `n` identities whose wire forms sit back to back at `data[off ..]`.
pub fn read_ids(data: &[u8], off: usize, n: usize) -> (r: Vec<Identity>)
    requires
        off + 32 * n <= data@.len(),
    ensures
        r@ == spec_ids(data@.skip(off as int), n as nat),
        r@.len() == n,
{
    let ghost tail = data@.skip(off as int);
    let len = data.len();
    let mut ids: Vec<Identity> = Vec::new();
    let mut i: usize = 0;
    proof {
        assert(ids@ =~= spec_ids(tail, 0));
    }
    while i < n
        invariant
            i <= n,
            off + 32 * n <= len,
            len == data@.len(),
            tail == data@.skip(off as int),
            ids@ == spec_ids(tail, i as nat),
            ids@.len() == i,
        decreases n - i,
    {
        let id = Identity::read_bytes(data, off + 32 * i);
        proof {
            lemma_spec_ids_snoc(tail, i as nat);
            assert(data@.subrange(off + 32 * i, off + 32 * i + 32) =~= tail.subrange(
                32 * i as int,
                32 * i as int + 32,
            ));
        }
        ids.push(id);
        i = i + 1;
    }
    ids
}

/// Encoding inverts decoding: any 32 bytes are the wire form of the identity
/// they decode to.
pub proof fn lemma_identity_bytes_round_trip(s: Seq<u8>)
    requires
        s.len() == 32,
    ensures
        Identity::spec_from_bytes(s).bytes() == s,
{
    lemma_auto_spec_u64_to_from_le_bytes();
    let id = Identity::spec_from_bytes(s);
    assert(spec_u64_to_le_bytes(id.w0) =~= s.subrange(0, 8));
    assert(spec_u64_to_le_bytes(id.w1) =~= s.subrange(8, 16));
    assert(spec_u64_to_le_bytes(id.w2) =~= s.subrange(16, 24));
    assert(spec_u64_to_le_bytes(id.w3) =~= s.subrange(24, 32));
    assert(id.bytes() =~= s);
}

} // verus!
