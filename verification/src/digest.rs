//! Content fingerprinting: detect whether the editor changed the bytes.
//!
//! The fingerprint is the 64-bit FNV-1a hash of the content.  It is a
//! function of the bytes alone and is used only to compare the fetched
//! ("before") image with the on-disk ("after") image of the same object;
//! it is not a security measure.

use vstd::prelude::*;

verus! {

/// Offset basis of the 64-bit FNV-1a hash.
pub const FNV_OFFSET_BASIS: u64 = 0xcbf2_9ce4_8422_2325;

/// Prime multiplier of the 64-bit FNV-1a hash.
pub const FNV_PRIME: u64 = 0x100_0000_01b3;

/// One FNV-1a round: fold one byte into the running state.
pub open spec fn fingerprint_step(h: u64, b: u8) -> u64 {
    (((h ^ (b as u64)) as nat * FNV_PRIME as nat) % 0x1_0000_0000_0000_0000) as u64
}

/// The running state after folding `bytes`, in order, into `h`.
pub open spec fn fingerprint_from(h: u64, bytes: Seq<u8>) -> u64
    decreases bytes.len(),
{
    if bytes.len() == 0 {
        h
    } else {
        fingerprint_from(fingerprint_step(h, bytes[0]), bytes.skip(1))
    }
}

/// The fingerprint of a byte sequence.
pub open spec fn fingerprint_of(bytes: Seq<u8>) -> u64 {
    fingerprint_from(FNV_OFFSET_BASIS, bytes)
}

/// Folding `a + b` is folding `a`, then `b`: feeding content chunk by
/// chunk, in delivery order, gives the same state as feeding it whole.
pub proof fn lemma_fingerprint_chunked(h: u64, a: Seq<u8>, b: Seq<u8>)
    ensures
        fingerprint_from(h, a + b) == fingerprint_from(fingerprint_from(h, a), b),
    decreases a.len(),
{
    if a.len() == 0 {
        assert(a + b =~= b);
    } else {
        assert((a + b)[0] == a[0]);
        assert((a + b).skip(1) =~= a.skip(1) + b);
        lemma_fingerprint_chunked(fingerprint_step(h, a[0]), a.skip(1), b);
    }
}

/// The fingerprint is deterministic: equal byte sequences always yield
/// equal digests, however often and wherever they are computed.
pub proof fn lemma_fingerprint_deterministic(b1: Seq<u8>, b2: Seq<u8>)
    requires
        b1 == b2,
    ensures
        fingerprint_of(b1) == fingerprint_of(b2),
{
}

/// An incremental digest: the fingerprint state over the bytes fed so
/// far, updated as fetched chunks arrive so the content need not be read
/// a second time.
pub struct Digest {
    state: u64,
    fed: Ghost<Seq<u8>>,
}

impl Digest {
    /// The bytes folded in so far.
    pub closed spec fn fed(&self) -> Seq<u8> {
        self.fed@
    }

    /// The running state is the fold of the bytes fed so far.
    pub closed spec fn wf(&self) -> bool {
        self.state == fingerprint_from(FNV_OFFSET_BASIS, self.fed@)
    }

    /// A fresh digest over no bytes.
    pub fn new() -> (d: Digest)
        ensures
            d.wf(),
            d.fed() == Seq::<u8>::empty(),
    {
        Digest { state: FNV_OFFSET_BASIS, fed: Ghost(Seq::empty()) }
    }

    /// Fold one chunk of content into the digest.
    pub fn update(&mut self, chunk: &[u8])
        requires
            old(self).wf(),
        ensures
            final(self).wf(),
            final(self).fed() == old(self).fed() + chunk@,
    {
        let ghost orig = self.fed@;
        let n = chunk.len();
        let mut k: usize = 0;
        while k < n
            invariant
                k <= n,
                n == chunk@.len(),
                self.fed@ == orig + chunk@.take(k as int),
                self.wf(),
            decreases n - k,
        {
            let b = chunk[k];
            proof {
                lemma_fingerprint_chunked(FNV_OFFSET_BASIS, self.fed@, seq![b]);
                assert(seq![b].skip(1) =~= Seq::<u8>::empty());
                assert(seq![b][0] == b);
                assert(fingerprint_from(fingerprint_step(self.state, b), Seq::<u8>::empty())
                    == fingerprint_step(self.state, b));
                assert(fingerprint_from(self.state, seq![b]) == fingerprint_step(self.state, b));
            }
            self.state = (self.state ^ (b as u64)).wrapping_mul(FNV_PRIME);
            proof {
                self.fed@ = self.fed@ + seq![b];
                assert(orig + chunk@.take(k as int) + seq![b] =~= orig + chunk@.take(k + 1));
            }
            k += 1;
        }
        proof {
            assert(orig + chunk@.take(n as int) =~= orig + chunk@);
        }
    }

    /// The fingerprint of everything fed so far.
    pub fn finish(&self) -> (r: u64)
        requires
            self.wf(),
        ensures
            r == fingerprint_of(self.fed()),
    {
        self.state
    }

    /// The fingerprint of `bytes`, computed in one pass.
    pub fn fingerprint(bytes: &[u8]) -> (r: u64)
        ensures
            r == fingerprint_of(bytes@),
    {
        let mut d = Digest::new();
        d.update(bytes);
        proof {
            assert(Seq::<u8>::empty() + bytes@ =~= bytes@);
        }
        d.finish()
    }
}

} // verus!
