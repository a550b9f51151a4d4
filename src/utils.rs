//! Decoding of expanded bytes into scalars, and one budgeted expansion.
use bls12_381::Scalar;
use vstd::prelude::*;

use crate::constants::{EXPAND_LEN, MAX_BYTES_NUM};
use crate::primitives::{expand_xmd, scalar_from_wide};
pub use crate::primitives::xmd_sha256;

pub use crate::primitives::get_random_seed;

verus! {

/// A chunk padded with zero bytes on the high-order side to 64 bytes.
pub open spec fn pad_wide(chunk: Seq<u8>) -> Seq<u8> {
    chunk + Seq::new((64 - chunk.len()) as nat, |i: int| 0u8)
}

/// The scalar that a chunk of expanded bytes decodes to.
pub open spec fn chunk_scalar(chunk: Seq<u8>) -> Scalar {
    scalar_from_wide(pad_wide(chunk))
}

/// Decodes one chunk of expanded bytes into a scalar by wide reduction.
pub fn decode_chunk(chunk: &[u8; 48]) -> (r: Scalar)
    ensures
        r == chunk_scalar(chunk@),
{
    let mut wide = [0u8; 64];
    let mut i: usize = 0;
    while i < 48
        invariant
            i <= 48,
            wide@.len() == 64,
            forall|j: int| 0 <= j < i ==> wide@[j] == chunk@[j],
            forall|j: int| 48 <= j < 64 ==> wide@[j] == 0u8,
        decreases 48 - i,
    {
        wide[i] = chunk[i];
        i = i + 1;
    }
    assert(wide@ =~= pad_wide(chunk@));
    Scalar::from_bytes_wide(&wide)
}

/// Decoding is a function of the chunk alone: equal chunks give equal scalars.
pub proof fn lemma_decode_deterministic(a: Seq<u8>, b: Seq<u8>)
    requires
        a == b,
    ensures
        chunk_scalar(a) == chunk_scalar(b),
{
}

/// The scalars decoded from `count` consecutive chunks of `bytes` starting at `start`.
pub open spec fn decode_run(bytes: Seq<u8>, start: int, count: nat) -> Seq<Scalar> {
    Seq::new(
        count,
        |i: int| chunk_scalar(bytes.subrange(start + EXPAND_LEN * i, start + EXPAND_LEN * i + EXPAND_LEN)),
    )
}

/// The scalars decoded from the first `count` chunks of `bytes`.
pub open spec fn decode_prefix(bytes: Seq<u8>, count: nat) -> Seq<Scalar> {
    decode_run(bytes, 0, count)
}

/// The output of one expansion, read chunk by chunk up to a declared length.
pub struct BudgetedExpander {
    bytes: Vec<u8>,
    cursor: usize,
}

impl BudgetedExpander {
    /// The whole output of the expansion.
    pub closed spec fn stream(&self) -> Seq<u8> {
        self.bytes@
    }

    /// How many bytes have been read.
    pub closed spec fn pos(&self) -> nat {
        self.cursor as nat
    }

    /// The cursor stays within the output, which fits one expansion.
    pub closed spec fn wf(&self) -> bool {
        self.cursor <= self.bytes@.len() <= MAX_BYTES_NUM
    }

    /// Expands `seed` under `tag` to `output_len` bytes, none of them read yet.
    pub fn init(seed: &[u8], tag: &[u8], output_len: usize) -> (r: Self)
        requires
            output_len <= MAX_BYTES_NUM,
        ensures
            r.wf(),
            r.stream() == xmd_sha256(seed@, tag@, output_len as nat),
            r.stream().len() == output_len,
            r.pos() == 0,
    {
        BudgetedExpander { bytes: expand_xmd(seed, tag, output_len), cursor: 0 }
    }

    /// Number of bytes not read yet.
    pub fn remaining(&self) -> (r: usize)
        requires
            self.wf(),
        ensures
            r == self.stream().len() - self.pos(),
    {
        self.bytes.len() - self.cursor
    }

    /// Reads the next chunk of `EXPAND_LEN` bytes.
    pub fn read_chunk(&mut self) -> (r: [u8; 48])
        requires
            old(self).wf(),
            old(self).pos() + EXPAND_LEN <= old(self).stream().len(),
        ensures
            final(self).wf(),
            final(self).stream() == old(self).stream(),
            final(self).pos() == old(self).pos() + EXPAND_LEN,
            r@ == old(self).stream().subrange(old(self).pos() as int, old(self).pos() + EXPAND_LEN),
    {
        let mut chunk = [0u8; 48];
        let start = self.cursor;
        let mut i: usize = 0;
        while i < EXPAND_LEN
            invariant
                i <= EXPAND_LEN,
                start + EXPAND_LEN <= self.bytes@.len() <= MAX_BYTES_NUM,
                chunk@.len() == 48,
                forall|j: int| 0 <= j < i ==> chunk@[j] == self.bytes@[start + j],
            decreases EXPAND_LEN - i,
        {
            chunk[i] = self.bytes[start + i];
            i = i + 1;
        }
        self.cursor = start + EXPAND_LEN;
        assert(chunk@ =~= self.bytes@.subrange(start as int, start + EXPAND_LEN));
        chunk
    }

    /// The bytes not read yet, in order.
    pub fn drain_tail(self) -> (r: Vec<u8>)
        requires
            self.wf(),
        ensures
            r@ == self.stream().subrange(self.pos() as int, self.stream().len() as int),
    {
        let mut tail: Vec<u8> = Vec::new();
        let mut i: usize = self.cursor;
        while i < self.bytes.len()
            invariant
                self.cursor <= i <= self.bytes@.len(),
                tail@ == self.bytes@.subrange(self.cursor as int, i as int),
            decreases self.bytes@.len() - i,
        {
            tail.push(self.bytes[i]);
            i = i + 1;
            assert(tail@ =~= self.bytes@.subrange(self.cursor as int, i as int));
        }
        tail
    }
}

/// Reads `count` chunks from `expander`, decodes each into a scalar, appends
/// them to `scalars` in order, and returns a copy of the extended `scalars`.
pub fn scalars_from_random_bytes(
    count: usize,
    expander: &mut BudgetedExpander,
    scalars: &mut Vec<Scalar>,
) -> (r: Vec<Scalar>)
    requires
        old(expander).wf(),
        old(expander).pos() + EXPAND_LEN * count <= old(expander).stream().len(),
    ensures
        final(expander).wf(),
        final(expander).stream() == old(expander).stream(),
        final(expander).pos() == old(expander).pos() + EXPAND_LEN * count,
        final(scalars)@ == old(scalars)@ + decode_run(
            old(expander).stream(),
            old(expander).pos() as int,
            count as nat,
        ),
        r@ == final(scalars)@,
{
    let ghost start = expander.pos() as int;
    let ghost stream = expander.stream();
    let ghost before = scalars@;
    let mut k: usize = 0;
    while k < count
        invariant
            k <= count,
            expander.wf(),
            expander.stream() == stream,
            start + EXPAND_LEN * count <= stream.len(),
            expander.pos() == start + EXPAND_LEN * k,
            scalars@ == before + decode_run(stream, start, k as nat),
        decreases count - k,
    {
        assert(expander.pos() + EXPAND_LEN <= stream.len()) by (nonlinear_arith)
            requires
                expander.pos() == start + EXPAND_LEN * k,
                k < count,
                start + EXPAND_LEN * count <= stream.len(),
        ;
        let chunk = expander.read_chunk();
        let scalar = decode_chunk(&chunk);
        scalars.push(scalar);
        k = k + 1;
        assert(scalars@ =~= before + decode_run(stream, start, k as nat));
    }
    let mut copy: Vec<Scalar> = Vec::new();
    let mut j: usize = 0;
    while j < scalars.len()
        invariant
            j <= scalars@.len(),
            copy@ == scalars@.subrange(0, j as int),
        decreases scalars@.len() - j,
    {
        copy.push(scalars[j]);
        j = j + 1;
        assert(copy@ =~= scalars@.subrange(0, j as int));
    }
    assert(copy@ =~= scalars@);
    copy
}

/// Expands `msg` under `dst` to `count` chunks and appends their scalars to
/// `scalars`; returns a copy of the extended `scalars`. One expansion serves at
/// most `MAX_BYTES_NUM / EXPAND_LEN` scalars, so larger counts are refused.
pub fn hash_to_scalar(msg: &[u8], count: usize, dst: &[u8], scalars: &mut Vec<Scalar>) -> (r: Vec<Scalar>)
    requires
        count <= MAX_BYTES_NUM / EXPAND_LEN,
    ensures
        final(scalars)@ == old(scalars)@ + decode_prefix(
            xmd_sha256(msg@, dst@, (EXPAND_LEN * count) as nat),
            count as nat,
        ),
        r@ == final(scalars)@,
{
    let mut expander = BudgetedExpander::init(msg, dst, count * EXPAND_LEN);
    assert(count * EXPAND_LEN == EXPAND_LEN * count);
    scalars_from_random_bytes(count, &mut expander, scalars)
}

} // verus!
