//! The three ways of filling a batch of scalars: chained expansions from one
//! seed, one expansion per fresh seed, and independent random draws.
use bls12_381::Scalar;
use vstd::arithmetic::div_mod::lemma_fundamental_div_mod;
use vstd::arithmetic::mul::{
    lemma_mul_basics, lemma_mul_is_commutative, lemma_mul_is_distributive_sub_other_way,
};
use vstd::prelude::*;

use crate::constants::{DST, DST_BYTES_NUM, EXPAND_LEN, MAX_BYTES_NUM};
use crate::primitives::{random_scalar, xmd_sha256};
use crate::utils::{decode_prefix, get_random_seed, hash_to_scalar, scalars_from_random_bytes, BudgetedExpander};

verus! {

/// Scalars that one chained expansion yields while keeping its tag bytes.
pub open spec fn per_epoch_count() -> nat {
    ((MAX_BYTES_NUM - DST_BYTES_NUM) / EXPAND_LEN as int) as nat
}

/// Output length of one chained expansion: its scalars and the tag bytes.
pub open spec fn epoch_len() -> nat {
    (per_epoch_count() * EXPAND_LEN + DST_BYTES_NUM) as nat
}

/// Scalars that one expansion yields when no bytes are kept for a tag.
pub open spec fn per_seed_count() -> nat {
    (MAX_BYTES_NUM / EXPAND_LEN) as nat
}

/// The low 32 bits of `n`, big-endian.
pub open spec fn be4(n: nat) -> Seq<u8> {
    seq![
        (n / 256 / 256 / 256 % 256) as u8,
        (n / 256 / 256 % 256) as u8,
        (n / 256 % 256) as u8,
        (n % 256) as u8,
    ]
}

/// The tag of the first epoch: the base tag's length, then the base tag.
pub open spec fn base_tag() -> Seq<u8> {
    be4(DST@.len()) + DST@
}

/// The bytes that an epoch's expansion keeps after its scalars' chunks.
pub open spec fn tag_tail(out: Seq<u8>) -> Seq<u8> {
    Seq::new(DST_BYTES_NUM as nat, |k: int| out[per_epoch_count() * EXPAND_LEN + k])
}

/// The tag of epoch `i` of a chained derivation from `seed`: after the first,
/// the epoch's counter followed by the tail bytes of the previous epoch.
pub open spec fn epoch_tag(seed: Seq<u8>, i: nat) -> Seq<u8>
    decreases i,
{
    if i == 0 {
        base_tag()
    } else {
        be4(i) + tag_tail(xmd_sha256(seed, epoch_tag(seed, (i - 1) as nat), epoch_len()))
    }
}

/// The scalars of full epoch `i`.
pub open spec fn epoch_scalars(seed: Seq<u8>, i: nat) -> Seq<Scalar> {
    decode_prefix(xmd_sha256(seed, epoch_tag(seed, i), epoch_len()), per_epoch_count())
}

/// The scalars of the first `k` full epochs, in order.
pub open spec fn chained_epochs(seed: Seq<u8>, k: nat) -> Seq<Scalar>
    decreases k,
{
    if k == 0 {
        Seq::empty()
    } else {
        chained_epochs(seed, (k - 1) as nat) + epoch_scalars(seed, (k - 1) as nat)
    }
}

/// The batch of `count` scalars chained from `seed`: the full epochs, then
/// the remainder from one more expansion under the last tag.
pub open spec fn chained_scalars(seed: Seq<u8>, count: nat) -> Seq<Scalar> {
    let full = count / per_epoch_count();
    let rem = count % per_epoch_count();
    chained_epochs(seed, full) + decode_prefix(
        xmd_sha256(seed, epoch_tag(seed, full), (rem * EXPAND_LEN) as nat),
        rem,
    )
}

/// The scalars that `n` chunks of one expansion of `seed` under the base tag give.
pub open spec fn seed_scalars(seed: Seq<u8>, n: nat) -> Seq<Scalar> {
    decode_prefix(xmd_sha256(seed, DST@, (EXPAND_LEN * n) as nat), n)
}

/// The scalars of the first `k` seeds, each expanded to its full capacity.
pub open spec fn mixed_full(seeds: Seq<[u8; 32]>, k: nat) -> Seq<Scalar>
    decreases k,
{
    if k == 0 {
        Seq::empty()
    } else {
        mixed_full(seeds, (k - 1) as nat) + seed_scalars(seeds[k - 1]@, per_seed_count())
    }
}

/// The batch of `count` scalars from one seed per full expansion and one
/// more seed for the remainder.
pub open spec fn mixed_scalars(seeds: Seq<[u8; 32]>, count: nat) -> Seq<Scalar> {
    let full = count / per_seed_count();
    mixed_full(seeds, full) + seed_scalars(seeds[full as int]@, count % per_seed_count())
}

/// Big-endian encoding of the low 32 bits of a counter.
pub fn encode_counter(n: usize) -> (r: [u8; 4])
    ensures
        r@ == be4(n as nat),
{
    let r = [
        (n / 256 / 256 / 256 % 256) as u8,
        (n / 256 / 256 % 256) as u8,
        (n / 256 % 256) as u8,
        (n % 256) as u8,
    ];
    assert(r@ =~= be4(n as nat));
    r
}

/// The concatenation of an encoded counter and a byte string.
pub fn prefix_counter(n: usize, tail: &[u8]) -> (r: Vec<u8>)
    ensures
        r@ == be4(n as nat) + tail@,
{
    let head = encode_counter(n);
    let mut tag: Vec<u8> = Vec::new();
    let mut i: usize = 0;
    while i < 4
        invariant
            i <= 4,
            tag@ == head@.subrange(0, i as int),
        decreases 4 - i,
    {
        tag.push(head[i]);
        i = i + 1;
        assert(tag@ =~= head@.subrange(0, i as int));
    }
    let mut j: usize = 0;
    while j < tail.len()
        invariant
            j <= tail@.len(),
            tag@ == head@ + tail@.subrange(0, j as int),
        decreases tail@.len() - j,
    {
        tag.push(tail[j]);
        j = j + 1;
        assert(tag@ =~= head@ + tail@.subrange(0, j as int));
    }
    assert(tail@.subrange(0, tail@.len() as int) =~= tail@);
    tag
}

/// The tag of the first epoch.
pub fn base_tag_bytes() -> (r: Vec<u8>)
    ensures
        r@ == base_tag(),
{
    prefix_counter(DST.len(), &DST)
}

/// Appends the scalars of `count` chunks of `expander` to `scalars`.
fn append_decoded(count: usize, expander: &mut BudgetedExpander, scalars: &mut Vec<Scalar>)
    requires
        old(expander).wf(),
        old(expander).pos() + EXPAND_LEN * count <= old(expander).stream().len(),
    ensures
        final(expander).wf(),
        final(expander).stream() == old(expander).stream(),
        final(expander).pos() == old(expander).pos() + EXPAND_LEN * count,
        final(scalars)@ == old(scalars)@ + crate::utils::decode_run(
            old(expander).stream(),
            old(expander).pos() as int,
            count as nat,
        ),
{
    let mut fresh: Vec<Scalar> = Vec::new();
    let mut batch = scalars_from_random_bytes(count, expander, &mut fresh);
    scalars.append(&mut batch);
}

/// All `count` scalars chained from one seed: full epochs of
/// `per_epoch_count()` scalars, each epoch's tag taken from the tail of the
/// previous expansion, then the remainder under the last tag.
pub fn chained_scalars_from_seed(seed: &[u8; 32], count: usize) -> (r: Vec<Scalar>)
    ensures
        r@ == chained_scalars(seed@, count as nat),
{
    let per_epoch: usize = (MAX_BYTES_NUM - DST_BYTES_NUM) / EXPAND_LEN;
    let used: usize = per_epoch * EXPAND_LEN;
    let numexp: usize = count / per_epoch;
    let mut scalars: Vec<Scalar> = Vec::new();
    let mut dst_next = base_tag_bytes();
    let mut i: usize = 1;
    assert(numexp < usize::MAX) by (nonlinear_arith)
        requires
            numexp == count / per_epoch,
            per_epoch == 164,
            count <= usize::MAX,
    ;
    while i <= numexp
        invariant
            per_epoch == per_epoch_count(),
            used == per_epoch * EXPAND_LEN,
            numexp == count / per_epoch,
            numexp < usize::MAX,
            1 <= i <= numexp + 1,
            dst_next@ == epoch_tag(seed@, (i - 1) as nat),
            scalars@ == chained_epochs(seed@, (i - 1) as nat),
        decreases numexp + 1 - i,
    {
        let mut expander = BudgetedExpander::init(seed, &dst_next, used + DST_BYTES_NUM);
        append_decoded(per_epoch, &mut expander, &mut scalars);
        let ghost stream = expander.stream();
        let tail = expander.drain_tail();
        assert(tail@ =~= tag_tail(stream));
        dst_next = prefix_counter(i, &tail);
        i = i + 1;
    }
    let rem: usize = count % per_epoch;
    let mut expander = BudgetedExpander::init(seed, &dst_next, EXPAND_LEN * rem);
    append_decoded(rem, &mut expander, &mut scalars);
    scalars
}

/// Chained derivation from one freshly drawn seed.
pub fn expand_message_in_loop(count: usize) -> (r: Vec<Scalar>)
    ensures
        r@.len() == count,
        exists|seed: [u8; 32]| r@ == chained_scalars(seed@, count as nat),
{
    let buf = get_random_seed();
    let r = chained_scalars_from_seed(&buf, count);
    proof {
        lemma_chained_len(buf@, count as nat);
    }
    r
}

/// All `count` scalars from the given seeds: seed `k` gives full batch `k` of
/// `per_seed_count()` scalars, and the seed after the full batches gives the
/// remainder.
pub fn mixed_scalars_from_seeds(seeds: &Vec<[u8; 32]>, count: usize) -> (r: Vec<Scalar>)
    requires
        seeds@.len() == count as nat / per_seed_count() + 1,
    ensures
        r@ == mixed_scalars(seeds@, count as nat),
{
    let max_count: usize = MAX_BYTES_NUM / EXPAND_LEN;
    let numexp: usize = count / max_count;
    let mut scalars: Vec<Scalar> = Vec::new();
    let mut k: usize = 0;
    while k < numexp
        invariant
            max_count == per_seed_count(),
            numexp == count / max_count,
            seeds@.len() == numexp + 1,
            k <= numexp,
            scalars@ == mixed_full(seeds@, k as nat),
        decreases numexp - k,
    {
        let mut fresh: Vec<Scalar> = Vec::new();
        let mut batch = hash_to_scalar(&seeds[k], max_count, &DST, &mut fresh);
        scalars.append(&mut batch);
        k = k + 1;
    }
    let mut fresh: Vec<Scalar> = Vec::new();
    let mut batch = hash_to_scalar(&seeds[numexp], count % max_count, &DST, &mut fresh);
    scalars.append(&mut batch);
    scalars
}

/// Draws one fresh seed per expansion, expanding each to its full capacity
/// under the base tag, and one more seed for the remainder.
pub fn expand_message_and_prf_in_loop(count: usize) -> (r: Vec<Scalar>)
    ensures
        r@.len() == count,
        exists|seeds: Seq<[u8; 32]>|
            seeds.len() == count as nat / per_seed_count() + 1 && r@ == mixed_scalars(
                seeds,
                count as nat,
            ),
{
    let max_count: usize = MAX_BYTES_NUM / EXPAND_LEN;
    let numexp: usize = count / max_count;
    let mut seeds: Vec<[u8; 32]> = Vec::new();
    let mut k: usize = 0;
    assert(numexp < usize::MAX) by (nonlinear_arith)
        requires
            numexp == count / max_count,
            max_count == 170,
            count <= usize::MAX,
    ;
    while k <= numexp
        invariant
            numexp == count / max_count,
            numexp < usize::MAX,
            max_count == per_seed_count(),
            k <= numexp + 1,
            seeds@.len() == k,
        decreases numexp + 1 - k,
    {
        seeds.push(get_random_seed());
        k = k + 1;
    }
    let r = mixed_scalars_from_seeds(&seeds, count);
    proof {
        lemma_mixed_len(seeds@, count as nat);
    }
    r
}

/// Draws each of the `count` scalars independently from the field's sampler.
pub fn prf_in_loop(count: usize) -> (r: Vec<Scalar>)
    ensures
        r@.len() == count,
{
    let mut m_tildes: Vec<Scalar> = Vec::new();
    let mut k: usize = 0;
    while k < count
        invariant
            k <= count,
            m_tildes@.len() == k,
        decreases count - k,
    {
        m_tildes.push(random_scalar());
        k = k + 1;
    }
    m_tildes
}

/// A chained batch holds exactly the number of scalars asked for.
pub proof fn lemma_chained_len(seed: Seq<u8>, count: nat)
    ensures
        chained_scalars(seed, count).len() == count,
{
    lemma_chained_epochs_len(seed, count / per_epoch_count());
    let full = count / per_epoch_count();
    lemma_fundamental_div_mod(count as int, per_epoch_count() as int);
}

/// The first `k` full epochs hold `k * per_epoch_count()` scalars.
pub proof fn lemma_chained_epochs_len(seed: Seq<u8>, k: nat)
    ensures
        chained_epochs(seed, k).len() == k * per_epoch_count(),
    decreases k,
{
    if k > 0 {
        lemma_chained_epochs_len(seed, (k - 1) as nat);
        lemma_mul_is_distributive_sub_other_way(per_epoch_count() as int, k as int, 1);
    } else {
        assert(chained_epochs(seed, 0) =~= Seq::empty());
        lemma_mul_basics(per_epoch_count() as int);
    }
}

/// A batch from fresh seeds holds exactly the number of scalars asked for.
pub proof fn lemma_mixed_len(seeds: Seq<[u8; 32]>, count: nat)
    requires
        seeds.len() == count as nat / per_seed_count() + 1,
    ensures
        mixed_scalars(seeds, count).len() == count,
{
    lemma_mixed_full_len(seeds, count / per_seed_count());
    let full = count / per_seed_count();
    lemma_fundamental_div_mod(count as int, per_seed_count() as int);
    lemma_mul_is_commutative(full as int, per_seed_count() as int);
}

/// The first `k` full batches from seeds hold `k * per_seed_count()` scalars.
pub proof fn lemma_mixed_full_len(seeds: Seq<[u8; 32]>, k: nat)
    ensures
        mixed_full(seeds, k).len() == k * per_seed_count(),
    decreases k,
{
    if k > 0 {
        lemma_mixed_full_len(seeds, (k - 1) as nat);
        lemma_mul_is_distributive_sub_other_way(per_seed_count() as int, k as int, 1);
    } else {
        assert(mixed_full(seeds, 0) =~= Seq::empty());
        lemma_mul_basics(per_seed_count() as int);
    }
}

/// Two counters below 2^32 with the same encoding are equal.
pub proof fn lemma_be4_injective(a: nat, b: nat)
    requires
        a < 0x1_0000_0000,
        b < 0x1_0000_0000,
        be4(a) == be4(b),
    ensures
        a == b,
{
    assert(be4(a)[0] == be4(b)[0] && be4(a)[1] == be4(b)[1]);
    assert(be4(a)[2] == be4(b)[2] && be4(a)[3] == be4(b)[3]);
    lemma_fundamental_div_mod(a as int, 256);
    lemma_fundamental_div_mod(b as int, 256);
    lemma_fundamental_div_mod((a / 256) as int, 256);
    lemma_fundamental_div_mod((b / 256) as int, 256);
    lemma_fundamental_div_mod((a / 256 / 256) as int, 256);
    lemma_fundamental_div_mod((b / 256 / 256) as int, 256);
    assert(a / 256 / 256 / 256 < 256) by (nonlinear_arith)
        requires
            a < 0x1_0000_0000,
    ;
    assert(b / 256 / 256 / 256 < 256) by (nonlinear_arith)
        requires
            b < 0x1_0000_0000,
    ;
}

/// Chaining never reuses a domain-separation tag: the epochs of one
/// derivation, up to 2^32 of them, all run under distinct tags.
pub proof fn lemma_epoch_tags_distinct(seed: Seq<u8>, i: nat, j: nat)
    requires
        i < j < 0x1_0000_0000,
    ensures
        epoch_tag(seed, i) != epoch_tag(seed, j),
{
    let tj = epoch_tag(seed, j);
    assert(tj.subrange(0, 4) =~= be4(j));
    if i == 0 {
        assert(epoch_tag(seed, i).len() != tj.len());
    } else {
        let ti = epoch_tag(seed, i);
        assert(ti.subrange(0, 4) =~= be4(i));
        if ti == tj {
            lemma_be4_injective(i, j);
        }
    }
}

/// Chained derivation is deterministic: equal seeds give equal batches.
pub proof fn lemma_chained_deterministic(seed1: Seq<u8>, seed2: Seq<u8>, count: nat)
    requires
        seed1 == seed2,
    ensures
        chained_scalars(seed1, count) == chained_scalars(seed2, count),
{
}

/// A request for no scalars gives the empty batch, by either expansion strategy.
pub proof fn lemma_zero_count_empty(seed: Seq<u8>, seeds: Seq<[u8; 32]>)
    requires
        seeds.len() == 1,
    ensures
        chained_scalars(seed, 0) == Seq::<Scalar>::empty(),
        mixed_scalars(seeds, 0) == Seq::<Scalar>::empty(),
{
    lemma_chained_len(seed, 0);
    lemma_mixed_len(seeds, 0);
    assert(chained_scalars(seed, 0) =~= Seq::<Scalar>::empty());
    assert(mixed_scalars(seeds, 0) =~= Seq::<Scalar>::empty());
}

} // verus!
