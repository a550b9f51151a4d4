//! The calls into bls12_381 and rand that the derivation rests on.
use bls12_381::hash_to_curve::{ExpandMessageState, ExpandMsgXmd, InitExpandMessage};
use bls12_381::Scalar;
use ff::Field;
use rand::RngCore;
use sha2::Sha256;
use vstd::prelude::*;

verus! {

#[verifier::external_type_specification]
#[verifier::external_body]
pub struct ExScalar(bls12_381::Scalar);

/// The output of `expand_message_xmd` with SHA-256 on a message, a tag and a length.
pub uninterp spec fn xmd_sha256(msg: Seq<u8>, dst: Seq<u8>, len: nat) -> Seq<u8>;

/// The scalar that wide reduction gives for 64 little-endian bytes.
pub uninterp spec fn scalar_from_wide(bytes: Seq<u8>) -> Scalar;

/// Relies on bls12_381's `Scalar::from_bytes_wide`: reduces 64 bytes modulo
/// the group order, a function of the bytes alone; it never panics.
pub assume_specification[ bls12_381::Scalar::from_bytes_wide ](bytes: &[u8; 64]) -> (r: Scalar)
    ensures
        r == scalar_from_wide(bytes@),
;

/// Relies on bls12_381's `ExpandMsgXmd::<Sha256>::init_expand` followed by
/// `into_vec`: the whole `len` bytes of output, a function of message, tag
/// and length. `init_expand` panics when more than 255 blocks of 32 bytes
/// are asked for.
#[verifier::external_body]
pub(crate) fn expand_xmd(msg: &[u8], dst: &[u8], len: usize) -> (r: Vec<u8>)
    requires
        len <= 8160,
    ensures
        r@ == xmd_sha256(msg@, dst@, len as nat),
        r@.len() == len,
{
    ExpandMsgXmd::<Sha256>::init_expand(msg, dst, len).into_vec()
}

/// Relies on ff's `Field::random` for `Scalar` with rand's `thread_rng`:
/// a fresh uniform sample, of which nothing is promised.
#[verifier::external_body]
pub(crate) fn random_scalar() -> (r: Scalar) {
    Scalar::random(rand::thread_rng())
}

/// Relies on rand's `thread_rng().fill_bytes`: a fresh seed of 32 random
/// bytes, of which nothing is promised.
#[verifier::external_body]
pub fn get_random_seed() -> (r: [u8; 32]) {
    let mut buf = [0u8; 32];
    rand::thread_rng().fill_bytes(&mut buf);
    buf
}

} // verus!
