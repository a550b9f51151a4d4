//! Derivation of batches of scalars of the BLS12-381 scalar field from
//! `expand_message_xmd` (SHA-256), with byte budgets per expansion and
//! domain-tag chaining across expansions.

pub mod constants;
pub mod primitives;
pub mod strategies;
pub mod utils;

pub use constants::{DST, DST_BYTES_NUM, EXPAND_LEN, MAX_BYTES_NUM, SCALAR_LEN};
pub use utils::{decode_chunk, get_random_seed, hash_to_scalar, scalars_from_random_bytes, BudgetedExpander};
pub use strategies::{
    base_tag_bytes, chained_scalars_from_seed, encode_counter, expand_message_and_prf_in_loop, expand_message_in_loop,
    mixed_scalars_from_seeds, prf_in_loop,
};
