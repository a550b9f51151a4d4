use vstd::prelude::*;

verus! {

/// Bytes of expanded output consumed by one scalar.
pub const EXPAND_LEN: usize = 48;

/// Length of a seed, the byte length of a scalar.
pub const SCALAR_LEN: usize = 32;

/// Largest output of one `expand_message_xmd` call with SHA-256 (255 blocks of 32 bytes).
pub const MAX_BYTES_NUM: usize = 8160;

/// Bytes reserved at the end of each chained expansion to derive the next tag.
pub const DST_BYTES_NUM: usize = 250;

/// The base domain-separation tag.
pub const DST: [u8; 5] = [97, 32, 100, 115, 116];

} // verus!
