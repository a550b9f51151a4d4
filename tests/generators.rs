use bbs_issue_212::{
    base_tag_bytes, chained_scalars_from_seed, decode_chunk, encode_counter, expand_message_and_prf_in_loop,
    expand_message_in_loop, hash_to_scalar, mixed_scalars_from_seeds, prf_in_loop, scalars_from_random_bytes,
    BudgetedExpander, DST, EXPAND_LEN, MAX_BYTES_NUM, DST_BYTES_NUM,
};
use bls12_381::Scalar;

fn is_canonical(s: &Scalar) -> bool {
    bool::from(Scalar::from_bytes(&s.to_bytes()).is_some())
}

fn hex(s: &str) -> Vec<u8> {
    (0..s.len() / 2).map(|i| u8::from_str_radix(&s[2 * i..2 * i + 2], 16).unwrap()).collect()
}

#[test]
fn test_prf_in_loop() {
    let count = 400;
    let result = prf_in_loop(count);
    assert_eq!(result.len(), count)
}

#[test]
fn test_expand_message_in_loop() {
    let count = 400;
    let result = expand_message_in_loop(count);
    assert_eq!(result.len(), count)
}

#[test]
fn test_expand_message_and_prf_in_loop() {
    let count = 400;
    let result = expand_message_and_prf_in_loop(count);
    assert_eq!(result.len(), count)
}

#[test]
fn four_hundred_scalars_are_canonical_for_every_strategy() {
    for batch in [prf_in_loop(400), expand_message_in_loop(400), expand_message_and_prf_in_loop(400)] {
        assert_eq!(batch.len(), 400);
        assert!(batch.iter().all(is_canonical));
    }
}

#[test]
fn zero_count_gives_empty_batches() {
    assert!(prf_in_loop(0).is_empty());
    assert!(expand_message_in_loop(0).is_empty());
    assert!(expand_message_and_prf_in_loop(0).is_empty());
    assert!(chained_scalars_from_seed(&[7u8; 32], 0).is_empty());
    assert!(mixed_scalars_from_seeds(&vec![[7u8; 32]], 0).is_empty());
}

#[test]
fn lengths_across_epoch_boundaries() {
    let seed = [3u8; 32];
    for count in [1usize, 163, 164, 165, 2 * 164 + 5, 1000] {
        assert_eq!(chained_scalars_from_seed(&seed, count).len(), count);
        assert_eq!(expand_message_in_loop(count).len(), count);
        assert_eq!(expand_message_and_prf_in_loop(count).len(), count);
        assert_eq!(prf_in_loop(count).len(), count);
    }
    for count in [169usize, 170, 171, 2 * 170 + 5] {
        let seeds = vec![[9u8; 32]; count / 170 + 1];
        assert_eq!(mixed_scalars_from_seeds(&seeds, count).len(), count);
    }
}

#[test]
fn chained_is_deterministic() {
    let seed = [42u8; 32];
    let a = chained_scalars_from_seed(&seed, 2 * 164 + 5);
    let b = chained_scalars_from_seed(&seed, 2 * 164 + 5);
    assert!(a == b);
}

#[test]
fn chained_changes_everywhere_with_one_seed_byte() {
    let seed = [42u8; 32];
    let mut other = seed;
    other[31] ^= 1;
    let a = chained_scalars_from_seed(&seed, 2 * 164 + 5);
    let b = chained_scalars_from_seed(&other, 2 * 164 + 5);
    assert!(a.iter().zip(b.iter()).all(|(x, y)| x != y));
}

#[test]
fn chained_epochs_do_not_repeat_scalars() {
    let a = chained_scalars_from_seed(&[5u8; 32], 2 * 164 + 5);
    for i in 0..a.len() {
        for j in i + 1..a.len() {
            assert!(a[i] != a[j]);
        }
    }
}

#[test]
fn chained_first_epoch_reads_one_expansion_under_the_base_tag() {
    let seed = [11u8; 32];
    let chained = chained_scalars_from_seed(&seed, 170);
    let per_epoch = (MAX_BYTES_NUM - DST_BYTES_NUM) / EXPAND_LEN;
    assert_eq!(per_epoch, 164);
    let mut expander = BudgetedExpander::init(&seed, &base_tag_bytes(), per_epoch * EXPAND_LEN + DST_BYTES_NUM);
    let mut first = Vec::new();
    let copy = scalars_from_random_bytes(per_epoch, &mut expander, &mut first);
    assert!(copy == first);
    assert_eq!(expander.remaining(), DST_BYTES_NUM);
    assert!(chained[..per_epoch] == first[..]);

    let tail = expander.drain_tail();
    assert_eq!(tail.len(), DST_BYTES_NUM);
    let mut next_tag = vec![0u8, 0, 0, 1];
    next_tag.extend_from_slice(&tail);
    let mut rest = Vec::new();
    hash_to_scalar(&seed, 6, &next_tag, &mut rest);
    assert!(chained[per_epoch..] == rest[..]);
}

#[test]
fn chained_remainder_only_is_one_short_expansion() {
    let seed = [1u8; 32];
    let mut expected = Vec::new();
    hash_to_scalar(&seed, 10, &base_tag_bytes(), &mut expected);
    assert!(chained_scalars_from_seed(&seed, 10) == expected);
}

#[test]
fn base_tag_is_length_then_tag() {
    assert_eq!(base_tag_bytes(), vec![0, 0, 0, 5, b'a', b' ', b'd', b's', b't']);
    assert_eq!(&DST, b"a dst");
}

#[test]
fn counter_encoding_is_big_endian_low_32_bits() {
    assert_eq!(encode_counter(0), [0, 0, 0, 0]);
    assert_eq!(encode_counter(1), [0, 0, 0, 1]);
    assert_eq!(encode_counter(0x0102_0304), [1, 2, 3, 4]);
    assert_eq!(encode_counter(0x1_0000_0007), [0, 0, 0, 7]);
}

#[test]
fn decode_reduces_padded_little_endian_bytes() {
    assert!(decode_chunk(&[0u8; 48]) == Scalar::zero());
    let mut one = [0u8; 48];
    one[0] = 1;
    assert!(decode_chunk(&one) == Scalar::one());
    let mut big = [0u8; 48];
    big[1] = 1;
    assert!(decode_chunk(&big) == Scalar::from(256u64));
    let c = [0xffu8; 48];
    assert!(decode_chunk(&c) == decode_chunk(&c));
    assert!(is_canonical(&decode_chunk(&c)));
}

#[test]
fn expander_matches_published_xmd_vector() {
    let dst = b"QUUX-V01-CS02-with-expander-SHA256-128";
    let expected = hex("68a985b87eb6b46952128911f2a4412bbc302a9d759667f87f7a21d803f07235");
    let expander = BudgetedExpander::init(b"", dst, 0x20);
    assert_eq!(expander.remaining(), 32);
    assert_eq!(expander.drain_tail(), expected);
    let expected_abc = hex("d8ccab23b5985ccea865c6c97b6e5b8350e794e603b4b97902f53a8a0d605615");
    assert_eq!(BudgetedExpander::init(b"abc", dst, 0x20).drain_tail(), expected_abc);
}

#[test]
fn read_chunk_walks_the_stream() {
    let mut expander = BudgetedExpander::init(b"msg", b"tag", 2 * EXPAND_LEN + 3);
    let whole = BudgetedExpander::init(b"msg", b"tag", 2 * EXPAND_LEN + 3).drain_tail();
    let c0 = expander.read_chunk();
    let c1 = expander.read_chunk();
    assert_eq!(&c0[..], &whole[..48]);
    assert_eq!(&c1[..], &whole[48..96]);
    assert_eq!(expander.remaining(), 3);
    assert_eq!(expander.drain_tail(), whole[96..].to_vec());
}

#[test]
fn hash_to_scalar_appends_decoded_chunks() {
    let msg = b"message";
    let whole = BudgetedExpander::init(msg, &DST, 3 * EXPAND_LEN).drain_tail();
    let mut scalars = vec![Scalar::one()];
    let r = hash_to_scalar(msg, 3, &DST, &mut scalars);
    assert_eq!(scalars.len(), 4);
    assert!(r == scalars);
    assert!(scalars[0] == Scalar::one());
    for k in 0..3 {
        let chunk: [u8; 48] = whole[48 * k..48 * k + 48].try_into().unwrap();
        assert!(scalars[k + 1] == decode_chunk(&chunk));
    }
    let mut empty = Vec::new();
    assert!(hash_to_scalar(msg, 0, &DST, &mut empty).is_empty());
    let mut full = Vec::new();
    assert_eq!(hash_to_scalar(msg, MAX_BYTES_NUM / EXPAND_LEN, &DST, &mut full).len(), 170);
}

#[test]
fn mixed_uses_one_expansion_per_seed() {
    let seeds = vec![[1u8; 32], [2u8; 32], [3u8; 32]];
    let batch = mixed_scalars_from_seeds(&seeds, 2 * 170 + 5);
    assert_eq!(batch.len(), 345);
    for (k, seed) in seeds.iter().enumerate() {
        let n = if k < 2 { 170 } else { 5 };
        let mut expected = Vec::new();
        hash_to_scalar(seed, n, &DST, &mut expected);
        assert!(batch[170 * k..170 * k + n] == expected[..]);
    }
}

fn chi_square_low_bytes(batch: &[Scalar]) -> f64 {
    let mut hist = [0u64; 256];
    let mut total = 0u64;
    for s in batch {
        for b in &s.to_bytes()[..31] {
            hist[*b as usize] += 1;
            total += 1;
        }
    }
    let expected = total as f64 / 256.0;
    hist.iter().map(|h| (*h as f64 - expected) * (*h as f64 - expected) / expected).sum()
}

#[test]
fn strategies_show_no_byte_bias() {
    let seeds: Vec<[u8; 32]> = (0..2000 / 170 + 1).map(|k| [k as u8 + 100; 32]).collect();
    for batch in [
        prf_in_loop(2000),
        chained_scalars_from_seed(&[6u8; 32], 2000),
        mixed_scalars_from_seeds(&seeds, 2000),
    ] {
        assert!(chi_square_low_bytes(&batch) < 400.0);
    }
}
