use passwords::digest::{
    digest_from_sha256_output, digest_from_sha512_output, parse_hex_digit, parse_hex_pair,
    password_block, split_key_material, EntryIvChain,
};

fn hex(bytes: &[u8]) -> Vec<u8> {
    bytes.iter().flat_map(|b| format!("{b:02x}").into_bytes()).collect()
}

#[test]
fn hex_digits_and_pairs() {
    assert_eq!(parse_hex_digit(b'0'), Some(0));
    assert_eq!(parse_hex_digit(b'f'), Some(15));
    assert_eq!(parse_hex_digit(b'C'), Some(12));
    assert_eq!(parse_hex_digit(b'g'), None);
    assert_eq!(parse_hex_pair(b'a', b'7'), Some(0xa7));
    assert_eq!(parse_hex_pair(b'+', b'9'), Some(9));
    assert_eq!(parse_hex_pair(b'-', b'9'), None);
    assert_eq!(parse_hex_pair(b'9', b'+'), None);
    for (hi, lo) in [(b'+', b'9'), (b'a', b'7'), (b'F', b'f')] {
        let text = [hi, lo];
        let expected = u8::from_str_radix(std::str::from_utf8(&text).unwrap(), 16).ok();
        assert_eq!(parse_hex_pair(hi, lo), expected);
    }
}

#[test]
fn sha512_output_reads_back_digest() {
    let digest: Vec<u8> = (0..64u8).map(|i| i.wrapping_mul(37)).collect();
    let text = hex(&digest);
    assert_eq!(text.len(), 128);
    assert_eq!(digest_from_sha512_output(&text).unwrap().to_vec(), digest);
}

#[test]
fn sha512_output_accepts_upper_case() {
    let digest: Vec<u8> = (0..64u8).collect();
    let text: Vec<u8> = hex(&digest).to_ascii_uppercase();
    assert_eq!(digest_from_sha512_output(&text).unwrap().to_vec(), digest);
}

#[test]
fn sha512_output_rejects_non_hex() {
    let mut text = hex(&[0u8; 64]);
    text[5] = b'z';
    assert_eq!(digest_from_sha512_output(&text), None);
}

#[test]
fn sha256_output_keeps_every_other_byte() {
    let digest: Vec<u8> = (0..32u8).map(|i| 255 - i * 3).collect();
    let text = hex(&digest);
    let expected: Vec<u8> = digest.iter().step_by(2).copied().collect();
    assert_eq!(digest_from_sha256_output(&text).unwrap().to_vec(), expected);
}

#[test]
fn sha256_output_must_be_utf8_even_where_unread() {
    let mut text = hex(&[0x11u8; 32]);
    // Byte 3 belongs to a pair that is skipped, but the text as a whole must be UTF-8.
    text[3] = 0xff;
    assert_eq!(digest_from_sha256_output(&text), None);
}

#[test]
fn sha256_output_with_character_across_skipped_pair() {
    let mut text = hex(&[0x22u8; 32]);
    // A two-byte character in the skipped positions 2 and 3 is valid UTF-8 and is skipped.
    text[2] = 0xc3;
    text[3] = 0xa9;
    let out = digest_from_sha256_output(&text).unwrap();
    assert_eq!(out, [0x22u8; 16]);
}

#[test]
fn password_block_pads_with_counting_down_bytes() {
    let block = password_block(b"hunter2");
    assert_eq!(&block[..7], b"hunter2");
    for i in 7..256 {
        assert_eq!(block[i], (255 - i) as u8);
    }
    let long = vec![b'a'; 300];
    assert_eq!(password_block(&long), [b'a'; 256]);
    let empty = password_block(b"");
    assert_eq!(empty[0], 255);
    assert_eq!(empty[255], 0);
}

#[test]
fn key_material_splits_at_240() {
    let output: Vec<u8> = (0..256).map(|i| i as u8).collect();
    let (key, iv) = split_key_material(&output);
    assert_eq!(key.to_vec(), output[..240].to_vec());
    assert_eq!(iv.to_vec(), output[240..].to_vec());
}

#[test]
fn iv_chain_needs_one_round_more_than_the_index() {
    let mut chain = EntryIvChain::new([7u8; 16], 2);
    assert_eq!(chain.rounds_left(), 3);
    assert_eq!(chain.current(), [7u8; 16]);
    let text = hex(&[0xabu8; 32]);
    assert!(chain.absorb(&text));
    assert_eq!(chain.rounds_left(), 2);
    assert_eq!(chain.current(), [0xabu8; 16]);
    let mut bad = text.clone();
    bad[0] = b'q';
    assert!(!chain.absorb(&bad));
    assert_eq!(chain.rounds_left(), 2);
    assert_eq!(chain.current(), [0xabu8; 16]);
}

#[test]
fn iv_chain_applies_the_digest_once_per_round() {
    // A stand-in for the hash command: the 32 bytes v ++ v, printed in hex.
    let command = |v: [u8; 16]| -> Vec<u8> {
        let mut both = v.to_vec();
        both.extend_from_slice(&v);
        hex(&both)
    };
    let step = |v: [u8; 16]| -> [u8; 16] {
        let both: Vec<u8> = v.iter().chain(v.iter()).copied().collect();
        let mut out = [0u8; 16];
        for i in 0..16 {
            out[i] = both[2 * i];
        }
        out
    };
    let base: [u8; 16] = core::array::from_fn(|i| i as u8 * 7);
    let mut chain = EntryIvChain::new(base, 2);
    while chain.rounds_left() > 0 {
        assert!(chain.absorb(&command(chain.current())));
    }
    assert_eq!(chain.current(), step(step(step(base))));
}
