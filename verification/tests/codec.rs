//! The record codec, run against the real cipher.

use openssl::symm::{decrypt_aead, encrypt_aead, Cipher};
use proxy_rs::decryption::Decryption;
use proxy_rs::encryption::{assemble, Encryption};
use proxy_rs::error::CodecError;
use proxy_rs::relay::{outbound, STAGING_LEN};

const KEY: &str = "0123456789abcdef0123456789abcdef";
const OTHER_KEY: &str = "fedcba9876543210fedcba9876543210";

fn halves(key: &str) -> (Encryption, Decryption) {
    (Encryption::new(key.to_string()), Decryption::new(key.to_string()))
}

fn one_record(payload: &[u8]) -> Vec<u8> {
    let mut en = Encryption::new(KEY.to_string());
    en.encryption_write(payload).unwrap()
}

#[test]
fn round_trip_of_one_record() {
    let (mut en, mut de) = halves(KEY);
    let frame = en.encryption_write(b"hello, tunnel").unwrap();
    assert_eq!(de.decryption_read(&frame), Ok(b"hello, tunnel".to_vec()));
}

#[test]
fn round_trip_of_a_sequence_of_payloads() {
    let (mut en, mut de) = halves(KEY);
    let payloads: Vec<Vec<u8>> = vec![
        b"first".to_vec(),
        Vec::new(),
        vec![0u8; 1],
        (0..=255u8).collect(),
        vec![0xa5u8; 2048],
        b"last".to_vec(),
    ];
    let frames: Vec<Vec<u8>> =
        payloads.iter().map(|p| en.encryption_write(p).unwrap()).collect();
    for (frame, payload) in frames.iter().zip(payloads.iter()) {
        assert_eq!(&de.decryption_read(frame).unwrap(), payload);
    }
}

#[test]
fn round_trip_in_both_directions_is_independent() {
    let (mut a_en, mut a_de) = halves(KEY);
    let (mut b_en, mut b_de) = halves(KEY);
    let to_b_1 = a_en.encryption_write(b"a1").unwrap();
    let to_b_2 = a_en.encryption_write(b"a2").unwrap();
    let to_a_1 = b_en.encryption_write(b"b1").unwrap();
    assert_eq!(b_de.decryption_read(&to_b_1), Ok(b"a1".to_vec()));
    assert_eq!(b_de.decryption_read(&to_b_2), Ok(b"a2".to_vec()));
    assert_eq!(a_de.decryption_read(&to_a_1), Ok(b"b1".to_vec()));
}

#[test]
fn empty_payload_makes_a_record_of_a_key_alone() {
    let (mut en, mut de) = halves(KEY);
    let frame = en.encryption_write(b"").unwrap();
    assert_eq!(frame.len(), 52 + 32);
    assert_eq!(de.decryption_read(&frame), Ok(Vec::new()));
}

#[test]
fn record_layout_and_length_field() {
    let frame = one_record(b"abc");
    // 12 + 16 + 16 + 8 bytes of head, then the key of the next record and the payload.
    assert_eq!(frame.len(), 52 + 32 + 3);
    assert_eq!(&frame[44..52], &[0u8, 0, 0, 0, 0, 0, 0, 35]);

    let frame = one_record(&vec![7u8; 2048]);
    assert_eq!(frame.len(), 52 + 32 + 2048);
    // 2080 = 0x0820
    assert_eq!(&frame[44..52], &[0u8, 0, 0, 0, 0, 0, 0x08, 0x20]);
}

#[test]
fn assemble_puts_the_parts_in_order() {
    let iv = [1u8; 12];
    let tag = [2u8; 16];
    let aad = [3u8; 16];
    let ciphertext = vec![4u8; 258];
    let frame = assemble(&iv, &tag, &aad, &ciphertext);
    let mut expected = Vec::new();
    expected.extend_from_slice(&iv);
    expected.extend_from_slice(&tag);
    expected.extend_from_slice(&aad);
    expected.extend_from_slice(&[0, 0, 0, 0, 0, 0, 1, 2]);
    expected.extend_from_slice(&ciphertext);
    assert_eq!(frame, expected);
}

#[test]
fn assemble_of_an_empty_ciphertext() {
    let frame = assemble(&[9u8; 12], &[8u8; 16], &[7u8; 16], &[]);
    assert_eq!(frame.len(), 52);
    assert_eq!(&frame[44..52], &[0u8; 8]);
}

#[test]
fn seal_with_is_what_the_cipher_gives() {
    let iv = [0x11u8; 12];
    let aad = [0x22u8; 16];
    let next_key = vec![0x33u8; 32];
    let payload = b"payload bytes";

    let mut en = Encryption::new(KEY.to_string());
    let frame = en.seal_with(&iv, &aad, next_key.clone(), payload).unwrap();

    let mut plain = next_key.clone();
    plain.extend_from_slice(payload);
    let mut tag = [0u8; 16];
    let ciphertext =
        encrypt_aead(Cipher::aes_256_gcm(), KEY.as_bytes(), Some(&iv), &aad, &plain, &mut tag)
            .unwrap();

    assert_eq!(&frame[0..12], &iv);
    assert_eq!(&frame[12..28], &tag);
    assert_eq!(&frame[28..44], &aad);
    assert_eq!(&frame[44..52], &(ciphertext.len() as u64).to_be_bytes());
    assert_eq!(&frame[52..], &ciphertext[..]);
    // The record does not carry the payload in the clear.
    assert_ne!(&frame[52 + 32..], &payload[..]);
}

#[test]
fn a_record_opens_with_the_cipher_alone() {
    let frame = one_record(b"seen from outside");
    let plain = decrypt_aead(
        Cipher::aes_256_gcm(),
        KEY.as_bytes(),
        Some(&frame[0..12]),
        &frame[28..44],
        &frame[52..],
        &frame[12..28],
    )
    .unwrap();
    assert_eq!(plain.len(), 32 + 17);
    assert_eq!(&plain[32..], b"seen from outside");
}

#[test]
fn decryption_read_opens_what_the_cipher_sealed() {
    let iv = [5u8; 12];
    let aad = [6u8; 16];
    let mut plain = vec![b'k'; 32];
    plain.extend_from_slice(b"made by hand");
    let mut tag = [0u8; 16];
    let ciphertext =
        encrypt_aead(Cipher::aes_256_gcm(), KEY.as_bytes(), Some(&iv), &aad, &plain, &mut tag)
            .unwrap();
    let frame = assemble(&iv, &tag, &aad, &ciphertext);

    let mut de = Decryption::new(KEY.to_string());
    assert_eq!(de.decryption_read(&frame), Ok(b"made by hand".to_vec()));
}

#[test]
fn seal_with_refuses_wrong_lengths() {
    let mut en = Encryption::new(KEY.to_string());
    let iv = [0u8; 12];
    let aad = [0u8; 16];
    assert_eq!(en.seal_with(&iv[..11], &aad, vec![0u8; 32], b"x"), Err(CodecError::Seal));
    assert_eq!(en.seal_with(&iv, &aad[..15], vec![0u8; 32], b"x"), Err(CodecError::Seal));
    assert_eq!(en.seal_with(&iv, &aad, vec![0u8; 31], b"x"), Err(CodecError::Seal));
    assert_eq!(en.seal_with(&iv, &aad, vec![0u8; 33], b"x"), Err(CodecError::Seal));
    // Nothing moved: the first key still seals.
    let frame = en.seal_with(&iv, &aad, vec![0u8; 32], b"x").unwrap();
    let mut de = Decryption::new(KEY.to_string());
    assert_eq!(de.decryption_read(&frame), Ok(b"x".to_vec()));
}

#[test]
fn a_key_of_another_length_seals_nothing() {
    let mut en = Encryption::new("short".to_string());
    assert_eq!(en.encryption_write(b"data"), Err(CodecError::Seal));
    let mut en = Encryption::new(format!("{}{}", KEY, "x"));
    assert_eq!(en.encryption_write(b"data"), Err(CodecError::Seal));
}

#[test]
fn a_key_of_another_length_opens_nothing() {
    let frame = one_record(b"data");
    let mut de = Decryption::new("short".to_string());
    assert_eq!(de.decryption_read(&frame), Err(CodecError::InvalidData));
}

#[test]
fn nonces_and_associated_data_are_fresh() {
    let mut en = Encryption::new(KEY.to_string());
    let mut ivs = std::collections::HashSet::new();
    let mut aads = std::collections::HashSet::new();
    let n = 1000;
    for _ in 0..n {
        let frame = en.encryption_write(b"same payload").unwrap();
        ivs.insert(frame[0..12].to_vec());
        aads.insert(frame[28..44].to_vec());
    }
    assert_eq!(ivs.len(), n);
    assert_eq!(aads.len(), n);
}

#[test]
fn the_key_moves_on_with_every_record() {
    let next_1: Vec<u8> = b"11111111111111111111111111111111".to_vec();
    let next_2: Vec<u8> = b"22222222222222222222222222222222".to_vec();
    let iv = [1u8; 12];
    let aad = [2u8; 16];

    let mut en = Encryption::new(KEY.to_string());
    let frame_1 = en.seal_with(&iv, &aad, next_1.clone(), b"one").unwrap();
    let frame_2 = en.seal_with(&iv, &aad, next_2.clone(), b"two").unwrap();
    let frame_3 = en.encryption_write(b"three").unwrap();

    // A receiver that starts from the key that a record announced opens the next one.
    let mut from_1 = Decryption::new(String::from_utf8(next_1).unwrap());
    assert_eq!(from_1.decryption_read(&frame_2), Ok(b"two".to_vec()));
    assert_eq!(from_1.decryption_read(&frame_3), Ok(b"three".to_vec()));
    let mut from_2 = Decryption::new(String::from_utf8(next_2).unwrap());
    assert_eq!(from_2.decryption_read(&frame_3), Ok(b"three".to_vec()));

    // The first key opens the first record only.
    let mut late = Decryption::new(KEY.to_string());
    assert_eq!(late.decryption_read(&frame_2), Err(CodecError::InvalidData));
    assert_eq!(late.decryption_read(&frame_3), Err(CodecError::InvalidData));
    assert_eq!(late.decryption_read(&frame_1), Ok(b"one".to_vec()));
    // And having opened it, no longer opens it.
    assert_eq!(late.decryption_read(&frame_1), Err(CodecError::InvalidData));
    assert_eq!(late.decryption_read(&frame_2), Ok(b"two".to_vec()));
}

#[test]
fn any_flipped_bit_is_refused() {
    let payload = b"integrity";
    let mut en = Encryption::new(KEY.to_string());
    let frame = en.encryption_write(payload).unwrap();
    // Every bit of the nonce, the tag, the associated data and the ciphertext.
    for index in (0..44).chain(52..frame.len()) {
        for bit in 0..8 {
            let mut bad = frame.clone();
            bad[index] ^= 1 << bit;
            let mut de = Decryption::new(KEY.to_string());
            assert_eq!(
                de.decryption_read(&bad),
                Err(CodecError::InvalidData),
                "byte {} bit {}",
                index,
                bit
            );
            // The refusal changed nothing: the true record still opens.
            assert_eq!(de.decryption_read(&frame), Ok(payload.to_vec()));
        }
    }
}

#[test]
fn a_changed_length_field_is_refused() {
    let frame = one_record(b"length");
    for index in 44..52 {
        let mut bad = frame.clone();
        bad[index] ^= 1;
        let mut de = Decryption::new(KEY.to_string());
        assert_eq!(de.decryption_read(&bad), Err(CodecError::InvalidData));
    }
}

#[test]
fn truncated_and_extended_records_are_refused() {
    let frame = one_record(b"whole");
    let mut de = Decryption::new(KEY.to_string());
    assert_eq!(de.decryption_read(&[]), Err(CodecError::InvalidData));
    assert_eq!(de.decryption_read(&frame[..51]), Err(CodecError::InvalidData));
    assert_eq!(de.decryption_read(&frame[..52]), Err(CodecError::InvalidData));
    assert_eq!(de.decryption_read(&frame[..frame.len() - 1]), Err(CodecError::InvalidData));
    let mut longer = frame.clone();
    longer.push(0);
    assert_eq!(de.decryption_read(&longer), Err(CodecError::InvalidData));
    assert_eq!(de.decryption_read(&frame), Ok(b"whole".to_vec()));
}

#[test]
fn a_record_too_short_to_announce_a_key_is_refused() {
    let iv = [5u8; 12];
    let aad = [6u8; 16];
    let plain = vec![b'k'; 31];
    let mut tag = [0u8; 16];
    let ciphertext =
        encrypt_aead(Cipher::aes_256_gcm(), KEY.as_bytes(), Some(&iv), &aad, &plain, &mut tag)
            .unwrap();
    let frame = assemble(&iv, &tag, &aad, &ciphertext);
    let mut de = Decryption::new(KEY.to_string());
    assert_eq!(de.decryption_read(&frame), Err(CodecError::InvalidData));
}

#[test]
fn swapped_records_fail_at_the_first_out_of_order() {
    let (mut en, mut de) = halves(KEY);
    let frame_1 = en.encryption_write(b"one").unwrap();
    let frame_2 = en.encryption_write(b"two").unwrap();
    let frame_3 = en.encryption_write(b"three").unwrap();
    assert_eq!(de.decryption_read(&frame_1), Ok(b"one".to_vec()));
    // Records two and three arrive swapped.
    assert_eq!(de.decryption_read(&frame_3), Err(CodecError::InvalidData));
}

#[test]
fn swapped_first_two_records_fail() {
    let (mut en, mut de) = halves(KEY);
    let frame_1 = en.encryption_write(b"one").unwrap();
    let frame_2 = en.encryption_write(b"two").unwrap();
    assert_eq!(de.decryption_read(&frame_2), Err(CodecError::InvalidData));
    // The key has not moved, so the order that was sealed still works.
    assert_eq!(de.decryption_read(&frame_1), Ok(b"one".to_vec()));
    assert_eq!(de.decryption_read(&frame_2), Ok(b"two".to_vec()));
}

#[test]
fn wrong_key_fails_on_the_first_record_from_either_side() {
    let mut local_en = Encryption::new(KEY.to_string());
    let mut local_de = Decryption::new(KEY.to_string());
    let mut remote_en = Encryption::new(OTHER_KEY.to_string());
    let mut remote_de = Decryption::new(OTHER_KEY.to_string());
    let to_remote = local_en.encryption_write(&[0x05, 0x01, 0x00]).unwrap();
    let to_local = remote_en.encryption_write(&[0x05, 0x00]).unwrap();
    assert_eq!(remote_de.decryption_read(&to_remote), Err(CodecError::InvalidData));
    assert_eq!(local_de.decryption_read(&to_local), Err(CodecError::InvalidData));
}

#[test]
fn ratchet_takes_the_key_and_returns_the_rest() {
    let mut de = Decryption::new(KEY.to_string());
    let mut plain: Vec<u8> = OTHER_KEY.as_bytes().to_vec();
    plain.extend_from_slice(b"rest");
    assert_eq!(de.ratchet(Some(plain)), Ok(b"rest".to_vec()));
    // The key is now the one that was announced.
    let mut en = Encryption::new(OTHER_KEY.to_string());
    let frame = en.encryption_write(b"next").unwrap();
    assert_eq!(de.decryption_read(&frame), Ok(b"next".to_vec()));
}

#[test]
fn ratchet_of_exactly_a_key() {
    let mut de = Decryption::new(KEY.to_string());
    assert_eq!(de.ratchet(Some(OTHER_KEY.as_bytes().to_vec())), Ok(Vec::new()));
}

#[test]
fn ratchet_refuses_nothing_and_too_little() {
    let mut de = Decryption::new(KEY.to_string());
    assert_eq!(de.ratchet(None), Err(CodecError::InvalidData));
    assert_eq!(de.ratchet(Some(Vec::new())), Err(CodecError::InvalidData));
    assert_eq!(de.ratchet(Some(vec![1u8; 31])), Err(CodecError::InvalidData));
    // The key stayed.
    let frame = one_record(b"still the first key");
    assert_eq!(de.decryption_read(&frame), Ok(b"still the first key".to_vec()));
}

#[test]
fn head_size_is_fifty_two() {
    let de = Decryption::new(KEY.to_string());
    assert_eq!(de.head_size(), 52);
}

#[test]
fn read_body_size_reads_the_length_field() {
    let de = Decryption::new(KEY.to_string());
    let mut head = vec![0xffu8; 52];
    head[44..52].copy_from_slice(&[0, 0, 0, 0, 0, 0, 0x12, 0x34]);
    assert_eq!(de.read_body_size(&head), Ok(0x1234));
    head[44..52].copy_from_slice(&[0, 0, 0, 0, 0, 0, 0, 0]);
    assert_eq!(de.read_body_size(&head), Ok(0));
    head[44..52].copy_from_slice(&[0, 0, 0, 0, 0x7f, 0xff, 0xff, 0xff]);
    assert_eq!(de.read_body_size(&head), Ok(0x7fff_ffff));
    // A whole record may follow the head.
    let frame = one_record(b"12345");
    assert_eq!(de.read_body_size(&frame), Ok(37));
}

#[test]
fn read_body_size_refuses_short_heads_and_huge_lengths() {
    let de = Decryption::new(KEY.to_string());
    assert_eq!(de.read_body_size(&[0u8; 51]), Err(CodecError::InvalidData));
    assert_eq!(de.read_body_size(&[]), Err(CodecError::InvalidData));
    let mut head = vec![0u8; 52];
    head[44..52].copy_from_slice(&[0, 0, 0, 0, 0x80, 0, 0, 0]);
    assert_eq!(de.read_body_size(&head), Err(CodecError::InvalidData));
    head[44..52].copy_from_slice(&[1, 0, 0, 0, 0, 0, 0, 0]);
    assert_eq!(de.read_body_size(&head), Err(CodecError::InvalidData));
    head[44..52].copy_from_slice(&[0xff; 8]);
    assert_eq!(de.read_body_size(&head), Err(CodecError::InvalidData));
}

#[test]
fn outbound_stops_at_the_end_of_the_stream() {
    let (mut en, mut de) = halves(KEY);
    assert_eq!(outbound(&mut en, b""), Ok(None));
    // The key stayed: the next record is sealed under the first key.
    let frame = outbound(&mut en, b"more").unwrap().unwrap();
    assert_eq!(de.decryption_read(&frame), Ok(b"more".to_vec()));
}

#[test]
fn staging_buffer_is_2048_bytes() {
    assert_eq!(STAGING_LEN, 2048);
}

#[test]
fn large_transfer_is_byte_exact() {
    let total = 10 * 1024 * 1024;
    let data: Vec<u8> = (0..total).map(|i| (i * 31 + i / 251) as u8).collect();
    let (mut en, mut de) = halves(KEY);
    let mut received = Vec::with_capacity(total);
    let mut records = 0;
    for chunk in data.chunks(STAGING_LEN) {
        let frame = outbound(&mut en, chunk).unwrap().unwrap();
        assert!(frame.len() <= 52 + 32 + STAGING_LEN);
        let payload = de.decryption_read(&frame).unwrap();
        assert_eq!(payload.len(), chunk.len());
        received.extend_from_slice(&payload);
        records += 1;
    }
    assert_eq!(records, 5120);
    assert!(received == data);
}
