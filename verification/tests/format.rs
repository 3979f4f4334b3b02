use ssh_control::config::format::{
    decode, decode_any, encode, header_aad, header_aad_v1, is_cut_before_slot_count, slot_aad, AnyEnvelope, Slot,
    FORMAT_VERSION, FORMAT_VERSION_V1, KDF_ARGON2ID, KDF_HKDF_SHA256, MAGIC, MIN_M_COST_KIB, SLOT_DEVICE,
    SLOT_PASSWORD, V1_HEADER_LEN, WRAPPED_MK_LEN,
};
use ssh_control::crypto::cipher::NONCE_LEN;
use ssh_control::crypto::kdf::{KdfParams, SALT_LEN};
use ssh_control::error::AppError;

fn slot(kind: u8, kdf_id: u8, params: KdfParams) -> Slot {
    Slot {
        kind,
        kdf_id,
        kdf_params: params,
        salt: [7u8; SALT_LEN],
        wrap_nonce: [3u8; NONCE_LEN],
        wrapped_mk: [5u8; WRAPPED_MK_LEN],
    }
}

fn sample_bytes(slots: &[Slot]) -> Vec<u8> {
    encode(slots, &[9u8; NONCE_LEN], b"ciphertext")
}

/// A file of the first layout, byte by byte.
fn sample_v1_bytes(params: KdfParams, kdf_id: u8) -> Vec<u8> {
    let mut buf = Vec::new();
    buf.extend_from_slice(&MAGIC);
    buf.push(FORMAT_VERSION_V1);
    buf.push(kdf_id);
    buf.extend_from_slice(&params.m_cost.to_le_bytes());
    buf.extend_from_slice(&params.t_cost.to_le_bytes());
    buf.extend_from_slice(&params.p_cost.to_le_bytes());
    buf.extend_from_slice(&[7u8; SALT_LEN]);
    buf.extend_from_slice(&[9u8; NONCE_LEN]);
    buf.extend_from_slice(&(b"ciphertext".len() as u32).to_le_bytes());
    buf.extend_from_slice(b"ciphertext");
    buf
}

#[test]
fn well_formed_envelope_round_trips() {
    let slots = vec![slot(SLOT_PASSWORD, KDF_ARGON2ID, KdfParams::interactive())];
    let envelope = decode(&sample_bytes(&slots)).expect("a freshly encoded envelope should decode");

    assert_eq!(envelope.slots.len(), 1);
    assert_eq!(envelope.slots[0].kind, SLOT_PASSWORD);
    assert_eq!(envelope.slots[0].kdf_params.m_cost, KdfParams::interactive().m_cost);
    assert_eq!(envelope.slots[0].salt, [7u8; SALT_LEN]);
    assert_eq!(envelope.ciphertext, b"ciphertext");
}

#[test]
fn two_slots_round_trip_in_order() {
    let slots = vec![
        slot(SLOT_PASSWORD, KDF_ARGON2ID, KdfParams::recovery()),
        slot(SLOT_DEVICE, KDF_HKDF_SHA256, KdfParams::none()),
    ];
    let envelope = decode(&sample_bytes(&slots)).expect("two slots should decode");

    assert_eq!(envelope.slots.len(), 2);
    assert_eq!(envelope.slots[0].kind, SLOT_PASSWORD);
    assert_eq!(envelope.slots[1].kind, SLOT_DEVICE);
    assert_eq!(envelope.slots[1].kdf_id, KDF_HKDF_SHA256);
}

#[test]
fn every_slot_is_covered_by_the_body_aad() {
    let slots = vec![
        slot(SLOT_PASSWORD, KDF_ARGON2ID, KdfParams::interactive()),
        slot(SLOT_DEVICE, KDF_HKDF_SHA256, KdfParams::none()),
    ];
    let aad = header_aad(&slots);

    let mut weakened = slots.clone();
    weakened[0].kdf_params.m_cost = MIN_M_COST_KIB;
    assert_ne!(aad, header_aad(&weakened), "a rolled-back cost must change the AAD");

    let mut spliced = slots.clone();
    spliced[1].wrapped_mk = [6u8; WRAPPED_MK_LEN];
    assert_ne!(aad, header_aad(&spliced), "a swapped wrapped key must change the AAD");
}

#[test]
fn a_slots_own_aad_covers_its_descriptor_but_not_its_wrapped_key() {
    let original = slot(SLOT_PASSWORD, KDF_ARGON2ID, KdfParams::interactive());

    let mut retyped = original.clone();
    retyped.kind = SLOT_DEVICE;
    assert_ne!(slot_aad(&original), slot_aad(&retyped));

    // The wrapped key is the AEAD message, not its own AAD.
    let mut rewrapped = original.clone();
    rewrapped.wrapped_mk = [1u8; WRAPPED_MK_LEN];
    assert_eq!(slot_aad(&original), slot_aad(&rewrapped));
}

#[test]
fn absurd_memory_cost_is_rejected_before_key_derivation() {
    let slots =
        vec![slot(SLOT_PASSWORD, KDF_ARGON2ID, KdfParams { m_cost: u32::MAX, ..KdfParams::interactive() })];
    assert!(matches!(decode(&sample_bytes(&slots)), Err(AppError::CorruptFile(_))));
}

#[test]
fn zero_cost_parameters_are_rejected_for_argon2_slots() {
    for params in [
        KdfParams { m_cost: 0, ..KdfParams::interactive() },
        KdfParams { t_cost: 0, ..KdfParams::interactive() },
        KdfParams { p_cost: 0, ..KdfParams::interactive() },
    ] {
        let slots = vec![slot(SLOT_PASSWORD, KDF_ARGON2ID, params)];
        assert!(matches!(decode(&sample_bytes(&slots)), Err(AppError::CorruptFile(_))));
    }
}

#[test]
fn zero_cost_parameters_are_accepted_for_hkdf_slots() {
    let slots = vec![slot(SLOT_DEVICE, KDF_HKDF_SHA256, KdfParams::none())];
    assert!(decode(&sample_bytes(&slots)).is_ok());
}

#[test]
fn unknown_kdf_id_is_rejected() {
    let slots = vec![slot(SLOT_PASSWORD, 99, KdfParams::interactive())];
    assert!(matches!(decode(&sample_bytes(&slots)), Err(AppError::CorruptFile(_))));
}

#[test]
fn absurd_slot_count_is_rejected_before_allocation() {
    let slots = vec![slot(SLOT_PASSWORD, KDF_ARGON2ID, KdfParams::interactive())];
    let mut bytes = sample_bytes(&slots);
    bytes[9] = u8::MAX;
    assert!(matches!(decode(&bytes), Err(AppError::CorruptFile(_))));

    bytes[9] = 0;
    assert!(matches!(decode(&bytes), Err(AppError::CorruptFile(_))));
}

#[test]
fn foreign_magic_is_not_our_file() {
    let slots = vec![slot(SLOT_PASSWORD, KDF_ARGON2ID, KdfParams::interactive())];
    let mut bytes = sample_bytes(&slots);
    bytes[0] = b'X';
    assert!(matches!(decode(&bytes), Err(AppError::NotOurFile)));
}

#[test]
fn a_newer_format_version_is_refused_outright() {
    let slots = vec![slot(SLOT_PASSWORD, KDF_ARGON2ID, KdfParams::interactive())];
    let mut bytes = sample_bytes(&slots);
    bytes[8] = FORMAT_VERSION + 1;
    assert!(matches!(decode_any(&bytes), Err(AppError::UnsupportedFormatVersion(v)) if v == FORMAT_VERSION + 1));
}

#[test]
fn a_v1_file_still_decodes_for_migration() {
    let bytes = sample_v1_bytes(KdfParams::interactive(), KDF_ARGON2ID);
    let AnyEnvelope::V1(envelope) = decode_any(&bytes).expect("v1 must stay readable") else {
        panic!("a v1 file should not decode as v2");
    };

    assert_eq!(envelope.salt, [7u8; SALT_LEN]);
    assert_eq!(envelope.kdf_params.m_cost, KdfParams::interactive().m_cost);
    assert_eq!(envelope.ciphertext, b"ciphertext");
    // The AAD has to be rebuilt byte for byte, or the file will not decrypt.
    assert_eq!(header_aad_v1(&envelope), bytes[..V1_HEADER_LEN]);
}

#[test]
fn the_plain_decoder_refuses_a_v1_file() {
    let bytes = sample_v1_bytes(KdfParams::interactive(), KDF_ARGON2ID);
    assert!(matches!(decode(&bytes), Err(AppError::CorruptFile(_))));
}

#[test]
fn a_file_is_laid_out_byte_for_byte() {
    let bytes = sample_bytes(&[slot(SLOT_PASSWORD, KDF_ARGON2ID, KdfParams::interactive())]);
    let mut expected = b"SSHCTRL1".to_vec();
    expected.extend_from_slice(&[2, 1]);
    expected.extend_from_slice(&[1, 1]);
    expected.extend_from_slice(&19_456u32.to_le_bytes());
    expected.extend_from_slice(&2u32.to_le_bytes());
    expected.extend_from_slice(&1u32.to_le_bytes());
    expected.extend_from_slice(&[7; 16]);
    expected.extend_from_slice(&[3; 12]);
    expected.extend_from_slice(&[5; 48]);
    expected.extend_from_slice(&[9; 12]);
    expected.extend_from_slice(&10u32.to_le_bytes());
    expected.extend_from_slice(b"ciphertext");
    assert_eq!(bytes, expected);
}

#[test]
fn a_file_survives_decoding_and_encoding_again() {
    let bytes = sample_bytes(&[
        slot(SLOT_PASSWORD, KDF_ARGON2ID, KdfParams::recovery()),
        slot(SLOT_DEVICE, KDF_HKDF_SHA256, KdfParams::none()),
    ]);
    let envelope = decode(&bytes).expect("decodes");
    assert_eq!(encode(&envelope.slots, &envelope.nonce, &envelope.ciphertext), bytes);
}

#[test]
fn every_cut_of_a_file_is_an_error() {
    let bytes = sample_bytes(&[slot(SLOT_PASSWORD, KDF_ARGON2ID, KdfParams::interactive())]);
    for n in 0..bytes.len() {
        if is_cut_before_slot_count(&bytes[..n]) {
            assert_eq!(n, 9);
            continue;
        }
        assert!(decode(&bytes[..n]).is_err(), "{n} bytes decoded");
    }
}
