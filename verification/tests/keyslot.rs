use ssh_control::config::format::{Slot, MK_LEN, SLOT_DEVICE, SLOT_PASSWORD, WRAPPED_MK_LEN};
use ssh_control::config::keyslot::{
    find, has, replace, unwrap_device, unwrap_password, unwrap_under, wrap_device, wrap_device_with, wrap_password,
    wrap_password_with, wrap_under, Draw, MasterKey, DEVICE_KDF_ID,
};
use ssh_control::crypto::cipher::{decrypt, drawn, drawn_key, encrypt, random_master_key, random_nonce, random_salt};
use ssh_control::crypto::kdf::{derive_key, KdfParams, SALT_LEN};
use ssh_control::crypto::wiped::SecretKey;
use ssh_control::error::AppError;

/// The standard cost would make this file take seconds; the wrapping does not
/// care how expensive the derivation was.
fn test_params() -> KdfParams {
    KdfParams { m_cost: 8, t_cost: 1, p_cost: 1 }
}

fn master_key() -> MasterKey {
    MasterKey::new([42u8; MK_LEN])
}

#[test]
fn a_password_slot_round_trips() {
    let mk = master_key();
    let slot = wrap_password("hunter2", test_params(), &mk).expect("wrap should succeed");
    let recovered = unwrap_password(&slot, "hunter2").expect("the right password should unwrap");
    assert_eq!(recovered.as_bytes(), mk.as_bytes());
}

#[test]
fn the_wrong_password_does_not_unwrap() {
    let slot = wrap_password("hunter2", test_params(), &master_key()).expect("wrap should succeed");
    assert!(matches!(unwrap_password(&slot, "hunter3"), Err(AppError::WrongPasswordOrCorrupt)));
}

#[test]
fn tampering_with_the_descriptor_breaks_the_unwrap() {
    let slot = wrap_password("hunter2", test_params(), &master_key()).expect("wrap should succeed");

    let mut retyped = slot.clone();
    retyped.kind = SLOT_DEVICE;
    assert!(matches!(unwrap_password(&retyped, "hunter2"), Err(AppError::WrongPasswordOrCorrupt)));

    let mut resalted = slot.clone();
    resalted.salt[0] ^= 0xff;
    assert!(matches!(unwrap_password(&resalted, "hunter2"), Err(AppError::WrongPasswordOrCorrupt)));
}

#[test]
fn two_slots_carry_the_same_master_key() {
    let mk = master_key();
    let a = wrap_password("first", test_params(), &mk).expect("wrap should succeed");
    let b = wrap_password("second", test_params(), &mk).expect("wrap should succeed");

    assert_ne!(a.wrapped_mk, b.wrapped_mk, "different keks must produce different ciphertext");
    assert_eq!(unwrap_password(&a, "first").expect("unwrap a").as_bytes(), mk.as_bytes());
    assert_eq!(unwrap_password(&b, "second").expect("unwrap b").as_bytes(), mk.as_bytes());
}

#[test]
fn replace_swaps_one_kind_and_leaves_the_others() {
    let mk = master_key();
    let mut slots = vec![
        wrap_password("old", test_params(), &mk).expect("wrap should succeed"),
        Slot {
            kind: SLOT_DEVICE,
            kdf_id: DEVICE_KDF_ID,
            kdf_params: KdfParams::none(),
            salt: [1u8; SALT_LEN],
            wrap_nonce: [2u8; 12],
            wrapped_mk: [3u8; WRAPPED_MK_LEN],
        },
    ];

    let fresh = wrap_password("new", test_params(), &mk).expect("wrap should succeed");
    replace(&mut slots, SLOT_PASSWORD, fresh);

    assert_eq!(slots.len(), 2);
    assert!(has(&slots, SLOT_DEVICE), "the device slot must survive a password change");
    let password_slot = find(&slots, SLOT_PASSWORD).expect("the new password slot should be there");
    assert_eq!(unwrap_password(password_slot, "new").expect("unwrap").as_bytes(), mk.as_bytes());
    assert!(unwrap_password(password_slot, "old").is_err());
}

#[test]
fn replace_appends_when_the_kind_is_absent() {
    let mk = master_key();
    let mut slots = Vec::new();
    replace(&mut slots, SLOT_PASSWORD, wrap_password("only", test_params(), &mk).expect("wrap should succeed"));
    assert_eq!(slots.len(), 1);
    assert!(has(&slots, SLOT_PASSWORD));
}

#[test]
fn replace_keeps_the_slots_in_the_order_of_their_kinds() {
    let mk = master_key();
    let mut slots = vec![wrap_device(&SecretKey::new([4u8; 32]), &mk).expect("wrap should succeed")];
    replace(&mut slots, SLOT_PASSWORD, wrap_password("p", test_params(), &mk).expect("wrap should succeed"));
    let kinds: Vec<u8> = slots.iter().map(|s| s.kind).collect();
    assert_eq!(kinds, vec![SLOT_PASSWORD, SLOT_DEVICE]);
}

#[test]
fn a_device_slot_opens_with_its_own_key_only() {
    let mk = master_key();
    let slot = wrap_device(&SecretKey::new([4u8; 32]), &mk).expect("wrap should succeed");
    assert_eq!(slot.kind, SLOT_DEVICE);
    assert_eq!(unwrap_device(&slot, &SecretKey::new([4u8; 32])).expect("unwrap").as_bytes(), mk.as_bytes());
    assert!(matches!(unwrap_device(&slot, &SecretKey::new([5u8; 32])), Err(AppError::WrongPasswordOrCorrupt)));
    assert!(matches!(unwrap_password(&slot, "x"), Err(AppError::CorruptFile(m)) if m == "password slot is not argon2id"));

    let password = wrap_password("x", test_params(), &mk).expect("wrap should succeed");
    assert!(
        matches!(unwrap_device(&password, &SecretKey::new([4u8; 32])), Err(AppError::CorruptFile(m)) if m == "device slot is not hkdf-sha256")
    );
}

#[test]
fn sealing_changes_the_bytes_and_opening_gives_them_back() {
    let key = [1u8; 32];
    let nonce = [2u8; 12];
    let sealed = encrypt(&key, &nonce, b"header", b"plaintext").expect("seals");
    assert_eq!(sealed.len(), 9 + 16);
    assert_ne!(&sealed[..9], b"plaintext");
    assert_eq!(decrypt(&key, &nonce, b"header", &sealed).expect("opens").as_slice(), b"plaintext");
    assert!(matches!(decrypt(&key, &nonce, b"heade!", &sealed), Err(AppError::WrongPasswordOrCorrupt)));
    assert!(matches!(decrypt(&[3u8; 32], &nonce, b"header", &sealed), Err(AppError::WrongPasswordOrCorrupt)));
}

#[test]
fn the_sealed_bytes_are_those_of_aes_256_gcm() {
    // The published vector for a key, a nonce and a block of zeroes.
    let sealed = encrypt(&[0u8; 32], &[0u8; 12], b"", &[0u8; 16]).expect("seals");
    let expected: [u8; 32] = [
        0xce, 0xa7, 0x40, 0x3d, 0x4d, 0x60, 0x6b, 0x6e, 0x07, 0x4e, 0xc5, 0xd3, 0xba, 0xf3, 0x9d, 0x18, 0xd0, 0xd1,
        0xc8, 0xa7, 0x99, 0x99, 0x6b, 0xf0, 0x26, 0x5b, 0x98, 0xb5, 0xd4, 0x8a, 0xb9, 0x19,
    ];
    assert_eq!(sealed, expected);
}

#[test]
fn a_derived_key_depends_on_the_password_the_salt_and_the_cost() {
    let key = derive_key("hunter2", &[7; 16], test_params()).expect("derives");
    assert_eq!(key.as_bytes(), derive_key("hunter2", &[7; 16], test_params()).expect("derives").as_bytes());
    assert_ne!(key.as_bytes(), derive_key("hunter3", &[7; 16], test_params()).expect("derives").as_bytes());
    assert_ne!(key.as_bytes(), derive_key("hunter2", &[8; 16], test_params()).expect("derives").as_bytes());
    assert_ne!(key.as_bytes(), derive_key("hunter2", &[7; 16], KdfParams { t_cost: 2, ..test_params() }).expect("derives").as_bytes());
    assert!(matches!(
        derive_key("hunter2", &[7; 16], KdfParams { m_cost: 1, ..test_params() }),
        Err(AppError::Kdf(_))
    ));
}

#[test]
fn the_costs_are_the_published_ones() {
    let i = KdfParams::interactive();
    assert_eq!((i.m_cost, i.t_cost, i.p_cost), (19_456, 2, 1));
    let n = KdfParams::none();
    assert_eq!((n.m_cost, n.t_cost, n.p_cost), (0, 0, 0));
    assert!(KdfParams::recovery().m_cost > i.m_cost);
}

#[test]
fn a_failed_draw_is_a_crypto_error() {
    assert_eq!(drawn(Ok([7u8; 12])).expect("drawn"), [7u8; 12]);
    assert!(matches!(drawn::<12>(Err("no entropy".into())), Err(AppError::Crypto(m)) if m == "no entropy"));
}

#[test]
fn random_values_differ() {
    assert_ne!(random_master_key().expect("random").as_bytes(), random_master_key().expect("random").as_bytes());
    assert_ne!(random_nonce().expect("random"), random_nonce().expect("random"));
    assert_ne!(random_salt().expect("random"), random_salt().expect("random"));
}

fn draw() -> Draw {
    Draw { salt: Ok([7; SALT_LEN]), nonce: Ok([9; 12]) }
}

fn no_entropy() -> AppError {
    AppError::Crypto("no entropy".into())
}

#[test]
fn a_slot_is_made_of_what_was_drawn() {
    let mk = master_key();
    let a = wrap_password_with("hunter2", test_params(), draw(), &mk).expect("wraps");
    let b = wrap_password_with("hunter2", test_params(), draw(), &mk).expect("wraps");
    assert_eq!((a.salt, a.wrap_nonce, a.wrapped_mk), ([7; SALT_LEN], [9; 12], b.wrapped_mk));
    assert_eq!(unwrap_password(&a, "hunter2").expect("unwraps").as_bytes(), mk.as_bytes());

    let device = SecretKey::new([4; 32]);
    let c = wrap_device_with(&device, draw(), &mk).expect("wraps");
    assert_eq!((c.salt, c.wrap_nonce), ([7; SALT_LEN], [9; 12]));
    assert_eq!(unwrap_device(&c, &device).expect("unwraps").as_bytes(), mk.as_bytes());
}

#[test]
fn the_first_failure_of_a_wrap_is_its_answer() {
    let mk = master_key();
    let unsalted = || Draw { salt: Err(no_entropy()), nonce: Ok([9; 12]) };
    let no_nonce = || Draw { salt: Ok([7; SALT_LEN]), nonce: Err(no_entropy()) };
    let cheap = KdfParams { m_cost: 1, ..test_params() };
    assert!(matches!(wrap_password_with("p", cheap, unsalted(), &mk), Err(AppError::Crypto(_))));
    assert!(matches!(wrap_password_with("p", cheap, no_nonce(), &mk), Err(AppError::Kdf(_))));
    assert!(matches!(wrap_password_with("p", test_params(), no_nonce(), &mk), Err(AppError::Crypto(_))));
    let device = SecretKey::new([4; 32]);
    assert!(matches!(wrap_device_with(&device, unsalted(), &mk), Err(AppError::Crypto(m)) if m == "no entropy"));
    assert!(matches!(wrap_device_with(&device, no_nonce(), &mk), Err(AppError::Crypto(m)) if m == "no entropy"));
}

#[test]
fn a_slot_of_another_kdf_is_refused_whatever_the_password() {
    let mut slot = wrap_password_with("hunter2", test_params(), draw(), &master_key()).expect("wraps");
    slot.kdf_id = DEVICE_KDF_ID;
    assert!(matches!(unwrap_password(&slot, "hunter2"), Err(AppError::CorruptFile(_))));
    assert!(matches!(unwrap_password(&slot, "other"), Err(AppError::CorruptFile(_))));
}

#[test]
fn a_wiped_key_holds_zeroes() {
    let mut key = drawn_key(Ok([5; 32])).expect("drawn");
    assert_eq!(key.as_bytes(), &[5; 32]);
    let copy = key.clone();
    key.zeroize();
    assert_eq!(key.as_bytes(), &[0; 32]);
    assert_eq!(copy.as_bytes(), &[5; 32]);
    assert!(drawn_key(Err(no_entropy())).is_err());
}

#[test]
fn a_key_wrapped_under_another_unwraps_under_it_alone() {
    let mk = master_key();
    let kek = SecretKey::new([8; 32]);
    let slot = wrap_under(SLOT_DEVICE, DEVICE_KDF_ID, KdfParams::none(), [1; SALT_LEN], &kek, &mk).expect("wraps");
    assert_eq!((slot.kind, slot.kdf_id, slot.salt), (SLOT_DEVICE, DEVICE_KDF_ID, [1; SALT_LEN]));
    assert_eq!(unwrap_under(&slot, &kek).expect("unwraps").as_bytes(), mk.as_bytes());
    assert!(matches!(unwrap_under(&slot, &SecretKey::new([9; 32])), Err(AppError::WrongPasswordOrCorrupt)));
}
