use serde_json::Value;

use ssh_control::config::device::{device_kek, now_unix, unix_seconds, DeviceState, DEVICE_KEY_LEN};
use ssh_control::config::format::{header_aad_v1, EnvelopeV1, SLOT_DEVICE, SLOT_PASSWORD};
use ssh_control::config::keyslot::{replace, unwrap_password, wrap_device, Draw};
use ssh_control::config::migrate::{migrate_forward, plan_schema};
use ssh_control::config::model::{
    delete_server, AuthMethod, ForwardKind, ForwardRule, Script, ScriptStep, ServerEntry, ServerSort, StepCondition,
    SystemInfo, TotpConfig, Uuid, CURRENT_SCHEMA_VERSION, DEFAULT_PORT,
};
use ssh_control::config::secret::Secret;
use ssh_control::config::store::{
    init, init_with, load, load_with_device, lock_sibling, peek_shape, seal, seal_with_nonce, shape_of, tmp_sibling, upgrade_v1_with, vault_id, StageStep, VaultShape,
};
use ssh_control::config::ConfigStore;
use ssh_control::crypto::kdf::KdfParams;
use ssh_control::crypto::wiped::SecretKey;
use ssh_control::error::AppError;

#[test]
fn a_fresh_device_key_round_trips_through_base64() {
    let state = DeviceState::new().expect("generating a device key should work");
    let key = state.device_key().expect("the key should decode");
    assert_eq!(key.as_bytes().len(), DEVICE_KEY_LEN);
    assert_ne!(key.as_bytes(), &[0u8; DEVICE_KEY_LEN], "the key must not be all zeroes");
}

#[test]
fn two_devices_get_different_keys() {
    let a = DeviceState::new().expect("generate a");
    let b = DeviceState::new().expect("generate b");
    assert_ne!(a.device_key().expect("a").as_bytes(), b.device_key().expect("b").as_bytes());
}

#[test]
fn the_kek_is_deterministic_for_a_key_and_salt() {
    let key = [3u8; DEVICE_KEY_LEN];
    let first = device_kek(&key, &[1u8; 16]).expect("derive");
    let second = device_kek(&key, &[1u8; 16]).expect("derive again");
    assert_eq!(first.as_bytes(), second.as_bytes());
}

#[test]
fn a_different_salt_or_key_gives_a_different_kek() {
    let base = device_kek(&[3u8; DEVICE_KEY_LEN], &[1u8; 16]).expect("derive");
    assert_ne!(base.as_bytes(), device_kek(&[3u8; DEVICE_KEY_LEN], &[2u8; 16]).expect("other salt").as_bytes());
    assert_ne!(base.as_bytes(), device_kek(&[4u8; DEVICE_KEY_LEN], &[1u8; 16]).expect("other key").as_bytes());
}

#[test]
fn state_serialises_without_leaking_through_debug() {
    let state = DeviceState::new().expect("generate");
    let rendered = state.debug_text();
    assert!(rendered.contains("<redacted>"));
    assert!(!rendered.contains(state.device_key.as_str()));
}

#[test]
fn too_many_failures_forces_the_password() {
    let mut state = DeviceState::new().expect("generate");
    assert!(!state.must_escalate(5, 30));
    state.failed_attempts = 5;
    assert!(state.must_escalate(5, 30));
    // A threshold of 0 turns the trigger off, like auto_lock_minutes.
    assert!(!state.must_escalate(0, 30));
}

#[test]
fn a_stale_password_check_forces_the_password() {
    let mut state = DeviceState::new().expect("generate");
    assert!(!state.must_escalate(5, 30));

    state.last_password_check_unix = now_unix() - 31 * 86_400;
    assert!(state.must_escalate(5, 30));
    assert!(!state.must_escalate(5, 0), "0 days must disable the periodic trigger");

    state.record_password_check();
    assert!(!state.must_escalate(5, 30), "a successful password unlock clears it");
}

#[test]
fn a_clock_before_the_epoch_reads_zero() {
    assert_eq!(unix_seconds(Some(5)), 5);
    assert_eq!(unix_seconds(None), 0);
}

#[test]
fn the_age_of_a_password_check_counts_in_days() {
    let mut state = DeviceState::new().expect("generate");
    state.record_password_check_at(1_000);
    assert!(!state.must_escalate_at(5, 30, 1_000 + 30 * 86_400 - 1));
    assert!(state.must_escalate_at(5, 30, 1_000 + 31 * 86_400));
    // A clock that went backwards is no reason to ask.
    assert!(!state.must_escalate_at(5, 30, 0));
}

#[test]
fn a_device_key_that_is_not_base64_of_its_length_is_refused() {
    let mut state = DeviceState::new().expect("generate");
    state.device_key = Secret::from("AAAA".to_string());
    assert!(matches!(state.device_key(), Err(AppError::Keyring(_))));
    state.device_key = Secret::from("not base64!".to_string());
    assert!(matches!(state.device_key(), Err(AppError::Keyring(_))));
    state.device_key = Secret::from("AQEBAQEBAQEBAQEBAQEBAQEBAQEBAQEBAQEBAQEBAQE=".to_string());
    assert_eq!(state.device_key().expect("decodes").as_bytes(), &[1u8; DEVICE_KEY_LEN]);
}

/// The version that a stored body says it has.
fn version_of(body: &Value) -> Option<u32> {
    body.get("schema_version").and_then(Value::as_u64).map(|v| v as u32)
}

fn body(json: &str) -> Value {
    serde_json::from_str(json).expect("json")
}

#[test]
fn a_config_at_the_current_version_loads_unchanged() {
    let stored = body(r#"{"schema_version":1,"servers":[]}"#);
    assert_eq!(plan_schema(version_of(&stored), &[]).unwrap(), Vec::<u32>::new());
    assert_eq!(version_of(&stored), Some(CURRENT_SCHEMA_VERSION));
    assert!(stored["servers"].as_array().unwrap().is_empty());
}

#[test]
fn a_newer_config_is_refused_rather_than_silently_stripped() {
    let newer = body(r#"{"schema_version":2,"servers":[],"something_new":[1,2]}"#);
    match plan_schema(version_of(&newer), &[]).err() {
        Some(AppError::SchemaTooNew { found, supported }) => {
            assert_eq!(found, 2);
            assert_eq!(supported, CURRENT_SCHEMA_VERSION);
        }
        Some(other) => panic!("expected a schema refusal, got {other:?}"),
        None => panic!("a newer config must not open"),
    }
}

#[test]
fn a_config_without_the_field_is_treated_as_the_current_version() {
    let stored = body(r#"{"servers":[]}"#);
    assert_eq!(plan_schema(version_of(&stored), &[]).unwrap(), Vec::<u32>::new());
}

#[test]
fn a_version_with_no_migration_path_is_refused_rather_than_looped_on() {
    match plan_schema(version_of(&body(r#"{"schema_version":0,"servers":[]}"#)), &[]).err() {
        Some(AppError::CorruptFile(message)) => {
            assert!(message.contains("no migration from schema version 0"), "got: {message}");
        }
        Some(other) => panic!("expected a corrupt-file error, got {other:?}"),
        None => panic!("a config below the oldest known schema must not open"),
    }
}

type Step = fn(&mut serde_json::Map<String, Value>);

fn rename_host_to_hostname(object: &mut serde_json::Map<String, Value>) {
    if let Some(servers) = object.get_mut("servers").and_then(Value::as_array_mut) {
        for server in servers {
            if let Some(entry) = server.as_object_mut() {
                if let Some(host) = entry.remove("hostname") {
                    entry.insert("host".into(), host);
                }
            }
        }
    }
}

fn add_a_default_port(object: &mut serde_json::Map<String, Value>) {
    if let Some(servers) = object.get_mut("servers").and_then(Value::as_array_mut) {
        for server in servers {
            if let Some(entry) = server.as_object_mut() {
                entry.entry("port").or_insert(Value::from(22));
            }
        }
    }
}

/// Takes the steps that the plan names.
fn walk(mut value: Value, from: u32, to: u32, steps: &[(u32, Step)]) -> Value {
    let versions: Vec<u32> = steps.iter().map(|(at, _)| *at).collect();
    let plan = migrate_forward(from, to, &versions).expect("there is a path");
    let object = value.as_object_mut().unwrap();
    for version in plan {
        let (_, step) = steps.iter().find(|(at, _)| *at == version).unwrap();
        step(object);
    }
    object.insert("schema_version".into(), Value::from(to));
    value
}

#[test]
fn steps_are_applied_in_order_until_the_current_version_is_reached() {
    let steps: &[(u32, Step)] = &[(1, rename_host_to_hostname), (2, add_a_default_port)];
    let old = body(r#"{"schema_version": 1, "servers": [{"hostname": "example.com"}]}"#);

    let migrated = walk(old, 1, 3, steps);

    let server = &migrated["servers"][0];
    assert_eq!(server["host"], "example.com", "the v1 step should have renamed the field");
    assert!(server.get("hostname").is_none(), "the old field should be gone");
    assert_eq!(server["port"], 22, "the v2 step should have run after it");
    assert_eq!(migrated["schema_version"], 3);
}

#[test]
fn nothing_runs_when_there_is_nothing_to_migrate() {
    let steps: &[(u32, Step)] = &[(1, rename_host_to_hostname)];
    let current = body(r#"{"schema_version": 2, "servers": [{"hostname": "untouched"}]}"#);

    let migrated = walk(current, 2, 2, steps);

    assert_eq!(migrated["servers"][0]["hostname"], "untouched");
}

#[test]
fn the_walk_is_every_version_once() {
    assert_eq!(migrate_forward(1, 4, &[3, 1, 2]).unwrap(), vec![1, 2, 3]);
    assert!(matches!(migrate_forward(1, 4, &[1, 3]), Err(AppError::CorruptFile(_))));
}

#[test]
fn debug_never_prints_a_credential() {
    let entry = ServerEntry::new(
        "box".into(),
        "example.com".into(),
        DEFAULT_PORT,
        "root".into(),
        AuthMethod::password("hunter2".into()),
    );
    assert!(!entry.debug_text().contains("hunter2"));
}

#[test]
fn a_server_is_shown_field_by_field() {
    let mut entry =
        ServerEntry::new("b\"x".into(), "h".into(), 22, "root".into(), AuthMethod::password("hunter2".into()));
    entry.id = Uuid { bits: 1 };
    entry.host_key_fingerprint = Some("SHA256:abc".into());
    entry.system_info = Some(SystemInfo {
        cpu_model: None,
        cpu_cores: Some(8),
        mem_total_bytes: Some(1),
        mem_used_bytes: None,
        disk_total_bytes: None,
        disk_used_bytes: None,
        gpu_model: Some("a".into()),
        gpus: vec!["a".into(), "b".into()],
        fetched_at_unix: 5,
    });
    entry.scripts.push(Script {
        id: Uuid { bits: 2 },
        name: "s".into(),
        run_on_connect: true,
        steps: vec![ScriptStep {
            command: "ls".into(),
            condition: StepCondition::OutputContains("x".into()),
            timeout_secs: Some(3),
        }],
    });
    assert_eq!(
        entry.debug_text(),
        "ServerEntry { id: 00000000-0000-0000-0000-000000000001, name: \"b\\\"x\", host: \"h\", port: 22, \
         username: \"root\", auth: Password { password: \"<redacted>\" }, \
         host_key_fingerprint: Some(\"SHA256:abc\"), system_info: Some(SystemInfo { cpu_model: None, \
         cpu_cores: Some(8), mem_total_bytes: Some(1), mem_used_bytes: None, disk_total_bytes: None, \
         disk_used_bytes: None, gpu_model: Some(\"a\"), gpus: [\"a\", \"b\"], fetched_at_unix: 5 }), \
         scripts: [Script { id: 00000000-0000-0000-0000-000000000002, name: \"s\", run_on_connect: true, \
         steps: [ScriptStep { command: \"ls\", condition: OutputContains(\"x\"), timeout_secs: Some(3) }] }] }"
    );
}

#[test]
fn login_methods_are_shown_without_their_secrets() {
    let key = AuthMethod::SshKey { key_path: "/k".into(), passphrase: Some(Secret::from("pp".to_string())) };
    assert_eq!(key.debug_text(), "SshKey { key_path: \"/k\", passphrase: \"<redacted>\" }");
    assert_eq!(AuthMethod::Agent.debug_text(), "Agent");
    let totp = TotpConfig { secret_base32: Secret::from("JBSWY3DPEHPK3PXP".to_string()) };
    assert!(!totp.debug_text().contains("JBSWY3DPEHPK3PXP"));
}

#[test]
fn debug_output_is_redacted() {
    let secret = Secret::from("hunter2".to_string());
    let rendered = secret.debug_text();
    assert_eq!(rendered, "<redacted>");
    assert!(!rendered.contains("hunter2"));
}

#[test]
fn zeroize_clears_the_buffer() {
    let mut secret = Secret::from("hunter2".to_string());
    secret.zeroize();
    assert!(secret.is_empty());
}

#[test]
fn identities_are_fresh() {
    assert_ne!(Uuid::new_v4(), Uuid::new_v4());
    assert_eq!(Uuid::nil().bits, 0);
}

#[test]
fn the_sort_order_goes_round() {
    assert_eq!(ServerSort::Name.next().next().next(), ServerSort::Name);
}

#[test]
fn a_deleted_server_is_nobodys_bastion() {
    let new = |n: &str| ServerEntry::new(n.into(), "h".into(), 22, "u".into(), AuthMethod::Agent);
    let (bastion, mut behind) = (new("bastion"), new("behind"));
    behind.jump_host = Some(bastion.id);
    let gone = bastion.id;
    let mut servers = vec![bastion, behind];
    delete_server(&mut servers, gone);
    assert_eq!(servers.len(), 1);
    assert_eq!(servers[0].name, "behind");
    assert_eq!(servers[0].jump_host, None);
}

#[test]
fn a_forward_is_labelled_by_where_it_listens_and_leads() {
    let rule = ForwardRule::new(ForwardKind::Local {
        bind_addr: "127.0.0.1".into(),
        bind_port: 8080,
        dest_host: "db".into(),
        dest_port: 5432,
    });
    assert!(rule.enabled);
    assert!(rule.label().contains("127.0.0.1:8080"));
    assert!(rule.label().contains("db:5432"));
}

#[test]
fn a_vault_opens_with_its_password_and_no_other() {
    let unlocked = init("correct horse").expect("init");
    let bytes = seal(b"{}", &unlocked.master_key, &unlocked.slots).expect("seal");
    assert_eq!(peek_shape(&bytes).expect("shape"), VaultShape::Password);

    let opened = load(&bytes, "correct horse").expect("opens");
    assert_eq!(opened.plaintext.as_slice(), b"{}");
    assert_eq!(opened.master_key.as_bytes(), unlocked.master_key.as_bytes());
    assert!(!opened.upgraded);
    assert!(matches!(load(&bytes, "wrong horse"), Err(AppError::WrongPasswordOrCorrupt)));
    assert!(matches!(load_with_device(&bytes, &SecretKey::new([1; 32])), Err(AppError::WrongPasswordOrCorrupt)));
}

#[test]
fn a_vault_opens_on_its_device() {
    let mut unlocked = init("correct horse").expect("init");
    replace(&mut unlocked.slots, SLOT_DEVICE, wrap_device(&SecretKey::new([1; 32]), &unlocked.master_key).expect("wrap"));
    let bytes = seal(b"body", &unlocked.master_key, &unlocked.slots).expect("seal");
    assert_eq!(peek_shape(&bytes).expect("shape"), VaultShape::DeviceAndPassword);
    assert_eq!(load_with_device(&bytes, &SecretKey::new([1; 32])).expect("opens").plaintext.as_slice(), b"body");
    assert!(matches!(load_with_device(&bytes, &SecretKey::new([2; 32])), Err(AppError::WrongPasswordOrCorrupt)));
    assert_eq!(load(&bytes, "correct horse").expect("opens").plaintext.as_slice(), b"body");

    let device_only: Vec<_> = unlocked.slots.iter().filter(|s| s.kind != SLOT_PASSWORD).cloned().collect();
    assert_eq!(shape_of(&device_only), VaultShape::Device);
}

#[test]
fn a_tampered_vault_does_not_open() {
    let unlocked = init("correct horse").expect("init");
    let mut bytes = seal(b"body", &unlocked.master_key, &unlocked.slots).expect("seal");
    let last = bytes.len() - 1;
    bytes[last] ^= 1;
    assert!(matches!(load(&bytes, "correct horse"), Err(AppError::WrongPasswordOrCorrupt)));
}

#[test]
fn a_vault_without_slots_is_never_written() {
    assert!(matches!(seal(b"{}", &SecretKey::new([0; 32]), &[]), Err(AppError::Crypto(_))));
    assert!(matches!(seal_with_nonce(b"{}", &SecretKey::new([0; 32]), &[], &[0; 12]), Err(AppError::Crypto(_))));
}

#[test]
fn a_vault_of_the_first_layout_is_upgraded() {
    let params = ssh_control::crypto::kdf::KdfParams { m_cost: 8, t_cost: 1, p_cost: 1 };
    let key = ssh_control::crypto::kdf::derive_key("pw", &[7; 16], params).expect("derive");
    let mut header = b"SSHCTRL1".to_vec();
    header.extend_from_slice(&[1, 1]);
    header.extend_from_slice(&8u32.to_le_bytes());
    header.extend_from_slice(&1u32.to_le_bytes());
    header.extend_from_slice(&1u32.to_le_bytes());
    header.extend_from_slice(&[7; 16]);
    let sealed = ssh_control::crypto::cipher::encrypt(key.as_bytes(), &[9; 12], &header, b"old body").expect("seal");
    let mut bytes = header.clone();
    bytes.extend_from_slice(&[9; 12]);
    bytes.extend_from_slice(&(sealed.len() as u32).to_le_bytes());
    bytes.extend_from_slice(&sealed);

    assert_eq!(peek_shape(&bytes).expect("shape"), VaultShape::Password);
    let opened = load(&bytes, "pw").expect("opens");
    assert!(opened.upgraded);
    assert_eq!(opened.plaintext.as_slice(), b"old body");
    assert_eq!(opened.slots.len(), 1);
    assert_eq!(opened.slots[0].kdf_params.m_cost, 8, "it keeps the cost it was written with");
    let again = seal(opened.plaintext.as_slice(), &opened.master_key, &opened.slots).expect("seal");
    assert_eq!(load(&again, "pw").expect("opens again").plaintext.as_slice(), b"old body");
    assert!(matches!(load(&bytes, "nope"), Err(AppError::WrongPasswordOrCorrupt)));
}

#[test]
fn the_sibling_files_stand_beside_the_vault() {
    let store = ConfigStore::new("/home/u/vault/config.enc".into());
    assert_eq!(store.vault_id_path(), "/home/u/vault/vault-id");
    assert!(store.prefs_path().starts_with("/home/u/vault/"));
    assert_ne!(store.prefs_path(), store.totp_only_secret_path());
    assert_eq!(tmp_sibling("/home/u/vault/config.enc"), "/home/u/vault/config.enc.tmp");
    assert_eq!(lock_sibling("/home/u/vault/config.enc"), "/home/u/vault/config.enc.lock");
    assert_eq!(store.prefs_path(), "/home/u/vault/prefs.lang");
    assert_eq!(store.totp_only_secret_path(), "/home/u/vault/totp-only.secret");
}

#[test]
fn a_write_is_staged_flushed_and_then_renamed() {
    let mut steps = vec![StageStep::Prepare];
    while !matches!(steps.last(), Some(StageStep::Done | StageStep::Failed)) {
        steps.push(steps.last().unwrap().next(true));
    }
    assert_eq!(
        steps,
        [
            StageStep::Prepare,
            StageStep::Create,
            StageStep::Write,
            StageStep::Rename,
            StageStep::SyncDir,
            StageStep::Done
        ]
    );
    assert_eq!(StageStep::Write.next(false), StageStep::Remove);
    assert_eq!(StageStep::Rename.next(false), StageStep::Remove);
    assert_eq!(StageStep::Remove.next(true), StageStep::Failed);
    assert_eq!(StageStep::Create.next(false), StageStep::Failed);
    assert_eq!(StageStep::SyncDir.next(false), StageStep::Done, "flushing the directory is best effort");
}

#[test]
fn a_vault_keeps_its_identifier() {
    assert_eq!(vault_id(Some(" abc\n")), ("abc".to_string(), false));
    let (fresh, new) = vault_id(Some("  \n"));
    assert!(new);
    assert_eq!(fresh.len(), 36);
    assert_ne!(vault_id(None).0, vault_id(None).0);
}

fn drawn_slot() -> Draw {
    Draw { salt: Ok([1; 16]), nonce: Ok([2; 12]) }
}

fn no_entropy() -> AppError {
    AppError::Crypto("no entropy".into())
}

#[test]
fn a_device_is_enrolled_under_what_was_drawn() {
    let state = DeviceState::new_at(Ok(SecretKey::new([1; 32])), 1_700_000_000).expect("enrolled");
    assert_eq!(state.device_key.as_str(), "AQEBAQEBAQEBAQEBAQEBAQEBAQEBAQEBAQEBAQEBAQE=");
    assert!(state.totp_secret.is_none());
    assert_eq!((state.replay_step, state.failed_attempts), (0, 0));
    assert_eq!(state.last_password_check_unix, 1_700_000_000);
    assert!(!state.must_escalate_at(5, 30, 1_700_000_000));
    assert!(matches!(DeviceState::new_at(Err(no_entropy()), 0), Err(AppError::Crypto(m)) if m == "no entropy"));
}

#[test]
fn a_vault_is_set_up_with_what_was_drawn() {
    let costs = KdfParams { m_cost: 8, t_cost: 1, p_cost: 1 };
    let made = init_with("pw", costs, Ok(SecretKey::new([3; 32])), drawn_slot()).expect("made");
    assert_eq!(made.master_key.as_bytes(), &[3; 32]);
    assert_eq!((made.slots.len(), made.slots[0].salt, made.slots[0].wrap_nonce), (1, [1; 16], [2; 12]));
    assert_eq!(unwrap_password(&made.slots[0], "pw").expect("unwraps").as_bytes(), &[3; 32]);
    assert_eq!((made.config.schema_version, made.config.auto_lock_minutes), (1, 15));
    assert!(made.config.servers.is_empty() && made.config.totp.is_none());
    assert!(matches!(init_with("pw", costs, Err(no_entropy()), drawn_slot()), Err(AppError::Crypto(_))));
}

#[test]
fn an_upgrade_takes_the_key_and_the_slot_that_were_drawn() {
    let params = KdfParams { m_cost: 8, t_cost: 1, p_cost: 1 };
    let key = ssh_control::crypto::kdf::derive_key("pw", &[7; 16], params).expect("derive");
    let mut v1 = EnvelopeV1 { kdf_params: params, salt: [7; 16], nonce: [9; 12], ciphertext: Vec::new() };
    let header = header_aad_v1(&v1);
    v1.ciphertext = ssh_control::crypto::cipher::encrypt(key.as_bytes(), &[9; 12], &header, b"old body").expect("seal");

    let opened = upgrade_v1_with(&v1, "pw", Ok(SecretKey::new([3; 32])), drawn_slot()).expect("upgraded");
    assert!(opened.upgraded);
    assert_eq!(opened.plaintext.as_slice(), b"old body");
    assert_eq!(opened.master_key.as_bytes(), &[3; 32]);
    assert_eq!((opened.slots.len(), opened.slots[0].salt), (1, [1; 16]));
    assert!(matches!(upgrade_v1_with(&v1, "pw", Err(no_entropy()), drawn_slot()), Err(AppError::Crypto(_))));
    assert!(matches!(
        upgrade_v1_with(&v1, "wp", Err(no_entropy()), drawn_slot()),
        Err(AppError::WrongPasswordOrCorrupt)
    ));
}
