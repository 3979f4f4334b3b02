use ssh_control::app::locked::{
    device_opened, device_read, first_write, migration_state, next_write, plan_migration_at, plan_migration_with, plan_vault,
    plan_vault_at, plan_vault_with,
    proved_to_open, reconcile, reconcile_at, setup_state, shape_seen, DailyEffect, DeviceLook, LockedStep, NewVault, Reconcile, ShapeLook, WriteStep,
};
use ssh_control::app::state::{App, AppState, Screen};
use ssh_control::app::steps::Effect;
use ssh_control::config::device::DeviceState;
use ssh_control::config::format::{SLOT_DEVICE, SLOT_PASSWORD};
use ssh_control::config::keyslot::{has, unwrap_device, unwrap_password, Draw};
use ssh_control::config::store::{init, load, seal, Unlocked, VaultShape};
use ssh_control::config::{Secret, TotpConfig};
use ssh_control::crypto::kdf::KdfParams;
use ssh_control::crypto::wiped::SecretKey;
use ssh_control::error::AppError;
use ssh_control::i18n::{Lang, Strings};
use ssh_control::totp::{check_code_at, AuthMode, CodeCheck};
use ssh_control::tui::{
    LockedInput, SetupOutcome, Theme, TotpUnlockOutcome, TotpUnlockState, UnlockMode, UnlockOutcome,
};

const SECRET: &str = "GEZDGNBVGY3TQOJQGEZDGNBVGY3TQOJQ";

fn secret(text: &str) -> Secret {
    Secret::from(text.to_string())
}

fn app(state: AppState) -> App {
    App {
        state,
        lang: Lang::English,
        theme: Theme { index: 0 },
        should_quit: false,
        last_activity: 0,
        remote: None,
        connecting: None,
        last_code_step: 0,
    }
}

fn daily() -> AppState {
    AppState::LockedTotpDaily(TotpUnlockState { error: None, info: None })
}

fn device(totp: Option<&str>) -> DeviceState {
    let mut state = DeviceState::new().expect("random");
    state.totp_secret = totp.map(secret);
    state
}

fn password_error(state: &AppState) -> Option<&str> {
    match state {
        AppState::Locked(u) => {
            assert!(matches!(u.mode, UnlockMode::Unlock));
            u.error.as_deref()
        }
        _ => panic!("expected the password screen"),
    }
}

#[test]
fn the_slots_decide_which_screen_comes_first() {
    let s = strings();
    assert!(matches!(shape_seen(Ok(VaultShape::Password), &s), ShapeLook::Show(AppState::Locked(_))));
    assert!(matches!(shape_seen(Ok(VaultShape::Device), &s), ShapeLook::ReadDevice { has_password: false }));
    assert!(matches!(
        shape_seen(Ok(VaultShape::DeviceAndPassword), &s),
        ShapeLook::ReadDevice { has_password: true }
    ));
    let ShapeLook::Show(state) = shape_seen(Err(AppError::NotOurFile), &s) else { panic!("a screen") };
    assert!(password_error(&state).unwrap().starts_with("[save_error_prefix]"));
    assert!(matches!(setup_state(true), AppState::Setup(u) if u.store_available));
}

#[test]
fn a_copied_vault_falls_back_to_the_password() {
    let s = strings();
    let DeviceLook::Show(state) = device_read(true, None, 0, &s) else { panic!("a screen") };
    assert_eq!(password_error(&state), Some("[err_device_not_enrolled]"));
    assert!(matches!(device_read(false, None, 0, &s), DeviceLook::Show(AppState::Unopenable)));
}

#[test]
fn the_password_is_asked_for_after_thirty_days() {
    let s = strings();
    let mut entry = device(Some(SECRET));
    entry.last_password_check_unix = 1_000;
    let DeviceLook::Show(state) = device_read(true, Some(entry), 1_000 + 31 * 86_400, &s) else { panic!("a screen") };
    assert_eq!(password_error(&state), Some("[err_password_required_now]"));

    let mut entry = device(Some(SECRET));
    entry.last_password_check_unix = 1_000;
    assert!(matches!(
        device_read(true, Some(entry), 1_000 + 86_400, &s),
        DeviceLook::Show(AppState::LockedTotpDaily(_))
    ));
    // Without a password slot there is nothing to escalate to.
    let mut entry = device(Some(SECRET));
    entry.failed_attempts = 9;
    assert!(matches!(device_read(false, Some(entry), 0, &s), DeviceLook::Show(AppState::LockedTotpDaily(_))));
}

#[test]
fn a_device_without_a_code_opens_at_once() {
    let entry = device(None);
    let key = entry.device_key().unwrap();
    match device_read(false, Some(entry), 0, &strings()) {
        DeviceLook::Open { key: k, has_password } => {
            assert_eq!((k.as_bytes(), has_password), (key.as_bytes(), false))
        }
        _ => panic!("nothing is asked"),
    }
    let mut broken = device(None);
    broken.device_key = secret("!");
    assert!(matches!(device_read(false, Some(broken), 0, &strings()), DeviceLook::Show(AppState::Unopenable)));
}

#[test]
fn a_contended_or_newer_vault_is_no_broken_one() {
    let s = strings();
    assert!(matches!(
        device_opened(true, Err(AppError::VaultInUse), &s),
        AppState::CannotOpen { title: "[vault_in_use_title]", .. }
    ));
    assert!(matches!(
        device_opened(true, Err(AppError::SchemaTooNew { found: 2, supported: 1 }), &s),
        AppState::CannotOpen { title: "[schema_too_new_title]", .. }
    ));
    assert!(matches!(device_opened(false, Err(AppError::WrongPasswordOrCorrupt), &s), AppState::Unopenable));
    let state = device_opened(true, Err(AppError::WrongPasswordOrCorrupt), &s);
    assert!(password_error(&state).is_some());
    let opened = init("pw").unwrap();
    assert!(matches!(device_opened(true, Ok(opened), &s), AppState::Unlocked(_)));
}

fn cheap() -> KdfParams {
    KdfParams { m_cost: 8, t_cost: 1, p_cost: 1 }
}

/// Makes a vault for a mode, at costs that a test can pay.
fn make(mode: AuthMode, password: Option<&str>, totp: Option<&str>) -> NewVault {
    let made = plan_vault_at(cheap(), mode, &password.map(secret), &totp.map(secret)).expect("a vault");
    let slots = &made.unlocked.slots;
    assert_eq!(has(slots, SLOT_PASSWORD), password.is_some());
    assert_eq!(has(slots, SLOT_DEVICE), made.device.is_some());
    assert_eq!(made.unlocked.config.totp.is_some(), totp.is_some());
    assert!(made.unlocked.config.servers.is_empty());
    if let Some(state) = &made.device {
        let slot = slots.last().unwrap();
        assert_eq!(unwrap_device(slot, &state.device_key().unwrap()).unwrap().as_bytes(), made.unlocked.master_key.as_bytes());
        assert_eq!(state.totp_secret.is_some(), mode == AuthMode::TotpDaily);
    }
    made
}

#[test]
fn a_vault_without_a_prompt_has_a_device_slot_alone() {
    let made = make(AuthMode::NoPrompt, None, None);
    assert_eq!(made.unlocked.slots.len(), 1);
}

#[test]
fn a_vault_with_a_password_opens_with_it() {
    let made = make(AuthMode::Password, Some("recovery"), None);
    assert!(made.device.is_none());
    assert_eq!(unwrap_password(&made.unlocked.slots[0], "recovery").unwrap().as_bytes(), made.unlocked.master_key.as_bytes());
    assert_eq!(made.unlocked.slots[0].kdf_params, cheap());
}

#[test]
fn costs_that_the_derivation_refuses_make_no_vault() {
    let costs = KdfParams { m_cost: 7, t_cost: 1, p_cost: 1 };
    let refused = plan_vault_at(costs, AuthMode::Password, &Some(secret("recovery")), &None);
    assert!(matches!(refused, Err(AppError::Kdf(why)) if why == "memory cost is too small"));
    // Without a password nothing is derived, so the costs do not matter.
    assert!(plan_vault_at(costs, AuthMode::NoPrompt, &None, &None).is_ok());
}

#[test]
fn a_vault_with_a_second_factor_keeps_the_secret_inside() {
    let made = make(AuthMode::PasswordTotp, Some("recovery"), Some(SECRET));
    assert!(made.device.is_none());
    assert_eq!(made.unlocked.config.totp.unwrap().secret_base32.as_str(), SECRET);
}

#[test]
fn a_vault_with_a_daily_code_keeps_the_secret_on_the_device_too() {
    let made = make(AuthMode::TotpDaily, Some("recovery"), Some(SECRET));
    assert_eq!(made.device.unwrap().totp_secret.unwrap().as_str(), SECRET);
    assert_eq!(made.unlocked.slots.len(), 2);
}

#[test]
fn the_entry_is_written_before_the_vault() {
    let made = plan_vault(AuthMode::NoPrompt, &None, &None).expect("a vault");
    assert_eq!(first_write(&made), WriteStep::Device);
    let bare = NewVault { device: None, ..made };
    assert_eq!(first_write(&bare), WriteStep::Vault);
    assert_eq!(next_write(WriteStep::Device, true, false), WriteStep::Vault);
    assert_eq!(next_write(WriteStep::Vault, true, false), WriteStep::Done);
    assert_eq!(next_write(WriteStep::Vault, true, true), WriteStep::ReadBack);
    assert_eq!(next_write(WriteStep::ReadBack, true, true), WriteStep::Done);
    for step in [WriteStep::Device, WriteStep::Vault, WriteStep::ReadBack] {
        assert_eq!(next_write(step, false, true), WriteStep::Failed);
    }
}

#[test]
fn a_failed_creation_takes_the_entry_back() {
    let s = strings();
    let mut a = app(setup_state(true));
    let effect = a.vault_created(AuthMode::NoPrompt, Err(AppError::Io("full".into())), &s);
    assert!(matches!(effect, Effect::DeleteDevice));
    assert!(matches!(&a.state, AppState::Setup(u) if u.error.as_deref().unwrap().contains("full")));
    assert!(matches!(a.vault_created(AuthMode::Password, Err(AppError::VaultInUse), &s), Effect::Nothing));
    assert!(matches!(&a.state, AppState::Setup(u) if u.error.as_deref() == Some("[err_vault_in_use]")));

    // The code was just proved during enrolment: it is not asked for again.
    let mut unlocked = init("pw").unwrap();
    unlocked.config.totp = Some(TotpConfig { secret_base32: secret(SECRET) });
    a.vault_created(AuthMode::PasswordTotp, Ok(unlocked), &s);
    assert!(matches!(&a.state, AppState::Unlocked(u) if matches!(u.screen, Screen::MainMenu(_))));
}

#[test]
fn a_vault_of_the_retired_mode_is_converted() {
    let old = init(SECRET).expect("a vault");
    let key = old.master_key.clone();
    let made = plan_migration_at(cheap(), old, &secret(SECRET), &secret("new password"), true).expect("converted");
    assert_eq!(made.unlocked.master_key.as_bytes(), key.as_bytes());
    assert_eq!(made.device.unwrap().totp_secret.unwrap().as_str(), SECRET);
    assert_eq!(made.unlocked.config.totp.as_ref().unwrap().secret_base32.as_str(), SECRET);
    let file = seal(b"{}", &key, &made.unlocked.slots).unwrap();
    assert!(proved_to_open(&file, "new password", &key));
}

#[test]
fn a_conversion_without_a_credential_store_keeps_the_secret_inside() {
    let old = init(SECRET).expect("a vault");
    let made = plan_migration_at(cheap(), old, &secret(SECRET), &secret("new password"), false).expect("converted");
    assert!(made.device.is_none());
    assert_eq!(made.unlocked.slots.len(), 1);
}

#[test]
fn a_file_is_proved_to_open_by_its_password_to_its_key() {
    let unlocked = init("pw").expect("a vault");
    let file = seal(b"{}", &unlocked.master_key, &unlocked.slots).unwrap();
    assert!(proved_to_open(&file, "pw", &unlocked.master_key));
    assert!(!proved_to_open(&file, "wp", &unlocked.master_key));
    assert!(!proved_to_open(&file, "pw", &SecretKey::new([0; 32])));
    assert!(!proved_to_open(b"SSHCTRL1", "pw", &SecretKey::new([0; 32])));
    assert!(load(&file, "pw").is_ok());
}

#[test]
fn the_secret_goes_only_after_a_conversion_that_went_well() {
    let s = strings();
    let mut a = app(migration_state());
    assert!(!a.migrated(Err(AppError::Io("full".into())), &s));
    assert!(matches!(&a.state, AppState::Locked(u) if u.error.is_some() && u.mode == UnlockMode::MigrateTotpOnly));
    assert!(a.migrated(Ok(init("pw").unwrap()), &s));
    assert!(matches!(a.state, AppState::Unlocked(_)));
}

fn with_device_slot(state: &DeviceState) -> Unlocked {
    let mut unlocked = init("pw").unwrap();
    let slot = ssh_control::config::keyslot::wrap_device(&state.device_key().unwrap(), &unlocked.master_key).unwrap();
    unlocked.slots.push(slot);
    unlocked
}

#[test]
fn a_password_unlock_clears_the_counters() {
    let mut entry = device(Some(SECRET));
    let unlocked = with_device_slot(&entry);
    entry.failed_attempts = 4;
    entry.replay_step = 77;
    match reconcile(&unlocked, Ok(Some(entry))) {
        Reconcile::Record { state } => assert_eq!((state.failed_attempts, state.replay_step), (0, 77)),
        _ => panic!("the entry is there"),
    }
}

#[test]
fn a_copied_vault_is_enrolled_again() {
    let mut unlocked = with_device_slot(&device(None));
    unlocked.config.totp = Some(TotpConfig { secret_base32: secret(SECRET) });
    match reconcile(&unlocked, Ok(None)) {
        Reconcile::Enrol { state, slots } => {
            assert_eq!(state.totp_secret.as_ref().unwrap().as_str(), SECRET);
            assert_eq!(slots.len(), 2);
            assert_eq!(unwrap_device(&slots[1], &state.device_key().unwrap()).unwrap().as_bytes(), unlocked.master_key.as_bytes());
            assert_eq!(slots[0].salt, unlocked.slots[0].salt, "the password slot stays");
        }
        _ => panic!("there is no entry"),
    }
    assert!(matches!(reconcile(&unlocked, Err(AppError::Keyring("gone".into()))), Reconcile::Nothing));
    assert!(matches!(reconcile(&init("pw").unwrap(), Ok(None)), Reconcile::Nothing));
}

#[test]
fn a_fresh_code_is_spent_and_opens_the_vault() {
    let s = strings();
    let mut a = app(daily());
    let mut entry = device(Some(SECRET));
    entry.failed_attempts = 3;
    let key = entry.device_key().unwrap();
    match a.daily_code_judged(entry, CodeCheck::Accepted(9), &s) {
        DailyEffect::WriteAndOpen { state, key: k } => {
            assert_eq!((state.replay_step, state.failed_attempts), (9, 0));
            assert_eq!(k.as_bytes(), key.as_bytes());
        }
        _ => panic!("a fresh code opens the vault"),
    }
    a.daily_opened(Err(AppError::VaultInUse), &s);
    assert!(matches!(&a.state, AppState::LockedTotpDaily(u) if u.error.as_deref() == Some("[err_vault_in_use]")));
    a.daily_opened(Ok(init("pw").unwrap()), &s);
    assert!(matches!(a.state, AppState::Unlocked(_)));
}

#[test]
fn the_fifth_wrong_code_leads_to_the_password() {
    let s = strings();
    let mut a = app(daily());
    let mut entry = device(Some(SECRET));
    for n in 1..=5u32 {
        match a.daily_code_judged(entry, CodeCheck::Invalid, &s) {
            DailyEffect::Write { state } => {
                assert_eq!(state.failed_attempts, n);
                entry = state;
            }
            _ => panic!("a wrong code is counted"),
        }
        match &a.state {
            AppState::LockedTotpDaily(u) => {
                assert!(n < 5);
                assert_eq!(u.error.as_deref(), Some("[err_totp_invalid_code]"));
            }
            state => {
                assert_eq!(n, 5);
                assert_eq!(password_error(state), Some("[err_totp_too_many_failures]"));
            }
        }
    }
}

#[test]
fn a_reused_code_leads_to_the_password_at_once() {
    let s = strings();
    let mut a = app(daily());
    let effect = a.daily_code_judged(device(Some(SECRET)), CodeCheck::Replayed, &s);
    assert!(matches!(effect, DailyEffect::Write { state } if state.failed_attempts == 1));
    assert_eq!(password_error(&a.state), Some("[err_totp_replayed]"));
}

#[test]
fn a_code_needs_an_enrolled_device() {
    let s = strings();
    let mut a = app(daily());
    assert!(matches!(a.try_totp_daily_unlock(None, "123456", &s), DailyEffect::Nothing));
    assert_eq!(password_error(&a.state), Some("[err_device_not_enrolled]"));
    let mut a = app(daily());
    assert!(matches!(a.try_totp_daily_unlock(Some(device(None)), "123456", &s), DailyEffect::Nothing));
    let mut a = app(daily());
    let effect = a.try_totp_daily_unlock(Some(device(Some(SECRET))), "no code", &s);
    assert!(matches!(effect, DailyEffect::Write { .. }));
    assert!(matches!(&a.state, AppState::LockedTotpDaily(u) if u.error.is_some()));
}

#[test]
fn keys_before_the_vault_is_open() {
    let mut a = app(setup_state(false));
    let create = SetupOutcome::Create { mode: AuthMode::Password, password: Some(secret("pw")), totp_secret: None };
    assert!(matches!(
        a.handle_locked_key(LockedInput::Setup(create)),
        LockedStep::Create { mode: AuthMode::Password, .. }
    ));
    assert!(!a.should_quit);
    a.handle_locked_key(LockedInput::Setup(SetupOutcome::Quit));
    assert!(a.should_quit);

    let mut a = app(AppState::Unopenable);
    a.handle_locked_key(LockedInput::DeadEnd { esc: false });
    assert!(!a.should_quit);
    a.handle_locked_key(LockedInput::DeadEnd { esc: true });
    assert!(a.should_quit);

    let mut a = app(migration_state());
    let set = UnlockOutcome::SetPassword(secret("new"));
    assert!(matches!(a.handle_locked_key(LockedInput::Unlock(set)), LockedStep::Migrate { password } if password.as_str() == "new"));

    let mut a = app(daily());
    let submit = TotpUnlockOutcome::Submit("123456".into());
    assert!(matches!(a.handle_locked_key(LockedInput::TotpUnlock(submit)), LockedStep::CheckCode { code } if code == "123456"));
}

#[test]
fn a_newer_schema_leaves_the_lock_screen() {
    let s = strings();
    let ShapeLook::Show(state) = shape_seen(Ok(VaultShape::Password), &s) else { panic!("a screen") };
    let mut a = app(state);
    a.password_tried(Err(AppError::VaultInUse), &s);
    assert_eq!(password_error(&a.state), Some("[err_vault_in_use]"));
    a.password_tried(Err(AppError::SchemaTooNew { found: 2, supported: 1 }), &s);
    assert!(matches!(a.state, AppState::CannotOpen { message: "[schema_too_new_message]", .. }));
}

/// Texts that name themselves.
fn strings() -> Strings {
    Strings {
        save_error_prefix: "[save_error_prefix]",
        delete_error_prefix: "[delete_error_prefix]",
        connect_error_prefix: "[connect_error_prefix]",
        sftp_error_prefix: "[sftp_error_prefix]",
        ssh_import_error_prefix: "[ssh_import_error_prefix]",
        disconnected_prefix: "[disconnected_prefix]",
        host_key_changed_prefix: "[host_key_changed_prefix]",
        host_key_changed_suffix: "[host_key_changed_suffix]",
        err_device_not_enrolled: "[err_device_not_enrolled]",
        err_password_required_now: "[err_password_required_now]",
        err_vault_in_use: "[err_vault_in_use]",
        err_totp_replayed: "[err_totp_replayed]",
        err_totp_too_many_failures: "[err_totp_too_many_failures]",
        err_totp_invalid_code: "[err_totp_invalid_code]",
        err_current_password_wrong: "[err_current_password_wrong]",
        vault_in_use_title: "[vault_in_use_title]",
        vault_in_use_message: "[vault_in_use_message]",
        schema_too_new_title: "[schema_too_new_title]",
        schema_too_new_message: "[schema_too_new_message]",
        delete_confirm_prefix: "[delete_confirm_prefix]",
        delete_confirm_suffix: "[delete_confirm_suffix]",
        delete_script_confirm_prefix: "[delete_script_confirm_prefix]",
        delete_script_confirm_suffix: "[delete_script_confirm_suffix]",
        delete_forward_confirm_prefix: "[delete_forward_confirm_prefix]",
        delete_forward_confirm_suffix: "[delete_forward_confirm_suffix]",
        status_auto_locked: "[status_auto_locked]",
        status_saved: "[status_saved]",
        status_deleted: "[status_deleted]",
        status_imported_prefix: "[status_imported_prefix]",
        status_imported_suffix: "[status_imported_suffix]",
        status_script_saved: "[status_script_saved]",
        status_script_deleted: "[status_script_deleted]",
        status_password_changed: "[status_password_changed]",
        status_auto_lock_saved: "[status_auto_lock_saved]",
        status_connect_mode_saved: "[status_connect_mode_saved]",
        status_mode_changed: "[status_mode_changed]",
        transfer_nothing_selected: "[transfer_nothing_selected]",
        transfer_title_upload: "[transfer_title_upload]",
        transfer_title_download: "[transfer_title_download]",
        transfer_cancelled: "[transfer_cancelled]",
        transfer_done_prefix: "[transfer_done_prefix]",
        transfer_done_separator: "[transfer_done_separator]",
        transfer_failed_prefix: "[transfer_failed_prefix]",
        log_exit_prefix: "[log_exit_prefix]",
        log_skipped: "[log_skipped]",
        log_error_prefix: "[log_error_prefix]",
        log_timed_out_prefix: "[log_timed_out_prefix]",
        log_timed_out_suffix: "[log_timed_out_suffix]",
    }
}

fn drawn_slot() -> Draw {
    Draw { salt: Ok([1; 16]), nonce: Ok([2; 12]) }
}

fn no_entropy() -> AppError {
    AppError::Crypto("no entropy".into())
}

fn no_draw() -> Draw {
    Draw { salt: Err(no_entropy()), nonce: Err(no_entropy()) }
}

fn drawn_device() -> Result<Option<DeviceState>, AppError> {
    DeviceState::new_at(Ok(SecretKey::new([5; 32])), 77).map(Some)
}

#[test]
fn a_vault_is_made_of_what_was_drawn() {
    let password = Some(secret("recovery"));
    let key = || Ok(SecretKey::new([3; 32]));
    let made = plan_vault_with(
        cheap(),
        AuthMode::TotpDaily,
        &password,
        &Some(secret(SECRET)),
        drawn_device(),
        key(),
        drawn_slot(),
        drawn_slot(),
    )
    .expect("made");
    assert_eq!(made.unlocked.master_key.as_bytes(), &[3; 32]);
    assert_eq!(made.device.expect("a device").last_password_check_unix, 77);
    assert_eq!(made.unlocked.slots.len(), 2);
    assert_eq!(unwrap_password(&made.unlocked.slots[0], "recovery").unwrap().as_bytes(), &[3; 32]);
    assert_eq!(unwrap_device(&made.unlocked.slots[1], &SecretKey::new([5; 32])).unwrap().as_bytes(), &[3; 32]);
    assert_eq!(made.unlocked.config.totp.unwrap().secret_base32.as_str(), SECRET);

    let fails = |device, key, first, second| {
        plan_vault_with(cheap(), AuthMode::TotpDaily, &password, &None, device, key, first, second).is_err()
    };
    assert!(fails(Err(no_entropy()), key(), drawn_slot(), drawn_slot()));
    assert!(fails(drawn_device(), Err(no_entropy()), drawn_slot(), drawn_slot()));
    assert!(fails(drawn_device(), key(), no_draw(), drawn_slot()));
    assert!(fails(drawn_device(), key(), drawn_slot(), no_draw()));
    assert!(!fails(Ok(None), key(), drawn_slot(), no_draw()));
}

#[test]
fn a_conversion_is_made_of_what_was_drawn() {
    let convert = |device, first, second| {
        let old = init(SECRET).expect("a vault");
        plan_migration_with(cheap(), old, &secret(SECRET), &secret("new"), device, first, second)
    };
    let made = convert(drawn_device(), drawn_slot(), drawn_slot()).expect("converted");
    assert_eq!(made.unlocked.slots.len(), 2);
    assert_eq!(unwrap_password(&made.unlocked.slots[0], "new").unwrap().as_bytes(), made.unlocked.master_key.as_bytes());
    assert_eq!(made.unlocked.config.totp.unwrap().secret_base32.as_str(), SECRET);
    assert!(convert(Err(no_entropy()), drawn_slot(), drawn_slot()).is_err());
    assert!(convert(drawn_device(), no_draw(), drawn_slot()).is_err());
}

#[test]
fn a_password_unlock_refreshes_the_timer_and_a_copy_is_always_enrolled() {
    let entry = device(Some(SECRET));
    let unlocked = with_device_slot(&entry);
    match reconcile_at(&unlocked, Ok(Some(entry)), 1234, Err(no_entropy()), no_draw()) {
        Reconcile::Record { state } => assert_eq!(state.last_password_check_unix, 1234),
        _ => panic!("the entry is there"),
    }
    match reconcile_at(&unlocked, Ok(None), 1234, Ok(SecretKey::new([6; 32])), drawn_slot()) {
        Reconcile::Enrol { state, slots } => {
            assert_eq!((state.last_password_check_unix, state.replay_step, state.failed_attempts), (1234, 0, 0));
            assert_eq!((slots.len(), slots[1].salt), (2, [1; 16]));
            assert_eq!(
                unwrap_device(&slots[1], &SecretKey::new([6; 32])).unwrap().as_bytes(),
                unlocked.master_key.as_bytes()
            );
        }
        _ => panic!("there is no entry"),
    }
    assert!(matches!(
        reconcile_at(&unlocked, Ok(None), 1234, Err(no_entropy()), drawn_slot()),
        Reconcile::Nothing
    ));
    assert!(matches!(
        reconcile_at(&unlocked, Ok(None), 1234, Ok(SecretKey::new([6; 32])), no_draw()),
        Reconcile::Nothing
    ));
}

/// The code of the published vectors for `SECRET` at 59 seconds.
const CODE_AT_59: &str = "287082";

fn at_second_factor() -> AppState {
    let mut unlocked = init("pw").expect("a vault");
    unlocked.config.totp = Some(TotpConfig { secret_base32: secret(SECRET) });
    let mut a = app(setup_state(true));
    a.password_tried(Ok(unlocked), &strings());
    a.state
}

#[test]
fn a_code_passes_the_second_factor_once() {
    let s = strings();
    let mut a = app(at_second_factor());
    let check = check_code_at(SECRET, CODE_AT_59, a.last_code_step, 59);
    assert_eq!(check, CodeCheck::Accepted(1));
    a.second_factor_judged(check, &s);
    assert!(matches!(&a.state, AppState::Unlocked(u) if matches!(u.screen, Screen::MainMenu(_))));
    assert_eq!(a.last_code_step, 1);

    // Locked, and opened again with the password.
    a.relocked(at_second_factor());
    let check = check_code_at(SECRET, CODE_AT_59, a.last_code_step, 61);
    assert_eq!(check, CodeCheck::Replayed);
    a.second_factor_judged(check, &s);
    assert_eq!(password_error(&a.state), Some("[err_totp_replayed]"));
    assert_eq!(a.last_code_step, 1);
}

#[test]
fn a_wrong_second_factor_may_be_corrected() {
    let s = strings();
    let mut a = app(at_second_factor());
    a.verify_totp_prompt("no code", &s);
    match &a.state {
        AppState::Unlocked(u) => {
            assert!(matches!(&u.screen, Screen::TotpPrompt(p) if p.error.as_deref() == Some("[err_totp_invalid_code]")))
        }
        _ => panic!("the vault stays open behind the prompt"),
    }
    assert_eq!(a.last_code_step, 0);
}

#[test]
fn a_code_of_the_second_factor_does_not_open_the_vault_day_to_day() {
    let s = strings();
    let mut a = app(at_second_factor());
    a.second_factor_judged(CodeCheck::Accepted(u64::MAX), &s);
    a.relocked(daily());
    // Whatever the clock says, no code is newer than the one that was spent.
    let effect = a.try_totp_daily_unlock(Some(device(Some(SECRET))), CODE_AT_59, &s);
    assert!(matches!(effect, DailyEffect::Write { .. }));

    // And the other way round: a daily code is spent for the second factor.
    let mut b = app(daily());
    b.daily_code_judged(device(Some(SECRET)), CodeCheck::Accepted(9), &s);
    assert_eq!(b.last_code_step, 9);
}
