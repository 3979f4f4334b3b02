//! The way into a vault: which lock screen it belongs on, and what each way of
//! unlocking it leads to.
use vstd::prelude::*;

use crate::app::second_factor::{later_step, max_step};
use crate::app::security::{
    build_slots_with, built_slots, is_device_slot, lemma_slots_valid, new_device, recovery_costs, secret_text,
    slot_error, slots_for, totp_text,
};
use crate::app::state::{
    fresh_menu, keeps_totp, lock_error, lock_error_text, locked_with, needs_device, opened_on, prefixed, save_error,
    save_error_text, says, schema_too_new_state, state_after_password, unlocked_state, unlocked_state_skipping_totp,
    wants_device, wants_totp, App, AppState, UnlockedState, MAX_TOTP_FAILURES, PASSWORD_CHECK_DAYS, STATUS_TTL_MS,
};
use crate::app::steps::Effect;
use crate::bytes::same_bytes;
use crate::config::device::{device_key_of, escalates, now_unix, DeviceState};
use crate::config::format::{decoded_any, ends_before_slot_count, slot_views, AnyView, Slot, SLOT_DEVICE};
use crate::config::keyslot::{
    all_countable, copy_slots, has, has_slot, lemma_replaced_countable, of_kind, replace, replaced, sorted_by_kind,
    wrap_device_with, wrapped_by_device, Draw, MasterKey,
};
use crate::config::model::{AuthMethod, Config, TotpConfig};
use crate::config::secret::Secret;
use crate::config::store::{
    a_sealed_vault_opens_on_its_device, a_sealed_vault_opens_with_its_password, is_empty_config, load, opened_by_device,
    opened_by_password, sealed_file, seals, OpenedView, Unlocked, VaultShape,
};
use crate::crypto::cipher::random_master_key;
use crate::crypto::kdf::{KdfParams, KEY_LEN};
use crate::crypto::wiped::SecretKey;
use crate::error::{error_text, AppError, ErrorView};
use crate::i18n::Strings;
use crate::text::owned;
use crate::totp::{check_code, checked, AuthMode, CodeCheck, LAST_SECOND};
use crate::tui::{
    LockedInput, SetupOutcome, SetupState, TotpUnlockOutcome, TotpUnlockState, UnlockMode, UnlockOutcome, UnlockState,
};

verus! {

/// What to look at first, before any user input exists.
#[derive(Clone, Copy, Debug, PartialEq, Eq, Structural)]
pub enum FirstLook {
    /// A plaintext secret lies beside the vault: it is converted before
    /// anything else, and before any credential store is asked.
    Migrate,
    /// There is no vault yet.
    Setup,
    /// Read which unlock methods the vault carries.
    Peek,
}

/// What to look at first, by what is on disk.
pub fn first_look(totp_only_secret: bool, vault: bool) -> (r: FirstLook)
    ensures
        r == (if totp_only_secret {
            FirstLook::Migrate
        } else if !vault {
            FirstLook::Setup
        } else {
            FirstLook::Peek
        }),
{
    if totp_only_secret {
        FirstLook::Migrate
    } else if !vault {
        FirstLook::Setup
    } else {
        FirstLook::Peek
    }
}

/// The password prompt.
pub(crate) fn prompt(mode: UnlockMode, error: Option<String>) -> (r: AppState)
    ensures
        r == AppState::Locked(UnlockState { mode, error, info: None }),
        error is None ==> locked_with(r, mode, None),
        error matches Some(text) ==> locked_with(r, mode, Some(text@)),
{
    AppState::Locked(UnlockState { mode, error, info: None })
}

/// The screen on which a vault of the retired mode gets a password.
pub fn migration_state() -> (r: AppState)
    ensures
        locked_with(r, UnlockMode::MigrateTotpOnly, None),
{
    prompt(UnlockMode::MigrateTotpOnly, None)
}

/// The screen of a first run.
pub fn setup_state(store_available: bool) -> (r: AppState)
    ensures
        r == AppState::Setup(SetupState { store_available, error: None }),
{
    AppState::Setup(SetupState { store_available, error: None })
}

/// What the unlock methods of a vault lead to.
pub enum ShapeLook {
    Show(AppState),
    /// Read the credential-store entry.
    ReadDevice { has_password: bool },
}

/// What the unlock methods of a vault lead to: only one with a device slot has
/// the credential store asked.
pub fn shape_seen(shape: Result<VaultShape, AppError>, strings: &Strings) -> (r: ShapeLook)
    ensures
        match shape {
            Ok(VaultShape::Password) => r matches ShapeLook::Show(state) && locked_with(state, UnlockMode::Unlock, None),
            Ok(VaultShape::Device) => r == (ShapeLook::ReadDevice { has_password: false }),
            Ok(VaultShape::DeviceAndPassword) => r == (ShapeLook::ReadDevice { has_password: true }),
            Err(e) => r matches ShapeLook::Show(state) && locked_with(
                state,
                UnlockMode::Unlock,
                Some(strings.save_error_prefix@ + error_text(e@)),
            ),
        },
{
    match shape {
        Ok(VaultShape::Password) => ShapeLook::Show(prompt(UnlockMode::Unlock, None)),
        Ok(VaultShape::Device) => ShapeLook::ReadDevice { has_password: false },
        Ok(VaultShape::DeviceAndPassword) => ShapeLook::ReadDevice { has_password: true },
        Err(e) => ShapeLook::Show(prompt(UnlockMode::Unlock, Some(prefixed(strings.save_error_prefix, &e)))),
    }
}

/// What the credential-store entry leads to.
pub enum DeviceLook {
    Show(AppState),
    /// Open the vault through its device slot.
    Open { key: SecretKey, has_password: bool },
}

/// The screen for a vault that its device cannot open: the password, where the
/// vault has one, and else a plain statement.
pub open spec fn device_failed(state: AppState, has_password: bool, text: Seq<char>) -> bool {
    if has_password {
        locked_with(state, UnlockMode::Unlock, Some(text))
    } else {
        state == AppState::Unopenable
    }
}

fn without_device(has_password: bool, text: String) -> (r: AppState)
    ensures
        device_failed(r, has_password, text@),
{
    if has_password {
        prompt(UnlockMode::Unlock, Some(text))
    } else {
        AppState::Unopenable
    }
}

/// What the credential-store entry of a vault leads to, at the time `now`. No
/// entry means that the vault was copied here or the entry was lost: the
/// password slot is the only way in. An entry with a code secret gates the
/// device slot with a code, unless the password is due.
pub fn device_read(has_password: bool, entry: Option<DeviceState>, now: u64, strings: &Strings) -> (r: DeviceLook)
    ensures
        match entry {
            None => r matches DeviceLook::Show(state) && device_failed(
                state,
                has_password,
                strings.err_device_not_enrolled@,
            ),
            Some(device) => if device.totp_secret is None {
                match device_key_of(device.key_text()) {
                    Ok(key) => r matches DeviceLook::Open { key: k, has_password: p } && k@ == key && p == has_password,
                    Err(e) => r matches DeviceLook::Show(state) && device_failed(
                        state,
                        has_password,
                        strings.save_error_prefix@ + error_text(e),
                    ),
                }
            } else if has_password && escalates(
                device.failed_attempts,
                device.last_password_check_unix,
                MAX_TOTP_FAILURES,
                PASSWORD_CHECK_DAYS,
                now,
            ) {
                r matches DeviceLook::Show(state) && locked_with(
                    state,
                    UnlockMode::Unlock,
                    Some(strings.err_password_required_now@),
                )
            } else {
                r == DeviceLook::Show(AppState::LockedTotpDaily(TotpUnlockState { error: None, info: None }))
            },
        },
{
    let device = match entry {
        Some(device) => device,
        None => return DeviceLook::Show(without_device(has_password, owned(strings.err_device_not_enrolled))),
    };
    if device.totp_secret.is_none() {
        return match device.device_key() {
            Ok(key) => DeviceLook::Open { key, has_password },
            Err(e) => DeviceLook::Show(without_device(has_password, prefixed(strings.save_error_prefix, &e))),
        };
    }
    if has_password && device.must_escalate_at(MAX_TOTP_FAILURES, PASSWORD_CHECK_DAYS, now) {
        return DeviceLook::Show(prompt(UnlockMode::Unlock, Some(owned(strings.err_password_required_now))));
    }
    DeviceLook::Show(AppState::LockedTotpDaily(TotpUnlockState { error: None, info: None }))
}

/// What opening the vault through its device slot leads to. A contended lock
/// and a newer schema are no broken vault: the password would not help.
pub fn device_opened(has_password: bool, result: Result<Unlocked, AppError>, strings: &Strings) -> (r: AppState)
    ensures
        match result {
            Ok(unlocked) => r == state_after_password(unlocked),
            Err(AppError::VaultInUse) => r == (AppState::CannotOpen {
                title: strings.vault_in_use_title,
                message: strings.vault_in_use_message,
            }),
            Err(AppError::SchemaTooNew { .. }) => r == (AppState::CannotOpen {
                title: strings.schema_too_new_title,
                message: strings.schema_too_new_message,
            }),
            Err(e) => device_failed(r, has_password, strings.save_error_prefix@ + error_text(e@)),
        },
{
    match result {
        Ok(unlocked) => unlocked_state(unlocked),
        Err(AppError::VaultInUse) => AppState::CannotOpen {
            title: strings.vault_in_use_title,
            message: strings.vault_in_use_message,
        },
        Err(AppError::SchemaTooNew { .. }) => schema_too_new_state(strings),
        Err(e) => without_device(has_password, prefixed(strings.save_error_prefix, &e)),
    }
}

/// What a key press before the vault is open asks for.
pub enum LockedStep {
    Nothing,
    Create { mode: AuthMode, password: Option<Secret>, totp_secret: Option<Secret> },
    /// Convert a vault of the retired mode.
    Migrate { password: Secret },
    Unlock { password: Secret, first_run: bool },
    CheckCode { code: String },
}

/// Whether a key press before the vault is open was taken: what it asks for,
/// and whether it quits.
pub open spec fn locked_key(state: AppState, input: LockedInput, step: LockedStep, quit: bool) -> bool {
    match (state, input) {
        (AppState::Setup(_), LockedInput::Setup(o)) => match o {
            SetupOutcome::Nothing => step == LockedStep::Nothing && !quit,
            SetupOutcome::Quit => step == LockedStep::Nothing && quit,
            SetupOutcome::Create { mode, password, totp_secret } => step == (LockedStep::Create {
                mode,
                password,
                totp_secret,
            }) && !quit,
        },
        (AppState::Unopenable, LockedInput::DeadEnd { esc }) => step == LockedStep::Nothing && quit == esc,
        (AppState::CannotOpen { .. }, LockedInput::DeadEnd { esc }) => step == LockedStep::Nothing && quit == esc,
        (AppState::Locked(u), LockedInput::Unlock(o)) => match o {
            UnlockOutcome::Nothing => step == LockedStep::Nothing && !quit,
            UnlockOutcome::Quit => step == LockedStep::Nothing && quit,
            UnlockOutcome::SetPassword(password) => !quit && step == (if u.mode == UnlockMode::MigrateTotpOnly {
                LockedStep::Migrate { password }
            } else {
                LockedStep::Unlock { password, first_run: true }
            }),
            UnlockOutcome::TryPassword(password) => !quit && step == (LockedStep::Unlock { password, first_run: false }),
        },
        (AppState::LockedTotpDaily(_), LockedInput::TotpUnlock(o)) => match o {
            TotpUnlockOutcome::Nothing => step == LockedStep::Nothing && !quit,
            TotpUnlockOutcome::Quit => step == LockedStep::Nothing && quit,
            TotpUnlockOutcome::Submit(code) => step == (LockedStep::CheckCode { code }) && !quit,
        },
        _ => step == LockedStep::Nothing && !quit,
    }
}

/// A vault that has yet to be written, with the credential-store entry that
/// belongs before it.
pub struct NewVault {
    pub unlocked: Unlocked,
    pub device: Option<DeviceState>,
}

/// Whether a vault is one that a mode calls for.
pub open spec fn is_new_vault(v: NewVault, mode: AuthMode, password: Option<Secret>, secret: Option<Secret>) -> bool {
    is_new_vault_at(v, recovery_costs(), mode, password, secret)
}

/// Whether a vault is one that a mode calls for, its password slot at these
/// costs.
pub open spec fn is_new_vault_at(
    v: NewVault,
    costs: KdfParams,
    mode: AuthMode,
    password: Option<Secret>,
    secret: Option<Secret>,
) -> bool {
    &&& is_empty_config(v.unlocked.config)
    &&& totp_text(v.unlocked.config.totp) == (if keeps_totp(mode) {
        secret_text(secret)
    } else {
        None
    })
    &&& (v.device is Some) == needs_device(mode)
    &&& v.device matches Some(state) ==> secret_text(state.totp_secret) == (if mode == AuthMode::TotpDaily {
        secret_text(secret)
    } else {
        None
    })
    &&& all_countable(v.unlocked.slots@)
    &&& slots_for(v.unlocked.slots@, costs, secret_text(password), None, v.device, v.unlocked.master_key@)
}

/// Makes a vault for the chosen mode. A code secret is kept inside the vault in
/// both modes that have one: for the second factor, and for a new machine that
/// has no device entry yet.
pub fn plan_vault(mode: AuthMode, password: &Option<Secret>, totp_secret: &Option<Secret>) -> (r: Result<
    NewVault,
    AppError,
>)
    ensures
        match r {
            Ok(v) => is_new_vault(v, mode, *password, *totp_secret),
            Err(e) => slot_error(e@, recovery_costs(), secret_text(*password)),
        },
{
    plan_vault_at(KdfParams::recovery(), mode, password, totp_secret)
}

/// Makes a vault for the chosen mode, its password slot at these costs.
pub fn plan_vault_at(
    costs: KdfParams,
    mode: AuthMode,
    password: &Option<Secret>,
    totp_secret: &Option<Secret>,
) -> (r: Result<NewVault, AppError>)
    requires
        costs.countable(),
    ensures
        match r {
            Ok(v) => is_new_vault_at(v, costs, mode, *password, *totp_secret),
            Err(e) => slot_error(e@, costs, secret_text(*password)),
        },
{
    plan_vault_with(
        costs,
        mode,
        password,
        totp_secret,
        new_device(mode, totp_secret.as_ref()),
        random_master_key(),
        Draw::fresh(),
        Draw::fresh(),
    )
}

/// Makes a vault with the device state, the master key, the salts and the nonces
/// that were drawn. The first failure is the answer.
pub fn plan_vault_with(
    costs: KdfParams,
    mode: AuthMode,
    password: &Option<Secret>,
    totp_secret: &Option<Secret>,
    device: Result<Option<DeviceState>, AppError>,
    key: Result<MasterKey, AppError>,
    password_draw: Draw,
    device_draw: Draw,
) -> (r: Result<NewVault, AppError>)
    requires
        costs.countable(),
    ensures
        match (device, key) {
            (Err(e), _) => r == Err::<NewVault, AppError>(e),
            (Ok(_), Err(e)) => r == Err::<NewVault, AppError>(e),
            (Ok(state), Ok(master_key)) => match built_slots(
                costs,
                secret_text(*password),
                None,
                state,
                master_key@,
                password_draw,
                device_draw,
            ) {
                Err(x) => r matches Err(e) && e@ == x,
                Ok(slots) => r matches Ok(v) && {
                    &&& v.device == state
                    &&& v.unlocked.master_key == master_key
                    &&& slot_views(v.unlocked.slots@) == slots
                    &&& is_empty_config(v.unlocked.config)
                    &&& totp_text(v.unlocked.config.totp) == (if keeps_totp(mode) {
                        secret_text(*totp_secret)
                    } else {
                        None
                    })
                },
            },
        },
        r matches Ok(v) ==> all_countable(v.unlocked.slots@) && slots_for(
            v.unlocked.slots@,
            costs,
            secret_text(*password),
            None,
            v.device,
            v.unlocked.master_key@,
        ),
{
    let device = match device {
        Ok(device) => device,
        Err(e) => return Err(e),
    };
    let master_key = match key {
        Ok(key) => key,
        Err(e) => return Err(e),
    };
    let text = match password {
        Some(p) => Some(p.as_str()),
        None => None,
    };
    let slots = match build_slots_with(costs, text, None, device.as_ref(), &master_key, password_draw, device_draw) {
        Ok(slots) => slots,
        Err(e) => return Err(e),
    };
    let mut config = Config::default();
    if wants_totp(mode) {
        if let Some(s) = totp_secret {
            config.totp = Some(TotpConfig { secret_base32: s.clone() });
        }
    }
    Ok(NewVault { unlocked: Unlocked { config, master_key, slots }, device })
}

/// Whether a vault is one of the retired mode, converted: the new password
/// opens it, the secret becomes its second factor, and the device's where a
/// credential store is there.
pub open spec fn is_migrated(v: NewVault, from: Unlocked, secret: Seq<char>, password: Seq<char>, store: bool) -> bool {
    is_migrated_at(v, recovery_costs(), from, secret, password, store)
}

/// Whether a vault is one of the retired mode, converted, its password slot at
/// these costs.
pub open spec fn is_migrated_at(
    v: NewVault,
    costs: KdfParams,
    from: Unlocked,
    secret: Seq<char>,
    password: Seq<char>,
    store: bool,
) -> bool {
    &&& v.unlocked.config == (Config { totp: v.unlocked.config.totp, ..from.config })
    &&& totp_text(v.unlocked.config.totp) == Some(secret)
    &&& v.unlocked.master_key == from.master_key
    &&& (v.device is Some) == store
    &&& v.device matches Some(state) ==> secret_text(state.totp_secret) == Some(secret)
    &&& all_countable(v.unlocked.slots@)
    &&& slots_for(v.unlocked.slots@, costs, Some(password), None, v.device, from.master_key@)
}

/// Converts a vault from the retired mode, which was keyed by the plaintext
/// secret beside it.
pub fn plan_migration(unlocked: Unlocked, secret: &Secret, new_password: &Secret, store_available: bool) -> (r: Result<
    NewVault,
    AppError,
>)
    ensures
        match r {
            Ok(v) => is_migrated(v, unlocked, secret@, new_password@, store_available),
            Err(e) => slot_error(e@, recovery_costs(), Some(new_password@)),
        },
{
    plan_migration_at(KdfParams::recovery(), unlocked, secret, new_password, store_available)
}

/// Converts a vault from the retired mode, its password slot at these costs.
pub fn plan_migration_at(
    costs: KdfParams,
    unlocked: Unlocked,
    secret: &Secret,
    new_password: &Secret,
    store_available: bool,
) -> (r: Result<NewVault, AppError>)
    requires
        costs.countable(),
    ensures
        match r {
            Ok(v) => is_migrated_at(v, costs, unlocked, secret@, new_password@, store_available),
            Err(e) => slot_error(e@, costs, Some(new_password@)),
        },
{
    let mode = if store_available {
        AuthMode::TotpDaily
    } else {
        AuthMode::PasswordTotp
    };
    plan_migration_with(
        costs,
        unlocked,
        secret,
        new_password,
        new_device(mode, Some(secret)),
        Draw::fresh(),
        Draw::fresh(),
    )
}

/// Converts a vault from the retired mode with the device state, the salts and
/// the nonces that were drawn. The first failure is the answer.
pub fn plan_migration_with(
    costs: KdfParams,
    unlocked: Unlocked,
    secret: &Secret,
    new_password: &Secret,
    device: Result<Option<DeviceState>, AppError>,
    password_draw: Draw,
    device_draw: Draw,
) -> (r: Result<NewVault, AppError>)
    requires
        costs.countable(),
    ensures
        match device {
            Err(e) => r == Err::<NewVault, AppError>(e),
            Ok(state) => match built_slots(
                costs,
                Some(new_password@),
                None,
                state,
                unlocked.master_key@,
                password_draw,
                device_draw,
            ) {
                Err(x) => r matches Err(e) && e@ == x,
                Ok(slots) => r matches Ok(v) && {
                    &&& v.device == state
                    &&& v.unlocked.master_key == unlocked.master_key
                    &&& slot_views(v.unlocked.slots@) == slots
                    &&& v.unlocked.config == (Config { totp: v.unlocked.config.totp, ..unlocked.config })
                    &&& totp_text(v.unlocked.config.totp) == Some(secret@)
                },
            },
        },
        r matches Ok(v) ==> all_countable(v.unlocked.slots@) && slots_for(
            v.unlocked.slots@,
            costs,
            Some(new_password@),
            None,
            v.device,
            unlocked.master_key@,
        ),
{
    let device = match device {
        Ok(device) => device,
        Err(e) => return Err(e),
    };
    let built = build_slots_with(
        costs,
        Some(new_password.as_str()),
        None,
        device.as_ref(),
        &unlocked.master_key,
        password_draw,
        device_draw,
    );
    let slots = match built {
        Ok(slots) => slots,
        Err(e) => return Err(e),
    };
    let mut config = unlocked.config;
    config.totp = Some(TotpConfig { secret_base32: secret.clone() });
    Ok(NewVault { unlocked: Unlocked { config, master_key: unlocked.master_key, slots }, device })
}

/// What is next in writing a new vault.
#[derive(Clone, Copy, Debug, PartialEq, Eq, Structural)]
pub enum WriteStep {
    /// Write the credential-store entry.
    Device,
    /// Write the vault.
    Vault,
    /// Read the vault back and see that it opens.
    ReadBack,
    Done,
    Failed,
}

/// Where the writing of a new vault begins. The entry comes before the vault: a
/// failure half way then leaves a stray entry rather than a vault that nothing
/// can open.
pub fn first_write(vault: &NewVault) -> (r: WriteStep)
    ensures
        r == (if vault.device is Some {
            WriteStep::Device
        } else {
            WriteStep::Vault
        }),
{
    if vault.device.is_some() {
        WriteStep::Device
    } else {
        WriteStep::Vault
    }
}

/// What follows a step that went well or did not, where the vault replaces one
/// that must not be given up before the new one is proved to open, and where it
/// does not.
pub open spec fn write_after(step: WriteStep, ok: bool, replaces: bool) -> WriteStep {
    if !ok {
        WriteStep::Failed
    } else {
        match step {
            WriteStep::Device => WriteStep::Vault,
            WriteStep::Vault => if replaces {
                WriteStep::ReadBack
            } else {
                WriteStep::Done
            },
            WriteStep::ReadBack => WriteStep::Done,
            other => other,
        }
    }
}

/// What follows a step of writing a new vault.
pub fn next_write(step: WriteStep, ok: bool, replaces: bool) -> (r: WriteStep)
    ensures
        r == write_after(step, ok, replaces),
{
    if !ok {
        return WriteStep::Failed;
    }
    match step {
        WriteStep::Device => WriteStep::Vault,
        WriteStep::Vault => if replaces {
            WriteStep::ReadBack
        } else {
            WriteStep::Done
        },
        WriteStep::ReadBack => WriteStep::Done,
        other => other,
    }
}

/// Whether the bytes of a vault file open with the password, to the master key.
pub open spec fn opens_to(bytes: Seq<u8>, password: Seq<char>, master_key: Seq<u8>) -> bool {
    decoded_any(bytes) matches Ok(AnyView::V2(e)) && (opened_by_password(e, password) matches Ok(o) && o.master_key
        == master_key)
}

/// Sees that a vault file opens with the password, to the master key.
pub fn proved_to_open(bytes: &[u8], password: &str, master_key: &MasterKey) -> (r: bool)
    requires
        !ends_before_slot_count(bytes@),
    ensures
        r == opens_to(bytes@, password@, master_key@),
{
    match load(bytes, password) {
        Ok(opened) => !opened.upgraded && same_bytes(opened.master_key.as_bytes(), master_key.as_bytes()),
        Err(_) => false,
    }
}

/// What bringing this machine's device state in line with a vault asks for.
pub enum Reconcile {
    Nothing,
    /// Write the entry.
    Record { state: DeviceState },
    /// Write the entry, then the vault with these slots. Where the vault cannot
    /// be written the entry goes again.
    Enrol { state: DeviceState, slots: Vec<Slot> },
}

/// Whether the slots are the vault's, with the device slot replaced by one for
/// this device.
pub open spec fn enrolled(was: Unlocked, state: DeviceState, slots: Seq<Slot>) -> bool {
    exists|slot: Slot|
        #[trigger] is_device_slot(slot, state, was.master_key@) && sorted_by_kind(slots) && forall|k: u8|
            #[trigger] of_kind(slots, k) == replaced(was.slots@, SLOT_DEVICE, slot, k)
}

/// After a password unlock, brings this machine's device state back in line
/// with the vault. An entry that is there had its password verified; a vault
/// without one was copied here, and is enrolled again: its device slot was
/// wrapped under a key that this machine does not have. All of it is best
/// effort.
pub fn reconcile(unlocked: &Unlocked, entry: Result<Option<DeviceState>, AppError>) -> (r: Reconcile)
    ensures
        if !has_slot(unlocked.slots@, SLOT_DEVICE) {
            r == Reconcile::Nothing
        } else {
            match entry {
                Err(_) => r == Reconcile::Nothing,
                Ok(Some(was)) => r matches Reconcile::Record { state } && state.failed_attempts == 0 && state.device_key
                    == was.device_key && state.totp_secret == was.totp_secret && state.replay_step == was.replay_step,
                Ok(None) => match r {
                    Reconcile::Nothing => true,
                    Reconcile::Record { .. } => false,
                    Reconcile::Enrol { state, slots } => {
                        &&& secret_text(state.totp_secret) == totp_text(unlocked.config.totp)
                        &&& state.replay_step == 0
                        &&& state.failed_attempts == 0
                        &&& enrolled(*unlocked, state, slots@)
                        &&& all_countable(unlocked.slots@) ==> all_countable(slots@)
                    },
                },
            }
        },
{
    reconcile_at(unlocked, entry, now_unix(), random_master_key(), Draw::fresh())
}

/// Brings this machine's device state in line with the vault at the time `now`,
/// with the device key, the salt and the nonce that were drawn.
pub fn reconcile_at(
    unlocked: &Unlocked,
    entry: Result<Option<DeviceState>, AppError>,
    now: u64,
    key: Result<SecretKey, AppError>,
    draw: Draw,
) -> (r: Reconcile)
    ensures
        if !has_slot(unlocked.slots@, SLOT_DEVICE) {
            r == Reconcile::Nothing
        } else {
            match entry {
                Err(_) => r == Reconcile::Nothing,
                Ok(Some(was)) => r == (Reconcile::Record {
                    state: DeviceState { failed_attempts: 0, last_password_check_unix: now, ..was },
                }),
                Ok(None) => match key {
                    Err(_) => r == Reconcile::Nothing,
                    Ok(device_key) => match wrapped_by_device(device_key@, draw, unlocked.master_key@) {
                        Err(_) => r == Reconcile::Nothing,
                        Ok(view) => r matches Reconcile::Enrol { state, slots } && {
                            &&& device_key_of(state.key_text()) == Ok::<Seq<u8>, ErrorView>(device_key@)
                            &&& secret_text(state.totp_secret) == totp_text(unlocked.config.totp)
                            &&& state.replay_step == 0
                            &&& state.failed_attempts == 0
                            &&& state.last_password_check_unix == now
                            &&& enrolled(*unlocked, state, slots@)
                            &&& of_kind(slots@, SLOT_DEVICE).len() == 1
                            &&& of_kind(slots@, SLOT_DEVICE)[0]@ == view
                            &&& all_countable(unlocked.slots@) ==> all_countable(slots@)
                        },
                    },
                },
            }
        },
{
    let carries: bool = has(&unlocked.slots, SLOT_DEVICE);
    if !carries {
        return Reconcile::Nothing;
    }
    match entry {
        Err(_) => Reconcile::Nothing,
        Ok(Some(was)) => {
            let mut state = was;
            state.record_password_check_at(now);
            Reconcile::Record { state }
        },
        Ok(None) => {
            let mut state = match DeviceState::new_at(key, now) {
                Ok(state) => state,
                Err(_) => return Reconcile::Nothing,
            };
            state.totp_secret = match &unlocked.config.totp {
                Some(t) => Some(t.secret_base32.clone()),
                None => None,
            };
            let key = match state.device_key() {
                Ok(key) => key,
                Err(_) => return Reconcile::Nothing,
            };
            let slot = match wrap_device_with(&key, draw, &unlocked.master_key) {
                Ok(slot) => slot,
                Err(_) => return Reconcile::Nothing,
            };
            let mut slots = copy_slots(&unlocked.slots);
            replace(&mut slots, SLOT_DEVICE, slot);
            assert(is_device_slot(slot, state, unlocked.master_key@));
            assert(of_kind(slots@, SLOT_DEVICE) == replaced(unlocked.slots@, SLOT_DEVICE, slot, SLOT_DEVICE));
            proof {
                if all_countable(unlocked.slots@) {
                    lemma_replaced_countable(unlocked.slots@, slots@, SLOT_DEVICE, slot);
                }
            }
            Reconcile::Enrol { state, slots }
        },
    }
}

/// What a code for the everyday unlock asks for.
pub enum DailyEffect {
    Nothing,
    /// Write the entry, best effort.
    Write { state: DeviceState },
    /// Write the entry, best effort, and then open the vault through its device
    /// slot. The entry comes first, so that a crash between the two cannot
    /// leave a used code replayable.
    WriteAndOpen { state: DeviceState, key: SecretKey },
}

/// The number of wrong codes, with one more.
pub open spec fn one_more(failed: u32) -> u32 {
    if failed == u32::MAX {
        failed
    } else {
        (failed + 1) as u32
    }
}

/// Whether only the counters of a device state changed.
pub open spec fn only_counters(was: DeviceState, is: DeviceState) -> bool {
    is == (DeviceState { replay_step: is.replay_step, failed_attempts: is.failed_attempts, ..was })
}

/// Whether the everyday prompt says `text`; elsewhere nothing changed.
pub open spec fn daily_error(before: AppState, text: Seq<char>, after: AppState) -> bool {
    match before {
        AppState::LockedTotpDaily(was) => after matches AppState::LockedTotpDaily(is) && is.info == was.info && says(
            is.error,
            text,
        ),
        _ => after == before,
    }
}

/// The last step that was accepted, behind a judged code.
pub open spec fn spent_by(last: u64, check: CodeCheck) -> u64 {
    match check {
        CodeCheck::Accepted(step) => later_step(last, step),
        _ => last,
    }
}

/// What a judged code leads to. Every outcome other than a fresh, valid code
/// counts against the device; a replay, and one wrong code too many, lead to
/// the password.
pub open spec fn code_judged(
    before: AppState,
    device: DeviceState,
    check: CodeCheck,
    strings: Strings,
    after: AppState,
    effect: DailyEffect,
) -> bool {
    match check {
        CodeCheck::Accepted(step) => match device_key_of(device.key_text()) {
            Ok(key) => {
                &&& after == before
                &&& effect matches DailyEffect::WriteAndOpen { state, key: k } && k@ == key && only_counters(
                    device,
                    state,
                ) && state.replay_step == step && state.failed_attempts == 0
            },
            Err(e) => {
                &&& daily_error(before, strings.save_error_prefix@ + error_text(e), after)
                &&& effect matches DailyEffect::Write { state } && only_counters(device, state) && state.replay_step
                    == step && state.failed_attempts == 0
            },
        },
        CodeCheck::Replayed => {
            &&& locked_with(after, UnlockMode::Unlock, Some(strings.err_totp_replayed@))
            &&& effect matches DailyEffect::Write { state } && only_counters(device, state) && state.replay_step
                == device.replay_step && state.failed_attempts == one_more(device.failed_attempts)
        },
        CodeCheck::Invalid => {
            &&& effect matches DailyEffect::Write { state } && only_counters(device, state) && state.replay_step
                == device.replay_step && state.failed_attempts == one_more(device.failed_attempts)
            &&& if one_more(device.failed_attempts) >= MAX_TOTP_FAILURES {
                locked_with(after, UnlockMode::Unlock, Some(strings.err_totp_too_many_failures@))
            } else {
                daily_error(before, strings.err_totp_invalid_code@, after)
            }
        },
    }
}

/// Whether a login method no longer holds its credential.
pub open spec fn auth_wiped(auth: AuthMethod) -> bool {
    match auth {
        AuthMethod::Password { password } => password@.len() == 0,
        AuthMethod::SshKey { passphrase, .. } => passphrase matches Some(p) ==> p@.len() == 0,
        AuthMethod::Agent => true,
    }
}

/// Overwrites the credential of a login method.
fn wipe_auth(auth: &mut AuthMethod)
    ensures
        auth_wiped(*final(auth)),
{
    match auth {
        AuthMethod::Password { password } => password.zeroize(),
        AuthMethod::SshKey { passphrase, .. } => {
            if let Some(p) = passphrase {
                p.zeroize();
            }
        },
        AuthMethod::Agent => {},
    }
}

impl UnlockedState {
    /// Whether neither the master key nor any credential is held any more.
    pub open spec fn wiped(self) -> bool {
        &&& forall|i: int| 0 <= i < KEY_LEN ==> self.master_key@[i] == 0
        &&& self.config.totp matches Some(t) ==> t.secret_base32@.len() == 0
        &&& forall|i: int| 0 <= i < self.config.servers@.len() ==> auth_wiped((#[trigger] self.config.servers@[i]).auth)
    }

    /// Overwrites the master key and every credential, before the vault is
    /// locked.
    pub fn wipe(&mut self)
        ensures
            final(self).wiped(),
    {
        self.master_key.zeroize();
        if let Some(t) = &mut self.config.totp {
            t.secret_base32.zeroize();
        }
        let mut i: usize = 0;
        while i < self.config.servers.len()
            invariant
                i <= self.config.servers@.len(),
                forall|j: int| 0 <= j < KEY_LEN ==> self.master_key@[j] == 0,
                self.config.totp matches Some(t) ==> t.secret_base32@.len() == 0,
                forall|j: int| 0 <= j < i ==> auth_wiped((#[trigger] self.config.servers@[j]).auth),
            decreases self.config.servers@.len() - i,
        {
            let ghost before = self.config.servers@;
            wipe_auth(&mut self.config.servers[i].auth);
            assert(forall|j: int| 0 <= j < i ==> self.config.servers@[j] == before[j]);
            i = i + 1;
        }
    }
}

impl App {
    /// Overwrites what an open vault holds, and shows the lock screen that the
    /// vault belongs on.
    pub fn relocked(&mut self, screen: AppState)
        ensures
            final(self).same_but_state(*old(self)),
            final(self).state == screen,
    {
        if let AppState::Unlocked(u) = &mut self.state {
            u.wipe();
        }
        self.state = screen;
    }

    /// Takes a key press before the vault is open.
    pub fn handle_locked_key(&mut self, input: LockedInput) -> (r: LockedStep)
        ensures
            *final(self) == (App { should_quit: final(self).should_quit, ..*old(self) }),
            exists|quit: bool| #[trigger]
                locked_key(old(self).state, input, r, quit) && final(self).should_quit == (old(self).should_quit || quit),
    {
        let mut quit: bool = false;
        let step = match (&self.state, input) {
            (AppState::Setup(_), LockedInput::Setup(o)) => match o {
                SetupOutcome::Nothing => LockedStep::Nothing,
                SetupOutcome::Quit => {
                    quit = true;
                    LockedStep::Nothing
                },
                SetupOutcome::Create { mode, password, totp_secret } => LockedStep::Create {
                    mode,
                    password,
                    totp_secret,
                },
            },
            // Both are dead ends with nothing to type: Esc is the only key.
            (AppState::Unopenable, LockedInput::DeadEnd { esc }) => {
                quit = esc;
                LockedStep::Nothing
            },
            (AppState::CannotOpen { .. }, LockedInput::DeadEnd { esc }) => {
                quit = esc;
                LockedStep::Nothing
            },
            (AppState::Locked(u), LockedInput::Unlock(o)) => match o {
                UnlockOutcome::Nothing => LockedStep::Nothing,
                UnlockOutcome::Quit => {
                    quit = true;
                    LockedStep::Nothing
                },
                UnlockOutcome::SetPassword(password) => if u.mode == UnlockMode::MigrateTotpOnly {
                    LockedStep::Migrate { password }
                } else {
                    LockedStep::Unlock { password, first_run: true }
                },
                UnlockOutcome::TryPassword(password) => LockedStep::Unlock { password, first_run: false },
            },
            (AppState::LockedTotpDaily(_), LockedInput::TotpUnlock(o)) => match o {
                TotpUnlockOutcome::Nothing => LockedStep::Nothing,
                TotpUnlockOutcome::Quit => {
                    quit = true;
                    LockedStep::Nothing
                },
                TotpUnlockOutcome::Submit(code) => LockedStep::CheckCode { code },
            },
            _ => LockedStep::Nothing,
        };
        if quit {
            self.should_quit = true;
        }
        assert(locked_key(old(self).state, input, step, quit));
        step
    }

    /// Falls back to the password screen, saying why.
    fn escalate(&mut self, reason: &str)
        ensures
            final(self).same_but_state(*old(self)),
            locked_with(final(self).state, UnlockMode::Unlock, Some(reason@)),
    {
        self.state = prompt(UnlockMode::Unlock, Some(owned(reason)));
    }

    fn set_totp_daily_error(&mut self, message: String)
        ensures
            final(self).same_but_state(*old(self)),
            daily_error(old(self).state, message@, final(self).state),
    {
        if let AppState::LockedTotpDaily(prompt) = &mut self.state {
            prompt.error = Some(message);
        }
    }

    /// Takes in how the write of a new vault went. The user just proved a live
    /// code during enrolment, so no second factor is asked for.
    pub fn vault_created(&mut self, mode: AuthMode, result: Result<Unlocked, AppError>, strings: &Strings) -> (r: Effect)
        ensures
            final(self).same_but_state(*old(self)),
            match result {
                Ok(unlocked) => final(self).state == opened_on(unlocked, fresh_menu()) && r == Effect::Nothing,
                Err(e) => {
                    &&& r == (if needs_device(mode) {
                        Effect::DeleteDevice
                    } else {
                        Effect::Nothing
                    })
                    &&& match old(self).state {
                        AppState::Setup(was) => final(self).state matches AppState::Setup(is) && is.store_available
                            == was.store_available && says(is.error, save_error_text(e@, *strings)),
                        _ => final(self).state == old(self).state,
                    }
                },
            },
    {
        match result {
            Ok(unlocked) => {
                self.state = unlocked_state_skipping_totp(unlocked);
                Effect::Nothing
            },
            Err(e) => {
                if let AppState::Setup(setup) = &mut self.state {
                    setup.error = Some(save_error(&e, strings));
                }
                if wants_device(mode) {
                    Effect::DeleteDevice
                } else {
                    Effect::Nothing
                }
            },
        }
    }

    /// Takes in how opening the vault with a password went. A newer schema is
    /// the one failure that is not about the password at all: it leaves the
    /// lock screen, where it would invite another try.
    pub fn password_tried(&mut self, result: Result<Unlocked, AppError>, strings: &Strings)
        ensures
            final(self).same_but_state(*old(self)),
            match result {
                Ok(unlocked) => final(self).state == state_after_password(unlocked),
                Err(AppError::SchemaTooNew { .. }) => final(self).state == (AppState::CannotOpen {
                    title: strings.schema_too_new_title,
                    message: strings.schema_too_new_message,
                }),
                Err(e) => match old(self).state {
                    AppState::Locked(was) => final(self).state matches AppState::Locked(is) && is.mode == was.mode
                        && is.info == was.info && says(is.error, lock_error_text(e@, *strings)),
                    _ => final(self).state == old(self).state,
                },
            },
    {
        match result {
            Ok(unlocked) => {
                self.state = unlocked_state(unlocked);
            },
            Err(AppError::SchemaTooNew { .. }) => {
                self.state = schema_too_new_state(strings);
            },
            Err(e) => {
                if let AppState::Locked(unlock) = &mut self.state {
                    unlock.error = Some(lock_error(&e, strings));
                }
            },
        }
    }

    /// The everyday unlock: checks a code against the device's state. Without a
    /// state, or without a secret in it, the password is asked for.
    pub fn try_totp_daily_unlock(&mut self, entry: Option<DeviceState>, code: &str, strings: &Strings) -> (r: DailyEffect)
        ensures
            match entry {
                Some(device) if device.totp_secret is Some => exists|check: CodeCheck| #[trigger]
                    code_judged(old(self).state, device, check, *strings, final(self).state, r) && (check
                        is Invalid || exists|now: u64|
                        now <= LAST_SECOND && check == #[trigger] checked(
                            device.totp_secret->Some_0@,
                            code@,
                            later_step(device.replay_step, old(self).last_code_step),
                            now,
                        )) && final(self).same_but_state(
                        App { last_code_step: spent_by(old(self).last_code_step, check), ..*old(self) },
                    ),
                _ => {
                    &&& final(self).same_but_state(*old(self))
                    &&& locked_with(final(self).state, UnlockMode::Unlock, Some(strings.err_device_not_enrolled@))
                    &&& r == DailyEffect::Nothing
                },
            },
    {
        let device = match entry {
            Some(device) => device,
            None => {
                self.escalate(strings.err_device_not_enrolled);
                return DailyEffect::Nothing;
            },
        };
        let check = match &device.totp_secret {
            Some(secret) => check_code(secret.as_str(), code, max_step(device.replay_step, self.last_code_step)),
            None => {
                self.escalate(strings.err_device_not_enrolled);
                return DailyEffect::Nothing;
            },
        };
        self.daily_code_judged(device, check, strings)
    }

    /// Takes in the judgement on a code for the everyday unlock.
    pub fn daily_code_judged(&mut self, device: DeviceState, check: CodeCheck, strings: &Strings) -> (r: DailyEffect)
        ensures
            final(self).same_but_state(
                App { last_code_step: spent_by(old(self).last_code_step, check), ..*old(self) },
            ),
            code_judged(old(self).state, device, check, *strings, final(self).state, r),
    {
        let mut state = device;
        match check {
            CodeCheck::Accepted(step) => {
                state.replay_step = step;
                state.failed_attempts = 0;
                self.last_code_step = max_step(self.last_code_step, step);
                match state.device_key() {
                    Ok(key) => DailyEffect::WriteAndOpen { state, key },
                    Err(e) => {
                        self.set_totp_daily_error(prefixed(strings.save_error_prefix, &e));
                        DailyEffect::Write { state }
                    },
                }
            },
            // A code that was already accepted is not a typo: someone read it
            // over a shoulder or off a screen.
            CodeCheck::Replayed => {
                state.failed_attempts = state.failed_attempts.saturating_add(1);
                self.escalate(strings.err_totp_replayed);
                DailyEffect::Write { state }
            },
            CodeCheck::Invalid => {
                state.failed_attempts = state.failed_attempts.saturating_add(1);
                if state.failed_attempts >= MAX_TOTP_FAILURES {
                    self.escalate(strings.err_totp_too_many_failures);
                } else {
                    self.set_totp_daily_error(owned(strings.err_totp_invalid_code));
                }
                DailyEffect::Write { state }
            },
        }
    }

    /// Takes in how opening the vault behind a fresh code went. The code has
    /// been spent either way.
    pub fn daily_opened(&mut self, result: Result<Unlocked, AppError>, strings: &Strings)
        ensures
            final(self).same_but_state(*old(self)),
            match result {
                Ok(unlocked) => final(self).state == opened_on(unlocked, fresh_menu()),
                Err(AppError::VaultInUse) => daily_error(
                    old(self).state,
                    strings.err_vault_in_use@,
                    final(self).state,
                ),
                Err(AppError::SchemaTooNew { .. }) => final(self).state == (AppState::CannotOpen {
                    title: strings.schema_too_new_title,
                    message: strings.schema_too_new_message,
                }),
                Err(e) => daily_error(
                    old(self).state,
                    strings.save_error_prefix@ + error_text(e@),
                    final(self).state,
                ),
            },
    {
        match result {
            Ok(unlocked) => {
                self.state = unlocked_state_skipping_totp(unlocked);
            },
            Err(AppError::VaultInUse) => self.set_totp_daily_error(owned(strings.err_vault_in_use)),
            Err(AppError::SchemaTooNew { .. }) => {
                self.state = schema_too_new_state(strings);
            },
            Err(e) => self.set_totp_daily_error(prefixed(strings.save_error_prefix, &e)),
        }
    }

    /// Takes in how the conversion of a vault of the retired mode went, from its
    /// first write to the proof that it opens. `true` means that the plaintext
    /// secret is expendable now, `false` that a credential-store entry that may
    /// be there goes.
    pub fn migrated(&mut self, result: Result<Unlocked, AppError>, strings: &Strings) -> (r: bool)
        ensures
            final(self).same_but_state(*old(self)),
            r == (result is Ok),
            match result {
                Ok(unlocked) => final(self).state == opened_on(unlocked, fresh_menu()),
                Err(e) => match old(self).state {
                    AppState::Locked(was) => final(self).state matches AppState::Locked(is) && is.mode == was.mode
                        && is.info == was.info && says(is.error, save_error_text(e@, *strings)),
                    _ => final(self).state == old(self).state,
                },
            },
    {
        match result {
            Ok(unlocked) => {
                self.state = unlocked_state_skipping_totp(unlocked);
                true
            },
            Err(e) => {
                if let AppState::Locked(unlock) = &mut self.state {
                    unlock.error = Some(save_error(&e, strings));
                }
                false
            },
        }
    }

    /// Whether an open vault has been idle for as long as it may be. A time of
    /// 0 turns this off.
    pub open spec fn idle_too_long(self, now: u64) -> bool {
        self.state matches AppState::Unlocked(u) && u.config.auto_lock_minutes != 0 && now - self.last_activity
            >= u.config.auto_lock_minutes * 60_000
    }

    /// Closes the browser's connection and says that the vault is to be locked,
    /// where it has been idle too long.
    pub fn auto_lock_if_idle(&mut self, now: u64) -> (r: bool)
        ensures
            r == old(self).idle_too_long(now),
            *final(self) == (if r {
                App { remote: None, ..*old(self) }
            } else {
                *old(self)
            }),
    {
        let minutes: u32 = match &self.state {
            AppState::Unlocked(u) => u.config.auto_lock_minutes,
            _ => return false,
        };
        if minutes == 0 || now.saturating_sub(self.last_activity) < minutes as u64 * 60_000 {
            return false;
        }
        self.remote = None;
        true
    }

    /// Shows the lock screen that the vault belongs on, and says that the idle
    /// time was the reason.
    pub fn auto_locked(&mut self, screen: AppState, strings: &Strings)
        ensures
            final(self).same_but_state(*old(self)),
            match screen {
                AppState::Locked(u) => final(self).state matches AppState::Locked(v) && v.mode == u.mode && v.error
                    == u.error && says(v.info, strings.status_auto_locked@),
                AppState::LockedTotpDaily(u) => final(self).state matches AppState::LockedTotpDaily(v) && v.error
                    == u.error && says(v.info, strings.status_auto_locked@),
                _ => final(self).state == screen,
            },
    {
        self.relocked(screen);
        match &mut self.state {
            AppState::Locked(unlock) => {
                unlock.info = Some(owned(strings.status_auto_locked));
            },
            AppState::LockedTotpDaily(unlock) => {
                unlock.info = Some(owned(strings.status_auto_locked));
            },
            // A vault that opens with no prompt has no screen to annotate.
            _ => {},
        }
    }

    /// Drops a footer message once it has had its time.
    pub fn expire_status(&mut self, now: u64)
        ensures
            final(self).same_but_state(*old(self)),
            match old(self).state {
                AppState::Unlocked(u) => final(self).state == AppState::Unlocked(
                    UnlockedState {
                        status: if u.status matches Some(s) && now - s.shown_at >= STATUS_TTL_MS {
                            None
                        } else {
                            u.status
                        },
                        ..u
                    },
                ),
                _ => final(self).state == old(self).state,
            },
    {
        if let AppState::Unlocked(u) = &mut self.state {
            let old_enough: bool = match &u.status {
                Some(s) => now.saturating_sub(s.shown_at) >= STATUS_TTL_MS,
                None => false,
            };
            if old_enough {
                u.status = None;
            }
        }
    }
}

/// A vault whose costs can be counted opens into a well-formed state, whichever
/// screen it opens on.
pub proof fn an_opened_vault_is_well_formed(app: App, unlocked: Unlocked)
    requires
        all_countable(unlocked.slots@),
        app.state == state_after_password(unlocked) || app.state == opened_on(unlocked, fresh_menu()),
    ensures
        app.wf(),
{
}

/// A new vault, once sealed, opens with the password it was made with.
pub proof fn a_new_vault_opens_with_its_password(
    v: NewVault,
    mode: AuthMode,
    password: Secret,
    secret: Option<Secret>,
    plaintext: Seq<u8>,
    nonce: Seq<u8>,
)
    requires
        is_new_vault(v, mode, Some(password), secret),
        seals(plaintext, v.unlocked.master_key@, slot_views(v.unlocked.slots@), nonce),
    ensures
        ({
            let slots = slot_views(v.unlocked.slots@);
            let master_key = v.unlocked.master_key@;
            decoded_any(sealed_file(plaintext, master_key, slots, nonce)) matches Ok(AnyView::V2(e))
                && opened_by_password(e, password@) == Ok::<OpenedView, ErrorView>(
                OpenedView { plaintext, master_key, slots, upgraded: false },
            )
        }),
{
    let slots = v.unlocked.slots@;
    lemma_slots_valid(slots, recovery_costs(), Some(password@), v.device, v.unlocked.master_key@);
    a_sealed_vault_opens_with_its_password(
        plaintext,
        v.unlocked.master_key@,
        slot_views(slots),
        nonce,
        password@,
    );
}

/// A new vault of a mode that keeps a device key, once sealed, opens with that
/// key.
pub proof fn a_new_vault_opens_on_its_device(
    v: NewVault,
    mode: AuthMode,
    password: Option<Secret>,
    secret: Option<Secret>,
    plaintext: Seq<u8>,
    nonce: Seq<u8>,
)
    requires
        is_new_vault(v, mode, password, secret),
        needs_device(mode),
        seals(plaintext, v.unlocked.master_key@, slot_views(v.unlocked.slots@), nonce),
    ensures
        ({
            let slots = slot_views(v.unlocked.slots@);
            let master_key = v.unlocked.master_key@;
            v.device matches Some(state) && (device_key_of(state.key_text()) matches Ok(key) && (decoded_any(
                sealed_file(plaintext, master_key, slots, nonce),
            ) matches Ok(AnyView::V2(e)) && opened_by_device(e, key) == Ok::<OpenedView, ErrorView>(
                OpenedView { plaintext, master_key, slots, upgraded: false },
            )))
        }),
{
    let slots = v.unlocked.slots@;
    let text = secret_text(password);
    lemma_slots_valid(slots, recovery_costs(), text, v.device, v.unlocked.master_key@);
    if let Some(state) = v.device {
        if let Ok(key) = device_key_of(state.key_text()) {
            a_sealed_vault_opens_on_its_device(
                plaintext,
                v.unlocked.master_key@,
                slot_views(slots),
                nonce,
                key,
            );
        }
    }
}

/// A converted vault, once sealed, opens with its new password to the master key
/// it had.
pub proof fn a_converted_vault_opens_with_its_new_password(
    v: NewVault,
    from: Unlocked,
    secret: Seq<char>,
    password: Seq<char>,
    store: bool,
    plaintext: Seq<u8>,
    nonce: Seq<u8>,
)
    requires
        is_migrated(v, from, secret, password, store),
        seals(plaintext, from.master_key@, slot_views(v.unlocked.slots@), nonce),
    ensures
        opens_to(
            sealed_file(plaintext, from.master_key@, slot_views(v.unlocked.slots@), nonce),
            password,
            from.master_key@,
        ),
{
    let slots = v.unlocked.slots@;
    lemma_slots_valid(slots, recovery_costs(), Some(password), v.device, from.master_key@);
    a_sealed_vault_opens_with_its_password(plaintext, from.master_key@, slot_views(slots), nonce, password);
}

/// What a vault replaces is given up only once the new one was written and
/// proved to open: that is the one step before the end.
pub proof fn nothing_is_given_up_before_the_proof(step: WriteStep, ok: bool)
    requires
        step != WriteStep::Done,
        write_after(step, ok, true) == WriteStep::Done,
    ensures
        ok,
        step == WriteStep::ReadBack,
{
}

/// An auto-lock of zero never fires, however long the application sits there.
pub proof fn an_auto_lock_of_zero_never_fires(app: App, now: u64)
    requires
        app.state matches AppState::Unlocked(u) ==> u.config.auto_lock_minutes == 0,
    ensures
        !app.idle_too_long(now),
{
}

/// Five wrong codes in a row lead to the password, and so does a reused one at
/// once.
pub proof fn the_password_follows_five_wrong_codes_or_a_replay(
    before: AppState,
    device: DeviceState,
    strings: Strings,
    after: AppState,
    effect: DailyEffect,
    replay: bool,
)
    requires
        code_judged(
            before,
            device,
            if replay {
                CodeCheck::Replayed
            } else {
                CodeCheck::Invalid
            },
            strings,
            after,
            effect,
        ),
        replay || device.failed_attempts >= MAX_TOTP_FAILURES - 1,
    ensures
        after is Locked,
{
}

/// A rejected code never moves the replay counter.
pub proof fn a_rejected_code_moves_no_step(
    before: AppState,
    device: DeviceState,
    check: CodeCheck,
    strings: Strings,
    after: AppState,
    effect: DailyEffect,
)
    requires
        code_judged(before, device, check, strings, after, effect),
        !(check is Accepted),
    ensures
        effect matches DailyEffect::Write { state } && state.replay_step == device.replay_step,
{
}

/// What is typed before the vault is open is handed on as it is: the mode, the
/// password and the secret of a new vault, the password of a locked one, the code
/// of the everyday unlock.
pub proof fn what_is_typed_is_handed_on(state: AppState, input: LockedInput, step: LockedStep, quit: bool)
    requires
        locked_key(state, input, step, quit),
    ensures
        state is Setup ==> (input matches LockedInput::Setup(SetupOutcome::Create { mode, password, totp_secret })
            ==> step == (LockedStep::Create { mode, password, totp_secret }) && !quit),
        state is Locked ==> (input matches LockedInput::Unlock(UnlockOutcome::TryPassword(p)) ==> step
            == (LockedStep::Unlock { password: p, first_run: false }) && !quit),
        state matches AppState::Locked(u) ==> (input matches LockedInput::Unlock(UnlockOutcome::SetPassword(p)) ==> (
        u.mode == UnlockMode::MigrateTotpOnly ==> step == (LockedStep::Migrate { password: p }))),
        state matches AppState::Locked(u) ==> (input matches LockedInput::Unlock(UnlockOutcome::SetPassword(p)) ==> (
        u.mode != UnlockMode::MigrateTotpOnly ==> step == (LockedStep::Unlock { password: p, first_run: true }))),
        state is LockedTotpDaily ==> (input matches LockedInput::TotpUnlock(TotpUnlockOutcome::Submit(c)) ==> step
            == (LockedStep::CheckCode { code: c }) && !quit),
        quit ==> step is Nothing,
{
}

/// A vault that its device cannot open asks for the password where it has one, and
/// says why; without one nothing that could be typed would help.
pub proof fn a_failed_device_leads_to_the_password(state: AppState, text: Seq<char>)
    ensures
        device_failed(state, true, text) <==> (state matches AppState::Locked(u) && u.mode == UnlockMode::Unlock && u.info
            is None && (u.error matches Some(e) && e@ == text)),
        device_failed(state, false, text) <==> state is Unopenable,
{
}

} // verus!
