//! What the application promises about the vault's security modes, and about
//! what a write leaves behind.
use vstd::prelude::*;

use crate::app::locked::{
    code_judged, device_read, enrolled, is_migrated, is_migrated_at, is_new_vault, is_new_vault_at, opens_to,
    write_after, DailyEffect, DeviceLook, NewVault, WriteStep,
};
use crate::app::saves::saved_as;
use crate::app::second_factor::second_factor;
use crate::app::security::{
    a_new_password_unwraps_the_same_key, change_applied, interactive_costs, is_device_slot, is_password_slot,
    password_change_begun, password_slot, valid_change, ModeChange,
};
use crate::app::state::{
    keeps_totp, lock_error_text, locked_with, mode_of, needs_device, save_error_text, state_after_password, App,
    AppState, Screen, UnlockedState, MAX_TOTP_FAILURES, PASSWORD_CHECK_DAYS, STATUS_TTL_MS,
};
use crate::app::steps::{AfterSave, Effect, PendingSave};
use crate::config::device::{device_key_of, escalates, DeviceState};
use crate::config::format::{decoded_any, AnyView, EnvelopeView, Slot, SLOT_DEVICE, SLOT_PASSWORD};
use crate::config::keyslot::{
    has_slot, lemma_has_slot, of_kind, replaced, slot_index, sorted_by_kind, unwrapped_by_device, unwrapped_by_password,
};
use crate::config::model::{AuthMethod, Config, ConnectMode, ServerSort, TotpConfig};
use crate::config::secret::Secret;
use crate::config::store::{opened_by_password, Unlocked};
use crate::crypto::kdf::KdfParams;
use crate::error::{error_text, AppError, ErrorView};
use crate::i18n::Strings;
use crate::text::decimal;
use crate::totp::{AuthMode, CodeCheck};
use crate::tui::UnlockMode;

verus! {

/// The four modes are told apart by a device slot and a code secret.
pub proof fn the_slots_and_the_secret_tell_the_mode(device_slot: bool, totp: bool)
    ensures
        mode_of(device_slot, totp) == AuthMode::NoPrompt <==> device_slot && !totp,
        mode_of(device_slot, totp) == AuthMode::Password <==> !device_slot && !totp,
        mode_of(device_slot, totp) == AuthMode::PasswordTotp <==> !device_slot && totp,
        mode_of(device_slot, totp) == AuthMode::TotpDaily <==> device_slot && totp,
        needs_device(mode_of(device_slot, totp)) == device_slot,
        keeps_totp(mode_of(device_slot, totp)) == totp,
{
}

/// Whether two code secrets are the same text, or both missing.
pub open spec fn same_secret(a: Option<TotpConfig>, b: Option<TotpConfig>) -> bool {
    match (a, b) {
        (Some(x), Some(y)) => x.secret_base32@ == y.secret_base32@,
        (None, None) => true,
        _ => false,
    }
}

/// A change to a mode with a code keeps the secret that was just enrolled, and
/// the one already stored only where none was; a mode without a code keeps none.
/// The device holds that secret too where a code opens the vault day to day, and
/// in no other mode.
pub proof fn a_mode_keeps_the_enrolled_secret(
    before: UnlockedState,
    mode: AuthMode,
    password: Option<Secret>,
    secret: Option<Secret>,
    change: ModeChange,
    device: Option<DeviceState>,
)
    requires
        valid_change(before, mode, password, secret, change, device),
    ensures
        mode == AuthMode::PasswordTotp || mode == AuthMode::TotpDaily ==> (secret matches Some(s) ==> (change.totp
            matches Some(t) && t.secret_base32@ == s@)),
        mode == AuthMode::PasswordTotp || mode == AuthMode::TotpDaily ==> (secret is None ==> same_secret(
            change.totp,
            before.config.totp,
        )),
        mode == AuthMode::Password || mode == AuthMode::NoPrompt ==> change.totp is None,
        device is Some <==> mode == AuthMode::NoPrompt || mode == AuthMode::TotpDaily,
        change.wants_device <==> mode == AuthMode::NoPrompt || mode == AuthMode::TotpDaily,
        mode == AuthMode::NoPrompt ==> (device matches Some(d) && d.totp_secret is None),
        mode == AuthMode::TotpDaily ==> (device matches Some(d) && match change.totp {
            Some(t) => d.totp_secret matches Some(s) && s@ == t.secret_base32@,
            None => d.totp_secret is None,
        }),
{
}

/// The slots of a changed mode open to the vault's own key: with the new password
/// at 256 MiB and four passes, or through the password slot that was there, which
/// stays as it is; and on the device, where the mode has one. There are no
/// others.
pub proof fn a_mode_is_opened_by_its_slots(
    before: UnlockedState,
    mode: AuthMode,
    password: Option<Secret>,
    secret: Option<Secret>,
    change: ModeChange,
    device: Option<DeviceState>,
)
    requires
        valid_change(before, mode, password, secret, change, device),
    ensures
        password matches Some(p) ==> {
            &&& change.slots@[0].kind == SLOT_PASSWORD
            &&& change.slots@[0].kdf_params == (KdfParams { m_cost: 262_144, t_cost: 4, p_cost: 1 })
            &&& unwrapped_by_password(change.slots@[0]@, p@) == Ok::<Seq<u8>, ErrorView>(before.master_key@)
        },
        password is None && has_slot(before.slots@, SLOT_PASSWORD) ==> change.slots@[0].kind == SLOT_PASSWORD
            && exists|i: int| 0 <= i < before.slots@.len() && #[trigger] before.slots@[i] == change.slots@[0],
        device matches Some(d) ==> {
            &&& change.slots@.last().kind == SLOT_DEVICE
            &&& device_key_of(d.device_key@) matches Ok(key) && unwrapped_by_device(change.slots@.last()@, key) == Ok::<
                Seq<u8>,
                ErrorView,
            >(before.master_key@)
        },
        change.slots@.len() == (if password is Some || has_slot(before.slots@, SLOT_PASSWORD) {
            1int
        } else {
            0
        }) + (if device is Some {
            1int
        } else {
            0
        }),
        has_slot(change.slots@, SLOT_DEVICE) == device is Some,
        has_slot(change.slots@, SLOT_PASSWORD) == (password is Some || has_slot(before.slots@, SLOT_PASSWORD)),
{
    lemma_has_slot(before.slots@, SLOT_PASSWORD);
    lemma_has_slot(change.slots@, SLOT_PASSWORD);
    lemma_has_slot(change.slots@, SLOT_DEVICE);
    if password is None && has_slot(before.slots@, SLOT_PASSWORD) {
        assert(password_slot(before.slots@) == Some(change.slots@[0]));
    }
    if password is Some || has_slot(before.slots@, SLOT_PASSWORD) {
        assert(change.slots@[0].kind == SLOT_PASSWORD);
    }
    if device is Some {
        assert(change.slots@[change.slots@.len() - 1].kind == SLOT_DEVICE);
    }
}

/// Once a change of the mode is written, the vault is in the mode that was asked
/// for, with the secret and the slots of the change; its key and everything else
/// that it stores are what they were. The settings say so, and a mode without a
/// device leaves no entry behind.
pub proof fn a_written_mode_is_the_mode_asked_for(
    before: UnlockedState,
    mode: AuthMode,
    password: Option<Secret>,
    secret: Option<Secret>,
    change: ModeChange,
    device: Option<DeviceState>,
    chosen: UnlockedState,
    pending: PendingSave,
    strings: Strings,
    now: u64,
    after: UnlockedState,
    effect: Effect,
)
    requires
        valid_change(before, mode, password, secret, change, device),
        mode == AuthMode::PasswordTotp || mode == AuthMode::TotpDaily ==> secret is Some || before.config.totp is Some,
        change_applied(before, change, chosen, Effect::Save(pending)),
        saved_as(chosen, pending, Ok(()), strings, now, after, effect),
    ensures
        after.auth_mode() == mode,
        after.config == (Config { totp: change.totp, ..before.config }),
        after.slots == change.slots,
        after.master_key == before.master_key,
        after.status == before.status && after.help_open == before.help_open,
        effect == (if mode == AuthMode::NoPrompt || mode == AuthMode::TotpDaily {
            Effect::Nothing
        } else {
            Effect::DeleteDevice
        }),
        before.screen is Settings ==> (after.screen matches Screen::Settings(s) && s.auth_mode == mode && (s.info
            matches Some(text) && text@ == strings.status_mode_changed@)),
{
    a_mode_is_opened_by_its_slots(before, mode, password, secret, change, device);
    a_mode_keeps_the_enrolled_secret(before, mode, password, secret, change, device);
}

/// A vault that its password opened asks for a code exactly where it keeps a code
/// secret, and shows the server list else. Nothing that it holds is changed.
pub proof fn a_code_is_asked_for_where_there_is_a_secret(u: Unlocked)
    ensures
        state_after_password(u) matches AppState::Unlocked(v) && {
            &&& v.config == u.config
            &&& v.master_key == u.master_key
            &&& v.slots == u.slots
            &&& v.screen is TotpPrompt <==> u.config.totp is Some
            &&& v.screen is MainMenu <==> u.config.totp is None
            &&& v.screen matches Screen::TotpPrompt(p) ==> p.error is None
            &&& v.status is None && !v.help_open
        },
{
}

/// A new vault is empty and in the mode that was chosen: it keeps the enrolled
/// secret where the mode has a code, on the device too where the code opens it
/// day to day, and its slots open to its key.
pub proof fn a_new_vault_is_in_the_chosen_mode(
    v: NewVault,
    costs: KdfParams,
    mode: AuthMode,
    password: Option<Secret>,
    secret: Option<Secret>,
)
    requires
        is_new_vault_at(v, costs, mode, password, secret),
        mode == AuthMode::PasswordTotp || mode == AuthMode::TotpDaily ==> secret is Some,
        mode == AuthMode::Password || mode == AuthMode::PasswordTotp ==> password is Some,
    ensures
        mode_of(has_slot(v.unlocked.slots@, SLOT_DEVICE), v.unlocked.config.totp is Some) == mode,
        v.unlocked.config.schema_version == 1,
        v.unlocked.config.servers@.len() == 0,
        v.unlocked.config.auto_lock_minutes == 15,
        v.unlocked.config.server_sort == ServerSort::Name,
        v.unlocked.config.connect_mode == ConnectMode::FullScreen,
        v.unlocked.config.totp matches Some(t) ==> (secret matches Some(s) && t.secret_base32@ == s@),
        has_slot(v.unlocked.slots@, SLOT_PASSWORD) == password is Some,
        password matches Some(p) ==> v.unlocked.slots@[0].kdf_params == costs && unwrapped_by_password(
            v.unlocked.slots@[0]@,
            p@,
        ) == Ok::<Seq<u8>, ErrorView>(v.unlocked.master_key@),
        v.device matches Some(d) ==> (device_key_of(d.device_key@) matches Ok(key) && unwrapped_by_device(
            v.unlocked.slots@.last()@,
            key,
        ) == Ok::<Seq<u8>, ErrorView>(v.unlocked.master_key@)),
        mode == AuthMode::TotpDaily ==> (v.device matches Some(d) && (d.totp_secret matches Some(k) && (secret
            matches Some(s) && k@ == s@))),
        mode == AuthMode::NoPrompt ==> (v.device matches Some(d) && d.totp_secret is None),
{
    lemma_has_slot(v.unlocked.slots@, SLOT_PASSWORD);
    lemma_has_slot(v.unlocked.slots@, SLOT_DEVICE);
    if password is Some {
        assert(v.unlocked.slots@[0].kind == SLOT_PASSWORD);
    }
    if v.device is Some {
        assert(v.unlocked.slots@[v.unlocked.slots@.len() - 1].kind == SLOT_DEVICE);
    }
}

/// A converted vault keeps its key and what it stores, has the old secret as its
/// code secret, opens with the new password, and is in the mode with a daily code
/// where a credential store is there, in the mode with password and code else.
pub proof fn a_converted_vault_keeps_what_it_stores(
    v: NewVault,
    costs: KdfParams,
    from: Unlocked,
    secret: Seq<char>,
    password: Seq<char>,
    store: bool,
)
    requires
        is_migrated_at(v, costs, from, secret, password, store),
    ensures
        mode_of(has_slot(v.unlocked.slots@, SLOT_DEVICE), v.unlocked.config.totp is Some) == (if store {
            AuthMode::TotpDaily
        } else {
            AuthMode::PasswordTotp
        }),
        v.unlocked.config == (Config { totp: v.unlocked.config.totp, ..from.config }),
        v.unlocked.config.totp matches Some(t) && t.secret_base32@ == secret,
        v.unlocked.master_key == from.master_key,
        v.unlocked.slots@[0].kdf_params == costs,
        unwrapped_by_password(v.unlocked.slots@[0]@, password) == Ok::<Seq<u8>, ErrorView>(from.master_key@),
        store ==> (v.device matches Some(d) && (d.totp_secret matches Some(k) && k@ == secret)),
        !store ==> v.device is None && v.unlocked.slots@.len() == 1,
{
    lemma_has_slot(v.unlocked.slots@, SLOT_DEVICE);
    if store {
        assert(v.unlocked.slots@[1].kind == SLOT_DEVICE);
    }
}

/// A wrong current password changes nothing but what the settings say, and writes
/// nothing; the right one leads to a write, unless the derivation or the random
/// source fails, and changes nothing in memory before that write.
pub proof fn only_the_current_password_changes_it(
    before: UnlockedState,
    current: Seq<char>,
    new: Seq<char>,
    strings: Strings,
    after: UnlockedState,
    r: Result<Effect, AppError>,
)
    requires
        password_change_begun(before, current, new, strings, after, r),
    ensures
        after.config == before.config,
        after.slots == before.slots,
        after.master_key == before.master_key,
        !has_slot(before.slots@, SLOT_PASSWORD) ==> r == Ok::<Effect, AppError>(Effect::Nothing),
        r matches Ok(Effect::Save(pending)) ==> exists|i: int|
            0 <= i < before.slots@.len() && (#[trigger] before.slots@[i]).kind == SLOT_PASSWORD && unwrapped_by_password(
                before.slots@[i]@,
                current,
            ) is Ok,
        before.screen is Settings && r == Ok::<Effect, AppError>(Effect::Nothing) ==> (after.screen
            matches Screen::Settings(s) && (s.error matches Some(text) && text@ == strings.err_current_password_wrong@)),
{
    lemma_has_slot(before.slots@, SLOT_PASSWORD);
    if let Some(slot) = password_slot(before.slots@) {
        assert(before.slots@[slot_index(before.slots@, SLOT_PASSWORD)] == slot);
    }
}

/// The password is due after five wrong codes, or once more than thirty days have
/// gone by since it was last given, and not before.
pub proof fn the_password_is_due_by_failures_or_days(failed: u32, last: u64, max_failed: u32, days: u32, now: u64)
    requires
        max_failed > 0,
        days > 0,
    ensures
        failed >= max_failed ==> escalates(failed, last, max_failed, days, now),
        now > last + days * 86_400 ==> escalates(failed, last, max_failed, days, now),
        failed < max_failed && now <= last + days * 86_400 ==> !escalates(failed, last, max_failed, days, now),
{
}

/// An open vault is idle for too long from the very minute its setting names, and
/// not a moment earlier.
pub proof fn the_auto_lock_fires_on_time(app: App, u: UnlockedState, now: u64)
    requires
        app.state == AppState::Unlocked(u),
        u.config.auto_lock_minutes > 0,
    ensures
        app.idle_too_long(now) <==> now >= app.last_activity + u.config.auto_lock_minutes * 60_000,
{
}

/// A fresh code for the everyday unlock is spent: its step is written before the
/// vault is opened with the device's key, and the failures are forgotten. Every
/// other code counts against the device and moves no step; the first four wrong
/// ones may be corrected, the fifth and a reused one lead to the password.
pub proof fn an_everyday_code_is_spent_or_counted(
    before: AppState,
    device: DeviceState,
    check: CodeCheck,
    strings: Strings,
    after: AppState,
    effect: DailyEffect,
)
    requires
        code_judged(before, device, check, strings, after, effect),
    ensures
        match effect {
            DailyEffect::Nothing => false,
            DailyEffect::WriteAndOpen { state, key } => {
                &&& check is Accepted
                &&& check == CodeCheck::Accepted(state.replay_step)
                &&& state.failed_attempts == 0
                &&& device_key_of(device.device_key@) == Ok::<Seq<u8>, ErrorView>(key@)
                &&& state.device_key == device.device_key && state.totp_secret == device.totp_secret
                &&& state.last_password_check_unix == device.last_password_check_unix
                &&& after == before
            },
            DailyEffect::Write { state } => {
                &&& state.device_key == device.device_key && state.totp_secret == device.totp_secret
                &&& state.last_password_check_unix == device.last_password_check_unix
                &&& check matches CodeCheck::Accepted(step) ==> state.replay_step == step && state.failed_attempts == 0
                &&& !(check is Accepted) ==> state.replay_step == device.replay_step
                &&& !(check is Accepted) && device.failed_attempts < u32::MAX ==> state.failed_attempts
                    == device.failed_attempts + 1
                &&& check is Invalid && device.failed_attempts >= 4 ==> locked_with(
                    after,
                    UnlockMode::Unlock,
                    Some(strings.err_totp_too_many_failures@),
                )
                &&& check is Invalid && device.failed_attempts < 4 ==> (before matches AppState::LockedTotpDaily(_) ==> (
                after matches AppState::LockedTotpDaily(p) && (p.error matches Some(text) && text@
                    == strings.err_totp_invalid_code@)))
                &&& check is Replayed ==> locked_with(after, UnlockMode::Unlock, Some(strings.err_totp_replayed@))
            },
        },
        check is Accepted && device_key_of(device.device_key@) is Ok ==> effect is WriteAndOpen,
        check is Accepted ==> (device_key_of(device.device_key@) matches Err(e) ==> (before is LockedTotpDaily ==> (after
            matches AppState::LockedTotpDaily(p) && (p.error matches Some(text) && text@ == strings.save_error_prefix@
            + error_text(e))))),
{
}

/// A new vault is written in order: its entry, then the file, and where it
/// replaces something the proof that it opens. A step that fails ends it.
pub proof fn a_vault_is_written_in_order(ok: bool, replaces: bool)
    ensures
        write_after(WriteStep::Device, true, replaces) == WriteStep::Vault,
        write_after(WriteStep::Vault, true, true) == WriteStep::ReadBack,
        write_after(WriteStep::Vault, true, false) == WriteStep::Done,
        write_after(WriteStep::ReadBack, true, replaces) == WriteStep::Done,
        write_after(WriteStep::Device, false, replaces) == WriteStep::Failed,
        write_after(WriteStep::Vault, false, replaces) == WriteStep::Failed,
        write_after(WriteStep::ReadBack, false, replaces) == WriteStep::Failed,
        write_after(WriteStep::Done, ok, replaces) == WriteStep::Done || !ok,
{
}

/// Whichever write it was, the key of an open vault stays, and a write that went
/// well leaves everything stored as it was put there for it.
pub proof fn a_write_leaves_the_vault_as_it_was_written(
    before: UnlockedState,
    pending: PendingSave,
    strings: Strings,
    now: u64,
    after: UnlockedState,
    effect: Effect,
)
    requires
        saved_as(before, pending, Ok(()), strings, now, after, effect),
    ensures
        after.config == before.config,
        after.master_key == before.master_key,
        pending.after is Password || pending.after is SecurityMode ==> (pending.slots matches Some(slots) ==> after.slots
            == slots),
        pending.slots is None || !(pending.after is Password || pending.after is SecurityMode) ==> after.slots
            == before.slots,
{
}

/// A write that failed leaves the key and the slots, and of the settings it was
/// for restores the one before. What cannot be restored stays as it was entered.
pub proof fn a_failed_write_restores_the_setting(
    before: UnlockedState,
    pending: PendingSave,
    e: AppError,
    strings: Strings,
    now: u64,
    after: UnlockedState,
    effect: Effect,
)
    requires
        saved_as(before, pending, Err(e), strings, now, after, effect),
    ensures
        after.master_key == before.master_key,
        after.slots == before.slots,
        pending.after matches AfterSave::AutoLock { previous } ==> after.config == (Config {
            auto_lock_minutes: previous,
            ..before.config
        }),
        pending.after matches AfterSave::ConnectMode { previous } ==> after.config == (Config {
            connect_mode: previous,
            ..before.config
        }),
        pending.after matches AfterSave::SecurityMode { previous_totp, .. } ==> after.config == (Config {
            totp: previous_totp,
            ..before.config
        }),
        pending.after matches AfterSave::Import { before: count, .. } ==> after.config == (Config {
            servers: after.config.servers,
            ..before.config
        }) && (count <= before.config.servers@.len() ==> after.config.servers@ == before.config.servers@.take(
            count as int,
        )),
        !(pending.after is AutoLock || pending.after is ConnectMode || pending.after is SecurityMode
            || pending.after is Import) ==> after.config == before.config,
{
}

/// A write that failed is told with its reason, where the user is looking: in the
/// form or the settings that asked for it, or in the footer. Only a write that
/// was best effort fails in silence.
pub proof fn a_failed_write_is_told(
    before: UnlockedState,
    pending: PendingSave,
    e: AppError,
    strings: Strings,
    now: u64,
    after: UnlockedState,
    effect: Effect,
)
    requires
        saved_as(before, pending, Err(e), strings, now, after, effect),
    ensures
        ({
            let why = strings.save_error_prefix@ + error_text(e@);
            let not_deleted = strings.delete_error_prefix@ + error_text(e@);
            &&& pending.after is Form && before.screen is ServerForm ==> (after.screen matches Screen::ServerForm(f) && (
            f.error matches Some(text) && text@ == why))
            &&& pending.after is ScriptForm && before.screen is ScriptForm ==> (after.screen
                matches Screen::ScriptForm(f) && (f.error matches Some(text) && text@ == why))
            &&& pending.after is Import && before.screen is SshImport ==> (after.screen matches Screen::SshImport(f) && (
            f.error matches Some(text) && text@ == why))
            &&& (pending.after is AutoLock || pending.after is ConnectMode || pending.after is Password
                || pending.after is SecurityMode) && before.screen is Settings ==> (after.screen
                matches Screen::Settings(f) && (f.error matches Some(text) && text@ == why))
            &&& pending.after is Forwards || pending.after is Sort ==> (after.status matches Some(s) && s.text@ == why
                && s.shown_at == now)
            &&& pending.after is Delete || pending.after is DeleteScript ==> (after.status matches Some(s) && s.text@
                == not_deleted && s.shown_at == now)
        }),
{
}

/// A write that went well is told with its own sentence.
pub proof fn a_finished_write_is_told(
    before: UnlockedState,
    pending: PendingSave,
    strings: Strings,
    now: u64,
    after: UnlockedState,
    effect: Effect,
)
    requires
        saved_as(before, pending, Ok(()), strings, now, after, effect),
    ensures
        pending.after is Form ==> after.screen is MainMenu && (after.status matches Some(s) && s.text@
            == strings.status_saved@ && s.shown_at == now),
        pending.after is Delete ==> after.screen is MainMenu && (after.status matches Some(s) && s.text@
            == strings.status_deleted@),
        pending.after is ScriptForm ==> after.screen is Scripts && (after.status matches Some(s) && s.text@
            == strings.status_script_saved@),
        pending.after is DeleteScript ==> after.screen is Scripts && (after.status matches Some(s) && s.text@
            == strings.status_script_deleted@),
        pending.after is Forwards ==> after.screen == before.screen && (after.status matches Some(s) && s.text@
            == strings.status_saved@),
        pending.after is Import ==> after.screen is MainMenu,
        pending.after is AutoLock && before.screen is Settings ==> (after.screen matches Screen::Settings(s) && (s.info
            matches Some(text) && text@ == strings.status_auto_lock_saved@)),
        pending.after is ConnectMode && before.screen is Settings ==> (after.screen matches Screen::Settings(s) && (
        s.info matches Some(text) && text@ == strings.status_connect_mode_saved@)),
        pending.after is Password && before.screen is Settings ==> (after.screen matches Screen::Settings(s) && (s.info
            matches Some(text) && text@ == strings.status_password_changed@)),
{
}

/// A contended lock is told in the user's language, every other failure by its
/// own sentence.
pub proof fn a_contended_lock_is_told_apart(e: ErrorView, strings: Strings)
    ensures
        e is VaultInUse ==> lock_error_text(e, strings) == strings.err_vault_in_use@ && save_error_text(e, strings)
            == strings.err_vault_in_use@,
        !(e is VaultInUse) ==> lock_error_text(e, strings) == error_text(e) && save_error_text(e, strings)
            == strings.save_error_prefix@ + error_text(e),
{
}

/// A changed password leads to a write with one password slot, made for the new
/// password at 19 MiB and two passes, that unwraps to the vault's own key; the
/// device slot stays. A right current password is never called wrong.
pub proof fn a_changed_password_has_its_own_slot(
    before: UnlockedState,
    current: Seq<char>,
    new: Seq<char>,
    strings: Strings,
    after: UnlockedState,
    r: Result<Effect, AppError>,
)
    requires
        before.screen is Settings,
        password_change_begun(before, current, new, strings, after, r),
    ensures
        r matches Ok(Effect::Save(pending)) ==> (pending.after is Password && (pending.slots matches Some(slots) && {
            let made = of_kind(slots@, SLOT_PASSWORD);
            &&& made.len() == 1
            &&& made[0].kdf_id == 1
            &&& made[0].kdf_params == (KdfParams { m_cost: 19_456, t_cost: 2, p_cost: 1 })
            &&& unwrapped_by_password(made[0]@, new) == Ok::<Seq<u8>, ErrorView>(before.master_key@)
            &&& of_kind(slots@, SLOT_DEVICE) == of_kind(before.slots@, SLOT_DEVICE)
        })),
        has_slot(before.slots@, SLOT_PASSWORD) && unwrapped_by_password(
            before.slots@[slot_index(before.slots@, SLOT_PASSWORD)]@,
            current,
        ) is Ok ==> after == before && (r matches Ok(effect) ==> effect is Save),
{
    if let Ok(Effect::Save(pending)) = r {
        let slots = pending.slots->Some_0@;
        a_new_password_unwraps_the_same_key(before.slots@, new, before.master_key@, slots, SLOT_DEVICE);
        let slot = choose|slot: Slot|
            #[trigger] is_password_slot(slot, interactive_costs(), new, before.master_key@) && sorted_by_kind(slots)
                && forall|k: u8| #[trigger] of_kind(slots, k) == replaced(before.slots@, SLOT_PASSWORD, slot, k);
        assert(of_kind(slots, SLOT_PASSWORD) =~= seq![slot]);
    }
}

/// A vault that is enrolled on a device again keeps its password slot, and its one
/// device slot unwraps under the device's key to the vault's own.
pub proof fn an_enrolled_device_opens_the_vault(was: Unlocked, state: DeviceState, slots: Seq<Slot>)
    requires
        enrolled(was, state, slots),
    ensures
        of_kind(slots, SLOT_PASSWORD) == of_kind(was.slots@, SLOT_PASSWORD),
        of_kind(slots, SLOT_DEVICE).len() == 1,
        device_key_of(state.device_key@) matches Ok(key) && unwrapped_by_device(of_kind(slots, SLOT_DEVICE)[0]@, key)
            == Ok::<Seq<u8>, ErrorView>(was.master_key@),
{
    let slot = choose|slot: Slot|
        #[trigger] is_device_slot(slot, state, was.master_key@) && sorted_by_kind(slots) && forall|k: u8|
            #[trigger] of_kind(slots, k) == replaced(was.slots@, SLOT_DEVICE, slot, k);
    assert(of_kind(slots, SLOT_DEVICE) =~= seq![slot]);
    assert(of_kind(slots, SLOT_PASSWORD) =~= of_kind(was.slots@, SLOT_PASSWORD));
}

/// A vault with a code on the device asks for the password after five wrong codes
/// or thirty days, where it has one, and for the code else; one without a code is
/// opened with the device's key.
pub proof fn a_device_opens_by_code_or_key(
    has_password: bool,
    device: DeviceState,
    now: u64,
    strings: Strings,
    r: DeviceLook,
)
    requires
        call_ensures(device_read, (has_password, Some(device), now, &strings), r),
    ensures
        device.totp_secret is None ==> (device_key_of(device.device_key@) matches Ok(key) ==> (r
            matches DeviceLook::Open { key: k, has_password: p } && k@ == key && p == has_password)),
        device.totp_secret is Some && has_password && (device.failed_attempts >= 5 || now
            > device.last_password_check_unix + 30 * 86_400) ==> (r matches DeviceLook::Show(state) && locked_with(
            state,
            UnlockMode::Unlock,
            Some(strings.err_password_required_now@),
        )),
        device.totp_secret is Some && (!has_password || device.failed_attempts < 5 && now
            <= device.last_password_check_unix + 30 * 86_400) ==> (r matches DeviceLook::Show(
            AppState::LockedTotpDaily(p),
        ) && p.error is None),
{
}

/// A judgement on a code at the second factor: an accepted one opens the server
/// list and its step is spent, a wrong one is told, a reused one leads back to the
/// password. What is stored stays, and no step is ever given back.
pub proof fn a_judged_code_is_acted_on(before: App, u: UnlockedState, check: CodeCheck, strings: Strings, after: App)
    requires
        before.state == AppState::Unlocked(u),
        u.screen is TotpPrompt,
        u.config.totp is Some,
        second_factor(before, check, strings, after),
    ensures
        after.last_code_step >= before.last_code_step,
        match check {
            CodeCheck::Accepted(step) => {
                &&& after.state matches AppState::Unlocked(v) && v.screen is MainMenu && v.config == u.config && v.slots
                    == u.slots && v.master_key == u.master_key
                &&& after.last_code_step >= step
                &&& after.last_code_step == step || after.last_code_step == before.last_code_step
            },
            CodeCheck::Invalid => {
                &&& after.state matches AppState::Unlocked(v) && (v.screen matches Screen::TotpPrompt(p) && (p.error
                    matches Some(text) && text@ == strings.err_totp_invalid_code@))
                &&& after.last_code_step == before.last_code_step
            },
            CodeCheck::Replayed => {
                &&& locked_with(after.state, UnlockMode::Unlock, Some(strings.err_totp_replayed@))
                &&& after.last_code_step == before.last_code_step
            },
        },
{
}

/// A lock screen shows its sentence, or none, and no notice yet.
pub proof fn a_lock_screen_shows_its_sentence(state: AppState, mode: UnlockMode, text: Seq<char>)
    ensures
        locked_with(state, mode, Some(text)) <==> (state matches AppState::Locked(u) && u.mode == mode && u.info is None
            && (u.error matches Some(e) && e@ == text)),
        locked_with(state, mode, None) <==> (state matches AppState::Locked(u) && u.mode == mode && u.info is None
            && u.error is None),
{
}

/// A vault that was wiped holds no key, no code secret and no credential of any
/// server.
pub proof fn a_wiped_vault_holds_no_credential(u: UnlockedState, i: int)
    requires
        u.wiped(),
    ensures
        0 <= i < 32 ==> u.master_key@[i] == 0,
        u.config.totp matches Some(t) ==> t.secret_base32@.len() == 0,
        0 <= i < u.config.servers@.len() ==> match u.config.servers@[i].auth {
            AuthMethod::Password { password } => password@.len() == 0,
            AuthMethod::SshKey { passphrase: Some(p), .. } => p@.len() == 0,
            _ => true,
        },
{
}

/// A write leads back to where it came from: an import says how many servers came
/// in, and a script's write shows the list of its server.
pub proof fn a_write_leads_back(
    before: UnlockedState,
    pending: PendingSave,
    strings: Strings,
    now: u64,
    after: UnlockedState,
    effect: Effect,
)
    requires
        saved_as(before, pending, Ok(()), strings, now, after, effect),
    ensures
        pending.after matches AfterSave::Import { imported, .. } ==> (after.status matches Some(s) && s.text@
            == strings.status_imported_prefix@ + decimal(imported as nat) + strings.status_imported_suffix@ && s.shown_at
            == now),
        pending.after matches AfterSave::ScriptForm { server_id, server_name } ==> (after.screen
            matches Screen::Scripts(list) && list.server_id == server_id && list.server_name@ == server_name@),
        pending.after matches AfterSave::DeleteScript { server_id } ==> (after.screen matches Screen::Scripts(list)
            && list.server_id == server_id),
        !(pending.after is SecurityMode) ==> effect == Effect::Nothing,
        pending.after is Sort || pending.after is BestEffort ==> after == before,
{
}

/// A change of the mode that could not be written takes back the entry that was
/// made for it, and only that.
pub proof fn a_failed_mode_takes_its_entry_back(
    before: UnlockedState,
    wants_device: bool,
    pending: PendingSave,
    e: AppError,
    strings: Strings,
    now: u64,
    after: UnlockedState,
    effect: Effect,
)
    requires
        pending.after matches AfterSave::SecurityMode { wants_device: w, .. } && w == wants_device,
        saved_as(before, pending, Err(e), strings, now, after, effect),
    ensures
        wants_device ==> effect == Effect::DeleteDevice,
        !wants_device ==> effect == Effect::Nothing,
{
}

/// The limits of the everyday unlock, and how long a footer stands.
pub proof fn the_limits_are_these()
    ensures
        MAX_TOTP_FAILURES == 5,
        PASSWORD_CHECK_DAYS == 30,
        STATUS_TTL_MS == 4_000,
{
}

/// The slots of a new vault, and that of a converted one, take 256 MiB and four
/// passes to derive.
pub proof fn a_recovery_slot_is_expensive(
    v: NewVault,
    mode: AuthMode,
    password: Option<Secret>,
    secret: Option<Secret>,
    from: Unlocked,
    old_secret: Seq<char>,
    new_password: Seq<char>,
    store: bool,
)
    ensures
        is_new_vault(v, mode, password, secret) && password is Some ==> v.unlocked.slots@[0].kdf_params == (KdfParams {
            m_cost: 262_144,
            t_cost: 4,
            p_cost: 1,
        }),
        is_migrated(v, from, old_secret, new_password, store) ==> v.unlocked.slots@[0].kdf_params == (KdfParams {
            m_cost: 262_144,
            t_cost: 4,
            p_cost: 1,
        }),
{
}

/// Without a code secret there is nothing to judge: the server list opens.
pub proof fn without_a_secret_no_code_is_judged(before: App, u: UnlockedState, check: CodeCheck, strings: Strings, after: App)
    requires
        before.state == AppState::Unlocked(u),
        u.config.totp is None,
        second_factor(before, check, strings, after),
    ensures
        after.state matches AppState::Unlocked(v) && v.screen is MainMenu && v.config == u.config && v.slots == u.slots
            && v.master_key == u.master_key,
        after.last_code_step == before.last_code_step,
{
}

/// What changes the state alone leaves the language, the theme, the live
/// connection and the last code as they were.
pub proof fn the_rest_of_the_application_stays(before: App, after: App)
    requires
        after.same_but_state(before),
    ensures
        after == (App { state: after.state, ..before }),
{
}

/// A vault file is proved by opening it: with the password, to the very key that
/// it was written under.
pub proof fn a_file_is_proved_by_opening_it(e: EnvelopeView, bytes: Seq<u8>, password: Seq<char>, master_key: Seq<u8>)
    requires
        decoded_any(bytes) == Ok::<AnyView, ErrorView>(AnyView::V2(e)),
    ensures
        opens_to(bytes, password, master_key) <==> (opened_by_password(e, password) matches Ok(o) && o.master_key
            == master_key),
{
}

} // verus!
