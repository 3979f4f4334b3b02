//! Changing how a vault is opened: its password, and its security mode.
//!
//! The master key never changes, so the vault body is not re-encrypted: only
//! the wrapped copies of that key are.
use vstd::prelude::*;

use crate::app::state::{keeps_totp, needs_device, prefixed, says, wants_device, wants_totp, Screen, UnlockedState};
use crate::app::steps::{AfterSave, Effect, PendingSave};
use crate::config::device::{device_key_of, DeviceState};
use crate::config::format::{
    all_sized, costs_in_range, first_kdf_error, slot_views, Slot, SlotView, KDF_ARGON2ID, SLOT_DEVICE, SLOT_PASSWORD,
};
use crate::config::keyslot::{
    all_countable, copy_slots, find, first_of_kind, has_slot, lemma_has_slot, lemma_replaced_countable, of_kind,
    replace, replaced, slot_index, sorted_by_kind, unwrap_password, unwrapped_by_device, unwrapped_by_password,
    wrap_device_with, wrap_password, wrap_password_with, wrapped_by_device, wrapped_by_password, Draw, MasterKey,
    DEVICE_KDF_ID,
};
use crate::config::model::{Config, TotpConfig};
use crate::config::secret::Secret;
use crate::crypto::kdf::{argon2_refusal, KdfParams};
use crate::error::{error_text, AppError, ErrorView};
use crate::i18n::Strings;
use crate::text::{owned, utf8};
use crate::totp::AuthMode;
use crate::tui::SettingsState;

verus! {

/// A change of the security mode that is under way.
pub struct ModeChange {
    pub slots: Vec<Slot>,
    pub totp: Option<TotpConfig>,
    pub wants_device: bool,
}

/// The code secret in a config.
pub open spec fn totp_text(t: Option<TotpConfig>) -> Option<Seq<char>> {
    match t {
        Some(c) => Some(c.secret_base32@),
        None => None,
    }
}

/// The text of a secret, if there is one.
pub open spec fn secret_text(s: Option<Secret>) -> Option<Seq<char>> {
    match s {
        Some(t) => Some(t@),
        None => None,
    }
}

/// The costs of a slot that is only reached when the everyday path has failed.
pub open spec fn recovery_costs() -> KdfParams {
    KdfParams { m_cost: 262_144, t_cost: 4, p_cost: 1 }
}

/// Whether a slot is a password slot at these costs that the password unwraps
/// to the master key.
pub open spec fn is_password_slot(slot: Slot, params: KdfParams, password: Seq<char>, master_key: Seq<u8>) -> bool {
    &&& slot.kind == SLOT_PASSWORD
    &&& slot.kdf_id == KDF_ARGON2ID
    &&& slot.kdf_params == params
    &&& unwrapped_by_password(slot@, password) == Ok::<Seq<u8>, ErrorView>(master_key)
}

/// Whether a slot is a device slot that the device's key unwraps to the master
/// key.
pub open spec fn is_device_slot(slot: Slot, state: DeviceState, master_key: Seq<u8>) -> bool {
    &&& slot.kind == SLOT_DEVICE
    &&& slot.kdf_id == DEVICE_KDF_ID
    &&& device_key_of(state.key_text()) matches Ok(key) && unwrapped_by_device(slot@, key) == Ok::<Seq<u8>, ErrorView>(
        master_key,
    )
}

/// Whether these are the slots of a vault that opens with the password, at these
/// costs, or with the password slot it already had, and with the device where
/// there is one.
pub open spec fn slots_for(
    slots: Seq<Slot>,
    costs: KdfParams,
    password: Option<Seq<char>>,
    existing: Option<Slot>,
    device: Option<DeviceState>,
    master_key: Seq<u8>,
) -> bool {
    let p: int = if password is Some || existing is Some {
        1
    } else {
        0
    };
    let d: int = if device is Some {
        1
    } else {
        0
    };
    &&& slots.len() == p + d
    &&& match password {
        Some(text) => is_password_slot(slots[0], costs, text, master_key),
        None => existing matches Some(slot) ==> slots[0] == slot,
    }
    &&& device matches Some(state) ==> is_device_slot(slots[p], state, master_key)
}

/// Whether an error is one that making slots can come to: the random source
/// failed, or the derivation refuses the costs or the length of the password.
pub open spec fn slot_error(e: ErrorView, costs: KdfParams, password: Option<Seq<char>>) -> bool {
    e is Crypto || (password matches Some(text) && (argon2_refusal(utf8(text).len(), costs) matches Some(why) && e
        == ErrorView::Kdf(why)))
}

/// The slots that are built, for what was drawn: the password's, or the one the
/// vault already has, and then the device's. The first failure is the answer.
pub open spec fn built_slots(
    costs: KdfParams,
    password: Option<Seq<char>>,
    existing: Option<Slot>,
    device: Option<DeviceState>,
    master_key: Seq<u8>,
    password_draw: Draw,
    device_draw: Draw,
) -> Result<Seq<SlotView>, ErrorView> {
    let front: Result<Seq<SlotView>, ErrorView> = match password {
        Some(text) => match wrapped_by_password(text, costs, password_draw, master_key) {
            Ok(slot) => Ok(seq![slot]),
            Err(e) => Err(e),
        },
        None => match existing {
            Some(slot) => Ok(seq![slot@]),
            None => Ok(Seq::empty()),
        },
    };
    match front {
        Err(e) => Err(e),
        Ok(slots) => match device {
            None => Ok(slots),
            Some(state) => match device_key_of(state.key_text()) {
                Err(e) => Err(e),
                Ok(key) => match wrapped_by_device(key, device_draw, master_key) {
                    Ok(slot) => Ok(slots.push(slot)),
                    Err(e) => Err(e),
                },
            },
        },
    }
}

/// The text of a borrowed password.
pub open spec fn borrowed_text(password: Option<&str>) -> Option<Seq<char>> {
    match password {
        Some(p) => Some(p@),
        None => None,
    }
}

/// A borrowed device state.
pub open spec fn borrowed_state(device: Option<&DeviceState>) -> Option<DeviceState> {
    match device {
        Some(d) => Some(*d),
        None => None,
    }
}

/// Makes the slots of a vault: the password's, at these costs, or the one it
/// already has, and the device's, with the salts and nonces that were drawn.
pub fn build_slots_with(
    costs: KdfParams,
    password: Option<&str>,
    existing: Option<Slot>,
    device: Option<&DeviceState>,
    master_key: &MasterKey,
    password_draw: Draw,
    device_draw: Draw,
) -> (r: Result<Vec<Slot>, AppError>)
    requires
        costs.countable(),
        existing matches Some(slot) ==> slot.kdf_id == KDF_ARGON2ID ==> slot.kdf_params.countable(),
    ensures
        ({
            let built = built_slots(
                costs,
                borrowed_text(password),
                existing,
                borrowed_state(device),
                master_key@,
                password_draw,
                device_draw,
            );
            match r {
                Ok(slots) => built == Ok::<Seq<SlotView>, ErrorView>(slot_views(slots@)),
                Err(e) => built == Err::<Seq<SlotView>, ErrorView>(e@),
            }
        }),
        r matches Ok(slots) ==> slots_for(
            slots@,
            costs,
            borrowed_text(password),
            existing,
            borrowed_state(device),
            master_key@,
        ) && all_countable(slots@),
{
    let mut slots: Vec<Slot> = Vec::new();
    match password {
        Some(p) => {
            match wrap_password_with(p, costs, password_draw, master_key) {
                Ok(slot) => slots.push(slot),
                Err(e) => return Err(e),
            }
        },
        None => {
            // No new password typed: keep the one already on the vault rather
            // than silently dropping the user's recovery path.
            if let Some(slot) = existing {
                slots.push(slot);
            }
        },
    }
    let ghost front = slots@;
    assert(slot_views(front) =~= if front.len() == 0 {
        Seq::empty()
    } else {
        seq![front[0]@]
    });
    if let Some(state) = device {
        let key = match state.device_key() {
            Ok(key) => key,
            Err(e) => return Err(e),
        };
        match wrap_device_with(&key, device_draw, master_key) {
            Ok(slot) => {
                slots.push(slot);
                assert(slot_views(slots@) =~= slot_views(front).push(slot@));
            },
            Err(e) => return Err(e),
        }
    }
    Ok(slots)
}

/// A device state for a mode that needs one. Only the mode with a daily code
/// puts the secret beside the key: it has to be readable before the vault is
/// open.
pub fn new_device(mode: AuthMode, totp_secret: Option<&Secret>) -> (r: Result<Option<DeviceState>, AppError>)
    ensures
        match r {
            Ok(Some(state)) => {
                &&& needs_device(mode)
                &&& device_key_of(state.key_text()) is Ok
                &&& state.replay_step == 0
                &&& state.failed_attempts == 0
                &&& secret_text(state.totp_secret) == daily_secret(mode, totp_secret)
            },
            Ok(None) => !needs_device(mode),
            Err(e) => needs_device(mode) && e@ is Crypto,
        },
{
    if !wants_device(mode) {
        return Ok(None);
    }
    match device_for(mode, totp_secret, DeviceState::new()) {
        Ok(state) => Ok(Some(state)),
        Err(e) => Err(e),
    }
}

/// The code secret that stands beside the device key in a mode.
pub open spec fn daily_secret(mode: AuthMode, totp_secret: Option<&Secret>) -> Option<Seq<char>> {
    if mode == AuthMode::TotpDaily {
        match totp_secret {
            Some(s) => Some(s@),
            None => None,
        }
    } else {
        None
    }
}

/// The device state for a mode, from a newly enrolled one: the code secret joins
/// it where a code opens the vault day to day.
pub fn device_for(mode: AuthMode, totp_secret: Option<&Secret>, drawn: Result<DeviceState, AppError>) -> (r: Result<
    DeviceState,
    AppError,
>)
    ensures
        match drawn {
            Ok(was) => r matches Ok(state) && state == (DeviceState { totp_secret: state.totp_secret, ..was })
                && secret_text(state.totp_secret) == (match daily_secret(mode, totp_secret) {
                Some(text) => Some(text),
                None => secret_text(was.totp_secret),
            }),
            Err(e) => r == Err::<DeviceState, AppError>(e),
        },
{
    match drawn {
        Ok(state) => {
            let mut state = state;
            if mode == AuthMode::TotpDaily {
                if let Some(s) = totp_secret {
                    state.totp_secret = Some(s.clone());
                }
            }
            Ok(state)
        },
        Err(e) => Err(e),
    }
}

/// The code secret that a vault keeps in a mode: the new one, or the one it
/// has.
pub open spec fn mode_totp(current: Option<TotpConfig>, mode: AuthMode, secret: Option<Secret>) -> Option<Seq<char>> {
    if !keeps_totp(mode) {
        None
    } else if secret is Some {
        secret_text(secret)
    } else {
        totp_text(current)
    }
}

/// The password slot that a vault already has.
pub open spec fn password_slot(slots: Seq<Slot>) -> Option<Slot> {
    if has_slot(slots, SLOT_PASSWORD) {
        Some(slots[slot_index(slots, SLOT_PASSWORD)])
    } else {
        None
    }
}

/// Whether a change leads a vault into a mode.
pub open spec fn valid_change(
    before: UnlockedState,
    mode: AuthMode,
    password: Option<Secret>,
    secret: Option<Secret>,
    change: ModeChange,
    device: Option<DeviceState>,
) -> bool {
    &&& change.wants_device == needs_device(mode)
    &&& totp_text(change.totp) == mode_totp(before.config.totp, mode, secret)
    &&& change.slots@.len() > 0
    &&& all_countable(change.slots@)
    &&& slots_for(
        change.slots@,
        recovery_costs(),
        secret_text(password),
        password_slot(before.slots@),
        device,
        before.master_key@,
    )
    &&& (device is Some) == needs_device(mode)
    &&& device matches Some(state) ==> secret_text(state.totp_secret) == (if mode == AuthMode::TotpDaily {
        mode_totp(before.config.totp, mode, secret)
    } else {
        None
    })
}

/// The error for a mode that would leave nothing to open the vault with.
pub open spec fn no_way_in() -> ErrorView {
    ErrorView::Crypto("that mode would leave the vault with no way in"@)
}

/// Whether the settings say why something failed, and nothing else changed.
pub open spec fn settings_error(before: UnlockedState, text: Seq<char>, after: UnlockedState) -> bool {
    match before.screen {
        Screen::Settings(was) => {
            &&& after == (UnlockedState { screen: after.screen, ..before })
            &&& after.screen matches Screen::Settings(is) && is == (SettingsState { error: is.error, ..was }) && says(
                is.error,
                text,
            )
        },
        _ => after == before,
    }
}

/// Whether the settings say that something is done, and nothing else changed.
pub open spec fn settings_info(before: UnlockedState, text: Seq<char>, after: UnlockedState) -> bool {
    match before.screen {
        Screen::Settings(was) => {
            &&& after == (UnlockedState { screen: after.screen, ..before })
            &&& after.screen matches Screen::Settings(is) && is == (SettingsState { info: is.info, ..was }) && says(
                is.info,
                text,
            )
        },
        _ => after == before,
    }
}

/// Whether a change took hold in memory and is about to be written.
pub open spec fn change_applied(before: UnlockedState, change: ModeChange, after: UnlockedState, effect: Effect) -> bool {
    &&& after == (UnlockedState { config: Config { totp: change.totp, ..before.config }, ..before })
    &&& effect == Effect::Save(
        PendingSave {
            slots: Some(change.slots),
            after: AfterSave::SecurityMode {
                wants_device: change.wants_device,
                previous_totp: before.config.totp,
            },
        },
    )
}

/// Whether a change of the mode was begun: with a device its entry is written
/// first, without one the vault is. Where it failed, the settings say so and a
/// device entry that may be there is removed.
pub open spec fn mode_change_begun(
    before: UnlockedState,
    mode: AuthMode,
    password: Option<Secret>,
    secret: Option<Secret>,
    strings: Strings,
    after: UnlockedState,
    effect: Effect,
) -> bool {
    match effect {
        Effect::WriteDevice { state, change } => {
            &&& after == before
            &&& needs_device(mode)
            &&& valid_change(before, mode, password, secret, change, Some(state))
        },
        Effect::Save(_) => !needs_device(mode) && exists|change: ModeChange|
            valid_change(before, mode, password, secret, change, None) && #[trigger] change_applied(
                before,
                change,
                after,
                effect,
            ),
        _ => {
            &&& effect == (if needs_device(mode) {
                Effect::DeleteDevice
            } else {
                Effect::Nothing
            })
            &&& exists|e: ErrorView|
                slot_error(e, recovery_costs(), secret_text(password)) && #[trigger] settings_error(
                    before,
                    strings.save_error_prefix@ + error_text(e),
                    after,
                )
        },
    }
}

/// Whether a change of the mode failed with an error: the settings say so, and a
/// device entry that may be there is removed.
pub open spec fn mode_failed(
    before: UnlockedState,
    mode: AuthMode,
    e: ErrorView,
    strings: Strings,
    after: UnlockedState,
    effect: Effect,
) -> bool {
    &&& effect == (if needs_device(mode) {
        Effect::DeleteDevice
    } else {
        Effect::Nothing
    })
    &&& settings_error(before, strings.save_error_prefix@ + error_text(e), after)
}

/// Whether a change holds these slots and what the mode keeps.
pub open spec fn holds_mode(
    before: UnlockedState,
    mode: AuthMode,
    password: Option<Secret>,
    secret: Option<Secret>,
    device: Option<DeviceState>,
    slots: Seq<SlotView>,
    change: ModeChange,
) -> bool {
    &&& slot_views(change.slots@) == slots
    &&& change.wants_device == needs_device(mode)
    &&& totp_text(change.totp) == mode_totp(before.config.totp, mode, secret)
    &&& all_countable(change.slots@)
    &&& slots_for(
        change.slots@,
        recovery_costs(),
        secret_text(password),
        password_slot(before.slots@),
        device,
        before.master_key@,
    )
}

/// What a change of the mode comes to, for what was drawn: the first failure, or
/// the slots that were built. With a device its entry is written first, without
/// one the vault is.
pub open spec fn mode_changed(
    before: UnlockedState,
    mode: AuthMode,
    password: Option<Secret>,
    secret: Option<Secret>,
    device: Result<Option<DeviceState>, AppError>,
    password_draw: Draw,
    device_draw: Draw,
    strings: Strings,
    after: UnlockedState,
    effect: Effect,
) -> bool {
    match device {
        Err(e) => mode_failed(before, mode, e@, strings, after, effect),
        Ok(device) => match built_slots(
            recovery_costs(),
            secret_text(password),
            password_slot(before.slots@),
            device,
            before.master_key@,
            password_draw,
            device_draw,
        ) {
            Err(e) => mode_failed(before, mode, e, strings, after, effect),
            Ok(slots) => if slots.len() == 0 {
                mode_failed(before, mode, no_way_in(), strings, after, effect)
            } else {
                match device {
                    Some(drawn) => effect matches Effect::WriteDevice { state, change } && state == drawn && after
                        == before && holds_mode(before, mode, password, secret, device, slots, change),
                    None => exists|change: ModeChange|
                        holds_mode(before, mode, password, secret, device, slots, change) && #[trigger] change_applied(
                            before,
                            change,
                            after,
                            effect,
                        ),
                }
            },
        },
    }
}

/// The costs of a password slot that is asked for every day.
pub open spec fn interactive_costs() -> KdfParams {
    KdfParams { m_cost: 19_456, t_cost: 2, p_cost: 1 }
}

/// Whether a password unwraps the vault's password slot.
pub open spec fn password_is_right(slots: Seq<Slot>, password: Seq<char>) -> bool {
    password_slot(slots) matches Some(slot) && unwrapped_by_password(slot@, password) is Ok
}

/// Whether the password slot was replaced by one for a new password, and the
/// other slots stayed.
pub open spec fn rewrapped(was: Seq<Slot>, password: Seq<char>, master_key: Seq<u8>, is: Seq<Slot>) -> bool {
    exists|slot: Slot|
        #[trigger] is_password_slot(slot, interactive_costs(), password, master_key) && sorted_by_kind(is) && forall|k: u8|
            #[trigger] of_kind(is, k) == replaced(was, SLOT_PASSWORD, slot, k)
}

/// Whether a change of the password was begun.
pub open spec fn password_change_begun(
    before: UnlockedState,
    current: Seq<char>,
    new: Seq<char>,
    strings: Strings,
    after: UnlockedState,
    r: Result<Effect, AppError>,
) -> bool {
    if !(before.screen is Settings) {
        after == before && r == Ok::<Effect, AppError>(Effect::Nothing)
    } else if !password_is_right(before.slots@, current) {
        settings_error(before, strings.err_current_password_wrong@, after) && r == Ok::<Effect, AppError>(
            Effect::Nothing,
        )
    } else {
        after == before && match r {
            Ok(effect) => effect matches Effect::Save(pending) && pending.after is Password && (pending.slots
                matches Some(slots) && all_countable(slots@) && rewrapped(
                before.slots@,
                new,
                before.master_key@,
                slots@,
            )),
            Err(e) => slot_error(e@, interactive_costs(), Some(new)),
        }
    }
}

impl UnlockedState {
    /// Whether the cost of every password slot can be counted.
    pub open spec fn wf(self) -> bool {
        all_countable(self.slots@)
    }

    /// Says on the settings why something failed.
    pub fn fail_in_settings(&mut self, text: String)
        ensures
            settings_error(*old(self), text@, *final(self)),
    {
        if let Screen::Settings(settings) = &mut self.screen {
            settings.error = Some(text);
        }
    }

    /// Says on the settings that something is done.
    pub fn tell_in_settings(&mut self, text: String)
        ensures
            settings_info(*old(self), text@, *final(self)),
    {
        if let Screen::Settings(settings) = &mut self.screen {
            settings.info = Some(text);
        }
    }

    /// The password slot that this vault has.
    fn existing_password_slot(&self) -> (r: Option<Slot>)
        ensures
            r == password_slot(self.slots@),
    {
        match find(&self.slots, SLOT_PASSWORD) {
            Some(slot) => Some(*slot),
            None => None,
        }
    }

    /// The code secret that this vault keeps in a mode.
    fn totp_in(&self, mode: AuthMode, totp_secret: &Option<Secret>) -> (r: Option<TotpConfig>)
        ensures
            totp_text(r) == mode_totp(self.config.totp, mode, *totp_secret),
    {
        if wants_totp(mode) {
            match totp_secret {
                Some(s) => Some(TotpConfig { secret_base32: s.clone() }),
                None => match &self.config.totp {
                    Some(t) => Some(t.clone()),
                    None => None,
                },
            }
        } else {
            None
        }
    }

    /// Lets a change take hold in memory, to be written next.
    pub fn apply_mode(&mut self, change: ModeChange) -> (r: Effect)
        ensures
            change_applied(*old(self), change, *final(self), r),
    {
        let mut totp = change.totp;
        std::mem::swap(&mut self.config.totp, &mut totp);
        Effect::Save(
            PendingSave {
                slots: Some(change.slots),
                after: AfterSave::SecurityMode { wants_device: change.wants_device, previous_totp: totp },
            },
        )
    }

    /// Begins a change of the security mode. Where nothing has to be drawn it
    /// always succeeds, unless nothing would be left to open the vault with.
    pub fn change_security_mode(
        &mut self,
        mode: AuthMode,
        password: Option<Secret>,
        totp_secret: Option<Secret>,
        strings: &Strings,
    ) -> (r: Effect)
        requires
            old(self).wf(),
        ensures
            final(self).wf(),
            mode_change_begun(*old(self), mode, password, totp_secret, *strings, *final(self), r),
            password is None && !needs_device(mode) && password_slot(old(self).slots@) is Some ==> r is Save,
            password is None && !needs_device(mode) && password_slot(old(self).slots@) is None ==> r
                == Effect::Nothing && settings_error(
                *old(self),
                strings.save_error_prefix@ + error_text(no_way_in()),
                *final(self),
            ),
    {
        let totp = self.totp_in(mode, &totp_secret);
        let device = new_device(
            mode,
            match &totp {
                Some(t) => Some(&t.secret_base32),
                None => None,
            },
        );
        self.change_security_mode_with(mode, password, totp_secret, device, Draw::fresh(), Draw::fresh(), strings)
    }

    /// Begins a change of the security mode with the device state, the salts and
    /// the nonces that were drawn.
    pub fn change_security_mode_with(
        &mut self,
        mode: AuthMode,
        password: Option<Secret>,
        totp_secret: Option<Secret>,
        device: Result<Option<DeviceState>, AppError>,
        password_draw: Draw,
        device_draw: Draw,
        strings: &Strings,
    ) -> (r: Effect)
        requires
            old(self).wf(),
        ensures
            final(self).wf(),
            mode_changed(
                *old(self),
                mode,
                password,
                totp_secret,
                device,
                password_draw,
                device_draw,
                *strings,
                *final(self),
                r,
            ),
    {
        let device = match device {
            Ok(device) => device,
            Err(e) => return self.fail_mode(mode, &e, strings),
        };
        let existing = self.existing_password_slot();
        proof {
            lemma_has_slot(self.slots@, SLOT_PASSWORD);
        }
        let text = match &password {
            Some(p) => Some(p.as_str()),
            None => None,
        };
        let built = build_slots_with(
            KdfParams::recovery(),
            text,
            existing,
            device.as_ref(),
            &self.master_key,
            password_draw,
            device_draw,
        );
        let slots = match built {
            Ok(slots) => slots,
            Err(e) => return self.fail_mode(mode, &e, strings),
        };
        if slots.len() == 0 {
            let e = AppError::Crypto(owned("that mode would leave the vault with no way in"));
            return self.fail_mode(mode, &e, strings);
        }
        let totp = self.totp_in(mode, &totp_secret);
        let change = ModeChange { slots, totp, wants_device: wants_device(mode) };
        match device {
            Some(state) => Effect::WriteDevice { state, change },
            None => self.apply_mode(change),
        }
    }

    /// Says on the settings why a mode was not changed. A device entry that may
    /// be there is to be removed.
    fn fail_mode(&mut self, mode: AuthMode, e: &AppError, strings: &Strings) -> (r: Effect)
        ensures
            mode_failed(*old(self), mode, e@, *strings, *final(self), r),
            final(self).slots == old(self).slots,
    {
        self.fail_in_settings(prefixed(strings.save_error_prefix, e));
        if wants_device(mode) {
            Effect::DeleteDevice
        } else {
            Effect::Nothing
        }
    }

    /// Takes in how the write of the credential-store entry went. The vault is
    /// only written behind an entry that is there: a stray entry is harmless,
    /// a vault whose device slot points at nothing is not.
    pub fn device_written(&mut self, change: ModeChange, result: Result<(), AppError>, strings: &Strings) -> (r: Effect)
        requires
            old(self).wf(),
        ensures
            final(self).wf(),
            match result {
                Ok(_) => change_applied(*old(self), change, *final(self), r),
                Err(e) => settings_error(
                    *old(self),
                    strings.save_error_prefix@ + error_text(e@),
                    *final(self),
                ) && r == Effect::DeleteDevice,
            },
    {
        match result {
            Ok(_) => self.apply_mode(change),
            Err(e) => {
                self.fail_in_settings(prefixed(strings.save_error_prefix, &e));
                Effect::DeleteDevice
            },
        }
    }

    /// Begins a change of the password. Unwrapping the password slot is the
    /// check that the current one is right: there is no other verifier.
    pub fn change_master_password(&mut self, current: &Secret, new: &Secret, strings: &Strings) -> (r: Result<
        Effect,
        AppError,
    >)
        requires
            old(self).wf(),
        ensures
            final(self).wf(),
            password_change_begun(*old(self), current@, new@, *strings, *final(self), r),
    {
        match &self.screen {
            Screen::Settings(_) => {},
            _ => return Ok(Effect::Nothing),
        }
        proof {
            lemma_has_slot(self.slots@, SLOT_PASSWORD);
        }
        let right: bool = match self.existing_password_slot() {
            Some(slot) => match unwrap_password(&slot, current.as_str()) {
                Ok(_) => true,
                Err(_) => false,
            },
            None => false,
        };
        if !right {
            self.fail_in_settings(owned(strings.err_current_password_wrong));
            return Ok(Effect::Nothing);
        }
        let slot = wrap_password(new.as_str(), KdfParams::interactive(), &self.master_key);
        proof {
            if let Ok(wrapped) = slot {
                assert(is_password_slot(wrapped, interactive_costs(), new@, self.master_key@));
            }
        }
        self.password_wrapped(slot)
    }

    /// The save that a newly wrapped password slot asks for: the vault's slots
    /// with the password slot replaced.
    pub fn password_wrapped(&self, slot: Result<Slot, AppError>) -> (r: Result<Effect, AppError>)
        requires
            self.wf(),
            slot matches Ok(s) ==> s.kdf_id == KDF_ARGON2ID ==> s.kdf_params.countable(),
        ensures
            match slot {
                Ok(s) => r matches Ok(effect) && (effect matches Effect::Save(pending) && pending.after is Password && (
                pending.slots matches Some(slots) && {
                    &&& all_countable(slots@)
                    &&& sorted_by_kind(slots@)
                    &&& forall|k: u8| #[trigger] of_kind(slots@, k) == replaced(self.slots@, SLOT_PASSWORD, s, k)
                })),
                Err(e) => r == Err::<Effect, AppError>(e),
            },
    {
        let slot = match slot {
            Ok(slot) => slot,
            Err(e) => return Err(e),
        };
        let mut slots = copy_slots(&self.slots);
        replace(&mut slots, SLOT_PASSWORD, slot);
        proof {
            lemma_replaced_countable(self.slots@, slots@, SLOT_PASSWORD, slot);
        }
        Ok(Effect::Save(PendingSave { slots: Some(slots), after: AfterSave::Password }))
    }
}

/// The first slot of a kind is the first that a filter by the kind keeps.
proof fn lemma_first_of_filter(slots: Seq<Slot>, kind: u8)
    ensures
        of_kind(slots, kind).len() > 0 ==> first_of_kind(slot_views(slots), kind) == Some(of_kind(slots, kind)[0]@),
    decreases slots.len(),
{
    if slots.len() > 0 {
        let rest = slots.drop_first();
        let head = seq![slots[0]];
        assert(slots =~= head + rest);
        Seq::filter_distributes_over_add(head, rest, |s: Slot| s.kind == kind);
        assert(of_kind(head, kind) =~= if slots[0].kind == kind {
            head
        } else {
            Seq::empty()
        }) by {
            reveal_with_fuel(Seq::filter, 2);
            assert(head.drop_last() =~= Seq::empty());
            assert(head.last() == slots[0]);
        }
        assert(slot_views(slots).drop_first() =~= slot_views(rest));
        lemma_first_of_filter(rest, kind);
        if slots[0].kind != kind {
            assert(of_kind(slots, kind) =~= of_kind(rest, kind));
        }
    }
}

/// A new password unwraps the same master key, so the vault's body stands as it
/// is; and the slots of every other kind stay.
pub proof fn a_new_password_unwraps_the_same_key(
    was: Seq<Slot>,
    password: Seq<char>,
    master_key: Seq<u8>,
    is: Seq<Slot>,
    kind: u8,
)
    requires
        rewrapped(was, password, master_key, is),
    ensures
        first_of_kind(slot_views(is), SLOT_PASSWORD) matches Some(slot) && unwrapped_by_password(slot, password)
            == Ok::<Seq<u8>, ErrorView>(master_key),
        kind != SLOT_PASSWORD ==> of_kind(is, kind) == of_kind(was, kind),
{
    let slot = choose|slot: Slot|
        #[trigger] is_password_slot(slot, interactive_costs(), password, master_key) && sorted_by_kind(is) && forall|k: u8|
            #[trigger] of_kind(is, k) == replaced(was, SLOT_PASSWORD, slot, k);
    assert(of_kind(is, SLOT_PASSWORD) == replaced(was, SLOT_PASSWORD, slot, SLOT_PASSWORD));
    assert(of_kind(is, SLOT_PASSWORD)[0] == slot);
    lemma_first_of_filter(is, SLOT_PASSWORD);
    assert(of_kind(is, kind) == replaced(was, SLOT_PASSWORD, slot, kind));
    if kind != SLOT_PASSWORD {
        assert(of_kind(is, kind) =~= of_kind(was, kind));
    }
}

/// The slots of a mode can be written to a file.
pub proof fn lemma_slots_valid(
    slots: Seq<Slot>,
    costs: KdfParams,
    password: Option<Seq<char>>,
    device: Option<DeviceState>,
    master_key: Seq<u8>,
)
    requires
        slots_for(slots, costs, password, None, device, master_key),
        password is Some ==> costs_in_range(costs),
    ensures
        all_sized(slot_views(slots)),
        slots.len() <= 2,
        first_kdf_error(slot_views(slots)) is None,
        password matches Some(text) ==> first_of_kind(slot_views(slots), SLOT_PASSWORD) matches Some(slot)
            && unwrapped_by_password(slot, text) == Ok::<Seq<u8>, ErrorView>(master_key),
        device matches Some(state) ==> (device_key_of(state.key_text()) matches Ok(key) && (first_of_kind(
            slot_views(slots),
            SLOT_DEVICE,
        ) matches Some(slot) && unwrapped_by_device(slot, key) == Ok::<Seq<u8>, ErrorView>(master_key))),
{
    let views = slot_views(slots);
    reveal_with_fuel(first_kdf_error, 3);
    reveal_with_fuel(first_of_kind, 3);
    assert forall|i: int| 0 <= i < views.len() implies (#[trigger] views[i]).sized() by {
        assert(views[i] == slots[i]@);
    }
    if slots.len() == 2 {
        assert(views.drop_first()[0] == views[1]);
        assert(views.drop_last().last() == views[0]);
        assert(views.drop_last().drop_last() =~= Seq::empty());
    }
    if slots.len() == 1 {
        assert(views.drop_last() =~= Seq::empty());
    }
}

/// A change that was made from a draw is a change into the mode, where its device
/// is there as the mode has one and holds the secret that the mode keeps.
pub proof fn a_drawn_change_leads_into_its_mode(
    before: UnlockedState,
    mode: AuthMode,
    password: Option<Secret>,
    secret: Option<Secret>,
    device: Option<DeviceState>,
    slots: Seq<SlotView>,
    change: ModeChange,
)
    requires
        holds_mode(before, mode, password, secret, device, slots, change),
        slots.len() > 0,
        device is Some <==> mode == AuthMode::NoPrompt || mode == AuthMode::TotpDaily,
        device matches Some(d) ==> (mode == AuthMode::NoPrompt ==> d.totp_secret is None),
        device matches Some(d) ==> (mode == AuthMode::TotpDaily ==> secret_text(d.totp_secret) == totp_text(change.totp)),
    ensures
        valid_change(before, mode, password, secret, change, device),
        slot_views(change.slots@) == slots,
{
    assert(slot_views(change.slots@).len() == change.slots@.len());
}

/// The slots of a vault are made in order: the password's first, new for a new
/// password and else as it was, and then the device's. Nothing drawn is lost, and
/// the first failure is the answer.
pub proof fn the_slots_are_made_in_order(
    costs: KdfParams,
    password: Option<Seq<char>>,
    existing: Option<Slot>,
    device: Option<DeviceState>,
    master_key: Seq<u8>,
    password_draw: Draw,
    device_draw: Draw,
)
    ensures
        ({
            let built = built_slots(costs, password, existing, device, master_key, password_draw, device_draw);
            &&& built matches Ok(slots) ==> {
                &&& password matches Some(text) ==> wrapped_by_password(text, costs, password_draw, master_key) == Ok::<
                    SlotView,
                    ErrorView,
                >(slots[0])
                &&& password is None ==> (existing matches Some(slot) ==> slots[0] == slot@)
                &&& device matches Some(state) ==> (device_key_of(state.device_key@) matches Ok(key)
                    && wrapped_by_device(key, device_draw, master_key) == Ok::<SlotView, ErrorView>(slots.last()))
                &&& password is None && existing is None && device is None ==> slots.len() == 0
                &&& (password is Some || existing is Some) && device is Some ==> slots.len() == 2
            }
            &&& password matches Some(text) ==> (wrapped_by_password(text, costs, password_draw, master_key)
                matches Err(e) ==> built == Err::<Seq<SlotView>, ErrorView>(e))
            &&& password is None && device is None ==> built is Ok
        }),
{
}

/// A mode change that comes to nothing says why on the settings, and takes away a
/// device entry that may have been made for it; a mode without a way in is one.
pub proof fn a_change_that_fails_says_why(
    before: UnlockedState,
    mode: AuthMode,
    password: Option<Secret>,
    secret: Option<Secret>,
    device: Result<Option<DeviceState>, AppError>,
    password_draw: Draw,
    device_draw: Draw,
    strings: Strings,
    after: UnlockedState,
    effect: Effect,
)
    requires
        mode_changed(before, mode, password, secret, device, password_draw, device_draw, strings, after, effect),
        before.screen is Settings,
    ensures
        device matches Err(e) ==> effect == (if mode == AuthMode::NoPrompt || mode == AuthMode::TotpDaily {
            Effect::DeleteDevice
        } else {
            Effect::Nothing
        }) && (after.screen matches Screen::Settings(s) && (s.error matches Some(text) && text@
            == strings.save_error_prefix@ + error_text(e@))),
        device == Ok::<Option<DeviceState>, AppError>(None) && password is None && !has_slot(before.slots@, 1) ==> (
        after.screen matches Screen::Settings(s) && (s.error matches Some(text) && text@ == strings.save_error_prefix@
            + error_text(ErrorView::Crypto("that mode would leave the vault with no way in"@)))),
        effect matches Effect::WriteDevice { state, .. } ==> device == Ok::<Option<DeviceState>, AppError>(Some(state))
            && after == before,
        !(effect is Save) ==> after.config == before.config && after.slots == before.slots,
{
}

/// A device for the mode with a daily code holds the secret, one for a mode without
/// a code does not; the key it was made with stays.
pub proof fn a_device_holds_the_daily_secret(
    mode: AuthMode,
    secret: Option<&Secret>,
    was: DeviceState,
    r: Result<DeviceState, AppError>,
)
    requires
        call_ensures(device_for, (mode, secret, Ok(was)), r),
    ensures
        r matches Ok(d) && d.device_key == was.device_key && d.replay_step == was.replay_step && (mode
            == AuthMode::TotpDaily ==> (secret matches Some(s) ==> (d.totp_secret matches Some(k) && k@ == s@))) && (
        mode != AuthMode::TotpDaily && was.totp_secret is None ==> d.totp_secret is None),
{
}

} // verus!
