//! What a write of the vault came to.
//!
//! A setting is only worth applying if it survives a restart: where the write
//! failed, what was changed in memory for it is put back.
use vstd::prelude::*;

use crate::app::security::{settings_error, settings_info};
use crate::app::state::{
    fresh_menu, menu, prefixed, says, status_says, App, AppState, Screen, StatusMessage, UnlockedState,
};
use crate::app::steps::{is_scripts_list, name_of, only_screen, AfterSave, Effect, PendingSave};
use crate::config::keyslot::all_countable;
use crate::config::model::{find_server, Config, ConnectMode, Uuid};
use crate::error::{error_text, AppError};
use crate::i18n::Strings;
use crate::text::{decimal, owned, push_decimal};
use crate::tui::{ScriptFormState, ScriptsListState, SettingsState, SshImportState};

verus! {

/// `prefix` with an error's sentence, or `text` where there is none.
pub open spec fn outcome_text(result: Result<(), AppError>, text: Seq<char>, prefix: Seq<char>) -> Seq<char> {
    match result {
        Ok(_) => text,
        Err(e) => prefix + error_text(e@),
    }
}

fn outcome(result: &Result<(), AppError>, text: &str, prefix: &str) -> (r: String)
    ensures
        r@ == outcome_text(*result, text@, prefix@),
{
    match result {
        Ok(_) => owned(text),
        Err(e) => prefixed(prefix, e),
    }
}

/// What a submitted server form leads to.
pub open spec fn form_saved(
    before: UnlockedState,
    result: Result<(), AppError>,
    strings: Strings,
    now: u64,
    after: UnlockedState,
) -> bool {
    match result {
        Ok(_) => {
            &&& after == (UnlockedState { screen: fresh_menu(), status: after.status, ..before })
            &&& status_says(after.status, strings.status_saved@, now)
        },
        Err(e) => match before.screen {
            Screen::ServerForm(was) => {
                &&& only_screen(before, after)
                &&& after.screen matches Screen::ServerForm(is) && is.mode == was.mode && says(
                    is.error,
                    strings.save_error_prefix@ + error_text(e@),
                )
            },
            _ => after == before,
        },
    }
}

/// What a submitted script form leads to.
pub open spec fn script_form_saved(
    before: UnlockedState,
    server_id: Uuid,
    server_name: Seq<char>,
    result: Result<(), AppError>,
    strings: Strings,
    now: u64,
    after: UnlockedState,
) -> bool {
    match result {
        Ok(_) => {
            &&& after == (UnlockedState { screen: after.screen, status: after.status, ..before })
            &&& is_scripts_list(after.screen, server_id, server_name)
            &&& status_says(after.status, strings.status_script_saved@, now)
        },
        Err(e) => match before.screen {
            Screen::ScriptForm(was) => {
                &&& only_screen(before, after)
                &&& after.screen matches Screen::ScriptForm(is) && is == (ScriptFormState { error: is.error, ..was })
                    && says(is.error, strings.save_error_prefix@ + error_text(e@))
            },
            _ => after == before,
        },
    }
}

/// The footer after an import.
pub open spec fn imported_text(strings: Strings, imported: usize) -> Seq<char> {
    strings.status_imported_prefix@ + decimal(imported as nat) + strings.status_imported_suffix@
}

/// What an import leads to: where it could not be written, the new servers are
/// taken out again, so that the list never shows what the vault does not have.
pub open spec fn import_saved(
    before: UnlockedState,
    count: usize,
    imported: usize,
    result: Result<(), AppError>,
    strings: Strings,
    now: u64,
    after: UnlockedState,
) -> bool {
    match result {
        Ok(_) => {
            &&& after == (UnlockedState { screen: fresh_menu(), status: after.status, ..before })
            &&& status_says(after.status, imported_text(strings, imported), now)
        },
        Err(e) => {
            &&& after == (UnlockedState {
                config: Config { servers: after.config.servers, ..before.config },
                screen: after.screen,
                ..before
            })
            &&& after.config.servers@ == (if count <= before.config.servers@.len() {
                before.config.servers@.take(count as int)
            } else {
                before.config.servers@
            })
            &&& match before.screen {
                Screen::SshImport(was) => after.screen matches Screen::SshImport(is) && is == (SshImportState {
                    error: is.error,
                    ..was
                }) && says(is.error, strings.save_error_prefix@ + error_text(e@)),
                _ => after.screen == before.screen,
            }
        },
    }
}

/// What a new mode leads to. On success the new slots are the vault's, and a
/// mode without a device leaves no entry behind; on failure the code secret is
/// what it was, and the entry that was written goes.
pub open spec fn mode_saved(
    before: UnlockedState,
    pending: PendingSave,
    result: Result<(), AppError>,
    strings: Strings,
    after: UnlockedState,
    effect: Effect,
) -> bool {
    match pending.after {
        AfterSave::SecurityMode { wants_device, previous_totp } => match result {
            Ok(_) => {
                &&& effect == (if wants_device {
                    Effect::Nothing
                } else {
                    Effect::DeleteDevice
                })
                &&& after.config == before.config
                &&& after.master_key == before.master_key
                &&& after.status == before.status
                &&& after.help_open == before.help_open
                &&& after.slots == (match pending.slots {
                    Some(slots) => slots,
                    None => before.slots,
                })
                &&& match before.screen {
                    Screen::Settings(was) => after.screen matches Screen::Settings(is) && is == (SettingsState {
                        auth_mode: after.auth_mode(),
                        info: is.info,
                        ..was
                    }) && says(is.info, strings.status_mode_changed@),
                    _ => after.screen == before.screen,
                }
            },
            Err(e) => {
                &&& effect == (if wants_device {
                    Effect::DeleteDevice
                } else {
                    Effect::Nothing
                })
                &&& settings_error(
                    UnlockedState { config: Config { totp: previous_totp, ..before.config }, ..before },
                    strings.save_error_prefix@ + error_text(e@),
                    after,
                )
            },
        },
        _ => true,
    }
}

/// Whether the outcome of a write was taken in.
pub open spec fn saved_as(
    before: UnlockedState,
    pending: PendingSave,
    result: Result<(), AppError>,
    strings: Strings,
    now: u64,
    after: UnlockedState,
    effect: Effect,
) -> bool {
    let prefix = strings.save_error_prefix@;
    &&& !(pending.after is SecurityMode) ==> effect == Effect::Nothing
    &&& match pending.after {
        AfterSave::Form => form_saved(before, result, strings, now, after),
        AfterSave::Delete => {
            &&& after == (UnlockedState { screen: fresh_menu(), status: after.status, ..before })
            &&& status_says(
                after.status,
                outcome_text(result, strings.status_deleted@, strings.delete_error_prefix@),
                now,
            )
        },
        AfterSave::ScriptForm { server_id, server_name } => script_form_saved(
            before,
            server_id,
            server_name@,
            result,
            strings,
            now,
            after,
        ),
        AfterSave::DeleteScript { server_id } => {
            &&& after == (UnlockedState { screen: after.screen, status: after.status, ..before })
            &&& is_scripts_list(after.screen, server_id, name_of(before.config.servers@, server_id))
            &&& status_says(
                after.status,
                outcome_text(result, strings.status_script_deleted@, strings.delete_error_prefix@),
                now,
            )
        },
        AfterSave::Forwards => {
            &&& after == (UnlockedState { status: after.status, ..before })
            &&& status_says(after.status, outcome_text(result, strings.status_saved@, prefix), now)
        },
        AfterSave::Import { before: count, imported } => import_saved(
            before,
            count,
            imported,
            result,
            strings,
            now,
            after,
        ),
        AfterSave::AutoLock { previous } => match result {
            Ok(_) => settings_info(before, strings.status_auto_lock_saved@, after),
            Err(e) => settings_error(
                UnlockedState { config: Config { auto_lock_minutes: previous, ..before.config }, ..before },
                prefix + error_text(e@),
                after,
            ),
        },
        AfterSave::ConnectMode { previous } => match result {
            Ok(_) => settings_info(before, strings.status_connect_mode_saved@, after),
            Err(e) => settings_error(
                UnlockedState { config: Config { connect_mode: previous, ..before.config }, ..before },
                prefix + error_text(e@),
                after,
            ),
        },
        AfterSave::Password => match result {
            Ok(_) => settings_info(
                UnlockedState {
                    slots: match pending.slots {
                        Some(slots) => slots,
                        None => before.slots,
                    },
                    ..before
                },
                strings.status_password_changed@,
                after,
            ),
            Err(e) => settings_error(before, prefix + error_text(e@), after),
        },
        AfterSave::SecurityMode { .. } => mode_saved(before, pending, result, strings, after, effect),
        AfterSave::Sort => match result {
            Ok(_) => after == before,
            Err(e) => after == (UnlockedState { status: after.status, ..before }) && status_says(
                after.status,
                prefix + error_text(e@),
                now,
            ),
        },
        AfterSave::BestEffort => after == before,
    }
}

impl UnlockedState {
    fn set_status(&mut self, text: String, now: u64)
        ensures
            *final(self) == (UnlockedState { status: final(self).status, ..*old(self) }),
            status_says(final(self).status, text@, now),
    {
        self.status = Some(StatusMessage::new(text, now));
    }

    fn saved_form(&mut self, result: &Result<(), AppError>, strings: &Strings, now: u64)
        ensures
            form_saved(*old(self), *result, *strings, now, *final(self)),
    {
        match result {
            Ok(_) => {
                self.set_status(owned(strings.status_saved), now);
                self.screen = menu();
            },
            Err(e) => {
                if let Screen::ServerForm(state) = &mut self.screen {
                    state.error = Some(prefixed(strings.save_error_prefix, e));
                }
            },
        }
    }

    fn saved_script_form(
        &mut self,
        server_id: Uuid,
        server_name: String,
        result: &Result<(), AppError>,
        strings: &Strings,
        now: u64,
    )
        ensures
            script_form_saved(*old(self), server_id, server_name@, *result, *strings, now, *final(self)),
    {
        match result {
            Ok(_) => {
                self.set_status(owned(strings.status_script_saved), now);
                self.screen = Screen::Scripts(ScriptsListState { server_id, server_name });
            },
            Err(e) => {
                if let Screen::ScriptForm(state) = &mut self.screen {
                    state.error = Some(prefixed(strings.save_error_prefix, e));
                }
            },
        }
    }

    fn saved_import(
        &mut self,
        count: usize,
        imported: usize,
        result: &Result<(), AppError>,
        strings: &Strings,
        now: u64,
    )
        ensures
            import_saved(*old(self), count, imported, *result, *strings, now, *final(self)),
    {
        match result {
            Ok(_) => {
                let mut text = owned(strings.status_imported_prefix);
                push_decimal(&mut text, imported as u64);
                text.push_str(strings.status_imported_suffix);
                self.set_status(text, now);
                self.screen = menu();
            },
            Err(e) => {
                self.config.servers.truncate(count);
                assert(self.config.servers@ =~= (if count <= old(self).config.servers@.len() {
                    old(self).config.servers@.take(count as int)
                } else {
                    old(self).config.servers@
                }));
                if let Screen::SshImport(state) = &mut self.screen {
                    state.error = Some(prefixed(strings.save_error_prefix, e));
                }
            },
        }
    }

    fn saved_mode(&mut self, pending: PendingSave, result: &Result<(), AppError>, strings: &Strings) -> (r: Effect)
        requires
            old(self).wf(),
            pending.slots matches Some(slots) ==> all_countable(slots@),
            pending.after is SecurityMode,
        ensures
            final(self).wf(),
            mode_saved(*old(self), pending, *result, *strings, *final(self), r),
    {
        let (wants_device, previous_totp) = match pending.after {
            AfterSave::SecurityMode { wants_device, previous_totp } => (wants_device, previous_totp),
            _ => return Effect::Nothing,
        };
        match result {
            Ok(_) => {
                if let Some(slots) = pending.slots {
                    self.slots = slots;
                }
                let mode = self.current_auth_mode();
                if let Screen::Settings(settings) = &mut self.screen {
                    settings.auth_mode = mode;
                    settings.info = Some(owned(strings.status_mode_changed));
                }
                if wants_device {
                    Effect::Nothing
                } else {
                    Effect::DeleteDevice
                }
            },
            Err(e) => {
                self.config.totp = previous_totp;
                self.fail_in_settings(prefixed(strings.save_error_prefix, e));
                if wants_device {
                    Effect::DeleteDevice
                } else {
                    Effect::Nothing
                }
            },
        }
    }

    /// Takes in how a write of the vault went.
    pub fn saved(&mut self, pending: PendingSave, result: Result<(), AppError>, strings: &Strings, now: u64) -> (r: Effect)
        requires
            old(self).wf(),
            pending.slots matches Some(slots) ==> all_countable(slots@),
        ensures
            final(self).wf(),
            saved_as(*old(self), pending, result, *strings, now, *final(self), r),
    {
        match pending.after {
            AfterSave::Form => {
                self.saved_form(&result, strings, now);
                Effect::Nothing
            },
            AfterSave::Delete => {
                self.set_status(outcome(&result, strings.status_deleted, strings.delete_error_prefix), now);
                self.screen = menu();
                Effect::Nothing
            },
            AfterSave::ScriptForm { server_id, server_name } => {
                self.saved_script_form(server_id, server_name, &result, strings, now);
                Effect::Nothing
            },
            AfterSave::DeleteScript { server_id } => {
                let server_name = match find_server(&self.config.servers, server_id) {
                    Some(i) => self.config.servers[i].name.clone(),
                    None => String::new(),
                };
                self.set_status(outcome(&result, strings.status_script_deleted, strings.delete_error_prefix), now);
                self.screen = Screen::Scripts(ScriptsListState { server_id, server_name });
                Effect::Nothing
            },
            AfterSave::Forwards => {
                self.set_status(outcome(&result, strings.status_saved, strings.save_error_prefix), now);
                Effect::Nothing
            },
            AfterSave::Import { before, imported } => {
                self.saved_import(before, imported, &result, strings, now);
                Effect::Nothing
            },
            AfterSave::AutoLock { previous } => {
                match result {
                    Ok(_) => self.tell_in_settings(owned(strings.status_auto_lock_saved)),
                    Err(e) => {
                        self.config.auto_lock_minutes = previous;
                        self.fail_in_settings(prefixed(strings.save_error_prefix, &e));
                    },
                }
                Effect::Nothing
            },
            AfterSave::ConnectMode { previous } => {
                match result {
                    Ok(_) => self.tell_in_settings(owned(strings.status_connect_mode_saved)),
                    Err(e) => {
                        self.config.connect_mode = previous;
                        self.fail_in_settings(prefixed(strings.save_error_prefix, &e));
                    },
                }
                Effect::Nothing
            },
            AfterSave::Password => {
                match result {
                    Ok(_) => {
                        if let Some(slots) = pending.slots {
                            self.slots = slots;
                        }
                        self.tell_in_settings(owned(strings.status_password_changed));
                    },
                    Err(e) => self.fail_in_settings(prefixed(strings.save_error_prefix, &e)),
                }
                Effect::Nothing
            },
            AfterSave::Sort => {
                if let Err(e) = &result {
                    self.set_status(prefixed(strings.save_error_prefix, e), now);
                }
                Effect::Nothing
            },
            AfterSave::BestEffort => Effect::Nothing,
            AfterSave::SecurityMode { wants_device, previous_totp } => self.saved_mode(
                PendingSave {
                    slots: pending.slots,
                    after: AfterSave::SecurityMode { wants_device, previous_totp },
                },
                &result,
                strings,
            ),
        }
    }
}

impl App {
    /// Takes in how a write of the vault went.
    pub fn saved(&mut self, pending: PendingSave, result: Result<(), AppError>, strings: &Strings, now: u64) -> (r: Effect)
        requires
            old(self).wf(),
            pending.slots matches Some(slots) ==> all_countable(slots@),
        ensures
            final(self).wf(),
            *final(self) == (App { state: final(self).state, ..*old(self) }),
            match old(self).state {
                AppState::Unlocked(before) => final(self).state matches AppState::Unlocked(after) && saved_as(
                    before,
                    pending,
                    result,
                    *strings,
                    now,
                    after,
                    r,
                ),
                _ => final(self).state == old(self).state && r == Effect::Nothing,
            },
    {
        match &mut self.state {
            AppState::Unlocked(u) => u.saved(pending, result, strings, now),
            _ => Effect::Nothing,
        }
    }
}

/// A setting that could not be written is what it was before it was chosen.
pub proof fn a_failed_auto_lock_is_rolled_back(
    before: UnlockedState,
    minutes: u32,
    chosen: UnlockedState,
    e: AppError,
    strings: Strings,
    now: u64,
    after: UnlockedState,
    effect: Effect,
)
    requires
        chosen == (UnlockedState { config: Config { auto_lock_minutes: minutes, ..before.config }, ..before }),
        saved_as(
            chosen,
            PendingSave { slots: None, after: AfterSave::AutoLock { previous: before.config.auto_lock_minutes } },
            Err(e),
            strings,
            now,
            after,
            effect,
        ),
    ensures
        after.config == before.config,
        after.slots == before.slots,
{
}

/// A connect mode that could not be written is what it was before it was chosen.
pub proof fn a_failed_connect_mode_is_rolled_back(
    before: UnlockedState,
    mode: ConnectMode,
    chosen: UnlockedState,
    e: AppError,
    strings: Strings,
    now: u64,
    after: UnlockedState,
    effect: Effect,
)
    requires
        chosen == (UnlockedState { config: Config { connect_mode: mode, ..before.config }, ..before }),
        saved_as(
            chosen,
            PendingSave { slots: None, after: AfterSave::ConnectMode { previous: before.config.connect_mode } },
            Err(e),
            strings,
            now,
            after,
            effect,
        ),
    ensures
        after.config == before.config,
        after.slots == before.slots,
{
}

/// A change of the mode that could not be written leaves the vault in the mode
/// it was in: the same slots, the same code secret.
pub proof fn a_failed_mode_change_is_rolled_back(
    before: UnlockedState,
    change: crate::app::security::ModeChange,
    chosen: UnlockedState,
    pending: PendingSave,
    e: AppError,
    strings: Strings,
    now: u64,
    after: UnlockedState,
    effect: Effect,
)
    requires
        crate::app::security::change_applied(before, change, chosen, Effect::Save(pending)),
        saved_as(chosen, pending, Err(e), strings, now, after, effect),
    ensures
        after.config == before.config,
        after.slots == before.slots,
        after.auth_mode() == before.auth_mode(),
        effect == (if change.wants_device {
            Effect::DeleteDevice
        } else {
            Effect::Nothing
        }),
{
}

/// A failed import leaves no trace in memory.
pub proof fn a_failed_import_is_rolled_back(
    before: UnlockedState,
    hosts: Seq<crate::ssh_config::SshConfigHost>,
    user: Option<Seq<char>>,
    chosen: UnlockedState,
    pending: PendingSave,
    e: AppError,
    strings: Strings,
    now: u64,
    after: UnlockedState,
    effect: Effect,
)
    requires
        crate::app::steps::hosts_imported(before, hosts, user, chosen, Effect::Save(pending)),
        saved_as(chosen, pending, Err(e), strings, now, after, effect),
    ensures
        after.config.servers@ == before.config.servers@,
{
    assert(before.config.servers.len() == before.config.servers@.len());
}

} // verus!
