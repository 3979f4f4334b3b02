//! Carrying out what a key press asks for.
use vstd::prelude::*;

use crate::app::second_factor::code_submitted;
use crate::app::security::{mode_change_begun, password_change_begun, ModeChange};
use crate::app::state::{fresh_menu, menu, App, AppState, NextStep, Screen, UnlockedState};
use crate::config::device::DeviceState;
use crate::config::format::Slot;
use crate::config::model::{
    a_deleted_server_leaves_no_reference, delete_server, find_forward, find_script, find_server, forward_index,
    has_forward, has_script, has_server, remove_forward, remove_script, script_index, server_index, without_forward,
    without_script, without_server, AuthMethod, Config, ConnectMode, ForwardRule, Script, ServerEntry, TotpConfig, Uuid,
    DEFAULT_PORT,
};
use crate::error::AppError;
use crate::i18n::Strings;
use crate::ssh_config::{fallback_user, text_of_ref, SshConfigHost};
use crate::text::owned;
use crate::tui::{
    ConfirmState, FormMode, ForwardFormData, ForwardFormState, ForwardsListState, ScriptFormData, ScriptFormState,
    ScriptTargetsState, ScriptsListState, ServerFormData, ServerFormState,
};

verus! {

/// What has to be done outside, once a step has changed the state.
pub enum Effect {
    Nothing,
    /// One of the steps that suspend the terminal, redraw from inside a wait or
    /// hold a live connection.
    Flow(NextStep),
    /// Look at the vault afresh and show the lock screen it belongs on.
    Relock,
    /// Write the language and theme preferences, best effort.
    SavePrefs,
    /// Find out whether a credential store is reachable, then open the settings.
    OpenSettings,
    /// Read the user's ssh config, then open the import screen.
    ReadSshConfig,
    /// Write the log of the run on screen to this path.
    WriteLog { path: String },
    /// Write the vault, then hand back how it went.
    Save(PendingSave),
    /// Write the credential-store entry, then hand back how it went.
    WriteDevice { state: DeviceState, change: ModeChange },
    /// Remove the credential-store entry, best effort.
    DeleteDevice,
}

/// A write of the vault that is under way.
pub struct PendingSave {
    /// The slots to write, where they differ from those of the open vault.
    pub slots: Option<Vec<Slot>>,
    pub after: AfterSave,
}

/// What a write of the vault was for.
pub enum AfterSave {
    Form,
    Delete,
    ScriptForm { server_id: Uuid, server_name: String },
    DeleteScript { server_id: Uuid },
    Forwards,
    Import { before: usize, imported: usize },
    AutoLock { previous: u32 },
    ConnectMode { previous: ConnectMode },
    Password,
    SecurityMode { wants_device: bool, previous_totp: Option<TotpConfig> },
    Sort,
    /// Nothing depends on how it went.
    BestEffort,
}

/// A write of the vault with the slots it has.
pub open spec fn save_for(after: AfterSave) -> Effect {
    Effect::Save(PendingSave { slots: None, after })
}

fn save(after: AfterSave) -> (r: Effect)
    ensures
        r == save_for(after),
{
    Effect::Save(PendingSave { slots: None, after })
}

/// Whether only the screen changed.
pub open spec fn only_screen(before: UnlockedState, after: UnlockedState) -> bool {
    after == (UnlockedState { screen: after.screen, ..before })
}

/// Whether only the config changed.
pub open spec fn only_config(before: UnlockedState, after: UnlockedState) -> bool {
    after == (UnlockedState { config: after.config, ..before })
}

/// Whether only the servers of the config changed.
pub open spec fn only_servers(before: Config, after: Config) -> bool {
    after == (Config { servers: after.servers, ..before })
}

/// Whether the step led to the server list and did nothing else.
pub open spec fn went_to_menu(before: UnlockedState, after: UnlockedState) -> bool {
    after == (UnlockedState { screen: fresh_menu(), ..before })
}

/// The name of a server, empty where there is none.
pub open spec fn name_of(servers: Seq<ServerEntry>, id: Uuid) -> Seq<char> {
    if has_server(servers, id) {
        servers[server_index(servers, id)].name@
    } else {
        Seq::empty()
    }
}

fn server_name(servers: &Vec<ServerEntry>, id: Uuid) -> (r: String)
    ensures
        r@ == name_of(servers@, id),
        has_server(servers@, id) ==> r == servers@[server_index(servers@, id)].name,
{
    match find_server(servers, id) {
        Some(i) => servers[i].name.clone(),
        None => String::new(),
    }
}

/// `prefix`, `text` and `suffix` one behind the other.
fn between(prefix: &str, text: &str, suffix: &str) -> (r: String)
    ensures
        r@ == prefix@ + text@ + suffix@,
{
    let mut s = owned(prefix);
    s.push_str(text);
    s.push_str(suffix);
    s
}

/// Whether `e` is the server that a form describes, entered for the first time.
pub open spec fn entered(data: ServerFormData, e: ServerEntry) -> bool {
    &&& e.name == data.name
    &&& e.host == data.host
    &&& e.port == data.port
    &&& e.username == data.username
    &&& e.tags == data.tags
    &&& e.auth == data.auth
    &&& e.jump_host == data.jump_host
    &&& e.host_key_fingerprint is None
    &&& e.system_info is None
    &&& e.scripts@ == Seq::<Script>::empty()
    &&& e.last_connected_unix is None
    &&& e.forwards@ == Seq::<ForwardRule>::empty()
    &&& e.last_remote_dir is None
    &&& e.last_local_dir is None
}

/// A server with what a form describes, and all that was learned about it.
pub open spec fn edited(data: ServerFormData, e: ServerEntry) -> ServerEntry {
    ServerEntry {
        name: data.name,
        host: data.host,
        port: data.port,
        username: data.username,
        tags: data.tags,
        auth: data.auth,
        jump_host: data.jump_host,
        ..e
    }
}

/// Whether a submitted server form was carried out.
pub open spec fn form_submitted(before: UnlockedState, data: ServerFormData, after: UnlockedState, effect: Effect) -> bool {
    let was = before.config.servers@;
    let is = after.config.servers@;
    match before.screen {
        Screen::ServerForm(form) => {
            &&& only_config(before, after)
            &&& only_servers(before.config, after.config)
            &&& effect == save_for(AfterSave::Form)
            &&& match form.mode {
                FormMode::Add => is.len() == was.len() + 1 && is.drop_last() == was && entered(data, is.last()),
                FormMode::Edit(id) => is == (if has_server(was, id) {
                    was.update(server_index(was, id), edited(data, was[server_index(was, id)]))
                } else {
                    was
                }),
            }
        },
        _ => after == before && effect == Effect::Nothing,
    }
}

/// Whether a confirmed deletion was carried out.
pub open spec fn deletion_confirmed(before: UnlockedState, after: UnlockedState, effect: Effect) -> bool {
    match before.screen {
        Screen::ConfirmDelete { target, .. } => {
            &&& only_config(before, after)
            &&& only_servers(before.config, after.config)
            &&& after.config.servers@ == without_server(before.config.servers@, target)
            &&& effect == save_for(AfterSave::Delete)
        },
        _ => after == before && effect == Effect::Nothing,
    }
}

/// Whether `e` is `was` with other scripts.
pub open spec fn only_scripts(was: ServerEntry, e: ServerEntry) -> bool {
    e == (ServerEntry { scripts: e.scripts, ..was })
}

/// Whether `e` is `was` with other forwards.
pub open spec fn only_forwards(was: ServerEntry, e: ServerEntry) -> bool {
    e == (ServerEntry { forwards: e.forwards, ..was })
}

/// Whether of all servers only the one with this identity changed.
pub open spec fn only_server(was: Seq<ServerEntry>, is: Seq<ServerEntry>, id: Uuid) -> bool {
    let i = server_index(was, id);
    has_server(was, id) && is == was.update(i, is[i])
}

/// Whether the scripts changed as a form describes.
pub open spec fn scripts_submitted(was: Seq<Script>, mode: FormMode, data: ScriptFormData, is: Seq<Script>) -> bool {
    match mode {
        FormMode::Add => {
            &&& is.len() == was.len() + 1
            &&& is.drop_last() == was
            &&& is.last().name == data.name
            &&& is.last().run_on_connect == data.run_on_connect
            &&& is.last().steps == data.steps
        },
        FormMode::Edit(id) => is == (if has_script(was, id) {
            was.update(
                script_index(was, id),
                Script {
                    name: data.name,
                    run_on_connect: data.run_on_connect,
                    steps: data.steps,
                    ..was[script_index(was, id)]
                },
            )
        } else {
            was
        }),
    }
}

/// Whether a submitted script form was carried out.
pub open spec fn script_form_submitted(
    before: UnlockedState,
    data: ScriptFormData,
    after: UnlockedState,
    effect: Effect,
) -> bool {
    let was = before.config.servers@;
    let is = after.config.servers@;
    match before.screen {
        Screen::ScriptForm(form) if has_server(was, form.server_id) => {
            let i = server_index(was, form.server_id);
            &&& only_config(before, after)
            &&& only_servers(before.config, after.config)
            &&& only_server(was, is, form.server_id)
            &&& only_scripts(was[i], is[i])
            &&& scripts_submitted(was[i].scripts@, form.mode, data, is[i].scripts@)
            &&& effect == save_for(AfterSave::ScriptForm { server_id: form.server_id, server_name: form.server_name })
        },
        _ => after == before && effect == Effect::Nothing,
    }
}

/// Whether a confirmed deletion of a script was carried out.
pub open spec fn script_deletion_confirmed(before: UnlockedState, after: UnlockedState, effect: Effect) -> bool {
    let was = before.config.servers@;
    let is = after.config.servers@;
    match before.screen {
        Screen::ConfirmDeleteScript { server_id, script_id, .. } => {
            let i = server_index(was, server_id);
            &&& only_config(before, after)
            &&& only_servers(before.config, after.config)
            &&& effect == save_for(AfterSave::DeleteScript { server_id })
            &&& if has_server(was, server_id) {
                &&& only_server(was, is, server_id)
                &&& only_scripts(was[i], is[i])
                &&& is[i].scripts@ == without_script(was[i].scripts@, script_id)
            } else {
                is == was
            }
        },
        _ => after == before && effect == Effect::Nothing,
    }
}

/// Whether the forwards of the server changed from `was` to `is`, and will be
/// saved.
pub open spec fn forwards_changed(
    before: UnlockedState,
    server_id: Uuid,
    after: UnlockedState,
    effect: Effect,
    is: Seq<ForwardRule>,
) -> bool {
    let servers = before.config.servers@;
    let i = server_index(servers, server_id);
    &&& only_servers(before.config, after.config)
    &&& only_server(servers, after.config.servers@, server_id)
    &&& only_forwards(servers[i], after.config.servers@[i])
    &&& after.config.servers@[i].forwards@ == is
    &&& effect == save_for(AfterSave::Forwards)
}

/// The forwards with the rule `id` turned over.
pub open spec fn toggled(was: Seq<ForwardRule>, id: Uuid) -> Seq<ForwardRule> {
    if has_forward(was, id) {
        let i = forward_index(was, id);
        was.update(i, ForwardRule { enabled: !was[i].enabled, ..was[i] })
    } else {
        was
    }
}

/// Whether a rule was turned over from the list.
pub open spec fn forward_toggled(before: UnlockedState, id: Uuid, after: UnlockedState, effect: Effect) -> bool {
    let was = before.config.servers@;
    match before.screen {
        Screen::Forwards(list) if has_server(was, list.server_id) => {
            &&& only_config(before, after)
            &&& forwards_changed(
                before,
                list.server_id,
                after,
                effect,
                toggled(was[server_index(was, list.server_id)].forwards@, id),
            )
        },
        _ => after == before && effect == Effect::Nothing,
    }
}

/// Whether the forwards changed as a form describes.
pub open spec fn forwards_submitted(was: Seq<ForwardRule>, data: ForwardFormData, is: Seq<ForwardRule>) -> bool {
    match data.id {
        Some(id) => is == (if has_forward(was, id) {
            let i = forward_index(was, id);
            was.update(i, ForwardRule { kind: data.kind, ..was[i] })
        } else {
            was
        }),
        None => is.len() == was.len() + 1 && is.drop_last() == was && is.last().enabled && is.last().kind == data.kind,
    }
}

/// The list of a server's forwards.
pub open spec fn is_forwards_list(screen: Screen, servers: Seq<ServerEntry>, id: Uuid) -> bool {
    screen matches Screen::Forwards(list) && list.server_id == id && list.server_name@ == name_of(servers, id)
}

/// Whether a submitted forward form was carried out.
pub open spec fn forward_form_submitted(
    before: UnlockedState,
    data: ForwardFormData,
    after: UnlockedState,
    effect: Effect,
) -> bool {
    let was = before.config.servers@;
    match before.screen {
        Screen::ForwardForm(form) => {
            &&& is_forwards_list(after.screen, was, form.server_id)
            &&& after == (UnlockedState { config: after.config, screen: after.screen, ..before })
            &&& if has_server(was, form.server_id) {
                let i = server_index(was, form.server_id);
                &&& forwards_changed(before, form.server_id, after, effect, after.config.servers@[i].forwards@)
                &&& forwards_submitted(was[i].forwards@, data, after.config.servers@[i].forwards@)
            } else {
                after.config == before.config && effect == Effect::Nothing
            }
        },
        _ => after == before && effect == Effect::Nothing,
    }
}

/// Whether a confirmed deletion of a forward was carried out.
pub open spec fn forward_deletion_confirmed(before: UnlockedState, after: UnlockedState, effect: Effect) -> bool {
    let was = before.config.servers@;
    match before.screen {
        Screen::ConfirmDeleteForward { server_id, forward_id, .. } => {
            &&& is_forwards_list(after.screen, was, server_id)
            &&& after == (UnlockedState { config: after.config, screen: after.screen, ..before })
            &&& if has_server(was, server_id) {
                forwards_changed(
                    before,
                    server_id,
                    after,
                    effect,
                    without_forward(was[server_index(was, server_id)].forwards@, forward_id),
                )
            } else {
                after.config == before.config && effect == Effect::Nothing
            }
        },
        _ => after == before && effect == Effect::Nothing,
    }
}

/// Whether the step led back to the list of forwards, from a form or a
/// question about one.
pub open spec fn back_at_forwards(before: UnlockedState, after: UnlockedState) -> bool {
    match before.screen {
        Screen::ForwardForm(form) => only_screen(before, after) && is_forwards_list(
            after.screen,
            before.config.servers@,
            form.server_id,
        ),
        Screen::ConfirmDeleteForward { server_id, .. } => only_screen(before, after) && is_forwards_list(
            after.screen,
            before.config.servers@,
            server_id,
        ),
        _ => after == before,
    }
}

/// Whether `e` is the server that an imported host becomes. A host that names
/// no key is logged in to through the agent: nothing is stored for it.
pub open spec fn imported(host: SshConfigHost, user: Option<Seq<char>>, e: ServerEntry) -> bool {
    &&& e.name == host.alias
    &&& e.host == host.hostname
    &&& e.port == (match host.port {
        Some(p) => p,
        None => DEFAULT_PORT,
    })
    &&& e.username@ == (match host.user {
        Some(u) => u@,
        None => fallback_user(user),
    })
    &&& e.auth == (match host.identity_file {
        Some(key_path) => AuthMethod::SshKey { key_path, passphrase: None },
        None => AuthMethod::Agent,
    })
    &&& e.tags@ == Seq::<String>::empty()
    &&& e.host_key_fingerprint is None
    &&& e.system_info is None
    &&& e.scripts@ == Seq::<Script>::empty()
    &&& e.last_connected_unix is None
    &&& e.jump_host is None
    &&& e.forwards@ == Seq::<ForwardRule>::empty()
    &&& e.last_remote_dir is None
    &&& e.last_local_dir is None
}

/// Whether picked hosts became servers, in order, behind those that were there.
pub open spec fn hosts_imported(
    before: UnlockedState,
    hosts: Seq<SshConfigHost>,
    user: Option<Seq<char>>,
    after: UnlockedState,
    effect: Effect,
) -> bool {
    let was = before.config.servers@;
    let is = after.config.servers@;
    &&& only_config(before, after)
    &&& only_servers(before.config, after.config)
    &&& is.len() == was.len() + hosts.len()
    &&& is.take(was.len() as int) == was
    &&& forall|i: int| 0 <= i < hosts.len() ==> imported(hosts[i], user, #[trigger] is[was.len() + i])
    &&& effect == save_for(AfterSave::Import { before: was.len() as usize, imported: hosts.len() as usize })
}

/// Whether the panes' directories were remembered on the way out of the file
/// browser.
pub open spec fn left_files(before: UnlockedState, after: UnlockedState, effect: Effect) -> bool {
    let was = before.config.servers@;
    let is = after.config.servers@;
    &&& after == (UnlockedState { config: after.config, screen: fresh_menu(), ..before })
    &&& match before.screen {
        Screen::FileBrowser(b) if has_server(was, b.server_id) => {
            let i = server_index(was, b.server_id);
            &&& only_servers(before.config, after.config)
            &&& is == was.update(
                i,
                ServerEntry {
                    last_local_dir: Some(b.local_cwd),
                    last_remote_dir: Some(b.remote_cwd),
                    ..was[i]
                },
            )
            &&& effect == save_for(AfterSave::BestEffort)
        },
        _ => after.config == before.config && effect == Effect::Nothing,
    }
}

/// Whether a question about deleting a server is up, or the server is not there.
pub open spec fn asked_to_delete(before: UnlockedState, id: Uuid, strings: Strings, after: UnlockedState) -> bool {
    if has_server(before.config.servers@, id) {
        only_screen(before, after) && (after.screen matches Screen::ConfirmDelete { target, state } && target == id
            && state.message@ == strings.delete_confirm_prefix@ + name_of(before.config.servers@, id)
            + strings.delete_confirm_suffix@)
    } else {
        after == before
    }
}

/// The script `id` of the server whose scripts are listed.
pub open spec fn listed_script(u: UnlockedState, id: Uuid) -> Option<Script> {
    match u.screen {
        Screen::Scripts(list) => if has_server(u.config.servers@, list.server_id) {
            let scripts = u.config.servers@[server_index(u.config.servers@, list.server_id)].scripts@;
            if has_script(scripts, id) {
                Some(scripts[script_index(scripts, id)])
            } else {
                None
            }
        } else {
            None
        },
        _ => None,
    }
}

/// The rule `id` of the server whose forwards are listed.
pub open spec fn listed_forward(u: UnlockedState, id: Uuid) -> Option<ForwardRule> {
    match u.screen {
        Screen::Forwards(list) => if has_server(u.config.servers@, list.server_id) {
            let forwards = u.config.servers@[server_index(u.config.servers@, list.server_id)].forwards@;
            if has_forward(forwards, id) {
                Some(forwards[forward_index(forwards, id)])
            } else {
                None
            }
        } else {
            None
        },
        _ => None,
    }
}

/// Whether the screen is the list of a server's scripts.
pub open spec fn is_scripts_list(screen: Screen, id: Uuid, name: Seq<char>) -> bool {
    screen matches Screen::Scripts(list) && list.server_id == id && list.server_name@ == name
}

/// Whether a step that only moves between screens was carried out.
pub open spec fn navigated(before: UnlockedState, next: NextStep, strings: Strings, after: UnlockedState) -> bool {
    let servers = before.config.servers@;
    match next {
        NextStep::GoAdd => after == (UnlockedState {
            screen: Screen::ServerForm(ServerFormState { mode: FormMode::Add, error: None }),
            ..before
        }),
        NextStep::GoEdit(id) => after == (if has_server(servers, id) {
            UnlockedState {
                screen: Screen::ServerForm(ServerFormState { mode: FormMode::Edit(id), error: None }),
                ..before
            }
        } else {
            before
        }),
        NextStep::GoDelete(id) => asked_to_delete(before, id, strings, after),
        NextStep::FormCancel => went_to_menu(before, after),
        NextStep::ConfirmNo => went_to_menu(before, after),
        NextStep::SettingsClose => went_to_menu(before, after),
        NextStep::ScriptsBack => went_to_menu(before, after),
        NextStep::ForwardsBack => went_to_menu(before, after),
        NextStep::SshImportCancel => went_to_menu(before, after),
        NextStep::GoScripts(id) => if has_server(servers, id) {
            only_screen(before, after) && is_scripts_list(after.screen, id, name_of(servers, id))
        } else {
            after == before
        },
        NextStep::GoScriptAdd => match before.screen {
            Screen::Scripts(list) => after == (UnlockedState {
                screen: Screen::ScriptForm(
                    ScriptFormState {
                        server_id: list.server_id,
                        server_name: list.server_name,
                        mode: FormMode::Add,
                        error: None,
                    },
                ),
                ..before
            }),
            _ => after == before,
        },
        NextStep::GoScriptEdit(id) => match (before.screen, listed_script(before, id)) {
            (Screen::Scripts(list), Some(_)) => after == (UnlockedState {
                screen: Screen::ScriptForm(
                    ScriptFormState {
                        server_id: list.server_id,
                        server_name: list.server_name,
                        mode: FormMode::Edit(id),
                        error: None,
                    },
                ),
                ..before
            }),
            _ => after == before,
        },
        NextStep::GoScriptDeleteConfirm(id) => match (before.screen, listed_script(before, id)) {
            (Screen::Scripts(list), Some(script)) => only_screen(before, after) && (after.screen
                matches Screen::ConfirmDeleteScript { server_id, script_id, state } && server_id == list.server_id
                && script_id == id && state.message@ == strings.delete_script_confirm_prefix@ + script.name@
                + strings.delete_script_confirm_suffix@),
            _ => after == before,
        },
        NextStep::ScriptFormCancel => match before.screen {
            Screen::ScriptForm(form) => only_screen(before, after) && is_scripts_list(
                after.screen,
                form.server_id,
                form.server_name@,
            ),
            _ => after == before,
        },
        NextStep::ConfirmDeleteScriptNo => match before.screen {
            Screen::ConfirmDeleteScript { server_id, .. } if has_server(servers, server_id) => only_screen(
                before,
                after,
            ) && is_scripts_list(after.screen, server_id, name_of(servers, server_id)),
            _ => after == before,
        },
        NextStep::GoScriptTargets(id) => match (before.screen, listed_script(before, id)) {
            (Screen::Scripts(list), Some(script)) => after == (UnlockedState {
                screen: Screen::ScriptTargets(
                    ScriptTargetsState {
                        origin_server_id: list.server_id,
                        script_id: id,
                        script_name: script.name,
                    },
                ),
                ..before
            }),
            _ => after == before,
        },
        NextStep::ScriptTargetsCancel => match before.screen {
            Screen::ScriptTargets(s) => only_screen(before, after) && is_scripts_list(
                after.screen,
                s.origin_server_id,
                name_of(servers, s.origin_server_id),
            ),
            _ => after == before,
        },
        NextStep::ScriptRunClose => match before.screen {
            Screen::ScriptRun(s) => only_screen(before, after) && is_scripts_list(
                after.screen,
                s.server_id,
                s.server_name@,
            ),
            _ => after == before,
        },
        NextStep::GoForwards(id) => if has_server(servers, id) {
            only_screen(before, after) && is_forwards_list(after.screen, servers, id)
        } else {
            after == before
        },
        NextStep::GoForwardAdd => match before.screen {
            Screen::Forwards(list) => after == (UnlockedState {
                screen: Screen::ForwardForm(ForwardFormState { server_id: list.server_id, id: None }),
                ..before
            }),
            _ => after == before,
        },
        NextStep::GoForwardEdit(id) => match (before.screen, listed_forward(before, id)) {
            (Screen::Forwards(list), Some(_)) => after == (UnlockedState {
                screen: Screen::ForwardForm(ForwardFormState { server_id: list.server_id, id: Some(id) }),
                ..before
            }),
            _ => after == before,
        },
        NextStep::GoForwardDeleteConfirm(id) => match (before.screen, listed_forward(before, id)) {
            (Screen::Forwards(list), Some(rule)) => only_screen(before, after) && (after.screen
                matches Screen::ConfirmDeleteForward { server_id, forward_id, state } && server_id == list.server_id
                && forward_id == id && state.message@ == strings.delete_forward_confirm_prefix@ + rule.line()
                + strings.delete_forward_confirm_suffix@),
            _ => after == before,
        },
        NextStep::ForwardFormCancel => back_at_forwards(before, after),
        NextStep::ConfirmDeleteForwardNo => back_at_forwards(before, after),
        NextStep::Help => after == (UnlockedState { help_open: true, ..before }),
        _ => after == before,
    }
}

/// Whether a step only moves between screens.
pub open spec fn is_navigation(next: NextStep) -> bool {
    ||| next is GoAdd
    ||| next is GoEdit
    ||| next is GoDelete
    ||| next is FormCancel
    ||| next is ConfirmNo
    ||| next is SettingsClose
    ||| next is ScriptsBack
    ||| next is ForwardsBack
    ||| next is SshImportCancel
    ||| next is GoScripts
    ||| next is GoScriptAdd
    ||| next is GoScriptEdit
    ||| next is GoScriptDeleteConfirm
    ||| next is ScriptFormCancel
    ||| next is ConfirmDeleteScriptNo
    ||| next is GoScriptTargets
    ||| next is ScriptTargetsCancel
    ||| next is ScriptRunClose
    ||| next is GoForwards
    ||| next is GoForwardAdd
    ||| next is GoForwardEdit
    ||| next is GoForwardDeleteConfirm
    ||| next is ForwardFormCancel
    ||| next is ConfirmDeleteForwardNo
    ||| next is Help
}

impl UnlockedState {
    fn go_delete(&mut self, id: Uuid, strings: &Strings)
        ensures
            asked_to_delete(*old(self), id, *strings, *final(self)),
    {
        if let Some(i) = find_server(&self.config.servers, id) {
            let message = between(
                strings.delete_confirm_prefix,
                self.config.servers[i].name.as_str(),
                strings.delete_confirm_suffix,
            );
            self.screen = Screen::ConfirmDelete { target: id, state: ConfirmState { message } };
        }
    }

    /// The script `id` of the server whose scripts are listed: the server, and
    /// the names of both.
    fn find_listed_script(&self, id: Uuid) -> (r: Option<(Uuid, String, String)>)
        ensures
            match r {
                Some((server_id, list_name, script_name)) => {
                    &&& self.screen matches Screen::Scripts(list) && list.server_id == server_id && list.server_name
                        == list_name
                    &&& listed_script(*self, id) matches Some(script) && script.name == script_name
                },
                None => !(self.screen is Scripts && listed_script(*self, id) is Some),
            },
    {
        match &self.screen {
            Screen::Scripts(list) => {
                match find_server(&self.config.servers, list.server_id) {
                    Some(i) => {
                        let entry = &self.config.servers[i];
                        match find_script(&entry.scripts, id) {
                            Some(j) => Some(
                                (list.server_id, list.server_name.clone(), entry.scripts[j].name.clone()),
                            ),
                            None => None,
                        }
                    },
                    None => None,
                }
            },
            _ => None,
        }
    }

    /// The rule `id` of the server whose forwards are listed: the server, and
    /// the rule's line.
    fn find_listed_forward(&self, id: Uuid) -> (r: Option<(Uuid, String)>)
        ensures
            match r {
                Some((server_id, line)) => {
                    &&& self.screen matches Screen::Forwards(list) && list.server_id == server_id
                    &&& listed_forward(*self, id) matches Some(rule) && line@ == rule.line()
                },
                None => !(self.screen is Forwards && listed_forward(*self, id) is Some),
            },
    {
        match &self.screen {
            Screen::Forwards(list) => {
                match find_server(&self.config.servers, list.server_id) {
                    Some(i) => {
                        let entry = &self.config.servers[i];
                        match find_forward(&entry.forwards, id) {
                            Some(j) => Some((list.server_id, entry.forwards[j].label())),
                            None => None,
                        }
                    },
                    None => None,
                }
            },
            _ => None,
        }
    }

    /// Shows the list of a server's scripts.
    fn show_scripts(&mut self, server_id: Uuid, server_name: String)
        ensures
            only_screen(*old(self), *final(self)),
            is_scripts_list(final(self).screen, server_id, server_name@),
    {
        self.screen = Screen::Scripts(ScriptsListState { server_id, server_name });
    }

    /// Back to the list of forwards, whichever screen asked.
    fn back_to_forwards(&mut self)
        ensures
            back_at_forwards(*old(self), *final(self)),
    {
        let server_id = match &self.screen {
            Screen::ForwardForm(form) => Some(form.server_id),
            Screen::ConfirmDeleteForward { server_id, .. } => Some(*server_id),
            _ => None,
        };
        if let Some(server_id) = server_id {
            let server_name = server_name(&self.config.servers, server_id);
            self.screen = Screen::Forwards(ForwardsListState { server_id, server_name });
        }
    }

    /// Moves between screens.
    fn navigate(&mut self, next: NextStep, strings: &Strings)
        requires
            is_navigation(next),
        ensures
            navigated(*old(self), next, *strings, *final(self)),
    {
        match next {
            NextStep::Help => {
                self.help_open = true;
            },
            NextStep::GoAdd => {
                self.screen = Screen::ServerForm(ServerFormState { mode: FormMode::Add, error: None });
            },
            NextStep::GoEdit(id) => {
                if find_server(&self.config.servers, id).is_some() {
                    self.screen = Screen::ServerForm(ServerFormState { mode: FormMode::Edit(id), error: None });
                }
            },
            NextStep::GoDelete(id) => self.go_delete(id, strings),
            NextStep::GoScripts(id) => {
                if find_server(&self.config.servers, id).is_some() {
                    let name = server_name(&self.config.servers, id);
                    self.show_scripts(id, name);
                }
            },
            NextStep::GoScriptAdd => {
                let at = match &self.screen {
                    Screen::Scripts(list) => Some((list.server_id, list.server_name.clone())),
                    _ => None,
                };
                if let Some((server_id, server_name)) = at {
                    self.screen = Screen::ScriptForm(
                        ScriptFormState { server_id, server_name, mode: FormMode::Add, error: None },
                    );
                }
            },
            NextStep::GoScriptEdit(id) => {
                if let Some((server_id, server_name, _)) = self.find_listed_script(id) {
                    self.screen = Screen::ScriptForm(
                        ScriptFormState { server_id, server_name, mode: FormMode::Edit(id), error: None },
                    );
                }
            },
            NextStep::GoScriptDeleteConfirm(id) => {
                if let Some((server_id, _, script_name)) = self.find_listed_script(id) {
                    let message = between(
                        strings.delete_script_confirm_prefix,
                        script_name.as_str(),
                        strings.delete_script_confirm_suffix,
                    );
                    self.screen = Screen::ConfirmDeleteScript {
                        server_id,
                        script_id: id,
                        state: ConfirmState { message },
                    };
                }
            },
            NextStep::ScriptFormCancel => {
                let at = match &self.screen {
                    Screen::ScriptForm(form) => Some((form.server_id, form.server_name.clone())),
                    _ => None,
                };
                if let Some((server_id, server_name)) = at {
                    self.show_scripts(server_id, server_name);
                }
            },
            NextStep::ConfirmDeleteScriptNo => {
                let at = match &self.screen {
                    Screen::ConfirmDeleteScript { server_id, .. } => Some(*server_id),
                    _ => None,
                };
                if let Some(server_id) = at {
                    if find_server(&self.config.servers, server_id).is_some() {
                        let name = server_name(&self.config.servers, server_id);
                        self.show_scripts(server_id, name);
                    }
                }
            },
            NextStep::GoScriptTargets(id) => {
                if let Some((server_id, _, script_name)) = self.find_listed_script(id) {
                    self.screen = Screen::ScriptTargets(
                        ScriptTargetsState { origin_server_id: server_id, script_id: id, script_name },
                    );
                }
            },
            NextStep::ScriptTargetsCancel => {
                let at = match &self.screen {
                    Screen::ScriptTargets(s) => Some(s.origin_server_id),
                    _ => None,
                };
                if let Some(server_id) = at {
                    let name = server_name(&self.config.servers, server_id);
                    self.show_scripts(server_id, name);
                }
            },
            NextStep::ScriptRunClose => {
                let at = match &self.screen {
                    Screen::ScriptRun(s) => Some((s.server_id, s.server_name.clone())),
                    _ => None,
                };
                if let Some((server_id, server_name)) = at {
                    self.show_scripts(server_id, server_name);
                }
            },
            NextStep::GoForwards(id) => {
                if find_server(&self.config.servers, id).is_some() {
                    let server_name = server_name(&self.config.servers, id);
                    self.screen = Screen::Forwards(ForwardsListState { server_id: id, server_name });
                }
            },
            NextStep::GoForwardAdd => {
                let at = match &self.screen {
                    Screen::Forwards(list) => Some(list.server_id),
                    _ => None,
                };
                if let Some(server_id) = at {
                    self.screen = Screen::ForwardForm(ForwardFormState { server_id, id: None });
                }
            },
            NextStep::GoForwardEdit(id) => {
                if let Some((server_id, _)) = self.find_listed_forward(id) {
                    self.screen = Screen::ForwardForm(ForwardFormState { server_id, id: Some(id) });
                }
            },
            NextStep::GoForwardDeleteConfirm(id) => {
                if let Some((server_id, line)) = self.find_listed_forward(id) {
                    let message = between(
                        strings.delete_forward_confirm_prefix,
                        line.as_str(),
                        strings.delete_forward_confirm_suffix,
                    );
                    self.screen = Screen::ConfirmDeleteForward {
                        server_id,
                        forward_id: id,
                        state: ConfirmState { message },
                    };
                }
            },
            NextStep::ForwardFormCancel => self.back_to_forwards(),
            NextStep::ConfirmDeleteForwardNo => self.back_to_forwards(),
            _ => {
                self.screen = menu();
            },
        }
    }
}

impl UnlockedState {
    fn submit_form(&mut self, data: ServerFormData) -> (r: Effect)
        ensures
            form_submitted(*old(self), data, *final(self), r),
    {
        let mode = match &self.screen {
            Screen::ServerForm(form) => form.mode,
            _ => return Effect::Nothing,
        };
        match mode {
            FormMode::Add => {
                let ghost was = self.config.servers@;
                let mut entry = ServerEntry::new(data.name, data.host, data.port, data.username, data.auth);
                entry.tags = data.tags;
                entry.jump_host = data.jump_host;
                self.config.servers.push(entry);
                assert(self.config.servers@.drop_last() =~= was);
            },
            FormMode::Edit(id) => {
                if let Some(i) = find_server(&self.config.servers, id) {
                    let entry = &mut self.config.servers[i];
                    entry.name = data.name;
                    entry.host = data.host;
                    entry.port = data.port;
                    entry.username = data.username;
                    entry.tags = data.tags;
                    entry.auth = data.auth;
                    entry.jump_host = data.jump_host;
                }
            },
        }
        save(AfterSave::Form)
    }

    fn confirm_delete(&mut self) -> (r: Effect)
        ensures
            deletion_confirmed(*old(self), *final(self), r),
    {
        let target = match &self.screen {
            Screen::ConfirmDelete { target, .. } => *target,
            _ => return Effect::Nothing,
        };
        delete_server(&mut self.config.servers, target);
        save(AfterSave::Delete)
    }

    fn submit_script_form(&mut self, data: ScriptFormData) -> (r: Effect)
        ensures
            script_form_submitted(*old(self), data, *final(self), r),
    {
        let (server_id, server_name, mode) = match &self.screen {
            Screen::ScriptForm(form) => (form.server_id, form.server_name.clone(), form.mode),
            _ => return Effect::Nothing,
        };
        let i: usize = match find_server(&self.config.servers, server_id) {
            Some(i) => i,
            None => return Effect::Nothing,
        };
        let ghost servers = self.config.servers@;
        let ghost was = self.config.servers@[i as int].scripts@;
        match mode {
            FormMode::Add => {
                let script = Script {
                    id: Uuid::new_v4(),
                    name: data.name,
                    run_on_connect: data.run_on_connect,
                    steps: data.steps,
                };
                self.config.servers[i].scripts.push(script);
                assert(self.config.servers@[i as int].scripts@.drop_last() =~= was);
            },
            FormMode::Edit(script_id) => {
                if let Some(j) = find_script(&self.config.servers[i].scripts, script_id) {
                    let script = &mut self.config.servers[i].scripts[j];
                    script.name = data.name;
                    script.run_on_connect = data.run_on_connect;
                    script.steps = data.steps;
                }
            },
        }
        assert(self.config.servers@ =~= servers.update(i as int, self.config.servers@[i as int]));
        save(AfterSave::ScriptForm { server_id, server_name })
    }

    fn confirm_delete_script(&mut self) -> (r: Effect)
        ensures
            script_deletion_confirmed(*old(self), *final(self), r),
    {
        let (server_id, script_id) = match &self.screen {
            Screen::ConfirmDeleteScript { server_id, script_id, .. } => (*server_id, *script_id),
            _ => return Effect::Nothing,
        };
        if let Some(i) = find_server(&self.config.servers, server_id) {
            remove_script(&mut self.config.servers[i].scripts, script_id);
        }
        save(AfterSave::DeleteScript { server_id })
    }

    /// Turns one rule on or off. A rule kept but turned off is the point of the
    /// flag.
    fn toggle_forward(&mut self, forward_id: Uuid) -> (r: Effect)
        ensures
            forward_toggled(*old(self), forward_id, *final(self), r),
    {
        let server_id = match &self.screen {
            Screen::Forwards(list) => list.server_id,
            _ => return Effect::Nothing,
        };
        let i: usize = match find_server(&self.config.servers, server_id) {
            Some(i) => i,
            None => return Effect::Nothing,
        };
        let ghost servers = self.config.servers@;
        if let Some(j) = find_forward(&self.config.servers[i].forwards, forward_id) {
            let rule = &mut self.config.servers[i].forwards[j];
            rule.enabled = !rule.enabled;
        }
        assert(self.config.servers@ =~= servers.update(i as int, self.config.servers@[i as int]));
        save(AfterSave::Forwards)
    }

    fn submit_forward_form(&mut self, data: ForwardFormData) -> (r: Effect)
        ensures
            forward_form_submitted(*old(self), data, *final(self), r),
    {
        let server_id = match &self.screen {
            Screen::ForwardForm(form) => form.server_id,
            _ => return Effect::Nothing,
        };
        let name = server_name(&self.config.servers, server_id);
        let mut effect = Effect::Nothing;
        if let Some(i) = find_server(&self.config.servers, server_id) {
            let ghost servers = self.config.servers@;
            let ghost was = self.config.servers@[i as int].forwards@;
            match data.id {
                Some(id) => {
                    if let Some(j) = find_forward(&self.config.servers[i].forwards, id) {
                        self.config.servers[i].forwards[j].kind = data.kind;
                    }
                },
                None => {
                    self.config.servers[i].forwards.push(ForwardRule::new(data.kind));
                    assert(self.config.servers@[i as int].forwards@.drop_last() =~= was);
                },
            }
            assert(self.config.servers@ =~= servers.update(i as int, self.config.servers@[i as int]));
            effect = save(AfterSave::Forwards);
        }
        self.screen = Screen::Forwards(ForwardsListState { server_id, server_name: name });
        effect
    }

    fn confirm_delete_forward(&mut self) -> (r: Effect)
        ensures
            forward_deletion_confirmed(*old(self), *final(self), r),
    {
        let (server_id, forward_id) = match &self.screen {
            Screen::ConfirmDeleteForward { server_id, forward_id, .. } => (*server_id, *forward_id),
            _ => return Effect::Nothing,
        };
        let name = server_name(&self.config.servers, server_id);
        let mut effect = Effect::Nothing;
        if let Some(i) = find_server(&self.config.servers, server_id) {
            remove_forward(&mut self.config.servers[i].forwards, forward_id);
            effect = save(AfterSave::Forwards);
        }
        self.screen = Screen::Forwards(ForwardsListState { server_id, server_name: name });
        effect
    }

    /// Turns picked hosts into servers.
    fn import_ssh_hosts(&mut self, hosts: Vec<SshConfigHost>, local_user: Option<&str>) -> (r: Effect)
        ensures
            hosts_imported(*old(self), hosts@, text_of_ref(local_user), *final(self), r),
    {
        let before: usize = self.config.servers.len();
        let count: usize = hosts.len();
        let ghost was = self.config.servers@;
        let ghost all = hosts@;
        assert(was.take(was.len() as int) =~= was);
        for host in it: hosts.into_iter()
            invariant
                it.seq() == all,
                was == old(self).config.servers@,
                only_config(*old(self), *self),
                only_servers(old(self).config, self.config),
                self.config.servers@.len() == was.len() + it.index(),
                self.config.servers@.take(was.len() as int) == was,
                forall|i: int|
                    0 <= i < it.index() ==> imported(
                        all[i],
                        text_of_ref(local_user),
                        #[trigger] self.config.servers@[was.len() + i],
                    ),
        {
            let ghost servers = self.config.servers@;
            let username = host.username(local_user);
            let port: u16 = match host.port {
                Some(p) => p,
                None => DEFAULT_PORT,
            };
            let auth = match host.identity_file {
                Some(key_path) => AuthMethod::SshKey { key_path, passphrase: None },
                None => AuthMethod::Agent,
            };
            self.config.servers.push(ServerEntry::new(host.alias, host.hostname, port, username, auth));
            assert(self.config.servers@.take(was.len() as int) =~= was);
        }
        save(AfterSave::Import { before, imported: count })
    }

    /// Remembers where both panes were pointed, and leaves for the server list.
    fn leave_files(&mut self) -> (r: Effect)
        ensures
            left_files(*old(self), *final(self), r),
    {
        let mut effect = Effect::Nothing;
        let dirs = match &self.screen {
            Screen::FileBrowser(b) => Some((b.server_id, b.local_cwd.clone(), b.remote_cwd.clone())),
            _ => None,
        };
        if let Some((server_id, local, remote)) = dirs {
            if let Some(i) = find_server(&self.config.servers, server_id) {
                let entry = &mut self.config.servers[i];
                entry.last_local_dir = Some(local);
                entry.last_remote_dir = Some(remote);
                effect = save(AfterSave::BestEffort);
            }
        }
        self.screen = menu();
        effect
    }
}

/// Whether a step on an open vault was carried out.
pub open spec fn stepped(
    before: UnlockedState,
    next: NextStep,
    strings: Strings,
    user: Option<Seq<char>>,
    after: UnlockedState,
    r: Result<Effect, AppError>,
) -> bool {
    match next {
        NextStep::FormSubmit(data) => r matches Ok(effect) && form_submitted(before, data, after, effect),
        NextStep::ConfirmYes => r matches Ok(effect) && deletion_confirmed(before, after, effect),
        NextStep::ScriptFormSave(data) => r matches Ok(effect) && script_form_submitted(before, data, after, effect),
        NextStep::ConfirmDeleteScriptYes => r matches Ok(effect) && script_deletion_confirmed(before, after, effect),
        NextStep::ForwardToggle(id) => r matches Ok(effect) && forward_toggled(before, id, after, effect),
        NextStep::ForwardFormSave(data) => r matches Ok(effect) && forward_form_submitted(before, data, after, effect),
        NextStep::ConfirmDeleteForwardYes => r matches Ok(effect) && forward_deletion_confirmed(before, after, effect),
        NextStep::SshImportConfirm(hosts) => r matches Ok(effect) && hosts_imported(before, hosts@, user, after, effect),
        NextStep::FilesBack => r matches Ok(effect) && left_files(before, after, effect),
        NextStep::SettingsAutoLockSelected(minutes) => {
            &&& after == (UnlockedState {
                config: Config { auto_lock_minutes: minutes, ..before.config },
                ..before
            })
            &&& r == Ok::<Effect, AppError>(
                save_for(AfterSave::AutoLock { previous: before.config.auto_lock_minutes }),
            )
        },
        NextStep::SettingsConnectModeSelected(mode) => {
            &&& after == (UnlockedState { config: Config { connect_mode: mode, ..before.config }, ..before })
            &&& r == Ok::<Effect, AppError>(
                save_for(AfterSave::ConnectMode { previous: before.config.connect_mode }),
            )
        },
        NextStep::CycleSort => {
            &&& after == (UnlockedState {
                config: Config { server_sort: before.config.server_sort.after(), ..before.config },
                ..before
            })
            &&& r == Ok::<Effect, AppError>(save_for(AfterSave::Sort))
        },
        NextStep::SettingsChangePassword { current, new } => password_change_begun(
            before,
            current@,
            new@,
            strings,
            after,
            r,
        ),
        NextStep::ChangeSecurityMode { mode, password, totp_secret } => r matches Ok(effect) && mode_change_begun(
            before,
            mode,
            password,
            totp_secret,
            strings,
            after,
            effect,
        ),
        _ => {
            &&& r == Ok::<Effect, AppError>(Effect::Nothing)
            &&& if is_navigation(next) {
                navigated(before, next, strings, after)
            } else {
                after == before
            }
        },
    }
}

impl UnlockedState {
    /// Carries out a step on an open vault.
    pub fn step(&mut self, next: NextStep, strings: &Strings, local_user: Option<&str>) -> (r: Result<Effect, AppError>)
        requires
            old(self).wf(),
        ensures
            final(self).wf(),
            stepped(*old(self), next, *strings, text_of_ref(local_user), *final(self), r),
    {
        match next {
            NextStep::FormSubmit(data) => Ok(self.submit_form(data)),
            NextStep::ConfirmYes => Ok(self.confirm_delete()),
            NextStep::ScriptFormSave(data) => Ok(self.submit_script_form(data)),
            NextStep::ConfirmDeleteScriptYes => Ok(self.confirm_delete_script()),
            NextStep::ForwardToggle(id) => Ok(self.toggle_forward(id)),
            NextStep::ForwardFormSave(data) => Ok(self.submit_forward_form(data)),
            NextStep::ConfirmDeleteForwardYes => Ok(self.confirm_delete_forward()),
            NextStep::SshImportConfirm(hosts) => Ok(self.import_ssh_hosts(hosts, local_user)),
            NextStep::FilesBack => Ok(self.leave_files()),
            NextStep::SettingsAutoLockSelected(minutes) => {
                let previous: u32 = self.config.auto_lock_minutes;
                self.config.auto_lock_minutes = minutes;
                Ok(save(AfterSave::AutoLock { previous }))
            },
            NextStep::SettingsConnectModeSelected(mode) => {
                let previous = self.config.connect_mode;
                self.config.connect_mode = mode;
                Ok(save(AfterSave::ConnectMode { previous }))
            },
            NextStep::CycleSort => {
                self.config.server_sort = self.config.server_sort.next();
                Ok(save(AfterSave::Sort))
            },
            NextStep::SettingsChangePassword { current, new } => self.change_master_password(&current, &new, strings),
            NextStep::ChangeSecurityMode { mode, password, totp_secret } => Ok(
                self.change_security_mode(mode, password, totp_secret, strings),
            ),
            NextStep::Nothing | NextStep::Connect(_) | NextStep::GoSettings | NextStep::Lock | NextStep::Quit
            | NextStep::SettingsLangSelected(_) | NextStep::SettingsThemeSelected(_) | NextStep::TotpPromptCancel
            | NextStep::TotpPromptSubmit(_) | NextStep::GoSshImport | NextStep::RunScript { .. } | NextStep::ScriptRunSave(_) | NextStep::GoFiles(_)
            | NextStep::FilesTransfer | NextStep::FilesOpenRemote(_) | NextStep::FilesRefresh => Ok(Effect::Nothing),
            other => {
                self.navigate(other, strings);
                Ok(Effect::Nothing)
            },
        }
    }
}

/// Whether a step suspends the terminal, redraws from inside a wait or holds a
/// live connection.
pub open spec fn needs_terminal(next: NextStep) -> bool {
    ||| next is Connect
    ||| next is RunScript
    ||| next is GoFiles
    ||| next is FilesOpenRemote
    ||| next is FilesRefresh
    ||| next is FilesTransfer
}

/// Whether a step was carried out on the application.
pub open spec fn app_stepped(
    before: App,
    next: NextStep,
    strings: Strings,
    user: Option<Seq<char>>,
    after: App,
    r: Result<Effect, AppError>,
) -> bool {
    let done = Ok::<Effect, AppError>(Effect::Nothing);
    match next {
        NextStep::Quit => after == (App { remote: None, should_quit: true, ..before }) && r == done,
        NextStep::Lock => after == (App { remote: None, ..before }) && r == Ok::<Effect, AppError>(Effect::Relock),
        NextStep::TotpPromptCancel => after == before && r == Ok::<Effect, AppError>(Effect::Relock),
        NextStep::TotpPromptSubmit(code) => code_submitted(before, code@, strings, after) && r == done,
        NextStep::SettingsLangSelected(lang) => after == (App { lang, ..before }) && r == Ok::<Effect, AppError>(
            Effect::SavePrefs,
        ),
        NextStep::SettingsThemeSelected(theme) => after == (App { theme, ..before }) && r == Ok::<Effect, AppError>(
            Effect::SavePrefs,
        ),
        NextStep::GoSettings => after == before && r == (if before.state is Unlocked {
            Ok::<Effect, AppError>(Effect::OpenSettings)
        } else {
            done
        }),
        NextStep::GoSshImport => after == before && r == (if before.state is Unlocked {
            Ok::<Effect, AppError>(Effect::ReadSshConfig)
        } else {
            done
        }),
        NextStep::ScriptRunSave(path) => after == before && r == (if before.state matches AppState::Unlocked(u)
            && u.screen is ScriptRun {
            Ok::<Effect, AppError>(Effect::WriteLog { path })
        } else {
            done
        }),
        _ => if needs_terminal(next) {
            after == before && r == Ok::<Effect, AppError>(Effect::Flow(next))
        } else {
            let base = if next is FilesBack {
                App { remote: None, ..before }
            } else {
                before
            };
            &&& after == (App { state: after.state, ..base })
            &&& match before.state {
                AppState::Unlocked(u) => after.state matches AppState::Unlocked(v) && stepped(
                    u,
                    next,
                    strings,
                    user,
                    v,
                    r,
                ),
                _ => after.state == before.state && r == done,
            }
        },
    }
}

impl App {
    /// Whether the cost of every password slot of an open vault can be counted.
    pub open spec fn wf(self) -> bool {
        self.state matches AppState::Unlocked(u) ==> u.wf()
    }

    /// Carries out every step that needs no terminal, and hands back the ones
    /// that do. What has to be done outside comes back as an effect.
    pub fn apply_local_step(&mut self, next: NextStep, strings: &Strings, local_user: Option<&str>) -> (r: Result<
        Effect,
        AppError,
    >)
        requires
            old(self).wf(),
        ensures
            final(self).wf(),
            app_stepped(*old(self), next, *strings, text_of_ref(local_user), *final(self), r),
    {
        match next {
            NextStep::Quit => {
                self.remote = None;
                self.should_quit = true;
                Ok(Effect::Nothing)
            },
            NextStep::Lock => {
                self.remote = None;
                Ok(Effect::Relock)
            },
            NextStep::TotpPromptCancel => Ok(Effect::Relock),
            NextStep::TotpPromptSubmit(code) => {
                self.verify_totp_prompt(code.as_str(), strings);
                Ok(Effect::Nothing)
            },
            NextStep::SettingsLangSelected(lang) => {
                self.lang = lang;
                Ok(Effect::SavePrefs)
            },
            NextStep::SettingsThemeSelected(theme) => {
                self.theme = theme;
                Ok(Effect::SavePrefs)
            },
            NextStep::GoSettings => match &self.state {
                AppState::Unlocked(_) => Ok(Effect::OpenSettings),
                _ => Ok(Effect::Nothing),
            },
            NextStep::GoSshImport => match &self.state {
                AppState::Unlocked(_) => Ok(Effect::ReadSshConfig),
                _ => Ok(Effect::Nothing),
            },
            NextStep::ScriptRunSave(path) => match &self.state {
                AppState::Unlocked(u) => match &u.screen {
                    Screen::ScriptRun(_) => Ok(Effect::WriteLog { path }),
                    _ => Ok(Effect::Nothing),
                },
                _ => Ok(Effect::Nothing),
            },
            NextStep::Connect(id) => Ok(Effect::Flow(NextStep::Connect(id))),
            NextStep::RunScript { origin_server_id, script_id, targets } => Ok(
                Effect::Flow(NextStep::RunScript { origin_server_id, script_id, targets }),
            ),
            NextStep::GoFiles(id) => Ok(Effect::Flow(NextStep::GoFiles(id))),
            NextStep::FilesOpenRemote(path) => Ok(Effect::Flow(NextStep::FilesOpenRemote(path))),
            NextStep::FilesRefresh => Ok(Effect::Flow(NextStep::FilesRefresh)),
            NextStep::FilesTransfer => Ok(Effect::Flow(NextStep::FilesTransfer)),
            NextStep::FilesBack => {
                self.remote = None;
                match &mut self.state {
                    AppState::Unlocked(u) => u.step(NextStep::FilesBack, strings, local_user),
                    _ => Ok(Effect::Nothing),
                }
            },
            other => match &mut self.state {
                AppState::Unlocked(u) => u.step(other, strings, local_user),
                _ => Ok(Effect::Nothing),
            },
        }
    }
}

/// A step that needs the terminal is handed back, and nothing else happens.
pub proof fn a_flow_is_handed_back(
    before: App,
    next: NextStep,
    strings: Strings,
    user: Option<Seq<char>>,
    after: App,
    r: Result<Effect, AppError>,
)
    requires
        needs_terminal(next),
        app_stepped(before, next, strings, user, after, r),
    ensures
        after == before,
        r == Ok::<Effect, AppError>(Effect::Flow(next)),
{
}

/// No other step is handed back: whatever needs no terminal is carried out.
pub proof fn only_flows_are_handed_back(
    before: App,
    next: NextStep,
    strings: Strings,
    user: Option<Seq<char>>,
    after: App,
    r: Result<Effect, AppError>,
)
    requires
        !needs_terminal(next),
        app_stepped(before, next, strings, user, after, r),
    ensures
        r matches Ok(effect) ==> !(effect is Flow),
{
}

/// A confirmed deletion takes every reference to the server with it.
pub proof fn a_deletion_leaves_no_bastion_behind(
    before: UnlockedState,
    gone: Uuid,
    after: UnlockedState,
    effect: Effect,
    i: int,
)
    requires
        before.screen matches Screen::ConfirmDelete { target, .. } && target == gone,
        deletion_confirmed(before, after, effect),
        0 <= i < after.config.servers@.len(),
    ensures
        after.config.servers@[i].id != gone,
        after.config.servers@[i].jump_host != Some(gone),
{
    a_deleted_server_leaves_no_reference(before.config.servers@, gone);
}

} // verus!
