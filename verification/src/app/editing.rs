//! What a form, a deletion, an import or a setting leaves in the vault.
use vstd::prelude::*;

use crate::app::security::{change_applied, password_change_begun, valid_change, ModeChange};
use crate::app::state::{topic_of, App, AppState, NextStep, Screen, UnlockedState};
use crate::app::steps::{app_stepped, stepped, AfterSave, Effect};
use crate::config::model::{
    a_deletion_keeps_every_other_server, deletions_join, lemma_forward_index, lemma_script_index, lemma_server_index,
    only_that_forward_goes, only_that_script_goes, removed_forwards_join, removed_scripts_join, server_index,
    without_forward, without_script, without_server, AuthMethod, Config, ConnectMode, ForwardRule, Script, ServerEntry,
    Uuid,
};
use crate::config::secret::Secret;
use crate::error::AppError;
use crate::i18n::Strings;
use crate::ssh_config::SshConfigHost;
use crate::totp::AuthMode;
use crate::tui::{FormMode, ForwardFormData, HelpTopic, ScriptFormData, ServerFormData};

verus! {

/// Whether a server is the first in the list with its identity.
pub open spec fn stands_first(servers: Seq<ServerEntry>, i: int) -> bool {
    &&& 0 <= i < servers.len()
    &&& forall|j: int| 0 <= j < i ==> (#[trigger] servers[j]).id != servers[i].id
}

/// Whether no server has the identity.
pub open spec fn is_unknown(servers: Seq<ServerEntry>, id: Uuid) -> bool {
    forall|j: int| 0 <= j < servers.len() ==> (#[trigger] servers[j]).id != id
}

/// Whether a write of the vault with the slots it has is what is left to do.
pub open spec fn is_written(r: Result<Effect, AppError>, after: AfterSave) -> bool {
    r matches Ok(Effect::Save(pending)) && pending.slots is None && pending.after == after
}

/// Whether nothing but the servers changed.
pub open spec fn only_the_servers(before: UnlockedState, after: UnlockedState) -> bool {
    &&& after.config == (Config { servers: after.config.servers, ..before.config })
    &&& after.slots == before.slots
    &&& after.master_key == before.master_key
    &&& after.status == before.status
    &&& after.help_open == before.help_open
}

proof fn lemma_first(servers: Seq<ServerEntry>, i: int)
    requires
        stands_first(servers, i),
    ensures
        server_index(servers, servers[i].id) == i,
{
    lemma_server_index(servers, servers[i].id);
}

/// A new server is the last of the list, with what the form says of it and
/// nothing learned yet; the others stay, and the vault is written.
pub proof fn an_added_server_is_what_the_form_says(
    before: UnlockedState,
    data: ServerFormData,
    strings: Strings,
    user: Option<Seq<char>>,
    after: UnlockedState,
    r: Result<Effect, AppError>,
)
    requires
        before.screen matches Screen::ServerForm(form) && form.mode == FormMode::Add,
        stepped(before, NextStep::FormSubmit(data), strings, user, after, r),
    ensures
        only_the_servers(before, after),
        after.config.servers@.len() == before.config.servers@.len() + 1,
        forall|i: int|
            0 <= i < before.config.servers@.len() ==> #[trigger] after.config.servers@[i] == before.config.servers@[i],
        ({
            let e = after.config.servers@.last();
            &&& e.name == data.name
            &&& e.host == data.host
            &&& e.port == data.port
            &&& e.username == data.username
            &&& e.tags == data.tags
            &&& e.auth == data.auth
            &&& e.jump_host == data.jump_host
            &&& e.host_key_fingerprint is None
            &&& e.system_info is None
            &&& e.last_connected_unix is None
            &&& e.last_remote_dir is None
            &&& e.last_local_dir is None
            &&& e.scripts@.len() == 0
            &&& e.forwards@.len() == 0
        }),
        is_written(r, AfterSave::Form),
{
    assert forall|i: int| 0 <= i < before.config.servers@.len() implies #[trigger] after.config.servers@[i]
        == before.config.servers@[i] by {
        assert(after.config.servers@.drop_last()[i] == after.config.servers@[i]);
    }
}

/// An edited server has what the form says, and all that was learned about it
/// stays, its identity first; every other server stays as it is.
pub proof fn an_edited_server_keeps_what_was_learned(
    before: UnlockedState,
    i: int,
    data: ServerFormData,
    strings: Strings,
    user: Option<Seq<char>>,
    after: UnlockedState,
    r: Result<Effect, AppError>,
)
    requires
        stands_first(before.config.servers@, i),
        before.screen matches Screen::ServerForm(form) && form.mode == FormMode::Edit(before.config.servers@[i].id),
        stepped(before, NextStep::FormSubmit(data), strings, user, after, r),
    ensures
        only_the_servers(before, after),
        after.config.servers@.len() == before.config.servers@.len(),
        forall|j: int|
            0 <= j < before.config.servers@.len() && j != i ==> #[trigger] after.config.servers@[j]
                == before.config.servers@[j],
        ({
            let e = after.config.servers@[i];
            let was = before.config.servers@[i];
            &&& e.name == data.name
            &&& e.host == data.host
            &&& e.port == data.port
            &&& e.username == data.username
            &&& e.tags == data.tags
            &&& e.auth == data.auth
            &&& e.jump_host == data.jump_host
            &&& e.id == was.id
            &&& e.host_key_fingerprint == was.host_key_fingerprint
            &&& e.system_info == was.system_info
            &&& e.scripts == was.scripts
            &&& e.last_connected_unix == was.last_connected_unix
            &&& e.forwards == was.forwards
            &&& e.last_remote_dir == was.last_remote_dir
            &&& e.last_local_dir == was.last_local_dir
        }),
        is_written(r, AfterSave::Form),
{
    lemma_first(before.config.servers@, i);
}

/// A confirmed deletion takes the server out, keeps every other in its order, and
/// lets those that were reached through it be reached directly.
pub proof fn a_deleted_server_is_gone(
    before: UnlockedState,
    i: int,
    gone: Uuid,
    strings: Strings,
    user: Option<Seq<char>>,
    after: UnlockedState,
    r: Result<Effect, AppError>,
)
    requires
        before.screen matches Screen::ConfirmDelete { target, .. } && target == gone,
        stepped(before, NextStep::ConfirmYes, strings, user, after, r),
        0 <= i < before.config.servers@.len(),
    ensures
        only_the_servers(before, after),
        forall|j: int| 0 <= j < after.config.servers@.len() ==> (#[trigger] after.config.servers@[j]).id != gone,
        before.config.servers@[i].id != gone ==> exists|k: int|
            0 <= k < after.config.servers@.len() && k <= i && #[trigger] after.config.servers@[k] == (ServerEntry {
                jump_host: if before.config.servers@[i].jump_host == Some(gone) {
                    None
                } else {
                    before.config.servers@[i].jump_host
                },
                ..before.config.servers@[i]
            }),
        is_written(r, AfterSave::Delete),
{
    let was = before.config.servers@;
    let front = was.take(i);
    let one = seq![was[i]];
    let rest = was.skip(i + 1);
    assert(was =~= front + one + rest);
    deletions_join(front + one, rest, gone);
    deletions_join(front, one, gone);
    a_deletion_keeps_every_other_server(was[i], gone);
    crate::config::model::a_deleted_server_leaves_no_reference(was, gone);
    lemma_fewer(front, gone);
    let k = without_server(front, gone).len() as int;
    if was[i].id != gone {
        assert(after.config.servers@[k] == without_server(one, gone)[0]);
    }
}

proof fn lemma_fewer(servers: Seq<ServerEntry>, gone: Uuid)
    ensures
        without_server(servers, gone).len() <= servers.len(),
    decreases servers.len(),
{
    if servers.len() > 0 {
        lemma_fewer(servers.drop_last(), gone);
    }
}

/// Whether of the server at `i` only the scripts changed, and of no other
/// anything.
pub open spec fn only_the_scripts_of(before: UnlockedState, after: UnlockedState, i: int) -> bool {
    let was = before.config.servers@;
    let is = after.config.servers@;
    &&& only_the_servers(before, after)
    &&& is.len() == was.len()
    &&& forall|j: int| 0 <= j < was.len() && j != i ==> #[trigger] is[j] == was[j]
    &&& is[i] == (ServerEntry { scripts: is[i].scripts, ..was[i] })
}

/// A new script is the last of its server's, with the form's name, steps and
/// whether it runs on connecting; nothing else changes.
pub proof fn an_added_script_is_what_the_form_says(
    before: UnlockedState,
    i: int,
    data: ScriptFormData,
    strings: Strings,
    user: Option<Seq<char>>,
    after: UnlockedState,
    r: Result<Effect, AppError>,
)
    requires
        stands_first(before.config.servers@, i),
        before.screen matches Screen::ScriptForm(form) && form.mode == FormMode::Add && form.server_id
            == before.config.servers@[i].id,
        stepped(before, NextStep::ScriptFormSave(data), strings, user, after, r),
    ensures
        only_the_scripts_of(before, after, i),
        ({
            let was = before.config.servers@[i].scripts@;
            let is = after.config.servers@[i].scripts@;
            &&& is.len() == was.len() + 1
            &&& forall|k: int| 0 <= k < was.len() ==> #[trigger] is[k] == was[k]
            &&& is.last().name == data.name
            &&& is.last().steps == data.steps
            &&& is.last().run_on_connect == data.run_on_connect
        }),
        r matches Ok(Effect::Save(pending)) && pending.after is ScriptForm && pending.slots is None,
{
    lemma_first(before.config.servers@, i);
    let was = before.config.servers@[i].scripts@;
    let is = after.config.servers@[i].scripts@;
    assert forall|k: int| 0 <= k < was.len() implies #[trigger] is[k] == was[k] by {
        assert(is.drop_last()[k] == is[k]);
    }
}

/// An edited script keeps its identity and its place, and has the form's name,
/// steps and whether it runs on connecting; nothing else changes.
pub proof fn an_edited_script_is_what_the_form_says(
    before: UnlockedState,
    i: int,
    k: int,
    data: ScriptFormData,
    strings: Strings,
    user: Option<Seq<char>>,
    after: UnlockedState,
    r: Result<Effect, AppError>,
)
    requires
        stands_first(before.config.servers@, i),
        0 <= k < before.config.servers@[i].scripts@.len(),
        forall|j: int|
            0 <= j < k ==> (#[trigger] before.config.servers@[i].scripts@[j]).id
                != before.config.servers@[i].scripts@[k].id,
        before.screen matches Screen::ScriptForm(form) && form.mode == FormMode::Edit(
            before.config.servers@[i].scripts@[k].id,
        ) && form.server_id == before.config.servers@[i].id,
        stepped(before, NextStep::ScriptFormSave(data), strings, user, after, r),
    ensures
        only_the_scripts_of(before, after, i),
        ({
            let was = before.config.servers@[i].scripts@;
            let is = after.config.servers@[i].scripts@;
            &&& is.len() == was.len()
            &&& forall|j: int| 0 <= j < was.len() && j != k ==> #[trigger] is[j] == was[j]
            &&& is[k].id == was[k].id
            &&& is[k].name == data.name
            &&& is[k].steps == data.steps
            &&& is[k].run_on_connect == data.run_on_connect
        }),
{
    lemma_first(before.config.servers@, i);
    let was = before.config.servers@[i].scripts@;
    lemma_script_index(was, was[k].id);
}

/// A confirmed deletion takes the script out and nothing else.
pub proof fn a_deleted_script_is_gone(
    before: UnlockedState,
    i: int,
    k: int,
    strings: Strings,
    user: Option<Seq<char>>,
    after: UnlockedState,
    r: Result<Effect, AppError>,
)
    requires
        stands_first(before.config.servers@, i),
        0 <= k < before.config.servers@[i].scripts@.len(),
        before.screen matches Screen::ConfirmDeleteScript { server_id, .. } && server_id == before.config.servers@[i].id,
        stepped(before, NextStep::ConfirmDeleteScriptYes, strings, user, after, r),
    ensures
        only_the_scripts_of(before, after, i),
        before.screen matches Screen::ConfirmDeleteScript { script_id, .. } && {
            let was = before.config.servers@[i].scripts@;
            let is = after.config.servers@[i].scripts@;
            &&& was[k].id != script_id ==> is.contains(was[k])
            &&& was[k].id == script_id ==> is.len() < was.len()
        },
{
    lemma_first(before.config.servers@, i);
    let was = before.config.servers@[i].scripts@;
    if let Screen::ConfirmDeleteScript { script_id, .. } = before.screen {
        let front = was.take(k);
        let one = seq![was[k]];
        let rest = was.skip(k + 1);
        assert(was =~= front + one + rest);
        removed_scripts_join(front + one, rest, script_id);
        removed_scripts_join(front, one, script_id);
        only_that_script_goes(was[k], script_id);
        lemma_fewer_scripts(front, script_id);
        lemma_fewer_scripts(rest, script_id);
        if was[k].id != script_id {
            let n = without_script(front, script_id).len() as int;
            assert(after.config.servers@[i].scripts@[n] == was[k]);
        }
    }
}

proof fn lemma_fewer_scripts(scripts: Seq<Script>, id: Uuid)
    ensures
        without_script(scripts, id).len() <= scripts.len(),
    decreases scripts.len(),
{
    if scripts.len() > 0 {
        lemma_fewer_scripts(scripts.drop_last(), id);
    }
}

/// Whether of the server at `i` only the forwards changed, and of no other
/// anything.
pub open spec fn only_the_forwards_of(before: UnlockedState, after: UnlockedState, i: int) -> bool {
    let was = before.config.servers@;
    let is = after.config.servers@;
    &&& only_the_servers(before, after)
    &&& is.len() == was.len()
    &&& forall|j: int| 0 <= j < was.len() && j != i ==> #[trigger] is[j] == was[j]
    &&& is[i] == (ServerEntry { forwards: is[i].forwards, ..was[i] })
}

/// Turning a rule over changes whether it is on, and nothing else of it or of any
/// other.
pub proof fn a_toggled_rule_is_turned_over(
    before: UnlockedState,
    i: int,
    k: int,
    strings: Strings,
    user: Option<Seq<char>>,
    after: UnlockedState,
    r: Result<Effect, AppError>,
)
    requires
        stands_first(before.config.servers@, i),
        0 <= k < before.config.servers@[i].forwards@.len(),
        forall|j: int|
            0 <= j < k ==> (#[trigger] before.config.servers@[i].forwards@[j]).id
                != before.config.servers@[i].forwards@[k].id,
        before.screen matches Screen::Forwards(list) && list.server_id == before.config.servers@[i].id,
        stepped(
            before,
            NextStep::ForwardToggle(before.config.servers@[i].forwards@[k].id),
            strings,
            user,
            after,
            r,
        ),
    ensures
        only_the_forwards_of(before, after, i),
        ({
            let was = before.config.servers@[i].forwards@;
            let is = after.config.servers@[i].forwards@;
            &&& is.len() == was.len()
            &&& forall|j: int| 0 <= j < was.len() && j != k ==> #[trigger] is[j] == was[j]
            &&& is[k].enabled == !was[k].enabled
            &&& is[k].kind == was[k].kind
            &&& is[k].id == was[k].id
        }),
        is_written(r, AfterSave::Forwards),
{
    lemma_first(before.config.servers@, i);
    let was = before.config.servers@[i].forwards@;
    lemma_forward_index(was, was[k].id);
}

/// A new rule is the last of its server's, turned on, and leads where the form
/// says.
pub proof fn an_added_rule_is_what_the_form_says(
    before: UnlockedState,
    i: int,
    data: ForwardFormData,
    strings: Strings,
    user: Option<Seq<char>>,
    after: UnlockedState,
    r: Result<Effect, AppError>,
)
    requires
        stands_first(before.config.servers@, i),
        data.id is None,
        before.screen matches Screen::ForwardForm(form) && form.server_id == before.config.servers@[i].id,
        stepped(before, NextStep::ForwardFormSave(data), strings, user, after, r),
    ensures
        only_the_forwards_of(before, after, i),
        ({
            let was = before.config.servers@[i].forwards@;
            let is = after.config.servers@[i].forwards@;
            &&& is.len() == was.len() + 1
            &&& forall|k: int| 0 <= k < was.len() ==> #[trigger] is[k] == was[k]
            &&& is.last().kind == data.kind
            &&& is.last().enabled
        }),
        is_written(r, AfterSave::Forwards),
        after.screen matches Screen::Forwards(list) && list.server_id == before.config.servers@[i].id,
{
    lemma_first(before.config.servers@, i);
    let was = before.config.servers@[i].forwards@;
    let is = after.config.servers@[i].forwards@;
    assert forall|k: int| 0 <= k < was.len() implies #[trigger] is[k] == was[k] by {
        assert(is.drop_last()[k] == is[k]);
    }
}

/// An edited rule leads where the form says; its identity, and whether it is on,
/// stay, as does every other.
pub proof fn an_edited_rule_is_what_the_form_says(
    before: UnlockedState,
    i: int,
    k: int,
    data: ForwardFormData,
    strings: Strings,
    user: Option<Seq<char>>,
    after: UnlockedState,
    r: Result<Effect, AppError>,
)
    requires
        stands_first(before.config.servers@, i),
        0 <= k < before.config.servers@[i].forwards@.len(),
        forall|j: int|
            0 <= j < k ==> (#[trigger] before.config.servers@[i].forwards@[j]).id
                != before.config.servers@[i].forwards@[k].id,
        data.id == Some(before.config.servers@[i].forwards@[k].id),
        before.screen matches Screen::ForwardForm(form) && form.server_id == before.config.servers@[i].id,
        stepped(before, NextStep::ForwardFormSave(data), strings, user, after, r),
    ensures
        only_the_forwards_of(before, after, i),
        ({
            let was = before.config.servers@[i].forwards@;
            let is = after.config.servers@[i].forwards@;
            &&& is.len() == was.len()
            &&& forall|j: int| 0 <= j < was.len() && j != k ==> #[trigger] is[j] == was[j]
            &&& is[k].kind == data.kind
            &&& is[k].enabled == was[k].enabled
            &&& is[k].id == was[k].id
        }),
        is_written(r, AfterSave::Forwards),
{
    lemma_first(before.config.servers@, i);
    let was = before.config.servers@[i].forwards@;
    lemma_forward_index(was, was[k].id);
}

/// A confirmed deletion takes the rule out and nothing else.
pub proof fn a_deleted_rule_is_gone(
    before: UnlockedState,
    i: int,
    k: int,
    strings: Strings,
    user: Option<Seq<char>>,
    after: UnlockedState,
    r: Result<Effect, AppError>,
)
    requires
        stands_first(before.config.servers@, i),
        0 <= k < before.config.servers@[i].forwards@.len(),
        before.screen matches Screen::ConfirmDeleteForward { server_id, .. } && server_id
            == before.config.servers@[i].id,
        stepped(before, NextStep::ConfirmDeleteForwardYes, strings, user, after, r),
    ensures
        only_the_forwards_of(before, after, i),
        before.screen matches Screen::ConfirmDeleteForward { forward_id, .. } && {
            let was = before.config.servers@[i].forwards@;
            let is = after.config.servers@[i].forwards@;
            &&& was[k].id != forward_id ==> is.contains(was[k])
            &&& was[k].id == forward_id ==> is.len() < was.len()
        },
        is_written(r, AfterSave::Forwards),
{
    lemma_first(before.config.servers@, i);
    let was = before.config.servers@[i].forwards@;
    if let Screen::ConfirmDeleteForward { forward_id, .. } = before.screen {
        let front = was.take(k);
        let one = seq![was[k]];
        let rest = was.skip(k + 1);
        assert(was =~= front + one + rest);
        removed_forwards_join(front + one, rest, forward_id);
        removed_forwards_join(front, one, forward_id);
        only_that_forward_goes(was[k], forward_id);
        lemma_fewer_forwards(front, forward_id);
        lemma_fewer_forwards(rest, forward_id);
        if was[k].id != forward_id {
            let n = without_forward(front, forward_id).len() as int;
            assert(after.config.servers@[i].forwards@[n] == was[k]);
        }
    }
}

proof fn lemma_fewer_forwards(forwards: Seq<ForwardRule>, id: Uuid)
    ensures
        without_forward(forwards, id).len() <= forwards.len(),
    decreases forwards.len(),
{
    if forwards.len() > 0 {
        lemma_fewer_forwards(forwards.drop_last(), id);
    }
}

/// Every picked host becomes a server behind those that were there, in order: with
/// its alias, address and key file; on port 22 where it names none; under its own
/// user, or the local one; and through the agent where it names no key.
pub proof fn an_imported_host_becomes_a_server(
    before: UnlockedState,
    hosts: Vec<SshConfigHost>,
    strings: Strings,
    user: Option<Seq<char>>,
    after: UnlockedState,
    r: Result<Effect, AppError>,
    i: int,
)
    requires
        stepped(before, NextStep::SshImportConfirm(hosts), strings, user, after, r),
        0 <= i < hosts@.len(),
    ensures
        only_the_servers(before, after),
        after.config.servers@.len() == before.config.servers@.len() + hosts@.len(),
        forall|j: int|
            0 <= j < before.config.servers@.len() ==> #[trigger] after.config.servers@[j] == before.config.servers@[j],
        ({
            let e = after.config.servers@[before.config.servers@.len() + i];
            let host = hosts@[i];
            &&& e.name == host.alias
            &&& e.host == host.hostname
            &&& host.port matches Some(p) ==> e.port == p
            &&& host.port is None ==> e.port == 22
            &&& host.user matches Some(u) ==> e.username@ == u@
            &&& host.user is None ==> (user is Some && user->Some_0.len() > 0 ==> e.username@ == user->Some_0)
            &&& host.user is None ==> (user is None || user->Some_0.len() == 0) ==> e.username@ == "root"@
            &&& host.identity_file matches Some(path) ==> (e.auth matches AuthMethod::SshKey { key_path, passphrase }
                && key_path == path && passphrase is None)
            &&& host.identity_file is None ==> e.auth is Agent
            &&& e.jump_host is None && e.host_key_fingerprint is None && e.system_info is None
            &&& e.last_connected_unix is None && e.last_remote_dir is None && e.last_local_dir is None
            &&& e.scripts@.len() == 0 && e.forwards@.len() == 0 && e.tags@.len() == 0
        }),
        r matches Ok(Effect::Save(pending)) && (pending.after matches AfterSave::Import { before: count, imported }
            && count == before.config.servers@.len() && imported == hosts@.len()),
{
    assert(before.config.servers.len() == before.config.servers@.len());
    assert(hosts.len() == hosts@.len());
    assert forall|j: int| 0 <= j < before.config.servers@.len() implies #[trigger] after.config.servers@[j]
        == before.config.servers@[j] by {
        assert(after.config.servers@.take(before.config.servers@.len() as int)[j] == after.config.servers@[j]);
    }
}

/// A setting is what was picked, the one before is kept for a write that fails,
/// and nothing else changes.
pub proof fn a_picked_setting_is_stored(
    before: UnlockedState,
    minutes: u32,
    mode: ConnectMode,
    strings: Strings,
    user: Option<Seq<char>>,
    after: UnlockedState,
    r: Result<Effect, AppError>,
)
    ensures
        stepped(before, NextStep::SettingsAutoLockSelected(minutes), strings, user, after, r) ==> after == (
        UnlockedState { config: Config { auto_lock_minutes: minutes, ..before.config }, ..before }) && is_written(
            r,
            AfterSave::AutoLock { previous: before.config.auto_lock_minutes },
        ),
        stepped(before, NextStep::SettingsConnectModeSelected(mode), strings, user, after, r) ==> after == (
        UnlockedState { config: Config { connect_mode: mode, ..before.config }, ..before }) && is_written(
            r,
            AfterSave::ConnectMode { previous: before.config.connect_mode },
        ),
        stepped(before, NextStep::CycleSort, strings, user, after, r) ==> after == (UnlockedState {
            config: Config { server_sort: after.config.server_sort, ..before.config },
            ..before
        }) && after.config.server_sort != before.config.server_sort && is_written(r, AfterSave::Sort),
{
}

/// Leaving the file browser remembers where both panes were, for that server
/// alone.
pub proof fn the_browser_is_remembered(
    before: UnlockedState,
    i: int,
    strings: Strings,
    user: Option<Seq<char>>,
    after: UnlockedState,
    r: Result<Effect, AppError>,
)
    requires
        stands_first(before.config.servers@, i),
        before.screen matches Screen::FileBrowser(b) && b.server_id == before.config.servers@[i].id,
        stepped(before, NextStep::FilesBack, strings, user, after, r),
    ensures
        only_the_servers(before, after),
        after.screen is MainMenu,
        after.config.servers@.len() == before.config.servers@.len(),
        forall|j: int|
            0 <= j < before.config.servers@.len() && j != i ==> #[trigger] after.config.servers@[j]
                == before.config.servers@[j],
        before.screen matches Screen::FileBrowser(b) && after.config.servers@[i] == (ServerEntry {
            last_local_dir: Some(b.local_cwd),
            last_remote_dir: Some(b.remote_cwd),
            ..before.config.servers@[i]
        }),
        is_written(r, AfterSave::BestEffort),
{
    lemma_first(before.config.servers@, i);
}

/// Moving between screens changes nothing that is stored, and asks for nothing to
/// be written.
pub proof fn moving_between_screens_stores_nothing(
    before: UnlockedState,
    next: NextStep,
    strings: Strings,
    user: Option<Seq<char>>,
    after: UnlockedState,
    r: Result<Effect, AppError>,
)
    requires
        stepped(before, next, strings, user, after, r),
        next is GoAdd || next is GoEdit || next is GoDelete || next is FormCancel || next is ConfirmNo
            || next is SettingsClose || next is GoScripts || next is GoScriptAdd || next is GoScriptEdit
            || next is GoScriptDeleteConfirm || next is ScriptFormCancel || next is ConfirmDeleteScriptNo
            || next is GoScriptTargets || next is ScriptTargetsCancel || next is ScriptRunClose || next is GoForwards
            || next is GoForwardAdd || next is GoForwardEdit || next is GoForwardDeleteConfirm
            || next is ForwardFormCancel || next is ConfirmDeleteForwardNo || next is Help || next is ScriptsBack
            || next is ForwardsBack || next is SshImportCancel,
    ensures
        after.config == before.config,
        after.slots == before.slots,
        after.master_key == before.master_key,
        r == Ok::<Effect, AppError>(Effect::Nothing),
        next is FormCancel || next is ConfirmNo || next is SettingsClose || next is ScriptsBack || next is ForwardsBack
            || next is SshImportCancel ==> after.screen is MainMenu,
        next is Help ==> after.help_open && after.screen == before.screen,
        !(next is Help) ==> after.help_open == before.help_open,
{
}

/// A step towards a server opens the right screen, for that server.
pub proof fn a_step_towards_a_server_opens_its_screen(
    before: UnlockedState,
    i: int,
    strings: Strings,
    user: Option<Seq<char>>,
    after: UnlockedState,
    r: Result<Effect, AppError>,
)
    requires
        stands_first(before.config.servers@, i),
    ensures
        ({
            let e = before.config.servers@[i];
            &&& stepped(before, NextStep::GoAdd, strings, user, after, r) ==> (after.screen
                matches Screen::ServerForm(f) && f.mode == FormMode::Add && f.error is None)
            &&& stepped(before, NextStep::GoEdit(e.id), strings, user, after, r) ==> (after.screen
                matches Screen::ServerForm(f) && f.mode == FormMode::Edit(e.id) && f.error is None)
            &&& stepped(before, NextStep::GoDelete(e.id), strings, user, after, r) ==> (after.screen
                matches Screen::ConfirmDelete { target, state } && target == e.id && state.message@
                == strings.delete_confirm_prefix@ + e.name@ + strings.delete_confirm_suffix@)
            &&& stepped(before, NextStep::GoScripts(e.id), strings, user, after, r) ==> (after.screen
                matches Screen::Scripts(l) && l.server_id == e.id && l.server_name@ == e.name@)
            &&& stepped(before, NextStep::GoForwards(e.id), strings, user, after, r) ==> (after.screen
                matches Screen::Forwards(l) && l.server_id == e.id && l.server_name@ == e.name@)
        }),
{
    lemma_first(before.config.servers@, i);
}

/// Locking and quitting give up the live connection; locking asks for the lock
/// screen, and so does giving up at the second factor. The language and the theme
/// are what was picked, and are written.
pub proof fn the_application_locks_and_quits(
    before: App,
    next: NextStep,
    strings: Strings,
    user: Option<Seq<char>>,
    after: App,
    r: Result<Effect, AppError>,
)
    requires
        app_stepped(before, next, strings, user, after, r),
    ensures
        next is Quit ==> after.should_quit && after.remote is None && r == Ok::<Effect, AppError>(Effect::Nothing),
        next is Lock ==> after.remote is None && r == Ok::<Effect, AppError>(Effect::Relock) && after.should_quit
            == before.should_quit,
        next is TotpPromptCancel ==> r == Ok::<Effect, AppError>(Effect::Relock),
        next matches NextStep::SettingsLangSelected(lang) ==> after.lang == lang && after.theme == before.theme && r
            == Ok::<Effect, AppError>(Effect::SavePrefs),
        next matches NextStep::SettingsThemeSelected(theme) ==> after.theme == theme && after.lang == before.lang && r
            == Ok::<Effect, AppError>(Effect::SavePrefs),
        !(next is Quit) ==> after.should_quit == before.should_quit,
        !(next is SettingsLangSelected) ==> after.lang == before.lang,
        !(next is SettingsThemeSelected) ==> after.theme == before.theme,
        next is FilesBack ==> after.remote is None,
        !(next is Quit || next is Lock || next is FilesBack) ==> after.remote == before.remote,
{
}

/// A step about a server that is not there changes nothing that is stored.
pub proof fn a_server_that_is_gone_is_left_alone(
    before: UnlockedState,
    id: Uuid,
    data: ServerFormData,
    strings: Strings,
    user: Option<Seq<char>>,
    after: UnlockedState,
    r: Result<Effect, AppError>,
)
    requires
        is_unknown(before.config.servers@, id),
    ensures
        stepped(before, NextStep::GoEdit(id), strings, user, after, r) ==> after == before,
        stepped(before, NextStep::GoDelete(id), strings, user, after, r) ==> after == before,
        stepped(before, NextStep::GoScripts(id), strings, user, after, r) ==> after == before,
        stepped(before, NextStep::GoForwards(id), strings, user, after, r) ==> after == before,
        (before.screen matches Screen::ServerForm(form) && form.mode == FormMode::Edit(id)) && stepped(
            before,
            NextStep::FormSubmit(data),
            strings,
            user,
            after,
            r,
        ) ==> after.config.servers@ == before.config.servers@,
{
    lemma_server_index(before.config.servers@, id);
}

/// A form stays up until its write is done, and the write of a script knows whose
/// list to show.
pub proof fn a_form_stays_until_it_is_written(
    before: UnlockedState,
    i: int,
    server: ServerFormData,
    script: ScriptFormData,
    strings: Strings,
    user: Option<Seq<char>>,
    after: UnlockedState,
    r: Result<Effect, AppError>,
)
    requires
        stands_first(before.config.servers@, i),
    ensures
        stepped(before, NextStep::FormSubmit(server), strings, user, after, r) || stepped(
            before,
            NextStep::ScriptFormSave(script),
            strings,
            user,
            after,
            r,
        ) || stepped(before, NextStep::ConfirmYes, strings, user, after, r) || stepped(
            before,
            NextStep::ConfirmDeleteScriptYes,
            strings,
            user,
            after,
            r,
        ) ==> after.screen == before.screen,
        before.screen matches Screen::ScriptForm(form) ==> (form.server_id == before.config.servers@[i].id ==> (stepped(
            before,
            NextStep::ScriptFormSave(script),
            strings,
            user,
            after,
            r,
        ) ==> is_written(r, AfterSave::ScriptForm { server_id: form.server_id, server_name: form.server_name }))),
        before.screen matches Screen::ConfirmDeleteScript { server_id, .. } ==> (stepped(
            before,
            NextStep::ConfirmDeleteScriptYes,
            strings,
            user,
            after,
            r,
        ) ==> is_written(r, AfterSave::DeleteScript { server_id })),
{
    lemma_first(before.config.servers@, i);
}

/// From the list of a server's scripts a step opens the form, the question or the
/// choice of targets for the script it was taken on, and from each of them the way
/// back leads to the same list.
pub proof fn the_screens_of_a_script_are_its_own(
    before: UnlockedState,
    i: int,
    k: int,
    strings: Strings,
    user: Option<Seq<char>>,
    after: UnlockedState,
    r: Result<Effect, AppError>,
)
    requires
        stands_first(before.config.servers@, i),
        0 <= k < before.config.servers@[i].scripts@.len(),
        forall|j: int|
            0 <= j < k ==> (#[trigger] before.config.servers@[i].scripts@[j]).id
                != before.config.servers@[i].scripts@[k].id,
    ensures
        before.screen matches Screen::Scripts(list) ==> (list.server_id == before.config.servers@[i].id ==> {
            let script = before.config.servers@[i].scripts@[k];
            &&& stepped(before, NextStep::GoScriptAdd, strings, user, after, r) ==> (after.screen
                matches Screen::ScriptForm(f) && f.server_id == list.server_id && f.server_name == list.server_name
                && f.mode == FormMode::Add && f.error is None)
            &&& stepped(before, NextStep::GoScriptEdit(script.id), strings, user, after, r) ==> (after.screen
                matches Screen::ScriptForm(f) && f.server_id == list.server_id && f.server_name == list.server_name
                && f.mode == FormMode::Edit(script.id) && f.error is None)
            &&& stepped(before, NextStep::GoScriptDeleteConfirm(script.id), strings, user, after, r) ==> (after.screen
                matches Screen::ConfirmDeleteScript { server_id, script_id, state } && server_id == list.server_id
                && script_id == script.id && state.message@ == strings.delete_script_confirm_prefix@ + script.name@
                + strings.delete_script_confirm_suffix@)
            &&& stepped(before, NextStep::GoScriptTargets(script.id), strings, user, after, r) ==> (after.screen
                matches Screen::ScriptTargets(t) && t.origin_server_id == list.server_id && t.script_id == script.id
                && t.script_name == script.name)
        }),
        before.screen matches Screen::ScriptForm(f) ==> (stepped(
            before,
            NextStep::ScriptFormCancel,
            strings,
            user,
            after,
            r,
        ) ==> (after.screen matches Screen::Scripts(l) && l.server_id == f.server_id && l.server_name@ == f.server_name@)),
        before.screen matches Screen::ScriptTargets(t) ==> (stepped(
            before,
            NextStep::ScriptTargetsCancel,
            strings,
            user,
            after,
            r,
        ) ==> (after.screen matches Screen::Scripts(l) && l.server_id == t.origin_server_id)),
        before.screen matches Screen::ScriptRun(s) ==> (stepped(
            before,
            NextStep::ScriptRunClose,
            strings,
            user,
            after,
            r,
        ) ==> (after.screen matches Screen::Scripts(l) && l.server_id == s.server_id && l.server_name@ == s.server_name@)),
        before.screen matches Screen::ConfirmDeleteScript { server_id, .. } ==> (server_id
            == before.config.servers@[i].id && stepped(
            before,
            NextStep::ConfirmDeleteScriptNo,
            strings,
            user,
            after,
            r,
        ) ==> (after.screen matches Screen::Scripts(l) && l.server_id == server_id && l.server_name@
            == before.config.servers@[i].name@)),
{
    lemma_first(before.config.servers@, i);
    lemma_script_index(before.config.servers@[i].scripts@, before.config.servers@[i].scripts@[k].id);
}

/// The same of the list of a server's forwards.
pub proof fn the_screens_of_a_rule_are_its_own(
    before: UnlockedState,
    i: int,
    k: int,
    strings: Strings,
    user: Option<Seq<char>>,
    after: UnlockedState,
    r: Result<Effect, AppError>,
)
    requires
        stands_first(before.config.servers@, i),
        0 <= k < before.config.servers@[i].forwards@.len(),
        forall|j: int|
            0 <= j < k ==> (#[trigger] before.config.servers@[i].forwards@[j]).id
                != before.config.servers@[i].forwards@[k].id,
    ensures
        before.screen matches Screen::Forwards(list) ==> (list.server_id == before.config.servers@[i].id ==> {
            let rule = before.config.servers@[i].forwards@[k];
            &&& stepped(before, NextStep::GoForwardAdd, strings, user, after, r) ==> (after.screen
                matches Screen::ForwardForm(f) && f.server_id == list.server_id && f.id is None)
            &&& stepped(before, NextStep::GoForwardEdit(rule.id), strings, user, after, r) ==> (after.screen
                matches Screen::ForwardForm(f) && f.server_id == list.server_id && f.id == Some(rule.id))
            &&& stepped(before, NextStep::GoForwardDeleteConfirm(rule.id), strings, user, after, r) ==> (after.screen
                matches Screen::ConfirmDeleteForward { server_id, forward_id, state } && server_id == list.server_id
                && forward_id == rule.id && state.message@ == strings.delete_forward_confirm_prefix@ + rule.line()
                + strings.delete_forward_confirm_suffix@)
        }),
        before.screen matches Screen::ForwardForm(f) ==> (stepped(
            before,
            NextStep::ForwardFormCancel,
            strings,
            user,
            after,
            r,
        ) ==> (after.screen matches Screen::Forwards(l) && l.server_id == f.server_id)),
        before.screen matches Screen::ConfirmDeleteForward { server_id, .. } ==> (stepped(
            before,
            NextStep::ConfirmDeleteForwardNo,
            strings,
            user,
            after,
            r,
        ) ==> (after.screen matches Screen::Forwards(l) && l.server_id == server_id)),
{
    lemma_first(before.config.servers@, i);
    lemma_forward_index(before.config.servers@[i].forwards@, before.config.servers@[i].forwards@[k].id);
}

/// A change of the mode or of the password is begun with what the settings handed
/// on: the mode, the passwords and the secret.
pub proof fn a_change_is_begun_as_it_was_asked_for(
    before: UnlockedState,
    mode: AuthMode,
    password: Option<Secret>,
    totp_secret: Option<Secret>,
    current: Secret,
    new: Secret,
    strings: Strings,
    user: Option<Seq<char>>,
    after: UnlockedState,
    r: Result<Effect, AppError>,
)
    ensures
        stepped(
            before,
            (NextStep::ChangeSecurityMode { mode, password, totp_secret }),
            strings,
            user,
            after,
            r,
        ) ==> match r {
            Ok(Effect::WriteDevice { state, change }) => after == before && (mode == AuthMode::NoPrompt || mode
                == AuthMode::TotpDaily) && valid_change(before, mode, password, totp_secret, change, Some(state)),
            Ok(Effect::Save(pending)) => (mode == AuthMode::Password || mode == AuthMode::PasswordTotp) && exists|
                change: ModeChange,
            |
                valid_change(before, mode, password, totp_secret, change, None) && #[trigger] change_applied(
                    before,
                    change,
                    after,
                    Effect::Save(pending),
                ),
            Ok(Effect::DeleteDevice) => mode == AuthMode::NoPrompt || mode == AuthMode::TotpDaily,
            Ok(Effect::Nothing) => mode == AuthMode::Password || mode == AuthMode::PasswordTotp,
            _ => false,
        },
        stepped(before, (NextStep::SettingsChangePassword { current, new }), strings, user, after, r)
            ==> password_change_begun(before, current@, new@, strings, after, r),
{
}

/// What works on the network or suspends the terminal is handed back, and only
/// that.
pub proof fn the_network_is_left_to_the_terminal(
    before: App,
    next: NextStep,
    strings: Strings,
    user: Option<Seq<char>>,
    after: App,
    r: Result<Effect, AppError>,
)
    requires
        app_stepped(before, next, strings, user, after, r),
    ensures
        next is Connect || next is RunScript || next is GoFiles || next is FilesOpenRemote || next is FilesRefresh
            || next is FilesTransfer ==> r == Ok::<Effect, AppError>(Effect::Flow(next)) && after == before,
        before.state is Unlocked && next is GoSettings ==> r == Ok::<Effect, AppError>(Effect::OpenSettings),
        before.state is Unlocked && next is GoSshImport ==> r == Ok::<Effect, AppError>(Effect::ReadSshConfig),
        before.state matches AppState::Unlocked(u) ==> (u.screen is ScriptRun ==> (next
            matches NextStep::ScriptRunSave(path) ==> r == Ok::<Effect, AppError>(Effect::WriteLog { path }))),
{
}

/// The help lists the keys of the screen it was opened on.
pub proof fn the_help_is_about_the_screen(screen: Screen)
    ensures
        screen is MainMenu <==> topic_of(screen) == HelpTopic::ServerList,
        screen is ServerForm <==> topic_of(screen) == HelpTopic::ServerForm,
        screen is SshImport <==> topic_of(screen) == HelpTopic::SshImport,
        screen is Forwards <==> topic_of(screen) == HelpTopic::Forwards,
        screen is ForwardForm <==> topic_of(screen) == HelpTopic::ForwardForm,
        screen is Settings <==> topic_of(screen) == HelpTopic::Settings,
        screen is TotpPrompt <==> topic_of(screen) == HelpTopic::TotpPrompt,
        screen is Scripts <==> topic_of(screen) == HelpTopic::ScriptList,
        screen is ScriptTargets <==> topic_of(screen) == HelpTopic::ScriptTargets,
        screen is ScriptForm <==> topic_of(screen) == HelpTopic::ScriptForm,
        screen is ScriptRun <==> topic_of(screen) == HelpTopic::ScriptRun,
        screen is FileBrowser <==> topic_of(screen) == HelpTopic::FileBrowser,
        screen is ConfirmDelete || screen is ConfirmDeleteScript || screen is ConfirmDeleteForward <==> topic_of(screen)
            == HelpTopic::Confirm,
{
}

} // verus!
