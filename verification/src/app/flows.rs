//! What the application promises about opening a vault, about a session and about
//! the file browser: each law speaks of what a call may leave behind.
use vstd::prelude::*;

use crate::app::files::{
    is_fatal, local_cwd, remote_cwd, FilesContext, FilesStep, ListRequest, TransferProgress, TransferStart,
};
use crate::app::locked::{
    device_opened, first_look, first_write, plan_migration_with, plan_vault_with, shape_seen, DailyEffect, FirstLook,
    NewVault, ShapeLook, WriteStep,
};
use crate::app::security::ModeChange;
use crate::app::sessions::{picked, RunPlan};
use crate::app::state::{App, AppState, Screen, UnlockedState};
use crate::app::steps::Effect;
use crate::config::device::DeviceState;
use crate::config::format::SLOT_DEVICE;
use crate::config::keyslot::{has_slot, Draw, MasterKey};
use crate::config::model::{lemma_script_index, lemma_server_index, SystemInfo, Uuid};
use crate::config::secret::Secret;
use crate::config::store::{Unlocked, VaultShape};
use crate::crypto::kdf::KdfParams;
use crate::error::{error_text, AppError};
use crate::i18n::Strings;
use crate::session::SessionRecord;
use crate::ssh::client::HostKeyOutcome;
use crate::ssh::session::Target;
use crate::ssh::sftp::client::RemoteEntry;
use crate::ssh::transfer::{Direction, TransferEvent, TransferSummary};
use crate::ssh_config::{host_views, parsed, text_of_ref};
use crate::totp::{AuthMode, CodeCheck};
use crate::tui::{BrowserEntry, FileBrowserState, ScriptRunState, Side, UnlockMode};

verus! {

/// Whether a vault is open on the server list, holding what was opened.
pub open spec fn shows_the_list(state: AppState, u: Unlocked) -> bool {
    state matches AppState::Unlocked(v) && v.config == u.config && v.slots == u.slots && v.master_key == u.master_key
        && v.screen is MainMenu
}

/// A password opens the vault it was tried on, at the second factor where there is
/// one. A wrong one leaves it locked, in the same mode, with the reason; a vault of
/// a newer schema says so on a screen of its own.
pub proof fn a_password_opens_or_says_why(a: &mut App, result: Result<Unlocked, AppError>, strings: Strings)
    requires
        call_ensures(App::password_tried, (a, result, &strings), ()),
    ensures
        result matches Ok(u) ==> (final(a).state matches AppState::Unlocked(v) && v.config == u.config && v.slots
            == u.slots && v.master_key == u.master_key && (v.screen is TotpPrompt <==> u.config.totp is Some)),
        result matches Err(e) ==> !(final(a).state is Unlocked) || final(a).state == old(a).state,
        result matches Err(e) ==> (old(a).state matches AppState::Locked(was) ==> (!(e is SchemaTooNew) ==> (final(a).state
            matches AppState::Locked(is) && is.mode == was.mode && (is.error matches Some(text) && text@ == (
        if e is VaultInUse {
            strings.err_vault_in_use@
        } else {
            error_text(e@)
        }))))),
        result matches Err(e) ==> (e is SchemaTooNew ==> (final(a).state matches AppState::CannotOpen { title, message }
            && title == strings.schema_too_new_title && message == strings.schema_too_new_message)),
        final(a).last_code_step == old(a).last_code_step,
{
}

/// A vault that an everyday code opened shows the server list: the code is not
/// asked for twice. One that could not be opened stays at the code, with the
/// reason.
pub proof fn an_everyday_code_opens_the_list(a: &mut App, result: Result<Unlocked, AppError>, strings: Strings)
    requires
        call_ensures(App::daily_opened, (a, result, &strings), ()),
    ensures
        result matches Ok(u) ==> shows_the_list(final(a).state, u),
        result matches Err(e) ==> (old(a).state matches AppState::LockedTotpDaily(_) ==> (!(e is SchemaTooNew) ==> (
        final(a).state matches AppState::LockedTotpDaily(p) && (p.error matches Some(text) && text@ == (
        if e is VaultInUse {
            strings.err_vault_in_use@
        } else {
            strings.save_error_prefix@ + error_text(e@)
        }))))),
{
}

/// A new vault, and a converted one, shows the server list once it is written. One
/// that could not be written leaves the screen that asked for it, with the reason,
/// and an entry that was made for a new vault goes.
pub proof fn a_written_vault_shows_the_list(
    a: &mut App,
    mode: AuthMode,
    result: Result<Unlocked, AppError>,
    strings: Strings,
    effect: Effect,
)
    requires
        call_ensures(App::vault_created, (a, mode, result, &strings), effect),
    ensures
        result matches Ok(u) ==> shows_the_list(final(a).state, u) && effect == Effect::Nothing,
        result is Err && (mode == AuthMode::NoPrompt || mode == AuthMode::TotpDaily) ==> effect == Effect::DeleteDevice,
        result is Err && (mode == AuthMode::Password || mode == AuthMode::PasswordTotp) ==> effect == Effect::Nothing,
        result matches Err(e) ==> (old(a).state is Setup ==> (final(a).state matches AppState::Setup(s) && (s.error
            matches Some(text) && text@ == (if e is VaultInUse {
            strings.err_vault_in_use@
        } else {
            strings.save_error_prefix@ + error_text(e@)
        })))),
{
}

/// The same of a conversion.
pub proof fn a_converted_vault_shows_the_list(
    a: &mut App,
    result: Result<Unlocked, AppError>,
    strings: Strings,
    done: bool,
)
    requires
        call_ensures(App::migrated, (a, result, &strings), done),
    ensures
        done <==> result is Ok,
        result matches Ok(u) ==> shows_the_list(final(a).state, u),
        result matches Err(e) ==> (old(a).state matches AppState::Locked(was) ==> (final(a).state
            matches AppState::Locked(is) && is.mode == was.mode && is.error is Some)),
{
}

/// At the start a vault of the retired mode is converted, a missing one is set up,
/// and any other is looked into.
pub proof fn the_start_depends_on_what_is_there(totp_only: bool, vault: bool, r: FirstLook)
    requires
        call_ensures(first_look, (totp_only, vault), r),
    ensures
        totp_only <==> r == FirstLook::Migrate,
        !totp_only && !vault <==> r == FirstLook::Setup,
        !totp_only && vault <==> r == FirstLook::Peek,
{
}

/// The device is asked exactly where the vault has a slot for it; a file that
/// cannot be read says why on the lock screen.
pub proof fn the_device_is_asked_where_it_can_help(shape: Result<VaultShape, AppError>, strings: Strings, r: ShapeLook)
    requires
        call_ensures(shape_seen, (shape, &strings), r),
    ensures
        r == (ShapeLook::ReadDevice { has_password: true }) <==> shape == Ok::<VaultShape, AppError>(
            VaultShape::DeviceAndPassword,
        ),
        r == (ShapeLook::ReadDevice { has_password: false }) <==> shape == Ok::<VaultShape, AppError>(VaultShape::Device),
        shape matches Err(e) ==> (r matches ShapeLook::Show(AppState::Locked(u)) && u.mode == UnlockMode::Unlock && (
        u.error matches Some(text) && text@ == strings.save_error_prefix@ + error_text(e@))),
        shape == Ok::<VaultShape, AppError>(VaultShape::Password) ==> (r matches ShapeLook::Show(AppState::Locked(u))
            && u.mode == UnlockMode::Unlock && u.error is None),
{
}

/// What the device opened is open; a vault in use and one of a newer schema say
/// so, and any other failure leads to the password where there is one.
pub proof fn a_device_opens_or_leads_to_the_password(
    has_password: bool,
    result: Result<Unlocked, AppError>,
    strings: Strings,
    r: AppState,
)
    requires
        call_ensures(device_opened, (has_password, result, &strings), r),
    ensures
        result matches Ok(u) ==> (r matches AppState::Unlocked(v) && v.config == u.config && v.master_key
            == u.master_key && (v.screen is TotpPrompt <==> u.config.totp is Some)),
        result matches Err(e) ==> (e is VaultInUse ==> (r matches AppState::CannotOpen { title, message } && title
            == strings.vault_in_use_title && message == strings.vault_in_use_message)),
        result matches Err(e) ==> (e is SchemaTooNew ==> (r matches AppState::CannotOpen { title, .. } && title
            == strings.schema_too_new_title)),
        result matches Err(e) ==> (!(e is VaultInUse) && !(e is SchemaTooNew) ==> (has_password ==> r is Locked) && (
        !has_password ==> r is Unopenable)),
{
}

/// An idle application gives up its live connection, and one that is in use keeps
/// everything; the lock screen then says that it locked itself.
pub proof fn an_idle_application_is_locked(a: &mut App, now: u64, r: bool)
    requires
        call_ensures(App::auto_lock_if_idle, (a, now), r),
    ensures
        r <==> old(a).idle_too_long(now),
        r ==> final(a).remote is None && final(a).state == old(a).state,
        !r ==> *final(a) == *old(a),
{
}

/// The lock screen of an application that locked itself says so, and else is what
/// it would be.
pub proof fn an_auto_lock_is_told(a: &mut App, screen: AppState, strings: Strings)
    requires
        call_ensures(App::auto_locked, (a, screen, &strings), ()),
    ensures
        screen matches AppState::Locked(u) ==> (final(a).state matches AppState::Locked(v) && v.mode == u.mode && v.error
            == u.error && (v.info matches Some(text) && text@ == strings.status_auto_locked@)),
        screen matches AppState::LockedTotpDaily(u) ==> (final(a).state matches AppState::LockedTotpDaily(v) && v.error
            == u.error && (v.info matches Some(text) && text@ == strings.status_auto_locked@)),
        !(screen is Locked) && !(screen is LockedTotpDaily) ==> final(a).state == screen,
{
}

/// A footer goes after four seconds, not before, and takes nothing with it.
pub proof fn a_footer_goes_after_four_seconds(a: &mut App, now: u64, u: UnlockedState)
    requires
        call_ensures(App::expire_status, (a, now), ()),
        old(a).state == AppState::Unlocked(u),
    ensures
        final(a).state matches AppState::Unlocked(v) && v.config == u.config && v.screen == u.screen && (u.status
            matches Some(s) ==> (v.status is None <==> now >= s.shown_at + 4_000) && (now < s.shown_at + 4_000
            ==> v.status == u.status)),
{
}

/// The settings open on what is set: the language, the theme, the mode of the vault
/// and its two settings.
pub proof fn the_settings_show_what_is_set(a: &mut App, store: bool, u: UnlockedState)
    requires
        call_ensures(App::open_settings, (a, store), ()),
        old(a).state == AppState::Unlocked(u),
    ensures
        final(a).state matches AppState::Unlocked(v) && v.config == u.config && (v.screen matches Screen::Settings(s) && {
            &&& s.lang == old(a).lang
            &&& s.theme == old(a).theme
            &&& s.store_available == store
            &&& s.auto_lock_minutes == u.config.auto_lock_minutes
            &&& s.connect_mode == u.config.connect_mode
            &&& s.error is None && s.info is None
            &&& s.auth_mode == AuthMode::TotpDaily || s.auth_mode == AuthMode::PasswordTotp <==> u.config.totp is Some
            &&& s.auth_mode == AuthMode::TotpDaily || s.auth_mode == AuthMode::NoPrompt <==> has_slot(
                u.slots@,
                SLOT_DEVICE,
            )
        }),
{
}

/// A session that ends well clears the footer, one that is cut says why.
pub proof fn a_cut_session_says_why(
    a: &mut App,
    result: Result<(), AppError>,
    strings: Strings,
    now: u64,
    u: UnlockedState,
)
    requires
        call_ensures(App::session_ended, (a, result, &strings, now), ()),
        old(a).state == AppState::Unlocked(u),
    ensures
        final(a).state matches AppState::Unlocked(v) && v.config == u.config && v.screen == u.screen && (result is Ok
            ==> v.status is None) && (result matches Err(e) ==> (v.status matches Some(s) && s.text@
            == strings.disconnected_prefix@ + error_text(e@) && s.shown_at == now)),
{
}

/// A plan runs the script of its own server, under its name, on every picked server
/// that is there.
pub proof fn a_plan_is_of_the_picked_script(
    a: App,
    u: UnlockedState,
    i: int,
    k: int,
    target: int,
    plan: Option<RunPlan>,
    targets: &[Uuid],
)
    requires
        a.state == AppState::Unlocked(u),
        0 <= i < u.config.servers@.len(),
        forall|j: int| 0 <= j < i ==> (#[trigger] u.config.servers@[j]).id != u.config.servers@[i].id,
        0 <= k < u.config.servers@[i].scripts@.len(),
        forall|j: int|
            0 <= j < k ==> (#[trigger] u.config.servers@[i].scripts@[j]).id != u.config.servers@[i].scripts@[k].id,
        0 <= target < u.config.servers@.len(),
        forall|j: int| 0 <= j < target ==> (#[trigger] u.config.servers@[j]).id != u.config.servers@[target].id,
        targets@ == seq![u.config.servers@[target].id],
        call_ensures(
            App::plan_runs,
            (&a, u.config.servers@[i].id, u.config.servers@[i].scripts@[k].id, targets),
            plan,
        ),
    ensures
        plan matches Some(p) && {
            &&& p.origin_name == u.config.servers@[i].name
            &&& p.script_name == u.config.servers@[i].scripts@[k].name
            &&& p.runs@.len() == 1
            &&& p.runs@[0].server_name == u.config.servers@[target].name
            &&& p.runs@[0].target matches Ok(t) ==> t.endpoint.host == u.config.servers@[target].host && t.endpoint.port
                == u.config.servers@[target].port
        },
{
    let servers = u.config.servers@;
    lemma_server_index(servers, servers[i].id);
    lemma_server_index(servers, servers[target].id);
    lemma_script_index(servers[i].scripts@, servers[i].scripts@[k].id);
    assert(targets@.drop_last() =~= Seq::empty());
    assert(picked(servers, targets@.drop_last()).len() == 0);
    assert(picked(servers, targets@)[0] == servers[target]);
}

/// The browser opens locally where it was left, if that is still there, and in the
/// current directory else; remotely where it was left, else at the login's.
pub proof fn the_browser_opens_where_it_was_left(
    remembered: Option<String>,
    there: bool,
    current: Option<String>,
    local: String,
    first: Result<String, AppError>,
    login: Option<Result<String, AppError>>,
    remote: String,
)
    requires
        call_ensures(local_cwd, (remembered, there, current), local),
        call_ensures(remote_cwd, (first, login), remote),
    ensures
        remembered matches Some(path) ==> (there ==> local == path),
        (remembered is None || !there) ==> (current matches Some(path) ==> local == path),
        (remembered is None || !there) && current is None ==> local@ == "/"@,
        first matches Ok(path) ==> remote == path,
        first is Err ==> (login matches Some(Ok(path)) ==> remote == path),
        first is Err && !(login matches Some(Ok(_))) ==> remote@ == "/"@,
{
}

/// A live connection to the server is used again, one to another is given up; a
/// server that cannot be reached by its chain says why and keeps none.
pub proof fn a_live_connection_is_used_again(
    a: &mut App,
    id: Uuid,
    target: Result<Target, AppError>,
    strings: Strings,
    now: u64,
    r: FilesStep,
)
    requires
        call_ensures(App::begin_files, (a, id, target, &strings, now), r),
    ensures
        target matches Ok(t) ==> (old(a).remote == Some(id) ==> r == FilesStep::Reuse && final(a).remote == Some(id)),
        target matches Ok(t) ==> (old(a).remote != Some(id) ==> r == (FilesStep::Connect { target: t }) && final(a).remote
            is None),
        target is Ok ==> final(a).connecting == Some((id, now)) && final(a).state == old(a).state,
        target is Err ==> r == FilesStep::Failed && final(a).remote is None,
        target matches Err(e) ==> (final(a).state matches AppState::Unlocked(v) ==> (v.status matches Some(s) && s.text@
            == strings.connect_error_prefix@ + error_text(e@))),
{
}

/// A directory is listed over the connection of the browser's own server: the one
/// that was asked for, or the one it shows.
pub proof fn the_browsers_own_server_is_listed(
    a: App,
    u: UnlockedState,
    b: FileBrowserState,
    path: Option<String>,
    r: Option<ListRequest>,
)
    requires
        a.state == AppState::Unlocked(u),
        u.screen == Screen::FileBrowser(b),
        call_ensures(App::list_request, (&a, path), r),
    ensures
        r is Some <==> a.remote == Some(b.server_id),
        r matches Some(q) ==> q.server_id == b.server_id && (path matches Some(p) ==> q.path == p) && (path is None
            ==> q.path == b.remote_cwd),
{
}

/// A selection on the local side goes up to the remote directory, one on the remote
/// side comes down to the local one. An empty one, and one without a connection,
/// starts nothing.
pub proof fn a_selection_goes_to_the_other_side(
    a: &mut App,
    u: UnlockedState,
    b: FileBrowserState,
    side: Side,
    selection: &[BrowserEntry],
    strings: Strings,
    r: Option<TransferStart>,
)
    requires
        old(a).state == AppState::Unlocked(u),
        u.screen == Screen::FileBrowser(b),
        call_ensures(App::begin_transfer, (a, side, selection, &strings), r),
    ensures
        r is Some <==> selection@.len() > 0 && old(a).remote == Some(b.server_id),
        r matches Some(start) ==> (side == Side::Local ==> start.direction == Direction::Upload && start.dest
            == b.remote_cwd && start.title == strings.transfer_title_upload),
        r matches Some(start) ==> (side == Side::Remote ==> start.direction == Direction::Download && start.dest
            == b.local_cwd && start.title == strings.transfer_title_download),
        r matches Some(start) ==> start.sources@.len() == selection@.len(),
{
}

/// A transfer that is over leaves its summary, and the remote side is listed again
/// where it was; a broken stream ends the connection.
pub proof fn a_transfer_leaves_its_summary(
    a: &mut App,
    u: UnlockedState,
    b: FileBrowserState,
    outcome: Result<TransferSummary, AppError>,
    size: &str,
    strings: Strings,
    r: Option<String>,
)
    requires
        old(a).state == AppState::Unlocked(u),
        u.screen == Screen::FileBrowser(b),
        call_ensures(App::transfer_over, (a, outcome, size, &strings), r),
    ensures
        r == Some(b.remote_cwd),
        final(a).state matches AppState::Unlocked(v) && (v.screen matches Screen::FileBrowser(is) && is.status is Some
            && is.remote_cwd == b.remote_cwd && is.local_cwd == b.local_cwd && is.server_id == b.server_id),
        outcome is Ok ==> final(a).remote == old(a).remote,
        outcome matches Err(e) ==> (is_fatal(e@) ==> final(a).remote is None) && (!is_fatal(e@) ==> final(a).remote
            == old(a).remote),
{
}

/// The progress line names the file that moves, counts the files that were begun,
/// and shows the bytes that are through.
pub proof fn progress_is_shown_as_it_comes(p: &mut TransferProgress, event: TransferEvent)
    requires
        old(p).file_index < usize::MAX,
        call_ensures(TransferProgress::take, (p, &event), ()),
    ensures
        event matches TransferEvent::ItemStarted { name, .. } ==> final(p).name == name && final(p).file_index
            == old(p).file_index + 1 && final(p).done_bytes == old(p).done_bytes,
        event matches TransferEvent::Progress { done_bytes } ==> final(p).done_bytes == done_bytes && final(p).name
            == old(p).name && final(p).file_index == old(p).file_index,
        event matches TransferEvent::Scanning { files, bytes } ==> final(p).file_count == files && final(p).total_bytes
            == bytes,
{
}

/// The log of a run is said to be written where it was, or why it was not.
pub proof fn a_written_log_is_told(
    a: &mut App,
    u: UnlockedState,
    run: ScriptRunState,
    path: &str,
    result: Result<(), String>,
    strings: Strings,
)
    requires
        old(a).state == AppState::Unlocked(u),
        u.screen == Screen::ScriptRun(run),
        call_ensures(App::log_written, (a, path, result, &strings), ()),
    ensures
        final(a).state matches AppState::Unlocked(v) && (v.screen matches Screen::ScriptRun(s) && (s.notice
            matches Some(text) && (result is Ok ==> text@ == strings.status_saved@ + path@) && (result matches Err(e)
            ==> text@ == strings.save_error_prefix@ + e@))),
{
}

/// A device entry that was written leads to the write of the vault; one that could
/// not be written ends the change, and is removed.
pub proof fn the_entry_comes_before_the_vault(
    u: &mut UnlockedState,
    change: ModeChange,
    result: Result<(), AppError>,
    strings: Strings,
    r: Effect,
)
    requires
        call_ensures(UnlockedState::device_written, (u, change, result, &strings), r),
    ensures
        result is Ok ==> final(u).config.totp == change.totp && final(u).slots == old(u).slots && (r
            matches Effect::Save(pending) && pending.slots == Some(change.slots)),
        result is Err ==> final(u).config == old(u).config && final(u).slots == old(u).slots && r == Effect::DeleteDevice,
{
}

/// A vault with a device is written behind its entry, one without is written at
/// once.
pub proof fn an_entry_is_written_first(vault: NewVault, r: WriteStep)
    requires
        call_ensures(first_write, (&vault,), r),
    ensures
        vault.device is Some <==> r == WriteStep::Device,
        vault.device is None <==> r == WriteStep::Vault,
{
}

/// A step that was spent at the everyday unlock stays spent while the application
/// runs; a code that was refused spends none.
pub proof fn a_spent_step_stays_spent(
    a: &mut App,
    device: DeviceState,
    check: CodeCheck,
    strings: Strings,
    r: DailyEffect,
)
    requires
        call_ensures(App::daily_code_judged, (a, device, check, &strings), r),
    ensures
        check matches CodeCheck::Accepted(step) ==> final(a).last_code_step >= step && final(a).last_code_step >= old(
            a,
        ).last_code_step,
        !(check is Accepted) ==> final(a).last_code_step == old(a).last_code_step,
        final(a).lang == old(a).lang && final(a).remote == old(a).remote,
{
}

/// A new vault holds the key and the device that were drawn for it, and the secret
/// where its mode has a code.
pub proof fn a_new_vault_holds_what_was_drawn(
    mode: AuthMode,
    password: Option<Secret>,
    secret: Option<Secret>,
    device: Option<DeviceState>,
    key: MasterKey,
    draw: Draw,
    device_draw: Draw,
    costs: KdfParams,
    r: Result<NewVault, AppError>,
)
    requires
        call_ensures(
            plan_vault_with,
            (costs, mode, &password, &secret, Ok(device), Ok(key), draw, device_draw),
            r,
        ),
    ensures
        r matches Ok(v) ==> v.device == device && v.unlocked.master_key == key && v.unlocked.config.servers@.len() == 0,
        r matches Ok(v) ==> (mode == AuthMode::PasswordTotp || mode == AuthMode::TotpDaily ==> (secret matches Some(s)
            ==> (v.unlocked.config.totp matches Some(t) && t.secret_base32@ == s@))),
        r matches Ok(v) ==> (mode == AuthMode::Password || mode == AuthMode::NoPrompt ==> v.unlocked.config.totp is None),
{
}

/// A config that was read is offered for import, host by host; one that was not
/// says why and offers nothing.
pub proof fn a_read_config_is_offered(
    a: &mut App,
    u: UnlockedState,
    read: Result<String, Option<String>>,
    home: Option<&str>,
    strings: Strings,
)
    requires
        old(a).state == AppState::Unlocked(u),
        call_ensures(App::ssh_config_read, (a, read, home, &strings), ()),
    ensures
        final(a).state matches AppState::Unlocked(v) && v.config == u.config && (v.screen matches Screen::SshImport(s) && (
        read matches Ok(text) ==> host_views(s.hosts@) == parsed(text@, text_of_ref(home)) && s.error is None) && (read
            is Err ==> s.hosts@.len() == 0 && s.error is Some) && (read matches Err(Some(why)) ==> (s.error
            matches Some(text) && text@ == strings.ssh_import_error_prefix@ + why@))),
{
}

/// A listing that came in is shown without hidden files as the browser opens, in
/// the directories it was opened on.
pub proof fn a_browser_opens_on_its_directories(
    a: &mut App,
    u: UnlockedState,
    id: Uuid,
    name: String,
    local: String,
    remote: String,
    listing: Result<Vec<RemoteEntry>, AppError>,
    strings: Strings,
)
    requires
        old(a).state == AppState::Unlocked(u),
        call_ensures(App::open_browser, (a, id, name, local, remote, listing, &strings), ()),
    ensures
        final(a).state matches AppState::Unlocked(v) && v.config == u.config && (v.screen matches Screen::FileBrowser(b)
            && b.server_id == id && b.server_name == name && b.local_cwd == local && b.remote_cwd == remote
            && !b.show_hidden && (listing is Ok ==> b.remote_error is None) && (listing matches Err(e) ==> (
        b.remote_error matches Some(text) && text@ == strings.sftp_error_prefix@ + error_text(e@)))),
        listing is Ok ==> final(a).remote == old(a).remote,
{
}

/// The file browser of a server opens on what is stored for it: its own address,
/// its name, and where both panes were left.
pub proof fn a_browser_opens_for_its_server(a: App, u: UnlockedState, i: int, r: Option<FilesContext>)
    requires
        a.state == AppState::Unlocked(u),
        0 <= i < u.config.servers@.len(),
        forall|j: int| 0 <= j < i ==> (#[trigger] u.config.servers@[j]).id != u.config.servers@[i].id,
        call_ensures(App::files_context, (&a, u.config.servers@[i].id), r),
    ensures
        r matches Some(c) && {
            &&& c.server_name == u.config.servers@[i].name
            &&& c.last_remote == u.config.servers@[i].last_remote_dir
            &&& c.last_local == u.config.servers@[i].last_local_dir
            &&& c.target matches Ok(t) ==> t.endpoint.host == u.config.servers@[i].host && t.endpoint.port
                == u.config.servers@[i].port && t.endpoint.username == u.config.servers@[i].username
        },
{
    lemma_server_index(u.config.servers@, u.config.servers@[i].id);
}

/// A session that connected is recorded at its time, with a fingerprint only where
/// it was the first; what is read of the machine later is added to that record.
pub proof fn a_session_is_recorded_at_its_time(
    a: &mut App,
    b: &mut App,
    id: Uuid,
    outcome: HostKeyOutcome,
    jumps: &[HostKeyOutcome],
    ids: &[Uuid],
    now: u64,
    r: (SessionRecord, Effect),
    record: &mut SessionRecord,
    info: Option<SystemInfo>,
    effect: Effect,
)
    requires
        call_ensures(App::handshake_done, (a, id, &outcome, jumps, ids, now), r),
        call_ensures(App::finish, (b, id, record, info), effect),
    ensures
        r.0.connected_at == now,
        r.0.system_info is None,
        outcome matches HostKeyOutcome::FirstConnect { fingerprint } ==> r.0.fingerprint == Some(fingerprint),
        !(outcome is FirstConnect) ==> r.0.fingerprint is None,
        old(a).state is Unlocked ==> r.1 is Save,
        final(record).system_info == info,
        final(record).connected_at == old(record).connected_at,
        final(record).fingerprint == old(record).fingerprint,
        info is None ==> effect == Effect::Nothing && final(b).state == old(b).state,
        info is Some && old(b).state is Unlocked ==> effect is Save,
{
}

/// A live connection belongs to the server it was opened to, and ends with a broken
/// stream alone.
pub proof fn a_live_connection_belongs_to_its_server(a: &mut App, b: &mut App, id: Uuid, e: AppError)
    requires
        call_ensures(App::session_opened, (a, id), ()),
        call_ensures(App::drop_remote_if_fatal, (b, &e), ()),
    ensures
        final(a).remote == Some(id) && final(a).state == old(a).state,
        e is Sftp || e is Io || e is Ssh ==> final(b).remote is None,
        e is Validation || e is Keyring || e is CorruptFile ==> final(b).remote == old(b).remote,
        final(b).state == old(b).state,
{
}

/// A converted vault keeps its key, its servers and its settings, and has the old
/// secret as its code secret.
pub proof fn a_conversion_keeps_the_vault(
    costs: KdfParams,
    from: Unlocked,
    secret: Secret,
    password: Secret,
    device: Option<DeviceState>,
    draw: Draw,
    device_draw: Draw,
    r: Result<NewVault, AppError>,
)
    requires
        call_ensures(plan_migration_with, (costs, from, &secret, &password, Ok(device), draw, device_draw), r),
    ensures
        r matches Ok(v) ==> v.device == device && v.unlocked.master_key == from.master_key && v.unlocked.config.servers
            == from.config.servers && v.unlocked.config.auto_lock_minutes == from.config.auto_lock_minutes && (
        v.unlocked.config.totp matches Some(t) && t.secret_base32@ == secret@),
{
}

} // verus!
