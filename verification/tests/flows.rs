use ssh_control::app::files::{first_remote_path, local_cwd, remote_cwd, remote_entries, FilesStep};
use ssh_control::app::sessions::{FleetRun, FleetStep};
use ssh_control::app::state::{App, AppState, NextStep, Screen, UnlockedState};
use ssh_control::app::steps::{AfterSave, Effect};
use ssh_control::config::device::DeviceState;
use ssh_control::config::format::{SLOT_DEVICE, SLOT_PASSWORD};
use ssh_control::config::keyslot::{find, has, unwrap_device, unwrap_password, wrap_password_with, Draw};
use ssh_control::config::store::init;
use ssh_control::config::{
    AuthMethod, ConnectMode, Script, ScriptStep, Secret, ServerEntry, ServerSort, StepCondition, SystemInfo, Uuid,
};
use ssh_control::crypto::kdf::KdfParams;
use ssh_control::crypto::wiped::SecretKey;
use ssh_control::error::AppError;
use ssh_control::i18n::{Lang, Strings};
use ssh_control::session::JumpRecord;
use ssh_control::ssh::sftp::client::RemoteEntry;
use ssh_control::ssh::sftp::wire::FileKind;
use ssh_control::ssh::transfer::{Direction, TransferSummary};
use ssh_control::ssh::HostKeyOutcome;
use ssh_control::totp::AuthMode;
use ssh_control::tui::{
    long_enough, matches_search, BrowserEntry, FormMode, MainMenuState, ScriptFormData, ScriptRunState, ServerFormData, Side, Theme,
};

const PASSWORD: &str = "correct horse battery";

fn entry(name: &str) -> ServerEntry {
    ServerEntry::new(name.into(), format!("{name}.example.com"), 22, "root".into(), AuthMethod::Agent)
}

fn app(servers: Vec<ServerEntry>) -> App {
    let unlocked = init(PASSWORD).expect("init");
    let mut config = unlocked.config;
    config.servers = servers;
    App {
        state: AppState::Unlocked(UnlockedState {
            config,
            master_key: unlocked.master_key,
            slots: unlocked.slots,
            screen: Screen::MainMenu(MainMenuState { selected: None }),
            status: None,
            help_open: false,
        }),
        lang: Lang::English,
        theme: Theme { index: 0 },
        should_quit: false,
        last_activity: 0,
        remote: None,
        connecting: None,
        last_code_step: 0,
    }
}

fn open(app: &App) -> &UnlockedState {
    match &app.state {
        AppState::Unlocked(u) => u,
        _ => panic!("expected an open vault"),
    }
}

fn status(app: &App) -> Option<&str> {
    open(app).status.as_ref().map(|s| s.text.as_str())
}

fn script(command: &str, run_on_connect: bool) -> Script {
    Script {
        id: Uuid::new_v4(),
        name: "deploy".into(),
        run_on_connect,
        steps: vec![ScriptStep { command: command.into(), condition: StepCondition::Always, timeout_secs: None }],
    }
}

fn step(app: &mut App, next: NextStep) -> Effect {
    app.apply_local_step(next, &strings(), Some("me")).expect("a local step never fails")
}

/// Carries out the write that a step asked for, and hands back how it went.
fn save(app: &mut App, effect: Effect, result: Result<(), AppError>) -> Effect {
    match effect {
        Effect::Save(pending) => app.saved(pending, result, &strings(), 10),
        _ => panic!("a write is due"),
    }
}

#[test]
fn a_connect_takes_its_own_scripts_expanded() {
    let mut web = entry("web");
    web.scripts = vec![script("echo {{name}}", true), script("never", false)];
    let id = web.id;
    let a = app(vec![web]);
    let context = a.connect_context(id).expect("the server is there");
    assert_eq!(context.target.unwrap().endpoint.host, "web.example.com");
    assert_eq!(context.on_connect.len(), 1);
    assert_eq!(context.on_connect[0].steps[0].command, "echo web");
    assert!(a.connect_context(Uuid::nil()).is_none());
}

#[test]
fn a_failed_connect_says_why() {
    let s = strings();
    let mut a = app(vec![]);
    a.connect_failed(&AppError::HostKeyChanged { fingerprint: "SHA256:x".into() }, &s, 1);
    assert_eq!(status(&a), Some("[host_key_changed_prefix]SHA256:x[host_key_changed_suffix]"));
    a.connect_failed(&AppError::SshConnect("refused".into()), &s, 1);
    assert_eq!(status(&a), Some("[connect_error_prefix]connection failed: refused"));
}

#[test]
fn a_handshake_teaches_the_server_and_its_bastions() {
    let (web, bastion) = (entry("web"), entry("bastion"));
    let (id, hop) = (web.id, bastion.id);
    let mut a = app(vec![web, bastion]);
    let first = |f: &str| HostKeyOutcome::FirstConnect { fingerprint: f.into() };
    let (mut record, effect) = a.handshake_done(id, &first("SHA256:w"), &[first("SHA256:b")], &[hop], 100);
    assert!(matches!(effect, Effect::Save(p) if matches!(p.after, AfterSave::BestEffort)));
    let servers = &open(&a).config.servers;
    assert_eq!(servers[0].host_key_fingerprint.as_deref(), Some("SHA256:w"));
    assert_eq!(servers[0].last_connected_unix, Some(100));
    assert_eq!(servers[1].host_key_fingerprint.as_deref(), Some("SHA256:b"));
    assert_eq!(servers[1].last_connected_unix, None);

    assert!(matches!(a.finish(id, &mut record, None), Effect::Nothing));
    let info = SystemInfo { cpu_cores: Some(2), ..SystemInfo::default() };
    assert!(matches!(a.finish(id, &mut record, Some(info)), Effect::Save(_)));
    assert_eq!(open(&a).config.servers[0].last_connected_unix, Some(100));
    assert_eq!(open(&a).config.servers[0].system_info.as_ref().unwrap().cpu_cores, Some(2));

    // A record of a server that is gone changes nothing.
    let jump = JumpRecord { server_id: Uuid::nil(), fingerprint: "SHA256:z".into() };
    a.record_session(Uuid::nil(), &record, &[jump]);
    assert_eq!(open(&a).config.servers[0].host_key_fingerprint.as_deref(), Some("SHA256:w"));
}

#[test]
fn a_shell_that_ended_well_leaves_no_message() {
    let s = strings();
    let mut a = app(vec![]);
    a.session_ended(Err(AppError::Ssh("reset".into())), &s, 5);
    assert!(status(&a).unwrap().starts_with("[disconnected_prefix]"));
    a.session_ended(Ok(()), &s, 5);
    assert_eq!(status(&a), None);
}

#[test]
fn a_fleet_run_expands_for_each_server_and_passes_over_what_it_cannot_reach() {
    let mut origin = entry("origin");
    origin.scripts.push(script("ping {{host}}", false));
    let mut broken = entry("broken");
    broken.jump_host = Some(Uuid::nil());
    let other = entry("other");
    let script_id = origin.scripts[0].id;
    let ids = [origin.id, broken.id, Uuid::nil(), other.id];
    let origin_id = origin.id;
    let a = app(vec![origin, broken, other]);
    let plan = a.plan_runs(origin_id, script_id, &ids).expect("there is something to run");
    assert_eq!((plan.origin_name.as_str(), plan.script_name.as_str()), ("origin", "deploy"));
    let commands: Vec<&str> = plan.runs.iter().map(|r| r.script.steps[0].command.as_str()).collect();
    assert_eq!(commands, ["ping origin.example.com", "ping broken.example.com", "ping other.example.com"]);

    let mut run = FleetRun::new();
    assert!(matches!(run.advance(&plan), FleetStep::Connect { server: 0 }));
    assert!(matches!(run.advance(&plan), FleetStep::Refused { server: 1, message } if message.contains("no longer exists")));
    assert!(matches!(run.advance(&plan), FleetStep::Connect { server: 2 }));
    assert!(matches!(run.advance(&plan), FleetStep::Done { cancelled: false }));

    let mut stopped = FleetRun::new();
    stopped.advance(&plan);
    stopped.cancel();
    assert!(matches!(stopped.advance(&plan), FleetStep::Done { cancelled: true }));

    assert!(a.plan_runs(origin_id, script_id, &[Uuid::nil()]).is_none());
    assert!(a.plan_runs(origin_id, Uuid::nil(), &ids).is_none());
    assert!(a.plan_runs(Uuid::nil(), script_id, &ids).is_none());
}

#[test]
fn a_run_that_is_over_is_shown() {
    let mut a = app(vec![]);
    a.runs_over(ScriptRunState {
        server_id: Uuid::nil(),
        script_id: Uuid::nil(),
        server_name: "s".into(),
        script_name: "d".into(),
        log: "out".into(),
        cancelled: false,
        notice: None,
    });
    assert!(matches!(&open(&a).screen, Screen::ScriptRun(r) if r.log == "out"));
    assert!(matches!(step(&mut a, NextStep::ScriptRunSave("/tmp/l".into())), Effect::WriteLog { path } if path == "/tmp/l"));
    let s = strings();
    a.log_written("/tmp/l", Ok(()), &s);
    assert!(matches!(&open(&a).screen, Screen::ScriptRun(r) if r.notice.as_deref() == Some("[status_saved]/tmp/l")));
    a.log_written("/tmp/l", Err("full".into()), &s);
    assert!(matches!(&open(&a).screen, Screen::ScriptRun(r) if r.notice.as_deref() == Some("[save_error_prefix]full")));
    assert!(status(&a).is_none(), "the footer is not where the user looks");
}

fn drawn_slot() -> Draw {
    Draw { salt: Ok([1; 16]), nonce: Ok([2; 12]) }
}

fn no_entropy() -> AppError {
    AppError::Crypto("no entropy".into())
}

fn no_draw() -> Draw {
    Draw { salt: Err(no_entropy()), nonce: Err(no_entropy()) }
}

#[test]
fn a_mode_without_a_draw_cannot_fail() {
    let mut a = app(vec![]);
    a.open_settings(true);
    let s = strings();
    let AppState::Unlocked(u) = &mut a.state else { panic!("open") };
    // The password slot stays as it is, so nothing has to be drawn.
    let effect =
        u.change_security_mode_with(AuthMode::Password, None, None, Ok(None), no_draw(), no_draw(), &s);
    assert!(matches!(effect, Effect::Save(_)));
    u.slots.clear();
    let effect =
        u.change_security_mode_with(AuthMode::Password, None, None, Ok(None), no_draw(), no_draw(), &s);
    assert!(matches!(effect, Effect::Nothing));
    assert!(matches!(&u.screen, Screen::Settings(p) if p.error.as_deref().unwrap().contains("no way in")));
}

#[test]
fn a_mode_is_built_of_what_was_drawn() {
    let mut a = app(vec![]);
    a.open_settings(true);
    let s = strings();
    let AppState::Unlocked(u) = &mut a.state else { panic!("open") };
    let device = || DeviceState::new_at(Ok(SecretKey::new([1; 32])), 77).map(Some);

    let effect = u.change_security_mode_with(AuthMode::NoPrompt, None, None, device(), no_draw(), drawn_slot(), &s);
    let Effect::WriteDevice { state, change } = effect else { panic!("the entry comes first") };
    assert_eq!(state.last_password_check_unix, 77);
    assert_eq!((change.slots.len(), change.slots[1].salt, change.slots[1].wrap_nonce), (2, [1; 16], [2; 12]));
    assert_eq!(
        unwrap_device(&change.slots[1], &SecretKey::new([1; 32])).expect("unwraps").as_bytes(),
        u.master_key.as_bytes()
    );

    let effect = u.change_security_mode_with(AuthMode::NoPrompt, None, None, device(), no_draw(), no_draw(), &s);
    assert!(matches!(effect, Effect::DeleteDevice));
    let effect =
        u.change_security_mode_with(AuthMode::NoPrompt, None, None, Err(no_entropy()), no_draw(), drawn_slot(), &s);
    assert!(matches!(effect, Effect::DeleteDevice));
    assert!(matches!(&u.screen, Screen::Settings(p) if p.error.as_deref().unwrap().contains("no entropy")));
}

#[test]
fn a_wrapped_password_slot_is_saved_in_place_of_the_old_one() {
    let a = app(vec![]);
    let u = open(&a);
    let params = KdfParams { m_cost: 8, t_cost: 1, p_cost: 1 };
    let slot = wrap_password_with("another", params, drawn_slot(), &u.master_key).expect("wraps");
    match u.password_wrapped(Ok(slot)) {
        Ok(Effect::Save(pending)) => {
            let slots = pending.slots.expect("new slots");
            assert_eq!((slots.len(), slots[0].salt), (1, [1; 16]));
        }
        _ => panic!("a write is due"),
    }
    assert!(matches!(u.password_wrapped(Err(no_entropy())), Err(AppError::Crypto(m)) if m == "no entropy"));
}

#[test]
fn the_browser_opens_where_it_was_left() {
    assert_eq!(local_cwd(Some("/a".into()), true, Some("/b".into())), "/a");
    assert_eq!(local_cwd(Some("/a".into()), false, Some("/b".into())), "/b");
    assert_eq!(local_cwd(None, false, None), "/");
    assert_eq!(first_remote_path(&None), ".");
    assert_eq!(first_remote_path(&Some("/srv".into())), "/srv");
    assert_eq!(remote_cwd(Ok("/srv".into()), None), "/srv");
    assert_eq!(remote_cwd(Err(AppError::VaultInUse), Some(Ok("/root".into()))), "/root");
    assert_eq!(remote_cwd(Err(AppError::VaultInUse), None), "/");
}

fn remote(name: &str, kind: FileKind) -> RemoteEntry {
    RemoteEntry { name: name.into(), kind, size: 3, mtime: None }
}

#[test]
fn hidden_files_are_hidden_on_both_sides_or_neither() {
    let listing = [remote(".ssh", FileKind::Dir), remote("a", FileKind::File), remote("d", FileKind::Dir)];
    let shown: Vec<(String, bool)> =
        remote_entries(&listing, false).into_iter().map(|e| (e.name, e.is_dir)).collect();
    assert_eq!(shown, [("a".to_string(), false), ("d".to_string(), true)]);
    assert_eq!(remote_entries(&listing, true).len(), 3);
}

fn browser(a: &mut App, id: Uuid) {
    a.session_opened(id);
    a.open_browser(
        id,
        "web".into(),
        "/home/u".into(),
        "/srv".into(),
        Ok(vec![remote("a", FileKind::File)]),
        &strings(),
    );
}

#[test]
fn a_live_session_is_used_again() {
    let s = strings();
    let web = entry("web");
    let id = web.id;
    let mut a = app(vec![web]);
    let context = a.files_context(id).expect("the server is there");
    assert!(matches!(a.begin_files(id, context.target, &s, 7), FilesStep::Connect { .. }));
    assert_eq!(a.connecting, Some((id, 7)));
    a.session_opened(id);
    let context = a.files_context(id).expect("the server is there");
    assert!(matches!(a.begin_files(id, context.target, &s, 7), FilesStep::Reuse));
    assert!(matches!(a.begin_files(id, Err(AppError::Validation("loop".into())), &s, 7), FilesStep::Failed));
    assert_eq!(a.remote, None);
    assert!(status(&a).unwrap().starts_with("[connect_error_prefix]"));
    assert!(a.files_context(Uuid::nil()).is_none());
}

#[test]
fn only_a_fatal_error_drops_the_session() {
    let s = strings();
    let web = entry("web");
    let id = web.id;
    let mut a = app(vec![web]);
    browser(&mut a, id);
    assert_eq!(a.list_request(None).unwrap().path, "/srv");
    assert_eq!(a.list_request(Some("/etc".into())).unwrap().path, "/etc");

    a.remote_listed("/etc".into(), Ok(vec![]), &s);
    assert!(matches!(&open(&a).screen, Screen::FileBrowser(b) if b.remote_cwd == "/etc"));
    let denied = AppError::SftpStatus { code: 3, path: "/root".into(), message: "permission denied".into() };
    a.remote_listed("/root".into(), Err(denied), &s);
    assert_eq!(a.remote, Some(id));
    assert!(
        matches!(&open(&a).screen, Screen::FileBrowser(b) if b.remote_cwd == "/etc" && b.remote_error.is_some())
    );

    let lost = AppError::SftpStatus { code: 7, path: "/".into(), message: "lost".into() };
    a.drop_remote_if_fatal(&lost);
    assert_eq!(a.remote, None);
    assert!(a.list_request(None).is_none(), "without a session there is nothing to list");
    for e in [AppError::Sftp("x".into()), AppError::Io("x".into()), AppError::Ssh("x".into())] {
        a.remote = Some(id);
        a.drop_remote_if_fatal(&e);
        assert_eq!(a.remote, None);
    }
}

#[test]
fn a_transfer_goes_from_one_pane_to_the_other() {
    let s = strings();
    let web = entry("web");
    let id = web.id;
    let mut a = app(vec![web]);
    browser(&mut a, id);
    let pick = [BrowserEntry { name: "a".into(), is_dir: false, size: 3 }];
    let up = a.begin_transfer(Side::Local, &pick, &s).expect("a transfer");
    assert_eq!((up.direction, up.dest.as_str(), up.title), (Direction::Upload, "/srv", "[transfer_title_upload]"));
    assert_eq!(up.sources, vec![("/home/u/a".to_string(), false)]);
    let down = a.begin_transfer(Side::Remote, &pick, &s).expect("a transfer");
    assert_eq!((down.direction, down.dest.as_str()), (Direction::Download, "/home/u"));
    assert_eq!(down.sources, vec![("/srv/a".to_string(), false)]);

    assert!(a.begin_transfer(Side::Local, &[], &s).is_none());
    assert!(
        matches!(&open(&a).screen, Screen::FileBrowser(b) if b.status.as_deref() == Some("[transfer_nothing_selected]"))
    );
    let summary = TransferSummary { files: 1, bytes: 3, ..TransferSummary::default() };
    assert_eq!(a.transfer_over(Ok(summary), "3 B", &s).as_deref(), Some("/srv"));
    assert!(
        matches!(&open(&a).screen, Screen::FileBrowser(b) if b.status.as_deref() == Some("[transfer_done_prefix]1[transfer_done_separator]3 B"))
    );
    a.transfer_over(Err(AppError::Sftp("cut".into())), "", &s);
    assert_eq!(a.remote, None);
}

#[test]
fn leaving_the_browser_remembers_both_panes() {
    let web = entry("web");
    let id = web.id;
    let mut a = app(vec![web]);
    browser(&mut a, id);
    let effect = step(&mut a, NextStep::FilesBack);
    assert!(matches!(effect, Effect::Save(_)));
    assert_eq!(a.remote, None);
    let server = &open(&a).config.servers[0];
    assert_eq!(server.last_local_dir.as_deref(), Some("/home/u"));
    assert_eq!(server.last_remote_dir.as_deref(), Some("/srv"));
    assert!(matches!(open(&a).screen, Screen::MainMenu(_)));
}

#[test]
fn the_settings_open_on_what_the_vault_has() {
    let mut a = app(vec![]);
    assert!(matches!(step(&mut a, NextStep::GoSettings), Effect::OpenSettings));
    a.open_settings(true);
    match &open(&a).screen {
        Screen::Settings(s) => {
            assert!(s.store_available);
            assert_eq!(s.auth_mode, AuthMode::Password);
            assert_eq!(s.auto_lock_minutes, 15);
            assert_eq!(s.connect_mode, ConnectMode::FullScreen);
        }
        _ => panic!("expected the settings"),
    }
    let effect = step(&mut a, NextStep::SettingsConnectModeSelected(ConnectMode::Pane));
    save(&mut a, effect, Err(AppError::Io("full".into())));
    assert_eq!(open(&a).config.connect_mode, ConnectMode::FullScreen, "a failed write puts it back");
    assert!(matches!(step(&mut a, NextStep::SettingsLangSelected(Lang::Turkish)), Effect::SavePrefs));
    assert_eq!(a.lang, Lang::Turkish);
}

#[test]
fn an_unreadable_ssh_config_still_opens_the_screen() {
    let s = strings();
    let mut a = app(vec![]);
    a.ssh_config_read(Err(Some("no such file".into())), None, &s);
    assert!(
        matches!(&open(&a).screen, Screen::SshImport(i) if i.error.as_deref() == Some("[ssh_import_error_prefix]no such file"))
    );
    a.ssh_config_read(Err(None), None, &s);
    assert!(matches!(&open(&a).screen, Screen::SshImport(i) if i.error.as_deref() == Some("[ssh_import_error_prefix]")));
    a.ssh_config_read(Ok("Host a\n".into()), None, &s);
    assert!(matches!(&open(&a).screen, Screen::SshImport(i) if i.hosts.len() == 1 && i.error.is_none()));
}

#[test]
fn a_new_password_rewraps_the_same_master_key() {
    let mut a = app(vec![]);
    a.open_settings(false);
    let key = open(&a).master_key.clone();
    let effect = step(
        &mut a,
        NextStep::SettingsChangePassword {
            current: Secret::from(PASSWORD.to_string()),
            new: Secret::from("another password".to_string()),
        },
    );
    match &effect {
        Effect::Save(pending) => {
            let slots = pending.slots.as_ref().expect("new slots");
            let slot = find(slots, SLOT_PASSWORD).expect("a password slot");
            assert_eq!(unwrap_password(slot, "another password").unwrap().as_bytes(), key.as_bytes());
            assert!(unwrap_password(slot, PASSWORD).is_err());
        }
        _ => panic!("a write is due"),
    }
    save(&mut a, effect, Ok(()));
    assert!(matches!(&open(&a).screen, Screen::Settings(s) if s.info.as_deref() == Some("[status_password_changed]")));
    assert!(unwrap_password(&open(&a).slots[0], "another password").is_ok());
}

#[test]
fn the_wrong_current_password_changes_nothing() {
    let mut a = app(vec![]);
    a.open_settings(false);
    let effect = step(
        &mut a,
        NextStep::SettingsChangePassword {
            current: Secret::from("nope".to_string()),
            new: Secret::from("another password".to_string()),
        },
    );
    assert!(matches!(effect, Effect::Nothing));
    assert!(
        matches!(&open(&a).screen, Screen::Settings(s) if s.error.as_deref() == Some("[err_current_password_wrong]"))
    );
}

#[test]
fn a_mode_with_a_device_writes_its_entry_first() {
    let mut a = app(vec![]);
    a.open_settings(true);
    let effect =
        step(&mut a, NextStep::ChangeSecurityMode { mode: AuthMode::NoPrompt, password: None, totp_secret: None });
    let Effect::WriteDevice { state, change } = effect else { panic!("the entry comes first") };
    let state: DeviceState = state;
    assert!(state.device_key().is_ok());
    assert!(has(&change.slots, SLOT_PASSWORD), "the recovery path stays");
    let s = strings();
    let AppState::Unlocked(u) = &mut a.state else { panic!("open") };
    let effect = u.device_written(change, Ok(()), &s);
    save(&mut a, effect, Ok(()));
    assert!(has(&open(&a).slots, SLOT_DEVICE));
    assert_eq!(open(&a).current_auth_mode(), AuthMode::NoPrompt);
}

#[test]
fn scripts_are_added_edited_and_deleted() {
    let web = entry("web");
    let id = web.id;
    let mut a = app(vec![web]);
    step(&mut a, NextStep::GoScripts(id));
    step(&mut a, NextStep::GoScriptAdd);
    let data = |name: &str| ScriptFormData {
        name: name.into(),
        run_on_connect: true,
        steps: vec![ScriptStep { command: "ls".into(), condition: StepCondition::Always, timeout_secs: None }],
    };
    let effect = step(&mut a, NextStep::ScriptFormSave(data("one")));
    save(&mut a, effect, Ok(()));
    assert!(matches!(open(&a).screen, Screen::Scripts(_)));
    let script_id = open(&a).config.servers[0].scripts[0].id;
    step(&mut a, NextStep::GoScriptEdit(script_id));
    assert!(matches!(&open(&a).screen, Screen::ScriptForm(f) if f.mode == FormMode::Edit(script_id)));
    let effect = step(&mut a, NextStep::ScriptFormSave(data("two")));
    save(&mut a, effect, Ok(()));
    assert_eq!(open(&a).config.servers[0].scripts[0].name, "two");
    assert_eq!(open(&a).config.servers[0].scripts[0].id, script_id);
    step(&mut a, NextStep::GoScriptDeleteConfirm(script_id));
    let effect = step(&mut a, NextStep::ConfirmDeleteScriptYes);
    save(&mut a, effect, Ok(()));
    assert!(open(&a).config.servers[0].scripts.is_empty());
}

#[test]
fn editing_a_server_keeps_what_was_learned_about_it() {
    let mut web = entry("web");
    web.host_key_fingerprint = Some("SHA256:w".into());
    let id = web.id;
    let mut a = app(vec![web]);
    step(&mut a, NextStep::GoEdit(id));
    let effect = step(
        &mut a,
        NextStep::FormSubmit(ServerFormData {
            name: "renamed".into(),
            host: "new.example.com".into(),
            port: 2222,
            username: "u".into(),
            tags: vec![],
            auth: AuthMethod::Agent,
            jump_host: None,
        }),
    );
    save(&mut a, effect, Ok(()));
    let server = &open(&a).config.servers[0];
    assert_eq!((server.id, server.name.as_str(), server.port), (id, "renamed", 2222));
    assert_eq!(server.host_key_fingerprint.as_deref(), Some("SHA256:w"));
}

#[test]
fn the_sort_order_is_stepped_and_written() {
    let mut a = app(vec![entry("web")]);
    let effect = step(&mut a, NextStep::CycleSort);
    assert_ne!(open(&a).config.server_sort, ServerSort::Name);
    // A failed write of a display preference is said, not undone.
    save(&mut a, effect, Err(AppError::Io("full".into())));
    assert_ne!(open(&a).config.server_sort, ServerSort::Name);
    assert!(status(&a).unwrap().starts_with("[save_error_prefix]"));
}

#[test]
fn locking_and_quitting_drop_the_session() {
    let mut a = app(vec![]);
    a.remote = Some(Uuid::nil());
    assert!(matches!(step(&mut a, NextStep::Lock), Effect::Relock));
    assert_eq!(a.remote, None);
    a.remote = Some(Uuid::nil());
    step(&mut a, NextStep::Quit);
    assert!(a.should_quit && a.remote.is_none());
}

#[test]
fn locking_overwrites_the_key_and_the_credentials() {
    let mut web = entry("web");
    web.auth = AuthMethod::password("hunter2".into());
    let mut a = app(vec![web]);
    let AppState::Unlocked(u) = &mut a.state else { panic!("open") };
    u.wipe();
    assert_eq!(u.master_key.as_bytes(), &[0u8; 32]);
    assert!(matches!(&u.config.servers[0].auth, AuthMethod::Password { password } if password.is_empty()));
    a.relocked(AppState::Unopenable);
    assert!(matches!(a.state, AppState::Unopenable));
}

#[test]
fn a_search_looks_at_name_host_and_user() {
    let server = entry("Web-1");
    assert!(matches_search(&server, "web"));
    assert!(matches_search(&server, "EXAMPLE"));
    assert!(matches_search(&server, "root"));
    assert!(matches_search(&server, ""));
    assert!(!matches_search(&server, "db"));
}

#[test]
fn a_new_password_has_eight_characters() {
    assert!(long_enough("h\u{e9}llo wo"));
    assert!(!long_enough("h\u{e9}llo w"));
}

#[test]
fn errors_read_as_sentences() {
    for (e, text) in [
        (AppError::SshConnect("x".into()), "connection failed: x"),
        (AppError::Cli("x".into()), "x"),
    ] {
        assert_eq!(e.message(), text);
    }
    let jump = AppError::JumpFailed { host: "b".into(), source: Box::new(AppError::SshConnect("x".into())) };
    assert!(jump.message().contains("b") && jump.message().contains("connection failed: x"));
}

/// Texts that name themselves.
fn strings() -> Strings {
    Strings {
        save_error_prefix: "[save_error_prefix]",
        delete_error_prefix: "[delete_error_prefix]",
        connect_error_prefix: "[connect_error_prefix]",
        sftp_error_prefix: "[sftp_error_prefix]",
        ssh_import_error_prefix: "[ssh_import_error_prefix]",
        disconnected_prefix: "[disconnected_prefix]",
        host_key_changed_prefix: "[host_key_changed_prefix]",
        host_key_changed_suffix: "[host_key_changed_suffix]",
        err_device_not_enrolled: "[err_device_not_enrolled]",
        err_password_required_now: "[err_password_required_now]",
        err_vault_in_use: "[err_vault_in_use]",
        err_totp_replayed: "[err_totp_replayed]",
        err_totp_too_many_failures: "[err_totp_too_many_failures]",
        err_totp_invalid_code: "[err_totp_invalid_code]",
        err_current_password_wrong: "[err_current_password_wrong]",
        vault_in_use_title: "[vault_in_use_title]",
        vault_in_use_message: "[vault_in_use_message]",
        schema_too_new_title: "[schema_too_new_title]",
        schema_too_new_message: "[schema_too_new_message]",
        delete_confirm_prefix: "[delete_confirm_prefix]",
        delete_confirm_suffix: "[delete_confirm_suffix]",
        delete_script_confirm_prefix: "[delete_script_confirm_prefix]",
        delete_script_confirm_suffix: "[delete_script_confirm_suffix]",
        delete_forward_confirm_prefix: "[delete_forward_confirm_prefix]",
        delete_forward_confirm_suffix: "[delete_forward_confirm_suffix]",
        status_auto_locked: "[status_auto_locked]",
        status_saved: "[status_saved]",
        status_deleted: "[status_deleted]",
        status_imported_prefix: "[status_imported_prefix]",
        status_imported_suffix: "[status_imported_suffix]",
        status_script_saved: "[status_script_saved]",
        status_script_deleted: "[status_script_deleted]",
        status_password_changed: "[status_password_changed]",
        status_auto_lock_saved: "[status_auto_lock_saved]",
        status_connect_mode_saved: "[status_connect_mode_saved]",
        status_mode_changed: "[status_mode_changed]",
        transfer_nothing_selected: "[transfer_nothing_selected]",
        transfer_title_upload: "[transfer_title_upload]",
        transfer_title_download: "[transfer_title_download]",
        transfer_cancelled: "[transfer_cancelled]",
        transfer_done_prefix: "[transfer_done_prefix]",
        transfer_done_separator: "[transfer_done_separator]",
        transfer_failed_prefix: "[transfer_failed_prefix]",
        log_exit_prefix: "[log_exit_prefix]",
        log_skipped: "[log_skipped]",
        log_error_prefix: "[log_error_prefix]",
        log_timed_out_prefix: "[log_timed_out_prefix]",
        log_timed_out_suffix: "[log_timed_out_suffix]",
    }
}
