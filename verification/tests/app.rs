use ssh_control::app::locked::{first_look, migration_state, shape_seen, FirstLook, LockedStep, ShapeLook};
use ssh_control::app::state::{help_topic, App, AppState, NextStep, Screen, UnlockedState};
use ssh_control::app::steps::Effect;
use ssh_control::cli::unlock::{
    cancelled, next_question, type_key, Attempts, Prompting, Question, Typing, MAX_TRIES,
};
use ssh_control::config::store::{init, load, peek_shape, seal, Unlocked};
use ssh_control::config::{
    AuthMethod, Config, ForwardKind, Script, Secret, ServerEntry, SystemInfo, TotpConfig, Uuid,
};
use ssh_control::error::AppError;
use ssh_control::i18n::{Lang, Strings};
use ssh_control::session::SessionRecord;
use ssh_control::ssh_config;
use ssh_control::totp::AuthMode;
use ssh_control::tui::{
    is_cancel_key, ConfirmOutcome, ForwardFormData, ForwardsListAction, Input, Key, KeyCode, LockedInput,
    MainMenuAction, ScreenOutcome, ScriptTargetsOutcome, ScriptsListAction, ServerFormData, Theme,
    TotpPromptOutcome, UnlockMode, UnlockOutcome,
};

const PASSWORD: &str = "correct horse battery";

/// What is written of a config in these tests.
fn body(config: &Config) -> Vec<u8> {
    let mut lines = String::new();
    for s in &config.servers {
        let forwards: Vec<&str> = s.forwards.iter().map(|f| if f.enabled { "on" } else { "off" }).collect();
        lines.push_str(&format!(
            "{}|{}|{}|{}|{}|{}\n",
            s.name,
            s.host,
            s.username,
            s.port,
            s.host_key_fingerprint.as_deref().unwrap_or(""),
            forwards.join(",")
        ));
    }
    lines.into_bytes()
}

/// A vault file in memory, and an application over it.
struct Fixture {
    app: App,
    file: Vec<u8>,
    /// The config behind the file, until it is opened.
    stored: Option<Config>,
    /// Whether writes fail.
    blocked: bool,
    plaintext_secret: bool,
    strings: Strings,
}

fn password_vault(f: impl FnOnce(&mut Config)) -> Fixture {
    let mut unlocked = init(PASSWORD).expect("init");
    f(&mut unlocked.config);
    let file = seal(&body(&unlocked.config), &unlocked.master_key, &unlocked.slots).expect("seal");
    let app = App {
        state: AppState::Unopenable,
        lang: Lang::English,
        theme: Theme { index: 0 },
        should_quit: false,
        last_activity: 0,
        remote: None,
        connecting: None,
        last_code_step: 0,
    };
    let mut fixture = Fixture {
        app,
        file,
        stored: Some(unlocked.config),
        blocked: false,
        plaintext_secret: false,
        strings: strings(),
    };
    fixture.app.state = fixture.initial_state();
    fixture
}

impl Fixture {
    fn initial_state(&self) -> AppState {
        match first_look(self.plaintext_secret, true) {
            FirstLook::Migrate => migration_state(),
            FirstLook::Setup => panic!("there is a vault"),
            FirstLook::Peek => match shape_seen(peek_shape(&self.file), &self.strings) {
                ShapeLook::Show(state) => state,
                ShapeLook::ReadDevice { .. } => panic!("a password vault asks no credential store"),
            },
        }
    }

    fn try_unlock(&mut self, password: &str) {
        let result = load(&self.file, password).map(|opened| {
            let config = self.stored.take().expect("opened once");
            assert_eq!(opened.plaintext.as_slice(), body(&config));
            Unlocked { config, master_key: opened.master_key, slots: opened.slots }
        });
        self.app.password_tried(result, &self.strings);
    }

    /// Carries out an effect; a flow that needs a terminal comes back.
    fn perform(&mut self, effect: Effect) -> Option<NextStep> {
        match effect {
            Effect::Nothing | Effect::SavePrefs | Effect::DeleteDevice | Effect::WriteLog { .. } => None,
            Effect::Flow(next) => Some(next),
            Effect::Relock => {
                self.app.state = self.initial_state();
                None
            }
            Effect::OpenSettings => {
                self.app.open_settings(false);
                None
            }
            Effect::ReadSshConfig => {
                self.app.ssh_config_read(Ok(String::new()), None, &self.strings);
                None
            }
            Effect::WriteDevice { .. } => panic!("no mode of these tests keeps a device key"),
            Effect::Save(pending) => {
                let result = if self.blocked {
                    Err(AppError::Io("is a directory".into()))
                } else {
                    let u = unlocked(&self.app);
                    let slots = pending.slots.as_ref().unwrap_or(&u.slots);
                    self.file = seal(&body(&u.config), &u.master_key, slots).expect("seal");
                    Ok(())
                };
                let then = self.app.saved(pending, result, &self.strings, 0);
                self.perform(then)
            }
        }
    }

    fn step(&mut self, next: NextStep) -> Option<NextStep> {
        let effect = self.app.apply_local_step(next, &self.strings, Some("me")).expect("a local step never fails");
        self.perform(effect)
    }

    fn press(&mut self, key: KeyPress) {
        let input = input_for(&self.app, key);
        let next = self.app.resolve_next_step(input);
        self.step(next);
    }

    fn type_password(&mut self, password: &str) {
        let input = LockedInput::Unlock(UnlockOutcome::TryPassword(Secret::from(password.to_string())));
        match self.app.handle_locked_key(input) {
            LockedStep::Unlock { password, first_run } => {
                assert!(!first_run);
                self.try_unlock(password.as_str());
            }
            _ => panic!("a password on the lock screen is a try"),
        }
    }

    /// What a fresh start would read of the file.
    fn reopened(&self) -> String {
        String::from_utf8(load(&self.file, PASSWORD).expect("reopen").plaintext.as_slice().to_vec()).unwrap()
    }
}

#[derive(Clone, Copy)]
enum KeyPress {
    Char(char),
    Enter,
    Esc,
    F1,
    F2,
}

/// What the screens make of the keys these tests press.
fn input_for(app: &App, key: KeyPress) -> Input {
    if let KeyPress::F2 = key {
        return Input::F2;
    }
    let u = unlocked(app);
    let first = u.config.servers.first().map(|s| s.id);
    let script = u.config.servers.first().and_then(|s| s.scripts.first()).map(|s| s.id);
    Input::Screen(match &u.screen {
        Screen::MainMenu(_) => ScreenOutcome::MainMenu(match key {
            KeyPress::Char('a') => MainMenuAction::Add,
            KeyPress::Char('i') => MainMenuAction::SshImport,
            KeyPress::Char('d') => MainMenuAction::Delete(first.expect("a server")),
            KeyPress::Char('s') => MainMenuAction::Scripts(first.expect("a server")),
            KeyPress::Char('p') => MainMenuAction::Forwards(first.expect("a server")),
            KeyPress::Char('q') => MainMenuAction::Quit,
            KeyPress::F1 => MainMenuAction::Settings,
            _ => MainMenuAction::Nothing,
        }),
        Screen::ConfirmDelete { .. } => ScreenOutcome::Confirm(match key {
            KeyPress::Char('y') => ConfirmOutcome::Yes,
            KeyPress::Char('n') | KeyPress::Esc => ConfirmOutcome::No,
            _ => ConfirmOutcome::Nothing,
        }),
        Screen::TotpPrompt(_) => ScreenOutcome::TotpPrompt(match key {
            KeyPress::Enter => TotpPromptOutcome::Submit("000000".into()),
            KeyPress::Esc => TotpPromptOutcome::Cancel,
            _ => TotpPromptOutcome::Nothing,
        }),
        Screen::Scripts(_) => ScreenOutcome::Scripts(match key {
            KeyPress::Enter => ScriptsListAction::Run(script.expect("a script")),
            KeyPress::Char('m') => ScriptsListAction::RunOn(script.expect("a script")),
            KeyPress::Esc => ScriptsListAction::Back,
            _ => ScriptsListAction::Nothing,
        }),
        Screen::ScriptTargets(_) => ScreenOutcome::ScriptTargets(match key {
            KeyPress::Enter => ScriptTargetsOutcome::Run(u.config.servers.iter().map(|s| s.id).collect()),
            KeyPress::Esc => ScriptTargetsOutcome::Cancel,
            _ => ScriptTargetsOutcome::Nothing,
        }),
        Screen::Forwards(_) => ScreenOutcome::Forwards(match key {
            KeyPress::Char('a') => ForwardsListAction::Add,
            KeyPress::Esc => ForwardsListAction::Back,
            _ => ForwardsListAction::Nothing,
        }),
        _ => panic!("no key of these tests is pressed there"),
    })
}

fn entry(name: &str) -> ServerEntry {
    ServerEntry::new(
        name.to_string(),
        format!("{name}.example.com"),
        22,
        "root".to_string(),
        AuthMethod::password("hunter2".into()),
    )
}

fn unlocked(app: &App) -> &UnlockedState {
    match &app.state {
        AppState::Unlocked(u) => u,
        _ => panic!("expected an unlocked vault"),
    }
}

fn screen_name(app: &App) -> &'static str {
    match &app.state {
        AppState::Setup(_) => "Setup",
        AppState::Locked(_) => "Locked",
        AppState::LockedTotpDaily(_) => "LockedTotpDaily",
        AppState::Unopenable => "Unopenable",
        AppState::CannotOpen { .. } => "CannotOpen",
        AppState::Unlocked(u) => match u.screen {
            Screen::MainMenu(_) => "MainMenu",
            Screen::ServerForm(_) => "ServerForm",
            Screen::ConfirmDelete { .. } => "ConfirmDelete",
            Screen::Settings(_) => "Settings",
            Screen::TotpPrompt(_) => "TotpPrompt",
            Screen::Scripts(_) => "Scripts",
            Screen::ScriptTargets(_) => "ScriptTargets",
            Screen::SshImport(_) => "SshImport",
            Screen::Forwards(_) => "Forwards",
            Screen::ForwardForm(_) => "ForwardForm",
            Screen::ConfirmDeleteForward { .. } => "ConfirmDeleteForward",
            Screen::ScriptForm(_) => "ScriptForm",
            Screen::ConfirmDeleteScript { .. } => "ConfirmDeleteScript",
            Screen::ScriptRun(_) => "ScriptRun",
            Screen::FileBrowser(_) => "FileBrowser",
        },
    }
}

#[test]
fn a_password_vault_opens_on_the_lock_screen() {
    let f = password_vault(|_| {});
    assert_eq!(screen_name(&f.app), "Locked");
}

#[test]
fn the_right_password_reaches_the_server_list() {
    let mut f = password_vault(|c| c.servers.push(entry("web-1")));
    f.type_password(PASSWORD);

    assert_eq!(screen_name(&f.app), "MainMenu");
    assert_eq!(unlocked(&f.app).config.servers.len(), 1);
}

#[test]
fn a_wrong_password_stays_on_the_lock_screen() {
    let mut f = password_vault(|_| {});
    f.type_password("not the password");

    match &f.app.state {
        AppState::Locked(unlock) => assert!(unlock.error.is_some(), "the screen must say why"),
        _ => panic!("a wrong password must not change screens"),
    }
}

#[test]
fn a_two_factor_vault_stops_at_the_second_factor() {
    let mut f = password_vault(|c| {
        c.totp = Some(TotpConfig { secret_base32: Secret::from("JBSWY3DPEHPK3PXP".to_string()) });
    });
    f.type_password(PASSWORD);
    assert_eq!(screen_name(&f.app), "TotpPrompt");

    for c in "000000".chars() {
        f.press(KeyPress::Char(c));
    }
    f.press(KeyPress::Enter);
    assert_eq!(screen_name(&f.app), "TotpPrompt", "a wrong code must not fall through to the list");
}

#[test]
fn cancelling_the_second_factor_relocks_the_vault() {
    let mut f = password_vault(|c| {
        c.totp = Some(TotpConfig { secret_base32: Secret::from("JBSWY3DPEHPK3PXP".to_string()) });
    });
    f.type_password(PASSWORD);

    f.press(KeyPress::Esc);
    assert_eq!(screen_name(&f.app), "Locked", "the decrypted config must be gone, not merely hidden");
}

#[test]
fn a_totp_only_vault_is_offered_the_conversion_first() {
    let mut f = password_vault(|_| {});
    f.plaintext_secret = true;

    f.app.state = f.initial_state();
    match &f.app.state {
        AppState::Locked(unlock) => assert!(matches!(unlock.mode, UnlockMode::MigrateTotpOnly)),
        _ => panic!("a plaintext secret beside the vault must be converted before anything else"),
    }
}

#[test]
fn importing_from_ssh_config_persists_the_picked_hosts() {
    let mut f = password_vault(|_| {});
    f.type_password(PASSWORD);

    f.press(KeyPress::Char('i'));
    assert_eq!(screen_name(&f.app), "SshImport");

    let hosts = ssh_config::parse(
        "Host web-1\n    HostName web1.example.com\n    User deploy\n    Port 2222\n",
        Some("/home/u"),
    );
    f.step(NextStep::SshImportConfirm(hosts));

    assert_eq!(screen_name(&f.app), "MainMenu");
    let entry = &unlocked(&f.app).config.servers[0];
    assert_eq!(entry.name, "web-1");
    assert_eq!(entry.host, "web1.example.com");
    assert_eq!(entry.username, "deploy");
    assert_eq!(entry.port, 2222);

    assert_eq!(f.reopened(), "web-1|web1.example.com|deploy|2222||\n");
}

#[test]
fn a_host_with_no_identity_file_is_imported_as_agent_auth() {
    let mut f = password_vault(|_| {});
    f.type_password(PASSWORD);

    let hosts = ssh_config::parse("Host plain\n    HostName plain.example.com\n", Some("/home/u"));
    f.step(NextStep::SshImportConfirm(hosts));

    assert!(matches!(unlocked(&f.app).config.servers[0].auth, AuthMethod::Agent));
}

#[test]
fn a_failed_import_rolls_the_entries_back_out_of_memory() {
    let mut f = password_vault(|_| {});
    f.type_password(PASSWORD);
    f.press(KeyPress::Char('i'));
    f.blocked = true;

    let hosts = ssh_config::parse("Host web-1\n    HostName web1.example.com\n", Some("/home/u"));
    f.step(NextStep::SshImportConfirm(hosts));

    assert_eq!(screen_name(&f.app), "SshImport", "a failed save keeps the user where they were");
    assert!(unlocked(&f.app).config.servers.is_empty(), "nothing may be left behind in memory");
}

#[test]
fn deleting_a_bastion_puts_the_hosts_behind_it_back_on_a_direct_connect() {
    let mut f = password_vault(|config| {
        let bastion = entry("bastion");
        let mut behind = entry("behind");
        behind.jump_host = Some(bastion.id);
        config.servers = vec![bastion, behind];
    });
    f.type_password(PASSWORD);

    let bastion_id = unlocked(&f.app).config.servers[0].id;
    f.step(NextStep::GoDelete(bastion_id));
    f.step(NextStep::ConfirmYes);

    let servers = &unlocked(&f.app).config.servers;
    assert_eq!(servers.len(), 1);
    assert_eq!(servers[0].jump_host, None, "the reference must go with the entry");
}

#[test]
fn port_forwards_are_added_toggled_and_deleted_through_the_list() {
    let mut f = password_vault(|config| config.servers = vec![entry("web-1")]);
    f.type_password(PASSWORD);

    f.press(KeyPress::Char('p'));
    assert_eq!(screen_name(&f.app), "Forwards");

    f.press(KeyPress::Char('a'));
    assert_eq!(screen_name(&f.app), "ForwardForm");
    let kind = ForwardKind::Local {
        bind_addr: "127.0.0.1".into(),
        bind_port: 8080,
        dest_host: "db.internal".into(),
        dest_port: 5432,
    };
    f.step(NextStep::ForwardFormSave(ForwardFormData { id: None, kind }));

    assert_eq!(screen_name(&f.app), "Forwards");
    let rule_id = unlocked(&f.app).config.servers[0].forwards[0].id;
    assert!(unlocked(&f.app).config.servers[0].forwards[0].enabled);

    // Off, but kept: that is what the flag is for.
    f.step(NextStep::ForwardToggle(rule_id));
    assert!(!unlocked(&f.app).config.servers[0].forwards[0].enabled);
    assert_eq!(unlocked(&f.app).config.servers[0].forwards.len(), 1);

    f.step(NextStep::GoForwardDeleteConfirm(rule_id));
    assert_eq!(screen_name(&f.app), "ConfirmDeleteForward");
    f.step(NextStep::ConfirmDeleteForwardNo);
    assert_eq!(screen_name(&f.app), "Forwards");
    assert_eq!(unlocked(&f.app).config.servers[0].forwards.len(), 1, "\"no\" keeps the rule");

    f.step(NextStep::GoForwardDeleteConfirm(rule_id));
    f.step(NextStep::ConfirmDeleteForwardYes);
    assert_eq!(screen_name(&f.app), "Forwards");
    assert!(unlocked(&f.app).config.servers[0].forwards.is_empty());

    // Every step above saved, so the vault agrees.
    assert_eq!(f.reopened(), "web-1|web-1.example.com|root|22||\n");
}

#[test]
fn a_disabled_forward_survives_a_restart_still_disabled() {
    let mut f = password_vault(|config| config.servers = vec![entry("web-1")]);
    f.type_password(PASSWORD);
    let server_id = unlocked(&f.app).config.servers[0].id;

    f.step(NextStep::GoForwards(server_id));
    let kind = ForwardKind::Dynamic { bind_addr: "127.0.0.1".into(), bind_port: 1080 };
    f.step(NextStep::GoForwardAdd);
    f.step(NextStep::ForwardFormSave(ForwardFormData { id: None, kind }));
    let rule_id = unlocked(&f.app).config.servers[0].forwards[0].id;
    f.step(NextStep::ForwardToggle(rule_id));

    assert_eq!(f.reopened(), "web-1|web-1.example.com|root|22||off\n");
}

#[test]
fn the_forward_steps_need_no_terminal() {
    let mut f = password_vault(|config| config.servers = vec![entry("web-1")]);
    f.type_password(PASSWORD);

    for step in [
        NextStep::GoForwards(unlocked(&f.app).config.servers[0].id),
        NextStep::GoForwardAdd,
        NextStep::ForwardFormCancel,
        NextStep::ForwardsBack,
    ] {
        assert!(f.step(step).is_none(), "a forward step must not need a terminal");
    }
}

#[test]
fn adding_a_server_persists_it_and_returns_to_the_list() {
    let mut f = password_vault(|_| {});
    f.type_password(PASSWORD);

    f.press(KeyPress::Char('a'));
    assert_eq!(screen_name(&f.app), "ServerForm");

    let data = ServerFormData {
        name: "web-1".into(),
        host: "web-1.example.com".into(),
        port: 22,
        username: "root".into(),
        tags: vec!["prod".into()],
        auth: AuthMethod::password("hunter2".into()),
        jump_host: None,
    };
    f.step(NextStep::FormSubmit(data));

    assert_eq!(screen_name(&f.app), "MainMenu");
    assert_eq!(unlocked(&f.app).config.servers[0].name, "web-1");

    // And it is actually written, not just in memory.
    assert_eq!(f.reopened(), "web-1|web-1.example.com|root|22||\n");
}

#[test]
fn deleting_a_server_asks_first_and_then_removes_it() {
    let mut f = password_vault(|c| c.servers.push(entry("web-1")));
    f.type_password(PASSWORD);

    f.press(KeyPress::Char('d'));
    assert_eq!(screen_name(&f.app), "ConfirmDelete");

    f.press(KeyPress::Char('n'));
    assert_eq!(screen_name(&f.app), "MainMenu");
    assert_eq!(unlocked(&f.app).config.servers.len(), 1, "answering no must keep the entry");

    f.press(KeyPress::Char('d'));
    f.press(KeyPress::Char('y'));
    assert_eq!(screen_name(&f.app), "MainMenu");
    assert!(unlocked(&f.app).config.servers.is_empty());
}

#[test]
fn escape_from_the_scripts_list_goes_back_to_the_server_list() {
    let mut f = password_vault(|c| c.servers.push(entry("web-1")));
    f.type_password(PASSWORD);

    f.press(KeyPress::Char('s'));
    assert_eq!(screen_name(&f.app), "Scripts");

    f.press(KeyPress::Esc);
    assert_eq!(screen_name(&f.app), "MainMenu");
}

#[test]
fn the_help_overlay_swallows_the_key_that_closes_it() {
    let mut f = password_vault(|_| {});
    f.type_password(PASSWORD);

    f.press(KeyPress::F2);
    assert!(unlocked(&f.app).help_open);

    f.press(KeyPress::Char('q'));
    assert!(!unlocked(&f.app).help_open);
    assert!(!f.app.should_quit, "the closing key must not reach the screen behind it");

    f.press(KeyPress::Char('q'));
    assert!(f.app.should_quit);
}

#[test]
fn a_failed_save_leaves_the_auto_lock_where_it_was() {
    let mut f = password_vault(|_| {});
    f.type_password(PASSWORD);
    let before = unlocked(&f.app).config.auto_lock_minutes;
    f.press(KeyPress::F1);
    f.blocked = true;

    f.step(NextStep::SettingsAutoLockSelected(before + 5));

    assert_eq!(unlocked(&f.app).config.auto_lock_minutes, before);
    match &unlocked(&f.app).screen {
        Screen::Settings(s) => assert!(s.error.is_some(), "the screen must say the write failed"),
        _ => panic!("expected the settings screen"),
    }
}

#[test]
fn a_failed_security_mode_change_rolls_back_completely() {
    let mut f = password_vault(|_| {});
    f.type_password(PASSWORD);
    f.press(KeyPress::F1);
    let slots_before = unlocked(&f.app).slots.len();
    f.blocked = true;

    f.step(NextStep::ChangeSecurityMode {
        mode: AuthMode::PasswordTotp,
        password: None,
        totp_secret: Some(Secret::from("JBSWY3DPEHPK3PXP".to_string())),
    });

    assert!(unlocked(&f.app).config.totp.is_none(), "the second factor must not survive a failed write");
    assert_eq!(unlocked(&f.app).slots.len(), slots_before);
    assert_eq!(unlocked(&f.app).current_auth_mode(), AuthMode::Password);
}

#[test]
fn the_idle_timer_locks_the_vault_and_says_so() {
    let mut f = password_vault(|_| {});
    f.type_password(PASSWORD);
    f.step(NextStep::SettingsAutoLockSelected(1));

    f.app.last_activity = 0;
    assert!(!f.app.auto_lock_if_idle(59_999));
    assert!(f.app.auto_lock_if_idle(3_600_000));
    let screen = f.initial_state();
    f.app.auto_locked(screen, &f.strings);

    match &f.app.state {
        AppState::Locked(unlock) => assert!(unlock.info.is_some(), "the lock screen should explain itself"),
        _ => panic!("an idle vault must re-lock"),
    }
}

#[test]
fn an_auto_lock_of_zero_never_fires() {
    let mut f = password_vault(|_| {});
    f.type_password(PASSWORD);
    f.step(NextStep::SettingsAutoLockSelected(0));

    f.app.last_activity = 0;
    assert!(!f.app.auto_lock_if_idle(86_400_000));

    assert_eq!(screen_name(&f.app), "MainMenu");
}

#[test]
fn only_esc_and_ctrl_c_stop_a_run() {
    let key = |code: KeyCode, control: bool| Key { code, control };
    assert!(is_cancel_key(key(KeyCode::Esc, false)));
    assert!(is_cancel_key(key(KeyCode::Char('c'), true)));

    assert!(!is_cancel_key(key(KeyCode::Char('c'), false)), "a bare c is output, not a cancel");
    assert!(!is_cancel_key(key(KeyCode::Enter, false)));
    assert!(!is_cancel_key(key(KeyCode::Char('q'), false)));
}

fn with_a_script(c: &mut Config) {
    let mut e = entry("web-1");
    e.scripts.push(Script { id: Uuid::new_v4(), name: "deploy".into(), run_on_connect: false, steps: Vec::new() });
    c.servers.push(e);
    c.servers.push(entry("web-2"));
}

#[test]
fn m_on_the_script_list_opens_the_target_picker() {
    let mut f = password_vault(with_a_script);
    f.type_password(PASSWORD);

    f.press(KeyPress::Char('s'));
    f.press(KeyPress::Char('m'));
    assert_eq!(screen_name(&f.app), "ScriptTargets");

    let origin = unlocked(&f.app).config.servers[0].id;
    match &unlocked(&f.app).screen {
        Screen::ScriptTargets(state) => assert_eq!(state.origin_server_id, origin),
        _ => unreachable!(),
    }

    f.press(KeyPress::Esc);
    assert_eq!(screen_name(&f.app), "Scripts", "cancelling goes back to the script it came from");
}

#[test]
fn both_run_paths_resolve_to_the_same_step() {
    let mut f = password_vault(with_a_script);
    f.type_password(PASSWORD);
    let (origin, second) = (unlocked(&f.app).config.servers[0].id, unlocked(&f.app).config.servers[1].id);

    f.press(KeyPress::Char('s'));
    let input = input_for(&f.app, KeyPress::Enter);
    match f.app.resolve_next_step(input) {
        NextStep::RunScript { origin_server_id, targets, .. } => {
            assert_eq!(origin_server_id, origin);
            assert_eq!(targets, vec![origin], "Enter still runs on the script's own server and nowhere else");
        }
        _ => panic!("Enter on the script list must run the script"),
    }

    f.press(KeyPress::Char('m'));
    let input = input_for(&f.app, KeyPress::Enter);
    match f.app.resolve_next_step(input) {
        NextStep::RunScript { origin_server_id, targets, .. } => {
            assert_eq!(origin_server_id, origin, "the definition still comes from where it lives");
            assert_eq!(targets, vec![origin, second]);
        }
        _ => panic!("the picker must run the script"),
    }
}

#[test]
fn a_handshake_record_lands_on_the_entry_and_is_saved() {
    let mut f = password_vault(|c| c.servers.push(entry("web-1")));
    f.type_password(PASSWORD);
    let id = unlocked(&f.app).config.servers[0].id;

    let record = SessionRecord { fingerprint: Some("SHA256:abc".into()), connected_at: 100, system_info: None };
    let effect = f.app.record_session(id, &record, &[]);
    f.perform(effect);

    let e = &unlocked(&f.app).config.servers[0];
    assert_eq!(e.host_key_fingerprint.as_deref(), Some("SHA256:abc"));
    assert_eq!(e.last_connected_unix, Some(100));

    // And it is written, not only in memory.
    assert_eq!(f.reopened(), "web-1|web-1.example.com|root|22|SHA256:abc|\n");
}

#[test]
fn the_probe_s_record_adds_system_info_without_moving_the_timestamp() {
    let mut f = password_vault(|c| c.servers.push(entry("web-1")));
    f.type_password(PASSWORD);
    let id = unlocked(&f.app).config.servers[0].id;

    let mut record = SessionRecord { fingerprint: Some("SHA256:abc".into()), connected_at: 100, system_info: None };
    f.app.record_session(id, &record, &[]);
    record.system_info = Some(SystemInfo { cpu_cores: Some(8), ..SystemInfo::default() });
    f.app.record_session(id, &record, &[]);

    let e = &unlocked(&f.app).config.servers[0];
    assert_eq!(e.last_connected_unix, Some(100), "the connection time is stamped once");
    assert_eq!(e.system_info.as_ref().and_then(|i| i.cpu_cores), Some(8));
}

#[test]
fn the_steps_that_need_a_terminal_are_handed_back() {
    let mut f = password_vault(|c| c.servers.push(entry("web-1")));
    f.type_password(PASSWORD);
    let id = unlocked(&f.app).config.servers[0].id;

    assert!(matches!(f.step(NextStep::Connect(id)), Some(NextStep::Connect(_))));
    assert!(matches!(f.step(NextStep::GoFiles(id)), Some(NextStep::GoFiles(_))));
    assert!(matches!(f.step(NextStep::FilesRefresh), Some(NextStep::FilesRefresh)));
    assert!(f.app.connecting.is_none(), "nothing local ever sets the connect indicator");
}

#[test]
fn the_help_follows_the_screen() {
    let mut f = password_vault(|_| {});
    f.type_password(PASSWORD);
    assert_eq!(help_topic(&unlocked(&f.app).screen), ssh_control::tui::HelpTopic::ServerList);
    f.press(KeyPress::F1);
    assert_eq!(help_topic(&unlocked(&f.app).screen), ssh_control::tui::HelpTopic::Settings);
}

#[test]
fn a_footer_message_has_its_time() {
    let mut f = password_vault(|_| {});
    f.type_password(PASSWORD);
    f.app.set_status("hello".into(), 1_000);
    f.app.expire_status(4_999);
    assert!(unlocked(&f.app).status.is_some());
    f.app.expire_status(5_000);
    assert!(unlocked(&f.app).status.is_none());
}

/// Answers from a list, so that the questions can be asked with no terminal.
struct Scripted {
    answers: Vec<Option<&'static str>>,
    asked: Vec<String>,
}

impl Scripted {
    fn new(answers: Vec<Option<&'static str>>) -> Scripted {
        Scripted { answers, asked: Vec::new() }
    }

    fn secret(&mut self, label: &str) -> Option<&'static str> {
        self.asked.push(label.to_string());
        if self.answers.is_empty() {
            panic!("more questions than answers: {:?}", self.asked);
        }
        self.answers.remove(0)
    }
}

fn unlock(f: &mut Fixture, prompt: &mut Scripted) -> Result<(), AppError> {
    let mut attempts = Attempts::new();
    loop {
        let question = match next_question(&f.app.state) {
            Prompting::Open => return Ok(()),
            Prompting::Refuse(e) => return Err(e),
            Prompting::Ask(question) => question,
        };
        let Some(answer) = prompt.secret(question.label()) else {
            return Err(cancelled());
        };
        match question {
            Question::Password => f.try_unlock(answer),
            Question::SecondFactor => {
                f.app.verify_totp_prompt(answer, &f.strings);
            }
            Question::DailyCode => panic!("a password vault has no daily code"),
        }
        attempts.answered(question, &f.app.state)?;
    }
}

#[test]
fn the_right_password_opens_the_vault() {
    let mut f = password_vault(|_| {});
    let mut prompt = Scripted::new(vec![Some(PASSWORD)]);

    unlock(&mut f, &mut prompt).expect("the vault should open");
    assert!(matches!(f.app.state, AppState::Unlocked(_)));
    assert_eq!(prompt.asked, vec!["Password"]);
}

#[test]
fn a_wrong_password_is_re_asked_and_then_gives_up() {
    let mut f = password_vault(|_| {});
    let mut prompt = Scripted::new(vec![Some("nope"), Some("still nope"), Some("nope again")]);

    assert!(unlock(&mut f, &mut prompt).is_err());
    assert_eq!(prompt.asked.len(), MAX_TRIES, "it must stop rather than loop forever");
    assert!(!matches!(f.app.state, AppState::Unlocked(_)));
}

#[test]
fn a_second_try_after_a_typo_still_works() {
    let mut f = password_vault(|_| {});
    let mut prompt = Scripted::new(vec![Some("nope"), Some(PASSWORD)]);

    unlock(&mut f, &mut prompt).expect("the second answer is right");
    assert!(matches!(f.app.state, AppState::Unlocked(_)));
}

#[test]
fn cancelling_the_prompt_is_an_error_not_an_open_vault() {
    let mut f = password_vault(|_| {});
    let mut prompt = Scripted::new(vec![None]);

    assert!(unlock(&mut f, &mut prompt).is_err());
    assert!(!matches!(f.app.state, AppState::Unlocked(_)));
}

#[test]
fn a_missing_vault_is_refused_without_asking_anything() {
    let mut f = password_vault(|_| {});
    assert_eq!(first_look(false, false), FirstLook::Setup);
    f.app.state = ssh_control::app::locked::setup_state(false);
    let mut prompt = Scripted::new(Vec::new());

    let error = unlock(&mut f, &mut prompt).expect_err("there is nothing to open");
    assert!(error.message().contains("no vault here yet"));
    assert!(prompt.asked.is_empty(), "nothing should have been asked");
}

#[test]
fn wrong_codes_give_up_too() {
    let mut f = password_vault(|c| {
        c.totp = Some(TotpConfig { secret_base32: Secret::from("JBSWY3DPEHPK3PXP".to_string()) });
    });
    let mut prompt = Scripted::new(vec![Some(PASSWORD), Some("x"), Some("x"), Some("x")]);
    let error = unlock(&mut f, &mut prompt).expect_err("no code was right");
    assert_eq!(error.message(), "too many incorrect codes");
    assert_eq!(prompt.asked[1], "Authenticator code");
}

#[test]
fn states_without_an_answer_are_refused() {
    let refusal = |state: &AppState| match next_question(state) {
        Prompting::Refuse(e) => e.message(),
        _ => panic!("there is nothing to ask"),
    };
    assert!(refusal(&AppState::Unopenable).contains("device key is not on this machine"));
    assert_eq!(refusal(&AppState::CannotOpen { title: "t", message: "m" }), "m");
    assert!(refusal(&migration_state()).contains("has to be converted first"));
}

#[test]
fn an_answer_is_typed_key_by_key() {
    let mut buffer = Vec::new();
    let key = |code: KeyCode, control: bool| Key { code, control };
    assert_eq!(type_key(&mut buffer, key(KeyCode::Backspace, false)), Typing::More);
    assert_eq!(type_key(&mut buffer, key(KeyCode::Char('a'), false)), Typing::More);
    assert_eq!(type_key(&mut buffer, key(KeyCode::Char('c'), false)), Typing::More);
    assert_eq!(type_key(&mut buffer, key(KeyCode::Backspace, false)), Typing::More);
    assert_eq!(type_key(&mut buffer, key(KeyCode::Other, false)), Typing::More);
    assert_eq!(buffer, vec!['a']);
    assert_eq!(type_key(&mut buffer, key(KeyCode::Enter, false)), Typing::Done);
    assert_eq!(type_key(&mut buffer, key(KeyCode::Esc, false)), Typing::Cancelled);
    assert_eq!(type_key(&mut buffer, key(KeyCode::Char('c'), true)), Typing::Cancelled);
}

/// Texts that name themselves.
fn strings() -> Strings {
    Strings {
        save_error_prefix: "[save_error_prefix]",
        delete_error_prefix: "[delete_error_prefix]",
        connect_error_prefix: "[connect_error_prefix]",
        sftp_error_prefix: "[sftp_error_prefix]",
        ssh_import_error_prefix: "[ssh_import_error_prefix]",
        disconnected_prefix: "[disconnected_prefix]",
        host_key_changed_prefix: "[host_key_changed_prefix]",
        host_key_changed_suffix: "[host_key_changed_suffix]",
        err_device_not_enrolled: "[err_device_not_enrolled]",
        err_password_required_now: "[err_password_required_now]",
        err_vault_in_use: "[err_vault_in_use]",
        err_totp_replayed: "[err_totp_replayed]",
        err_totp_too_many_failures: "[err_totp_too_many_failures]",
        err_totp_invalid_code: "[err_totp_invalid_code]",
        err_current_password_wrong: "[err_current_password_wrong]",
        vault_in_use_title: "[vault_in_use_title]",
        vault_in_use_message: "[vault_in_use_message]",
        schema_too_new_title: "[schema_too_new_title]",
        schema_too_new_message: "[schema_too_new_message]",
        delete_confirm_prefix: "[delete_confirm_prefix]",
        delete_confirm_suffix: "[delete_confirm_suffix]",
        delete_script_confirm_prefix: "[delete_script_confirm_prefix]",
        delete_script_confirm_suffix: "[delete_script_confirm_suffix]",
        delete_forward_confirm_prefix: "[delete_forward_confirm_prefix]",
        delete_forward_confirm_suffix: "[delete_forward_confirm_suffix]",
        status_auto_locked: "[status_auto_locked]",
        status_saved: "[status_saved]",
        status_deleted: "[status_deleted]",
        status_imported_prefix: "[status_imported_prefix]",
        status_imported_suffix: "[status_imported_suffix]",
        status_script_saved: "[status_script_saved]",
        status_script_deleted: "[status_script_deleted]",
        status_password_changed: "[status_password_changed]",
        status_auto_lock_saved: "[status_auto_lock_saved]",
        status_connect_mode_saved: "[status_connect_mode_saved]",
        status_mode_changed: "[status_mode_changed]",
        transfer_nothing_selected: "[transfer_nothing_selected]",
        transfer_title_upload: "[transfer_title_upload]",
        transfer_title_download: "[transfer_title_download]",
        transfer_cancelled: "[transfer_cancelled]",
        transfer_done_prefix: "[transfer_done_prefix]",
        transfer_done_separator: "[transfer_done_separator]",
        transfer_failed_prefix: "[transfer_failed_prefix]",
        log_exit_prefix: "[log_exit_prefix]",
        log_skipped: "[log_skipped]",
        log_error_prefix: "[log_error_prefix]",
        log_timed_out_prefix: "[log_timed_out_prefix]",
        log_timed_out_suffix: "[log_timed_out_suffix]",
    }
}
