//! What the application is doing: which screen is up, over which vault.
use vstd::prelude::*;

use crate::config::format::{Slot, SLOT_DEVICE};
use crate::config::keyslot::{has, has_slot, MasterKey};
use crate::config::model::{Config, ConnectMode, Uuid};
use crate::config::secret::Secret;
use crate::config::store::Unlocked;
use crate::error::{error_text, AppError, ErrorView};
use crate::i18n::{Lang, Strings};
use crate::ssh_config::SshConfigHost;
use crate::text::owned;
use crate::totp::AuthMode;
use crate::tui::{
    ConfirmState, FileBrowserState, ForwardFormData, ForwardFormState, ForwardsListState, HelpTopic, MainMenuState,
    ScriptFormData, ScriptFormState, ScriptRunState, ScriptTargetsState, ScriptsListState, ServerFormData,
    ServerFormState, SettingsState, SetupState, SshImportState, Theme, TotpPromptState, TotpUnlockState, UnlockMode,
    UnlockState,
};

verus! {

/// Wrong codes in a row before the everyday code path is refused and the
/// password is demanded instead.
pub const MAX_TOTP_FAILURES: u32 = 5;

/// Days a vault may go without seeing its password before asking for it again.
pub const PASSWORD_CHECK_DAYS: u32 = 30;

/// Milliseconds that a footer message stays up.
pub const STATUS_TTL_MS: u64 = 4_000;

/// The screens of an open vault.
pub enum Screen {
    MainMenu(MainMenuState),
    ServerForm(ServerFormState),
    ConfirmDelete { target: Uuid, state: ConfirmState },
    Settings(SettingsState),
    /// Shown after a successful password unlock, where the vault has a second
    /// factor.
    TotpPrompt(TotpPromptState),
    Scripts(ScriptsListState),
    ScriptTargets(ScriptTargetsState),
    SshImport(SshImportState),
    ScriptForm(ScriptFormState),
    ConfirmDeleteScript { server_id: Uuid, script_id: Uuid, state: ConfirmState },
    ScriptRun(ScriptRunState),
    FileBrowser(FileBrowserState),
    Forwards(ForwardsListState),
    ForwardForm(ForwardFormState),
    ConfirmDeleteForward { server_id: Uuid, forward_id: Uuid, state: ConfirmState },
}

/// The help topic of a screen.
pub open spec fn topic_of(screen: Screen) -> HelpTopic {
    match screen {
        Screen::MainMenu(_) => HelpTopic::ServerList,
        Screen::ServerForm(_) => HelpTopic::ServerForm,
        Screen::SshImport(_) => HelpTopic::SshImport,
        Screen::Forwards(_) => HelpTopic::Forwards,
        Screen::ForwardForm(_) => HelpTopic::ForwardForm,
        Screen::ConfirmDelete { .. } => HelpTopic::Confirm,
        Screen::ConfirmDeleteScript { .. } => HelpTopic::Confirm,
        Screen::ConfirmDeleteForward { .. } => HelpTopic::Confirm,
        Screen::Settings(_) => HelpTopic::Settings,
        Screen::TotpPrompt(_) => HelpTopic::TotpPrompt,
        Screen::Scripts(_) => HelpTopic::ScriptList,
        Screen::ScriptTargets(_) => HelpTopic::ScriptTargets,
        Screen::ScriptForm(_) => HelpTopic::ScriptForm,
        Screen::ScriptRun(_) => HelpTopic::ScriptRun,
        Screen::FileBrowser(_) => HelpTopic::FileBrowser,
    }
}

/// Which set of keys the help overlay lists, for the screen on top.
pub fn help_topic(screen: &Screen) -> (r: HelpTopic)
    ensures
        r == topic_of(*screen),
{
    match screen {
        Screen::MainMenu(_) => HelpTopic::ServerList,
        Screen::ServerForm(_) => HelpTopic::ServerForm,
        Screen::SshImport(_) => HelpTopic::SshImport,
        Screen::Forwards(_) => HelpTopic::Forwards,
        Screen::ForwardForm(_) => HelpTopic::ForwardForm,
        Screen::ConfirmDelete { .. } => HelpTopic::Confirm,
        Screen::ConfirmDeleteScript { .. } => HelpTopic::Confirm,
        Screen::ConfirmDeleteForward { .. } => HelpTopic::Confirm,
        Screen::Settings(_) => HelpTopic::Settings,
        Screen::TotpPrompt(_) => HelpTopic::TotpPrompt,
        Screen::Scripts(_) => HelpTopic::ScriptList,
        Screen::ScriptTargets(_) => HelpTopic::ScriptTargets,
        Screen::ScriptForm(_) => HelpTopic::ScriptForm,
        Screen::ScriptRun(_) => HelpTopic::ScriptRun,
        Screen::FileBrowser(_) => HelpTopic::FileBrowser,
    }
}

/// A transient footer message, with the moment it was shown so that it can be
/// taken away again.
pub struct StatusMessage {
    pub text: String,
    /// Milliseconds of the application's own clock.
    pub shown_at: u64,
}

impl StatusMessage {
    /// A message shown at the time `now`.
    pub fn new(text: String, now: u64) -> (r: Self)
        ensures
            r == (StatusMessage { text, shown_at: now }),
    {
        StatusMessage { text, shown_at: now }
    }
}

/// An open vault and the screen over it.
pub struct UnlockedState {
    pub config: Config,
    pub master_key: MasterKey,
    pub slots: Vec<Slot>,
    pub screen: Screen,
    pub status: Option<StatusMessage>,
    /// The keybinding overlay. While it is up it takes the next key to dismiss
    /// itself and hands nothing through to the screen underneath.
    pub help_open: bool,
}

/// What the application is showing.
pub enum AppState {
    /// First run: choose a security mode and set it up.
    Setup(SetupState),
    /// Password prompt. Every escalation out of the everyday code path lands
    /// here.
    Locked(UnlockState),
    /// The everyday prompt of the mode with a daily code.
    LockedTotpDaily(TotpUnlockState),
    /// A vault whose only slot is a device slot this machine cannot supply.
    /// Nothing the user could type would help.
    Unopenable,
    /// A vault this instance cannot open right now, for a reason that clears by
    /// closing another window or installing a newer build.
    CannotOpen { title: &'static str, message: &'static str },
    Unlocked(UnlockedState),
}

/// What a key press asks for.
pub enum NextStep {
    Nothing,
    Help,
    Connect(Uuid),
    GoAdd,
    GoEdit(Uuid),
    GoDelete(Uuid),
    GoSettings,
    Lock,
    Quit,
    FormSubmit(ServerFormData),
    FormCancel,
    ConfirmYes,
    ConfirmNo,
    SettingsClose,
    SettingsLangSelected(Lang),
    SettingsThemeSelected(Theme),
    SettingsAutoLockSelected(u32),
    SettingsConnectModeSelected(ConnectMode),
    SettingsChangePassword { current: Secret, new: Secret },
    ChangeSecurityMode { mode: AuthMode, password: Option<Secret>, totp_secret: Option<Secret> },
    TotpPromptSubmit(String),
    TotpPromptCancel,
    GoScripts(Uuid),
    ScriptsBack,
    GoScriptAdd,
    GoScriptEdit(Uuid),
    GoScriptDeleteConfirm(Uuid),
    ScriptFormCancel,
    ScriptFormSave(ScriptFormData),
    ConfirmDeleteScriptYes,
    ConfirmDeleteScriptNo,
    CycleSort,
    GoScriptTargets(Uuid),
    ScriptTargetsCancel,
    GoSshImport,
    SshImportCancel,
    /// The hosts the user ticked, by value: the file could have changed since
    /// the screen opened.
    SshImportConfirm(Vec<SshConfigHost>),
    /// The script's own server, the script, and every server to run it on.
    RunScript { origin_server_id: Uuid, script_id: Uuid, targets: Vec<Uuid> },
    ScriptRunSave(String),
    ScriptRunClose,
    GoFiles(Uuid),
    FilesBack,
    FilesTransfer,
    FilesOpenRemote(String),
    FilesRefresh,
    GoForwards(Uuid),
    ForwardsBack,
    GoForwardAdd,
    GoForwardEdit(Uuid),
    GoForwardDeleteConfirm(Uuid),
    ForwardToggle(Uuid),
    ForwardFormCancel,
    ForwardFormSave(ForwardFormData),
    ConfirmDeleteForwardYes,
    ConfirmDeleteForwardNo,
}

/// The application.
pub struct App {
    pub state: AppState,
    pub lang: Lang,
    pub theme: Theme,
    pub should_quit: bool,
    /// When the last key was pressed, in milliseconds of the application's own
    /// clock.
    pub last_activity: u64,
    /// The server that the file browser's live connection belongs to.
    pub remote: Option<Uuid>,
    /// The server a flow is reaching, and when the attempt started.
    pub connecting: Option<(Uuid, u64)>,
    /// Highest step of a code that was accepted since the application started,
    /// 0 where none was. It outlives a lock, so that a code opens the vault
    /// once.
    pub last_code_step: u64,
}

/// An empty text field of a screen that says why something failed.
pub open spec fn says(field: Option<String>, text: Seq<char>) -> bool {
    field matches Some(s) && s@ == text
}

/// Whether a status line says `text` since the time `now`.
pub open spec fn status_says(status: Option<StatusMessage>, text: Seq<char>, now: u64) -> bool {
    status matches Some(s) && s.text@ == text && s.shown_at == now
}

/// `prefix` with the sentence of an error behind it.
pub fn prefixed(prefix: &str, e: &AppError) -> (r: String)
    ensures
        r@ == prefix@ + error_text(e@),
{
    let mut s = owned(prefix);
    s.push_str(e.message().as_str());
    s
}

/// The server list as it opens.
pub open spec fn fresh_menu() -> Screen {
    Screen::MainMenu(MainMenuState { selected: None })
}

/// The server list as it opens.
pub fn menu() -> (r: Screen)
    ensures
        r == fresh_menu(),
{
    Screen::MainMenu(MainMenuState { selected: None })
}

/// The security mode of a vault: its slots and its second factor already say
/// which one it is.
pub open spec fn mode_of(device_slot: bool, totp: bool) -> AuthMode {
    if device_slot {
        if totp {
            AuthMode::TotpDaily
        } else {
            AuthMode::NoPrompt
        }
    } else if totp {
        AuthMode::PasswordTotp
    } else {
        AuthMode::Password
    }
}

/// Whether a mode keeps a key in the OS credential store.
pub open spec fn needs_device(mode: AuthMode) -> bool {
    mode == AuthMode::NoPrompt || mode == AuthMode::TotpDaily
}

/// Whether a mode keeps a code secret in the vault.
pub open spec fn keeps_totp(mode: AuthMode) -> bool {
    mode == AuthMode::PasswordTotp || mode == AuthMode::TotpDaily
}

/// Whether a mode keeps a key in the OS credential store.
pub fn wants_device(mode: AuthMode) -> (r: bool)
    ensures
        r == needs_device(mode),
{
    match mode {
        AuthMode::NoPrompt => true,
        AuthMode::TotpDaily => true,
        _ => false,
    }
}

/// Whether a mode keeps a code secret in the vault.
pub fn wants_totp(mode: AuthMode) -> (r: bool)
    ensures
        r == keeps_totp(mode),
{
    match mode {
        AuthMode::PasswordTotp => true,
        AuthMode::TotpDaily => true,
        _ => false,
    }
}

impl UnlockedState {
    /// The security mode of this vault.
    pub open spec fn auth_mode(self) -> AuthMode {
        mode_of(has_slot(self.slots@, SLOT_DEVICE), self.config.totp is Some)
    }

    /// The security mode of this vault, derived and never stored.
    pub fn current_auth_mode(&self) -> (r: AuthMode)
        ensures
            r == self.auth_mode(),
    {
        let device = has(&self.slots, SLOT_DEVICE);
        if device {
            if self.config.totp.is_some() {
                AuthMode::TotpDaily
            } else {
                AuthMode::NoPrompt
            }
        } else if self.config.totp.is_some() {
            AuthMode::PasswordTotp
        } else {
            AuthMode::Password
        }
    }
}

/// An open vault on the screen `screen`.
pub open spec fn opened_on(u: Unlocked, screen: Screen) -> AppState {
    AppState::Unlocked(
        UnlockedState {
            config: u.config,
            master_key: u.master_key,
            slots: u.slots,
            screen,
            status: None,
            help_open: false,
        },
    )
}

/// The state behind a password: the server list, except that a vault with a
/// second factor asks for it first.
pub open spec fn state_after_password(u: Unlocked) -> AppState {
    opened_on(
        u,
        if u.config.totp is Some {
            Screen::TotpPrompt(TotpPromptState { error: None })
        } else {
            fresh_menu()
        },
    )
}

/// The state behind a password.
pub fn unlocked_state(unlocked: Unlocked) -> (r: AppState)
    ensures
        r == state_after_password(unlocked),
{
    let screen = if unlocked.config.totp.is_some() {
        Screen::TotpPrompt(TotpPromptState { error: None })
    } else {
        menu()
    };
    AppState::Unlocked(
        UnlockedState {
            config: unlocked.config,
            master_key: unlocked.master_key,
            slots: unlocked.slots,
            screen,
            status: None,
            help_open: false,
        },
    )
}

/// The state behind a code that was just checked: asking for a second one a
/// moment later would be friction with no gain.
pub fn unlocked_state_skipping_totp(unlocked: Unlocked) -> (r: AppState)
    ensures
        r == opened_on(unlocked, fresh_menu()),
{
    AppState::Unlocked(
        UnlockedState {
            config: unlocked.config,
            master_key: unlocked.master_key,
            slots: unlocked.slots,
            screen: menu(),
            status: None,
            help_open: false,
        },
    )
}

/// The password prompt with a reason on it.
pub open spec fn locked_with(state: AppState, mode: UnlockMode, error: Option<Seq<char>>) -> bool {
    state matches AppState::Locked(u) && u.mode == mode && u.info is None && match error {
        Some(text) => says(u.error, text),
        None => u.error is None,
    }
}

/// The screen that a vault written by a newer build belongs on, whichever
/// unlock route hit the refusal.
pub fn schema_too_new_state(strings: &Strings) -> (r: AppState)
    ensures
        r == (AppState::CannotOpen { title: strings.schema_too_new_title, message: strings.schema_too_new_message }),
{
    AppState::CannotOpen { title: strings.schema_too_new_title, message: strings.schema_too_new_message }
}

/// The text for a lock screen. Only a contended lock gets a translated message:
/// it is the one failure here that the user can act on.
pub open spec fn lock_error_text(e: ErrorView, strings: Strings) -> Seq<char> {
    match e {
        ErrorView::VaultInUse => strings.err_vault_in_use@,
        other => error_text(other),
    }
}

/// The text for a lock screen.
pub fn lock_error(e: &AppError, strings: &Strings) -> (r: String)
    ensures
        r@ == lock_error_text(e@, *strings),
{
    match e {
        AppError::VaultInUse => owned(strings.err_vault_in_use),
        _ => e.message(),
    }
}

/// The text for a setup that failed.
pub open spec fn save_error_text(e: ErrorView, strings: Strings) -> Seq<char> {
    match e {
        ErrorView::VaultInUse => strings.err_vault_in_use@,
        other => strings.save_error_prefix@ + error_text(other),
    }
}

/// The text for a setup that failed.
pub fn save_error(e: &AppError, strings: &Strings) -> (r: String)
    ensures
        r@ == save_error_text(e@, *strings),
{
    match e {
        AppError::VaultInUse => owned(strings.err_vault_in_use),
        _ => prefixed(strings.save_error_prefix, e),
    }
}

} // verus!
