//! The screens, as far as the logic reads and writes them, and what a key press
//! on each of them can come to. Drawing them and editing their fields is the
//! front end's part.
use vstd::prelude::*;
use vstd::string::StrSliceExecFns;

use crate::config::model::{AuthMethod, ConnectMode, ForwardKind, ScriptStep, ServerEntry, Uuid};
use crate::config::secret::Secret;
use crate::i18n::Lang;
use crate::ssh_config::SshConfigHost;
use crate::text::{chars_of, contains, has_part, lowercase, to_lowercase};
use crate::totp::AuthMode;

verus! {

/// A colour theme, by its place in the front end's list.
#[derive(Clone, Copy, Debug, PartialEq, Eq, Structural)]
pub struct Theme {
    pub index: u8,
}

/// How many characters a new password has to have.
pub const MIN_PASSWORD_CHARS: usize = 8;

/// Whether a new password is long enough.
pub fn long_enough(password: &str) -> (r: bool)
    ensures
        r == (password@.len() >= MIN_PASSWORD_CHARS),
{
    password.unicode_len() >= MIN_PASSWORD_CHARS
}

/// Whether a server is shown under a search: by its name, its host or its user,
/// whatever the case.
pub open spec fn found_by(server: ServerEntry, needle: Seq<char>) -> bool {
    let n = lowercase(needle);
    has_part(lowercase(server.name@), n) || has_part(lowercase(server.host@), n) || has_part(
        lowercase(server.username@),
        n,
    )
}

fn text_has(text: &str, needle: &[char]) -> (r: bool)
    ensures
        r == has_part(lowercase(text@), needle@),
{
    contains(&chars_of(to_lowercase(text).as_str()), needle)
}

/// Whether a server is shown under a search.
pub fn matches_search(server: &ServerEntry, needle: &str) -> (r: bool)
    ensures
        r == found_by(*server, needle@),
{
    let n = chars_of(to_lowercase(needle).as_str());
    text_has(server.name.as_str(), &n) || text_has(server.host.as_str(), &n) || text_has(server.username.as_str(), &n)
}

/// The server list. The selection is a server, not a row: a filter or a new
/// order moves rows, and must not move the selection to another server.
pub struct MainMenuState {
    pub selected: Option<Uuid>,
}

#[derive(Clone, Copy, Debug, PartialEq, Eq, Structural)]
pub enum FormMode {
    Add,
    Edit(Uuid),
}

pub struct ServerFormState {
    pub mode: FormMode,
    pub error: Option<String>,
}

/// What the server form submits.
pub struct ServerFormData {
    pub name: String,
    pub host: String,
    pub port: u16,
    pub username: String,
    pub tags: Vec<String>,
    pub auth: AuthMethod,
    pub jump_host: Option<Uuid>,
}

/// A yes-or-no question.
pub struct ConfirmState {
    pub message: String,
}

pub struct SettingsState {
    pub lang: Lang,
    pub theme: Theme,
    pub auth_mode: AuthMode,
    /// Whether the modes that need a credential store can be offered.
    pub store_available: bool,
    pub auto_lock_minutes: u32,
    pub connect_mode: ConnectMode,
    pub error: Option<String>,
    pub info: Option<String>,
}

/// The second factor, asked for after the password.
pub struct TotpPromptState {
    pub error: Option<String>,
}

pub struct ScriptsListState {
    pub server_id: Uuid,
    pub server_name: String,
}

/// Which servers a script is about to run on.
pub struct ScriptTargetsState {
    pub origin_server_id: Uuid,
    pub script_id: Uuid,
    pub script_name: String,
}

/// Which of the hosts in an ssh config to bring into the vault.
pub struct SshImportState {
    pub hosts: Vec<SshConfigHost>,
    pub error: Option<String>,
}

pub struct ScriptFormState {
    pub server_id: Uuid,
    pub server_name: String,
    pub mode: FormMode,
    pub error: Option<String>,
}

/// What the script form submits.
pub struct ScriptFormData {
    pub name: String,
    pub run_on_connect: bool,
    pub steps: Vec<ScriptStep>,
}

/// A script run that is over, with its log.
pub struct ScriptRunState {
    pub server_id: Uuid,
    pub script_id: Uuid,
    pub server_name: String,
    pub script_name: String,
    pub log: String,
    pub cancelled: bool,
    /// How the last attempt to write the log went.
    pub notice: Option<String>,
}

pub struct FileBrowserState {
    pub server_id: Uuid,
    pub server_name: String,
    pub local_cwd: String,
    pub remote_cwd: String,
    pub show_hidden: bool,
    pub remote_entries: Vec<BrowserEntry>,
    pub remote_error: Option<String>,
    pub status: Option<String>,
}

/// One row of a file pane.
pub struct BrowserEntry {
    pub name: String,
    pub is_dir: bool,
    pub size: u64,
}

/// The two panes of the file browser.
#[derive(Clone, Copy, Debug, PartialEq, Eq, Structural)]
pub enum Side {
    Local,
    Remote,
}

pub struct ForwardsListState {
    pub server_id: Uuid,
    pub server_name: String,
}

pub struct ForwardFormState {
    pub server_id: Uuid,
    /// The rule being edited, or `None` for a new one.
    pub id: Option<Uuid>,
}

/// What the forward form submits.
pub struct ForwardFormData {
    pub id: Option<Uuid>,
    pub kind: ForwardKind,
}

/// First run: choosing a security mode.
pub struct SetupState {
    pub store_available: bool,
    pub error: Option<String>,
}

#[derive(Clone, Copy, Debug, PartialEq, Eq, Structural)]
pub enum UnlockMode {
    Unlock,
    /// A vault of the retired mode without a password gets one.
    MigrateTotpOnly,
}

/// The password prompt.
pub struct UnlockState {
    pub mode: UnlockMode,
    pub error: Option<String>,
    pub info: Option<String>,
}

/// The everyday code prompt.
pub struct TotpUnlockState {
    pub error: Option<String>,
    pub info: Option<String>,
}

pub enum MainMenuAction {
    Nothing,
    Connect(Uuid),
    Add,
    Edit(Uuid),
    Delete(Uuid),
    Scripts(Uuid),
    Files(Uuid),
    SshImport,
    Forwards(Uuid),
    Lock,
    Settings,
    CycleSort,
    Help,
    Quit,
}

pub enum FormOutcome {
    Nothing,
    Cancel,
    Submit(ServerFormData),
}

pub enum ConfirmOutcome {
    Nothing,
    Yes,
    No,
}

pub enum SettingsOutcome {
    Nothing,
    Close,
    LanguageSelected(Lang),
    ThemeSelected(Theme),
    AutoLockSelected(u32),
    ConnectModeSelected(ConnectMode),
    ChangePassword { current: Secret, new: Secret },
    ChangeSecurityMode { mode: AuthMode, password: Option<Secret>, totp_secret: Option<Secret> },
}

pub enum TotpPromptOutcome {
    Nothing,
    Submit(String),
    Cancel,
}

pub enum ScriptsListAction {
    Nothing,
    Run(Uuid),
    RunOn(Uuid),
    Add,
    Edit(Uuid),
    Delete(Uuid),
    Back,
    Help,
}

pub enum ScriptTargetsOutcome {
    Nothing,
    Cancel,
    Help,
    Run(Vec<Uuid>),
}

pub enum SshImportOutcome {
    Nothing,
    Cancel,
    Help,
    Import(Vec<SshConfigHost>),
}

pub enum ForwardsListAction {
    Nothing,
    Add,
    Edit(Uuid),
    Delete(Uuid),
    Toggle(Uuid),
    Back,
    Help,
}

pub enum ForwardFormOutcome {
    Nothing,
    Cancel,
    Submit(ForwardFormData),
}

pub enum ScriptFormOutcome {
    Nothing,
    Cancel,
    Submit(ScriptFormData),
}

pub enum ScriptRunOutcome {
    Nothing,
    Close,
    Help,
    Save(String),
}

pub enum FileBrowserOutcome {
    Nothing,
    Help,
    Back,
    OpenRemote(String),
    RefreshRemote,
    Transfer,
}

/// What a key press on a screen came to.
pub enum ScreenOutcome {
    MainMenu(MainMenuAction),
    ServerForm(FormOutcome),
    Confirm(ConfirmOutcome),
    Settings(SettingsOutcome),
    TotpPrompt(TotpPromptOutcome),
    Scripts(ScriptsListAction),
    ScriptTargets(ScriptTargetsOutcome),
    SshImport(SshImportOutcome),
    Forwards(ForwardsListAction),
    ForwardForm(ForwardFormOutcome),
    ScriptForm(ScriptFormOutcome),
    ScriptRun(ScriptRunOutcome),
    FileBrowser(FileBrowserOutcome),
}

/// A key press: `F2`, which opens the help overlay everywhere, or what the
/// screen made of any other key.
pub enum Input {
    F2,
    Screen(ScreenOutcome),
}

pub enum SetupOutcome {
    Nothing,
    Quit,
    Create { mode: AuthMode, password: Option<Secret>, totp_secret: Option<Secret> },
}

pub enum UnlockOutcome {
    Nothing,
    Quit,
    SetPassword(Secret),
    TryPassword(Secret),
}

pub enum TotpUnlockOutcome {
    Nothing,
    Quit,
    Submit(String),
}

/// A key press before the vault is open, as the screen on top took it.
pub enum LockedInput {
    Setup(SetupOutcome),
    /// On a screen with nothing to type: whether the key was `Esc`.
    DeadEnd { esc: bool },
    Unlock(UnlockOutcome),
    TotpUnlock(TotpUnlockOutcome),
}

/// Which set of keys the help overlay lists.
#[derive(Clone, Copy, Debug, PartialEq, Eq, Structural)]
pub enum HelpTopic {
    ServerList,
    ServerForm,
    SshImport,
    Forwards,
    ForwardForm,
    Confirm,
    Settings,
    TotpPrompt,
    ScriptList,
    ScriptTargets,
    ScriptForm,
    ScriptRun,
    FileBrowser,
}

/// A key of the terminal, as far as the flows read one themselves.
#[derive(Clone, Copy, Debug, PartialEq, Eq, Structural)]
pub enum KeyCode {
    Esc,
    Enter,
    Backspace,
    Char(char),
    Other,
}

#[derive(Clone, Copy, Debug, PartialEq, Eq, Structural)]
pub struct Key {
    pub code: KeyCode,
    pub control: bool,
}

/// Whether a key stops a run: only `Esc` and `Ctrl+C` do. Every other key
/// belongs to the screen.
pub fn is_cancel_key(key: Key) -> (r: bool)
    ensures
        r == (key.code == KeyCode::Esc || (key.code == KeyCode::Char('c') && key.control)),
{
    match key.code {
        KeyCode::Esc => true,
        KeyCode::Char(c) => c == 'c' && key.control,
        _ => false,
    }
}

/// A server is found by a part of its name, of its host or of its user, without
/// regard to case, and by nothing else.
pub proof fn a_server_is_found_by_a_part(server: ServerEntry, needle: Seq<char>)
    ensures
        has_part(lowercase(server.name@), lowercase(needle)) ==> found_by(server, needle),
        has_part(lowercase(server.host@), lowercase(needle)) ==> found_by(server, needle),
        has_part(lowercase(server.username@), lowercase(needle)) ==> found_by(server, needle),
        found_by(server, needle) ==> has_part(lowercase(server.name@), lowercase(needle)) || has_part(
            lowercase(server.host@),
            lowercase(needle),
        ) || has_part(lowercase(server.username@), lowercase(needle)),
{
}

/// A new password has eight characters or more, and a run is stopped by Esc and
/// Ctrl+C alone.
pub proof fn short_passwords_are_refused(password: &str, long: bool, key: Key, stops: bool)
    requires
        call_ensures(long_enough, (password,), long),
        call_ensures(is_cancel_key, (key,), stops),
    ensures
        long <==> password@.len() >= 8,
        key.code == KeyCode::Esc ==> stops,
        key.code == KeyCode::Char('c') ==> stops == key.control,
        key.code != KeyCode::Esc && key.code != KeyCode::Char('c') ==> !stops,
{
}

} // verus!
