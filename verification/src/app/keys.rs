//! What a key press asks for, resolved without doing any of the work.
use vstd::prelude::*;

use crate::app::state::{App, AppState, NextStep, Screen, UnlockedState};
use crate::config::Uuid;
use crate::tui::{
    ConfirmOutcome, FileBrowserOutcome, FormOutcome, ForwardFormOutcome, ForwardsListAction, Input, MainMenuAction,
    ScreenOutcome, ScriptFormOutcome, ScriptRunOutcome, ScriptTargetsOutcome, ScriptsListAction, SettingsOutcome,
    SshImportOutcome, TotpPromptOutcome,
};

verus! {

/// What an action on the server list asks for.
pub open spec fn menu_asks(action: MainMenuAction) -> NextStep {
    match action {
        MainMenuAction::Nothing => NextStep::Nothing,
        MainMenuAction::Connect(id) => NextStep::Connect(id),
        MainMenuAction::Add => NextStep::GoAdd,
        MainMenuAction::Edit(id) => NextStep::GoEdit(id),
        MainMenuAction::Delete(id) => NextStep::GoDelete(id),
        MainMenuAction::Scripts(id) => NextStep::GoScripts(id),
        MainMenuAction::Files(id) => NextStep::GoFiles(id),
        MainMenuAction::SshImport => NextStep::GoSshImport,
        MainMenuAction::Forwards(id) => NextStep::GoForwards(id),
        MainMenuAction::Lock => NextStep::Lock,
        MainMenuAction::Settings => NextStep::GoSettings,
        MainMenuAction::CycleSort => NextStep::CycleSort,
        MainMenuAction::Help => NextStep::Help,
        MainMenuAction::Quit => NextStep::Quit,
    }
}

/// What an outcome of the settings asks for.
pub open spec fn settings_ask(outcome: SettingsOutcome) -> NextStep {
    match outcome {
        SettingsOutcome::Nothing => NextStep::Nothing,
        SettingsOutcome::Close => NextStep::SettingsClose,
        SettingsOutcome::LanguageSelected(lang) => NextStep::SettingsLangSelected(lang),
        SettingsOutcome::ThemeSelected(theme) => NextStep::SettingsThemeSelected(theme),
        SettingsOutcome::AutoLockSelected(minutes) => NextStep::SettingsAutoLockSelected(minutes),
        SettingsOutcome::ConnectModeSelected(mode) => NextStep::SettingsConnectModeSelected(mode),
        SettingsOutcome::ChangePassword { current, new } => NextStep::SettingsChangePassword { current, new },
        SettingsOutcome::ChangeSecurityMode { mode, password, totp_secret } => NextStep::ChangeSecurityMode {
            mode,
            password,
            totp_secret,
        },
    }
}

/// Whether `next` is what an outcome on a screen asks for. An outcome of
/// another screen asks for nothing.
pub open spec fn asks_for(screen: Screen, outcome: ScreenOutcome, next: NextStep) -> bool {
    match (screen, outcome) {
        (Screen::MainMenu(_), ScreenOutcome::MainMenu(a)) => next == menu_asks(a),
        (Screen::ServerForm(_), ScreenOutcome::ServerForm(o)) => next == match o {
            FormOutcome::Nothing => NextStep::Nothing,
            FormOutcome::Cancel => NextStep::FormCancel,
            FormOutcome::Submit(data) => NextStep::FormSubmit(data),
        },
        (Screen::ConfirmDelete { .. }, ScreenOutcome::Confirm(o)) => next == match o {
            ConfirmOutcome::Nothing => NextStep::Nothing,
            ConfirmOutcome::Yes => NextStep::ConfirmYes,
            ConfirmOutcome::No => NextStep::ConfirmNo,
        },
        (Screen::Settings(_), ScreenOutcome::Settings(o)) => next == settings_ask(o),
        (Screen::TotpPrompt(_), ScreenOutcome::TotpPrompt(o)) => next == match o {
            TotpPromptOutcome::Nothing => NextStep::Nothing,
            TotpPromptOutcome::Submit(code) => NextStep::TotpPromptSubmit(code),
            TotpPromptOutcome::Cancel => NextStep::TotpPromptCancel,
        },
        (Screen::Scripts(s), ScreenOutcome::Scripts(a)) => match a {
            ScriptsListAction::Run(id) => next matches NextStep::RunScript { origin_server_id, script_id, targets }
                && origin_server_id == s.server_id && script_id == id && targets@ == seq![s.server_id],
            ScriptsListAction::Nothing => next == NextStep::Nothing,
            ScriptsListAction::RunOn(id) => next == NextStep::GoScriptTargets(id),
            ScriptsListAction::Add => next == NextStep::GoScriptAdd,
            ScriptsListAction::Edit(id) => next == NextStep::GoScriptEdit(id),
            ScriptsListAction::Delete(id) => next == NextStep::GoScriptDeleteConfirm(id),
            ScriptsListAction::Back => next == NextStep::ScriptsBack,
            ScriptsListAction::Help => next == NextStep::Help,
        },
        (Screen::ScriptTargets(s), ScreenOutcome::ScriptTargets(o)) => next == match o {
            ScriptTargetsOutcome::Nothing => NextStep::Nothing,
            ScriptTargetsOutcome::Cancel => NextStep::ScriptTargetsCancel,
            ScriptTargetsOutcome::Help => NextStep::Help,
            ScriptTargetsOutcome::Run(targets) => NextStep::RunScript {
                origin_server_id: s.origin_server_id,
                script_id: s.script_id,
                targets,
            },
        },
        (Screen::SshImport(_), ScreenOutcome::SshImport(o)) => next == match o {
            SshImportOutcome::Nothing => NextStep::Nothing,
            SshImportOutcome::Cancel => NextStep::SshImportCancel,
            SshImportOutcome::Help => NextStep::Help,
            SshImportOutcome::Import(hosts) => NextStep::SshImportConfirm(hosts),
        },
        (Screen::Forwards(_), ScreenOutcome::Forwards(a)) => next == match a {
            ForwardsListAction::Nothing => NextStep::Nothing,
            ForwardsListAction::Add => NextStep::GoForwardAdd,
            ForwardsListAction::Edit(id) => NextStep::GoForwardEdit(id),
            ForwardsListAction::Delete(id) => NextStep::GoForwardDeleteConfirm(id),
            ForwardsListAction::Toggle(id) => NextStep::ForwardToggle(id),
            ForwardsListAction::Back => NextStep::ForwardsBack,
            ForwardsListAction::Help => NextStep::Help,
        },
        (Screen::ForwardForm(_), ScreenOutcome::ForwardForm(o)) => next == match o {
            ForwardFormOutcome::Nothing => NextStep::Nothing,
            ForwardFormOutcome::Cancel => NextStep::ForwardFormCancel,
            ForwardFormOutcome::Submit(data) => NextStep::ForwardFormSave(data),
        },
        (Screen::ConfirmDeleteForward { .. }, ScreenOutcome::Confirm(o)) => next == match o {
            ConfirmOutcome::Nothing => NextStep::Nothing,
            ConfirmOutcome::Yes => NextStep::ConfirmDeleteForwardYes,
            ConfirmOutcome::No => NextStep::ConfirmDeleteForwardNo,
        },
        (Screen::ScriptForm(_), ScreenOutcome::ScriptForm(o)) => next == match o {
            ScriptFormOutcome::Nothing => NextStep::Nothing,
            ScriptFormOutcome::Cancel => NextStep::ScriptFormCancel,
            ScriptFormOutcome::Submit(data) => NextStep::ScriptFormSave(data),
        },
        (Screen::ConfirmDeleteScript { .. }, ScreenOutcome::Confirm(o)) => next == match o {
            ConfirmOutcome::Nothing => NextStep::Nothing,
            ConfirmOutcome::Yes => NextStep::ConfirmDeleteScriptYes,
            ConfirmOutcome::No => NextStep::ConfirmDeleteScriptNo,
        },
        (Screen::ScriptRun(_), ScreenOutcome::ScriptRun(o)) => next == match o {
            ScriptRunOutcome::Nothing => NextStep::Nothing,
            ScriptRunOutcome::Close => NextStep::ScriptRunClose,
            ScriptRunOutcome::Help => NextStep::Help,
            ScriptRunOutcome::Save(path) => NextStep::ScriptRunSave(path),
        },
        (Screen::FileBrowser(_), ScreenOutcome::FileBrowser(o)) => next == match o {
            FileBrowserOutcome::Nothing => NextStep::Nothing,
            FileBrowserOutcome::Help => NextStep::Help,
            FileBrowserOutcome::Back => NextStep::FilesBack,
            FileBrowserOutcome::OpenRemote(path) => NextStep::FilesOpenRemote(path),
            FileBrowserOutcome::RefreshRemote => NextStep::FilesRefresh,
            FileBrowserOutcome::Transfer => NextStep::FilesTransfer,
        },
        _ => next == NextStep::Nothing,
    }
}

fn menu_step(action: MainMenuAction) -> (r: NextStep)
    ensures
        r == menu_asks(action),
{
    match action {
        MainMenuAction::Nothing => NextStep::Nothing,
        MainMenuAction::Connect(id) => NextStep::Connect(id),
        MainMenuAction::Add => NextStep::GoAdd,
        MainMenuAction::Edit(id) => NextStep::GoEdit(id),
        MainMenuAction::Delete(id) => NextStep::GoDelete(id),
        MainMenuAction::Scripts(id) => NextStep::GoScripts(id),
        MainMenuAction::Files(id) => NextStep::GoFiles(id),
        MainMenuAction::SshImport => NextStep::GoSshImport,
        MainMenuAction::Forwards(id) => NextStep::GoForwards(id),
        MainMenuAction::Lock => NextStep::Lock,
        MainMenuAction::Settings => NextStep::GoSettings,
        MainMenuAction::CycleSort => NextStep::CycleSort,
        MainMenuAction::Help => NextStep::Help,
        MainMenuAction::Quit => NextStep::Quit,
    }
}

fn settings_step(outcome: SettingsOutcome) -> (r: NextStep)
    ensures
        r == settings_ask(outcome),
{
    match outcome {
        SettingsOutcome::Nothing => NextStep::Nothing,
        SettingsOutcome::Close => NextStep::SettingsClose,
        SettingsOutcome::LanguageSelected(lang) => NextStep::SettingsLangSelected(lang),
        SettingsOutcome::ThemeSelected(theme) => NextStep::SettingsThemeSelected(theme),
        SettingsOutcome::AutoLockSelected(minutes) => NextStep::SettingsAutoLockSelected(minutes),
        SettingsOutcome::ConnectModeSelected(mode) => NextStep::SettingsConnectModeSelected(mode),
        SettingsOutcome::ChangePassword { current, new } => NextStep::SettingsChangePassword { current, new },
        SettingsOutcome::ChangeSecurityMode { mode, password, totp_secret } => NextStep::ChangeSecurityMode {
            mode,
            password,
            totp_secret,
        },
    }
}

/// What an outcome on a screen asks for.
pub fn screen_step(screen: &Screen, outcome: ScreenOutcome) -> (r: NextStep)
    ensures
        asks_for(*screen, outcome, r),
{
    match (screen, outcome) {
        (Screen::MainMenu(_), ScreenOutcome::MainMenu(a)) => menu_step(a),
        (Screen::ServerForm(_), ScreenOutcome::ServerForm(o)) => match o {
            FormOutcome::Nothing => NextStep::Nothing,
            FormOutcome::Cancel => NextStep::FormCancel,
            FormOutcome::Submit(data) => NextStep::FormSubmit(data),
        },
        (Screen::ConfirmDelete { .. }, ScreenOutcome::Confirm(o)) => match o {
            ConfirmOutcome::Nothing => NextStep::Nothing,
            ConfirmOutcome::Yes => NextStep::ConfirmYes,
            ConfirmOutcome::No => NextStep::ConfirmNo,
        },
        (Screen::Settings(_), ScreenOutcome::Settings(o)) => settings_step(o),
        (Screen::TotpPrompt(_), ScreenOutcome::TotpPrompt(o)) => match o {
            TotpPromptOutcome::Nothing => NextStep::Nothing,
            TotpPromptOutcome::Submit(code) => NextStep::TotpPromptSubmit(code),
            TotpPromptOutcome::Cancel => NextStep::TotpPromptCancel,
        },
        (Screen::Scripts(s), ScreenOutcome::Scripts(a)) => match a {
            ScriptsListAction::Nothing => NextStep::Nothing,
            // Running a script where it lives is running it on a list of one.
            ScriptsListAction::Run(script_id) => {
                let mut targets = Vec::new();
                targets.push(s.server_id);
                assert(targets@ =~= seq![s.server_id]);
                NextStep::RunScript { origin_server_id: s.server_id, script_id, targets }
            },
            ScriptsListAction::RunOn(id) => NextStep::GoScriptTargets(id),
            ScriptsListAction::Add => NextStep::GoScriptAdd,
            ScriptsListAction::Edit(id) => NextStep::GoScriptEdit(id),
            ScriptsListAction::Delete(id) => NextStep::GoScriptDeleteConfirm(id),
            ScriptsListAction::Back => NextStep::ScriptsBack,
            ScriptsListAction::Help => NextStep::Help,
        },
        (Screen::ScriptTargets(s), ScreenOutcome::ScriptTargets(o)) => match o {
            ScriptTargetsOutcome::Nothing => NextStep::Nothing,
            ScriptTargetsOutcome::Cancel => NextStep::ScriptTargetsCancel,
            ScriptTargetsOutcome::Help => NextStep::Help,
            ScriptTargetsOutcome::Run(targets) => NextStep::RunScript {
                origin_server_id: s.origin_server_id,
                script_id: s.script_id,
                targets,
            },
        },
        (Screen::SshImport(_), ScreenOutcome::SshImport(o)) => match o {
            SshImportOutcome::Nothing => NextStep::Nothing,
            SshImportOutcome::Cancel => NextStep::SshImportCancel,
            SshImportOutcome::Help => NextStep::Help,
            SshImportOutcome::Import(hosts) => NextStep::SshImportConfirm(hosts),
        },
        (Screen::Forwards(_), ScreenOutcome::Forwards(a)) => match a {
            ForwardsListAction::Nothing => NextStep::Nothing,
            ForwardsListAction::Add => NextStep::GoForwardAdd,
            ForwardsListAction::Edit(id) => NextStep::GoForwardEdit(id),
            ForwardsListAction::Delete(id) => NextStep::GoForwardDeleteConfirm(id),
            ForwardsListAction::Toggle(id) => NextStep::ForwardToggle(id),
            ForwardsListAction::Back => NextStep::ForwardsBack,
            ForwardsListAction::Help => NextStep::Help,
        },
        (Screen::ForwardForm(_), ScreenOutcome::ForwardForm(o)) => match o {
            ForwardFormOutcome::Nothing => NextStep::Nothing,
            ForwardFormOutcome::Cancel => NextStep::ForwardFormCancel,
            ForwardFormOutcome::Submit(data) => NextStep::ForwardFormSave(data),
        },
        (Screen::ConfirmDeleteForward { .. }, ScreenOutcome::Confirm(o)) => match o {
            ConfirmOutcome::Nothing => NextStep::Nothing,
            ConfirmOutcome::Yes => NextStep::ConfirmDeleteForwardYes,
            ConfirmOutcome::No => NextStep::ConfirmDeleteForwardNo,
        },
        (Screen::ScriptForm(_), ScreenOutcome::ScriptForm(o)) => match o {
            ScriptFormOutcome::Nothing => NextStep::Nothing,
            ScriptFormOutcome::Cancel => NextStep::ScriptFormCancel,
            ScriptFormOutcome::Submit(data) => NextStep::ScriptFormSave(data),
        },
        (Screen::ConfirmDeleteScript { .. }, ScreenOutcome::Confirm(o)) => match o {
            ConfirmOutcome::Nothing => NextStep::Nothing,
            ConfirmOutcome::Yes => NextStep::ConfirmDeleteScriptYes,
            ConfirmOutcome::No => NextStep::ConfirmDeleteScriptNo,
        },
        (Screen::ScriptRun(_), ScreenOutcome::ScriptRun(o)) => match o {
            ScriptRunOutcome::Nothing => NextStep::Nothing,
            ScriptRunOutcome::Close => NextStep::ScriptRunClose,
            ScriptRunOutcome::Help => NextStep::Help,
            ScriptRunOutcome::Save(path) => NextStep::ScriptRunSave(path),
        },
        (Screen::FileBrowser(_), ScreenOutcome::FileBrowser(o)) => match o {
            FileBrowserOutcome::Nothing => NextStep::Nothing,
            FileBrowserOutcome::Help => NextStep::Help,
            FileBrowserOutcome::Back => NextStep::FilesBack,
            FileBrowserOutcome::OpenRemote(path) => NextStep::FilesOpenRemote(path),
            FileBrowserOutcome::RefreshRemote => NextStep::FilesRefresh,
            FileBrowserOutcome::Transfer => NextStep::FilesTransfer,
        },
        _ => NextStep::Nothing,
    }
}

/// Whether `after` is `before` with the help overlay up or down.
pub open spec fn only_help(before: UnlockedState, after: UnlockedState, open: bool) -> bool {
    after == (UnlockedState { help_open: open, ..before })
}

/// What a key press does to an open vault, and what it asks for. The overlay
/// takes the key that dismisses it, whatever key that is.
pub open spec fn key_resolved(before: UnlockedState, input: Input, after: UnlockedState, next: NextStep) -> bool {
    if before.help_open {
        only_help(before, after, false) && next == NextStep::Nothing
    } else {
        match input {
            Input::F2 => only_help(before, after, true) && next == NextStep::Nothing,
            Input::Screen(outcome) => after == before && asks_for(before.screen, outcome, next),
        }
    }
}

impl App {
    /// Whether two applications differ in their state alone.
    pub open spec fn same_but_state(self, other: App) -> bool {
        &&& self.lang == other.lang
        &&& self.theme == other.theme
        &&& self.should_quit == other.should_quit
        &&& self.last_activity == other.last_activity
        &&& self.remote == other.remote
        &&& self.connecting == other.connecting
        &&& self.last_code_step == other.last_code_step
    }

    /// Resolves a key press into a step without doing any of the work.
    pub fn resolve_next_step(&mut self, input: Input) -> (r: NextStep)
        ensures
            final(self).same_but_state(*old(self)),
            match old(self).state {
                AppState::Unlocked(before) => final(self).state matches AppState::Unlocked(after) && key_resolved(
                    before,
                    input,
                    after,
                    r,
                ),
                _ => r == NextStep::Nothing && final(self).state == old(self).state,
            },
    {
        match &mut self.state {
            AppState::Unlocked(u) => {
                if u.help_open {
                    u.help_open = false;
                    return NextStep::Nothing;
                }
                match input {
                    Input::F2 => {
                        u.help_open = true;
                        NextStep::Nothing
                    },
                    Input::Screen(outcome) => screen_step(&u.screen, outcome),
                }
            },
            _ => NextStep::Nothing,
        }
    }
}

/// The key that closes the help overlay never acts on the screen behind it.
pub proof fn the_overlay_swallows_its_closing_key(
    before: UnlockedState,
    input: Input,
    after: UnlockedState,
    next: NextStep,
)
    requires
        before.help_open,
        key_resolved(before, input, after, next),
    ensures
        next == NextStep::Nothing,
        !after.help_open,
        after.screen == before.screen,
        after.config == before.config,
{
}

/// Every action on the server list leads to its own step, for the server it was
/// taken on.
pub proof fn the_list_leads_where_it_says(id: Uuid)
    ensures
        menu_asks(MainMenuAction::Connect(id)) == NextStep::Connect(id),
        menu_asks(MainMenuAction::Edit(id)) == NextStep::GoEdit(id),
        menu_asks(MainMenuAction::Delete(id)) == NextStep::GoDelete(id),
        menu_asks(MainMenuAction::Scripts(id)) == NextStep::GoScripts(id),
        menu_asks(MainMenuAction::Files(id)) == NextStep::GoFiles(id),
        menu_asks(MainMenuAction::Forwards(id)) == NextStep::GoForwards(id),
        menu_asks(MainMenuAction::Add) == NextStep::GoAdd,
        menu_asks(MainMenuAction::SshImport) == NextStep::GoSshImport,
        menu_asks(MainMenuAction::Lock) == NextStep::Lock,
        menu_asks(MainMenuAction::Settings) == NextStep::GoSettings,
        menu_asks(MainMenuAction::CycleSort) == NextStep::CycleSort,
        menu_asks(MainMenuAction::Help) == NextStep::Help,
        menu_asks(MainMenuAction::Quit) == NextStep::Quit,
        menu_asks(MainMenuAction::Nothing) == NextStep::Nothing,
{
}

/// What is submitted in a form or picked in the settings is what the step carries,
/// unchanged.
pub proof fn a_form_hands_on_what_it_holds(screen: Screen, outcome: ScreenOutcome, next: NextStep)
    requires
        asks_for(screen, outcome, next),
    ensures
        screen is ServerForm ==> (outcome matches ScreenOutcome::ServerForm(FormOutcome::Submit(data)) ==> next
            == NextStep::FormSubmit(data)),
        screen is ScriptForm ==> (outcome matches ScreenOutcome::ScriptForm(ScriptFormOutcome::Submit(data)) ==> next
            == NextStep::ScriptFormSave(data)),
        screen is ForwardForm ==> (outcome matches ScreenOutcome::ForwardForm(ForwardFormOutcome::Submit(data)) ==> next
            == NextStep::ForwardFormSave(data)),
        screen is SshImport ==> (outcome matches ScreenOutcome::SshImport(SshImportOutcome::Import(hosts)) ==> next
            == NextStep::SshImportConfirm(hosts)),
        screen is TotpPrompt ==> (outcome matches ScreenOutcome::TotpPrompt(TotpPromptOutcome::Submit(code)) ==> next
            == NextStep::TotpPromptSubmit(code)),
        screen is Settings ==> (outcome matches ScreenOutcome::Settings(SettingsOutcome::AutoLockSelected(m)) ==> next
            == NextStep::SettingsAutoLockSelected(m)),
        screen is Settings ==> (outcome matches ScreenOutcome::Settings(SettingsOutcome::ConnectModeSelected(m)) ==> next
            == NextStep::SettingsConnectModeSelected(m)),
        screen is Settings ==> (outcome matches ScreenOutcome::Settings(
            SettingsOutcome::ChangeSecurityMode { mode, password, totp_secret },
        ) ==> next == (NextStep::ChangeSecurityMode { mode, password, totp_secret })),
        screen is Settings ==> (outcome matches ScreenOutcome::Settings(
            SettingsOutcome::ChangePassword { current, new },
        ) ==> next == (NextStep::SettingsChangePassword { current, new })),
{
}

/// A question is answered for what it was asked about: yes deletes the server, the
/// script or the rule, no leaves it.
pub proof fn a_question_is_answered_for_what_it_asks(screen: Screen, next: NextStep)
    ensures
        screen is ConfirmDelete ==> {
            &&& asks_for(screen, ScreenOutcome::Confirm(ConfirmOutcome::Yes), next) ==> next == NextStep::ConfirmYes
            &&& asks_for(screen, ScreenOutcome::Confirm(ConfirmOutcome::No), next) ==> next == NextStep::ConfirmNo
        },
        screen is ConfirmDeleteScript ==> {
            &&& asks_for(screen, ScreenOutcome::Confirm(ConfirmOutcome::Yes), next) ==> next
                == NextStep::ConfirmDeleteScriptYes
            &&& asks_for(screen, ScreenOutcome::Confirm(ConfirmOutcome::No), next) ==> next
                == NextStep::ConfirmDeleteScriptNo
        },
        screen is ConfirmDeleteForward ==> {
            &&& asks_for(screen, ScreenOutcome::Confirm(ConfirmOutcome::Yes), next) ==> next
                == NextStep::ConfirmDeleteForwardYes
            &&& asks_for(screen, ScreenOutcome::Confirm(ConfirmOutcome::No), next) ==> next
                == NextStep::ConfirmDeleteForwardNo
        },
{
}

/// A script that is run from its list runs on the server it belongs to, and one
/// that is run on picked servers on those.
pub proof fn a_script_runs_where_it_was_asked_to(screen: Screen, id: Uuid, targets: Vec<Uuid>, next: NextStep)
    ensures
        screen matches Screen::Scripts(s) ==> (asks_for(screen, ScreenOutcome::Scripts(ScriptsListAction::Run(id)), next)
            ==> (next matches NextStep::RunScript { origin_server_id, script_id, targets: t } && origin_server_id
            == s.server_id && script_id == id && t@.len() == 1 && t@[0] == s.server_id)),
        screen matches Screen::ScriptTargets(s) ==> (asks_for(
            screen,
            ScreenOutcome::ScriptTargets(ScriptTargetsOutcome::Run(targets)),
            next,
        ) ==> (next matches NextStep::RunScript { origin_server_id, script_id, targets: t } && origin_server_id
            == s.origin_server_id && script_id == s.script_id && t == targets)),
{
}

} // verus!
