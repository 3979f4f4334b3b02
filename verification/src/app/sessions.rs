//! What a live connection needs out of the vault, and what it leaves in it.
use vstd::prelude::*;

use crate::app::state::{prefixed, says, status_says, App, AppState, Screen, StatusMessage, UnlockedState};
use crate::app::steps::{only_config, only_servers, save_for, AfterSave, Effect, PendingSave};
use crate::config::model::{
    find_script, find_server, has_script, has_server, lemma_script_index, lemma_server_index, script_index,
    server_index, ForwardRule, Script, ServerEntry, SystemInfo, Uuid,
};
use crate::error::{error_text, AppError, ErrorView};
use crate::i18n::Strings;
use crate::session::{
    observe_handshake_at, observe_jumps, jump_records, learned, recorded_on, JumpRecord, SessionRecord,
};
use crate::ssh::client::HostKeyOutcome;
use crate::ssh::script_runner::ScriptVars;
use crate::ssh::session::{chain, leads_to, Target};
use crate::ssh_config::{host_views, parse, parsed, text_of_ref};
use crate::text::owned;
use crate::tui::{ScriptRunState, SettingsState, SshImportState};

verus! {

/// Whether `target` is what the chain of `entry` comes to.
pub open spec fn resolves(target: Result<Target, AppError>, entry: ServerEntry, servers: Seq<ServerEntry>) -> bool {
    match target {
        Ok(t) => chain(entry, servers) matches Ok(hops) && leads_to(t, entry, servers, hops),
        Err(e) => chain(entry, servers) == Err::<Seq<int>, ErrorView>(e@),
    }
}

/// The placeholders of a server.
pub open spec fn vars_of(entry: ServerEntry) -> ScriptVars {
    ScriptVars { name: entry.name, host: entry.host, port: entry.port, username: entry.username }
}

/// The scripts that run at every connect, in order.
pub open spec fn auto_run(scripts: Seq<Script>) -> Seq<Script>
    decreases scripts.len(),
{
    if scripts.len() == 0 {
        Seq::empty()
    } else {
        let rest = auto_run(scripts.drop_last());
        if scripts.last().run_on_connect {
            rest.push(scripts.last())
        } else {
            rest
        }
    }
}

/// Whether `is` holds the expansions of `was`, one for one.
pub open spec fn expansions(vars: ScriptVars, was: Seq<Script>, is: Seq<Script>) -> bool {
    &&& is.len() == was.len()
    &&& forall|i: int| 0 <= i < was.len() ==> vars.is_expansion(was[i], #[trigger] is[i])
}

/// Everything a connect needs out of the vault. It owns its credentials and its
/// commands, expanded already.
pub struct ConnectContext {
    pub target: Result<Target, AppError>,
    pub forwards: Vec<ForwardRule>,
    pub on_connect: Vec<Script>,
}

fn on_connect(vars: &ScriptVars, scripts: &Vec<Script>) -> (r: Vec<Script>)
    ensures
        expansions(*vars, auto_run(scripts@), r@),
{
    let mut out: Vec<Script> = Vec::new();
    let mut i: usize = 0;
    while i < scripts.len()
        invariant
            i <= scripts@.len(),
            expansions(*vars, auto_run(scripts@.take(i as int)), out@),
        decreases scripts@.len() - i,
    {
        assert(scripts@.take(i + 1).drop_last() =~= scripts@.take(i as int));
        if scripts[i].run_on_connect {
            out.push(vars.expand_script(&scripts[i]));
        }
        i = i + 1;
    }
    assert(scripts@.take(i as int) =~= scripts@);
    out
}

fn copy_forwards(forwards: &Vec<ForwardRule>) -> (r: Vec<ForwardRule>)
    ensures
        r@ == forwards@,
{
    let mut out: Vec<ForwardRule> = Vec::new();
    let mut i: usize = 0;
    while i < forwards.len()
        invariant
            i <= forwards@.len(),
            out@ == forwards@.take(i as int),
        decreases forwards@.len() - i,
    {
        out.push(forwards[i].clone());
        i = i + 1;
        assert(out@ =~= forwards@.take(i as int));
    }
    assert(forwards@.take(i as int) =~= forwards@);
    out
}

/// The sentence for a connection that was not made.
pub open spec fn connect_error_text(e: ErrorView, strings: Strings) -> Seq<char> {
    match e {
        ErrorView::HostKeyChanged { fingerprint } => strings.host_key_changed_prefix@ + fingerprint
            + strings.host_key_changed_suffix@,
        other => strings.connect_error_prefix@ + error_text(other),
    }
}

/// The list with what a bastion taught folded in.
pub open spec fn with_jump(servers: Seq<ServerEntry>, jump: JumpRecord) -> Seq<ServerEntry> {
    if has_server(servers, jump.server_id) {
        let i = server_index(servers, jump.server_id);
        servers.update(i, ServerEntry { host_key_fingerprint: Some(jump.fingerprint), ..servers[i] })
    } else {
        servers
    }
}

/// The list with what the bastions taught folded in, one after another.
pub open spec fn with_jumps(servers: Seq<ServerEntry>, jumps: Seq<JumpRecord>) -> Seq<ServerEntry>
    decreases jumps.len(),
{
    if jumps.len() == 0 {
        servers
    } else {
        with_jump(with_jumps(servers, jumps.drop_last()), jumps.last())
    }
}

/// Whether `is` is the list with a session's record folded into its entry.
pub open spec fn with_session(was: Seq<ServerEntry>, id: Uuid, record: SessionRecord, is: Seq<ServerEntry>) -> bool {
    if has_server(was, id) {
        let i = server_index(was, id);
        is == was.update(i, is[i]) && recorded_on(record, was[i], is[i])
    } else {
        is == was
    }
}

/// Whether a session and the bastions on the way to it were recorded.
pub open spec fn session_recorded(
    before: AppState,
    id: Uuid,
    record: SessionRecord,
    jumps: Seq<JumpRecord>,
    after: AppState,
    effect: Effect,
) -> bool {
    match before {
        AppState::Unlocked(u) => {
            &&& effect == save_for(AfterSave::BestEffort)
            &&& after matches AppState::Unlocked(v) && only_config(u, v) && only_servers(u.config, v.config)
                && exists|mid: Seq<ServerEntry>| #[trigger]
                with_session(u.config.servers@, id, record, mid) && v.config.servers@ == with_jumps(mid, jumps)
        },
        _ => after == before && effect == Effect::Nothing,
    }
}

/// Whether the footer says `text`; without an open vault nothing changed.
pub open spec fn status_set(before: AppState, text: Seq<char>, now: u64, after: AppState) -> bool {
    match before {
        AppState::Unlocked(u) => after matches AppState::Unlocked(v) && v == (UnlockedState { status: v.status, ..u })
            && status_says(v.status, text, now),
        _ => after == before,
    }
}

/// One server's part in a run.
pub struct PlannedRun {
    pub server_name: String,
    /// A bad chain on one host is the same kind of problem as a host that will
    /// not answer: it does not end the run of the others.
    pub target: Result<Target, AppError>,
    pub script: Script,
}

/// One script, with every server to run it on.
pub struct RunPlan {
    pub origin_name: String,
    pub script_name: String,
    pub runs: Vec<PlannedRun>,
}

/// The servers of the list that `targets` names, in the order they were picked.
pub open spec fn picked(servers: Seq<ServerEntry>, targets: Seq<Uuid>) -> Seq<ServerEntry>
    decreases targets.len(),
{
    if targets.len() == 0 {
        Seq::empty()
    } else {
        let rest = picked(servers, targets.drop_last());
        if has_server(servers, targets.last()) {
            rest.push(servers[server_index(servers, targets.last())])
        } else {
            rest
        }
    }
}

/// Whether a server's part in a run is its own: its chain, and the script
/// expanded with its own placeholders.
pub open spec fn is_run(run: PlannedRun, entry: ServerEntry, servers: Seq<ServerEntry>, script: Script) -> bool {
    &&& run.server_name == entry.name
    &&& resolves(run.target, entry, servers)
    &&& vars_of(entry).is_expansion(script, run.script)
}

/// Whether the runs are those of `entries`, one for one.
pub open spec fn are_runs(
    runs: Seq<PlannedRun>,
    entries: Seq<ServerEntry>,
    servers: Seq<ServerEntry>,
    script: Script,
) -> bool {
    &&& runs.len() == entries.len()
    &&& forall|i: int| 0 <= i < entries.len() ==> is_run(#[trigger] runs[i], entries[i], servers, script)
}

/// Whether there is anything to run: the script's own server, the script, and
/// at least one server that is still there.
pub open spec fn runnable(servers: Seq<ServerEntry>, origin: Uuid, script: Uuid, targets: Seq<Uuid>) -> bool {
    &&& has_server(servers, origin)
    &&& has_script(servers[server_index(servers, origin)].scripts@, script)
    &&& picked(servers, targets).len() > 0
}

fn plan_each(servers: &Vec<ServerEntry>, targets: &[Uuid], script: &Script) -> (r: Vec<PlannedRun>)
    ensures
        are_runs(r@, picked(servers@, targets@), servers@, *script),
{
    let mut runs: Vec<PlannedRun> = Vec::new();
    let mut i: usize = 0;
    while i < targets.len()
        invariant
            i <= targets@.len(),
            are_runs(runs@, picked(servers@, targets@.take(i as int)), servers@, *script),
        decreases targets@.len() - i,
    {
        assert(targets@.take(i + 1).drop_last() =~= targets@.take(i as int));
        if let Some(at) = find_server(servers, targets[i]) {
            let entry = &servers[at];
            let vars = ScriptVars::from_entry(entry);
            let run = PlannedRun {
                server_name: entry.name.clone(),
                target: Target::from_entry(entry, servers),
                script: vars.expand_script(script),
            };
            assert(is_run(run, servers@[at as int], servers@, *script));
            runs.push(run);
        }
        i = i + 1;
    }
    assert(targets@.take(i as int) =~= targets@);
    runs
}

/// What to do next in a run over several servers.
pub enum FleetStep {
    /// Connect to this server and run its script.
    Connect { server: usize },
    /// This server cannot be reached by its chain: say so and go on.
    Refused { server: usize, message: String },
    /// Nothing is left to do.
    Done { cancelled: bool },
}

/// A run over several servers, one after another. Only a cancel stops it: a
/// server that cannot be reached is passed over.
pub struct FleetRun {
    pub next: usize,
    pub cancelled: bool,
}

impl FleetRun {
    /// A run that has not begun.
    pub fn new() -> (r: Self)
        ensures
            r == (FleetRun { next: 0, cancelled: false }),
    {
        FleetRun { next: 0, cancelled: false }
    }

    /// What the next step of a run is.
    pub open spec fn advanced(self, plan: RunPlan, after: FleetRun, step: FleetStep) -> bool {
        if self.cancelled || self.next == plan.runs@.len() {
            after == self && step == (FleetStep::Done { cancelled: self.cancelled })
        } else {
            let at = self.next;
            &&& after.next == at + 1
            &&& !after.cancelled
            &&& match plan.runs@[at as int].target {
                Ok(_) => step == (FleetStep::Connect { server: at }),
                Err(e) => step matches FleetStep::Refused { server, message } && server == at && message@
                    == error_text(e@),
            }
        }
    }

    /// Goes on to the next server.
    pub fn advance(&mut self, plan: &RunPlan) -> (r: FleetStep)
        requires
            old(self).next <= plan.runs@.len(),
        ensures
            old(self).advanced(*plan, *final(self), r),
    {
        if self.cancelled || self.next >= plan.runs.len() {
            return FleetStep::Done { cancelled: self.cancelled };
        }
        let server: usize = self.next;
        self.next = server + 1;
        match &plan.runs[server].target {
            Ok(_) => FleetStep::Connect { server },
            Err(e) => FleetStep::Refused { server, message: e.message() },
        }
    }

    /// The user asked to stop: no server after this one gets a turn.
    pub fn cancel(&mut self)
        ensures
            *final(self) == (FleetRun { cancelled: true, ..*old(self) }),
    {
        self.cancelled = true;
    }
}

impl App {
    /// Shows a message in the footer.
    pub fn set_status(&mut self, text: String, now: u64)
        ensures
            final(self).same_but_state(*old(self)),
            status_set(old(self).state, text@, now, final(self).state),
    {
        if let AppState::Unlocked(u) = &mut self.state {
            u.status = Some(StatusMessage::new(text, now));
        }
    }

    /// Opens the settings, with whether a credential store is reachable.
    pub fn open_settings(&mut self, store_available: bool)
        ensures
            final(self).same_but_state(*old(self)),
            match old(self).state {
                AppState::Unlocked(u) => final(self).state == AppState::Unlocked(
                    UnlockedState {
                        screen: Screen::Settings(
                            SettingsState {
                                lang: old(self).lang,
                                theme: old(self).theme,
                                auth_mode: u.auth_mode(),
                                store_available,
                                auto_lock_minutes: u.config.auto_lock_minutes,
                                connect_mode: u.config.connect_mode,
                                error: None,
                                info: None,
                            },
                        ),
                        ..u
                    },
                ),
                _ => final(self).state == old(self).state,
            },
    {
        let lang = self.lang;
        let theme = self.theme;
        if let AppState::Unlocked(u) = &mut self.state {
            let auth_mode = u.current_auth_mode();
            u.screen = Screen::Settings(
                SettingsState {
                    lang,
                    theme,
                    auth_mode,
                    store_available,
                    auto_lock_minutes: u.config.auto_lock_minutes,
                    connect_mode: u.config.connect_mode,
                    error: None,
                    info: None,
                },
            );
        }
    }

    /// Opens the import screen over what was read of the user's ssh config. A
    /// file that cannot be read, for the reason given, still opens the screen:
    /// an empty list with an explanation beats a key that appears to do
    /// nothing. Without a reason there was no file to look for.
    pub fn ssh_config_read(&mut self, read: Result<String, Option<String>>, home: Option<&str>, strings: &Strings)
        ensures
            final(self).same_but_state(*old(self)),
            match old(self).state {
                AppState::Unlocked(u) => final(self).state matches AppState::Unlocked(v) && v == (UnlockedState {
                    screen: v.screen,
                    ..u
                }) && (v.screen matches Screen::SshImport(s) && match read {
                    Ok(text) => host_views(s.hosts@) == parsed(text@, text_of_ref(home)) && s.error is None,
                    Err(reason) => s.hosts@.len() == 0 && says(
                        s.error,
                        match reason {
                            Some(text) => strings.ssh_import_error_prefix@ + text@,
                            None => strings.ssh_import_error_prefix@,
                        },
                    ),
                }),
                _ => final(self).state == old(self).state,
            },
    {
        if let AppState::Unlocked(u) = &mut self.state {
            let (hosts, error) = match read {
                Ok(text) => (parse(text.as_str(), home), None),
                Err(reason) => {
                    let mut message = owned(strings.ssh_import_error_prefix);
                    if let Some(text) = reason {
                        message.push_str(text.as_str());
                    }
                    (Vec::new(), Some(message))
                },
            };
            u.screen = Screen::SshImport(SshImportState { hosts, error });
        }
    }

    /// Everything a connect needs out of the vault.
    pub fn connect_context(&self, id: Uuid) -> (r: Option<ConnectContext>)
        ensures
            match r {
                Some(c) => self.state matches AppState::Unlocked(u) && has_server(u.config.servers@, id) && ({
                    let entry = u.config.servers@[server_index(u.config.servers@, id)];
                    &&& resolves(c.target, entry, u.config.servers@)
                    &&& c.forwards@ == entry.forwards@
                    &&& expansions(vars_of(entry), auto_run(entry.scripts@), c.on_connect@)
                }),
                None => self.state matches AppState::Unlocked(u) ==> !has_server(u.config.servers@, id),
            },
    {
        match &self.state {
            AppState::Unlocked(u) => match find_server(&u.config.servers, id) {
                Some(i) => {
                    let entry = &u.config.servers[i];
                    let vars = ScriptVars::from_entry(entry);
                    Some(
                        ConnectContext {
                            target: Target::from_entry(entry, &u.config.servers),
                            forwards: copy_forwards(&entry.forwards),
                            on_connect: on_connect(&vars, &entry.scripts),
                        },
                    )
                },
                None => None,
            },
            _ => None,
        }
    }

    /// Says on the row of a server that it is being reached.
    pub fn connect_started(&mut self, id: Uuid, now: u64)
        ensures
            *final(self) == (App { connecting: Some((id, now)), ..*old(self) }),
    {
        self.connecting = Some((id, now));
    }

    /// Says why a connection was not made. A changed host key has a sentence of
    /// its own.
    pub fn connect_failed(&mut self, error: &AppError, strings: &Strings, now: u64)
        ensures
            final(self).same_but_state(*old(self)),
            status_set(old(self).state, connect_error_text(error@, *strings), now, final(self).state),
    {
        let text = match error {
            AppError::HostKeyChanged { fingerprint } => {
                let mut s = owned(strings.host_key_changed_prefix);
                s.push_str(fingerprint.as_str());
                s.push_str(strings.host_key_changed_suffix);
                s
            },
            other => prefixed(strings.connect_error_prefix, other),
        };
        self.set_status(text, now);
    }

    /// Records what the handshake taught the vault, before the session starts:
    /// a fingerprint written only at the end would be trusted anew if the
    /// process were killed during it.
    pub fn handshake_done(
        &mut self,
        id: Uuid,
        outcome: &HostKeyOutcome,
        jump_outcomes: &[HostKeyOutcome],
        jump_ids: &[Uuid],
        now_unix: u64,
    ) -> (r: (SessionRecord, Effect))
        ensures
            final(self).same_but_state(*old(self)),
            r.0 == (SessionRecord { fingerprint: learned(*outcome), connected_at: now_unix, system_info: None }),
            session_recorded(
                old(self).state,
                id,
                r.0,
                jump_records(jump_outcomes@, jump_ids@),
                final(self).state,
                r.1,
            ),
    {
        let record = observe_handshake_at(outcome, now_unix);
        let jumps = observe_jumps(jump_outcomes, jump_ids);
        let effect = self.record_session(id, &record, &jumps);
        (record, effect)
    }

    /// Folds one session's record into its entry, and what the bastions taught
    /// into theirs, all in one write.
    pub fn record_session(&mut self, id: Uuid, record: &SessionRecord, jumps: &[JumpRecord]) -> (r: Effect)
        ensures
            final(self).same_but_state(*old(self)),
            session_recorded(old(self).state, id, *record, jumps@, final(self).state, r),
    {
        match &mut self.state {
            AppState::Unlocked(u) => {
                let ghost was = u.config.servers@;
                if let Some(i) = find_server(&u.config.servers, id) {
                    record.apply_to(&mut u.config.servers[i]);
                    assert(u.config.servers@ =~= was.update(i as int, u.config.servers@[i as int]));
                }
                let ghost mid = u.config.servers@;
                assert(with_session(was, id, *record, mid));
                apply_jumps(&mut u.config.servers, jumps);
                Effect::Save(PendingSave { slots: None, after: AfterSave::BestEffort })
            },
            _ => Effect::Nothing,
        }
    }

    /// Records what the probe read, where it read something: a second write
    /// would otherwise store nothing new.
    pub fn finish(&mut self, id: Uuid, record: &mut SessionRecord, info: Option<SystemInfo>) -> (r: Effect)
        ensures
            final(self).same_but_state(*old(self)),
            *final(record) == (SessionRecord { system_info: info, ..*old(record) }),
            if info is Some {
                session_recorded(
                    old(self).state,
                    id,
                    *final(record),
                    Seq::empty(),
                    final(self).state,
                    r,
                )
            } else {
                final(self).state == old(self).state && r == Effect::Nothing
            },
    {
        record.system_info = info;
        if record.system_info.is_some() {
            let none: Vec<JumpRecord> = Vec::new();
            assert(none@ =~= Seq::<JumpRecord>::empty());
            self.record_session(id, record, &none)
        } else {
            Effect::Nothing
        }
    }

    /// Takes in how a remote shell ended.
    pub fn session_ended(&mut self, result: Result<(), AppError>, strings: &Strings, now: u64)
        ensures
            final(self).same_but_state(*old(self)),
            match old(self).state {
                AppState::Unlocked(u) => final(self).state matches AppState::Unlocked(v) && v == (UnlockedState {
                    status: v.status,
                    ..u
                }) && match result {
                    Ok(_) => v.status is None,
                    Err(e) => status_says(v.status, strings.disconnected_prefix@ + error_text(e@), now),
                },
                _ => final(self).state == old(self).state,
            },
    {
        if let AppState::Unlocked(u) = &mut self.state {
            u.status = match result {
                Ok(_) => None,
                Err(e) => Some(StatusMessage::new(prefixed(strings.disconnected_prefix, &e), now)),
            };
        }
    }

    /// Takes a run of one script on one or more servers out of the vault. The
    /// script comes from its own server, but each target expands its own
    /// placeholders.
    pub fn plan_runs(&self, origin: Uuid, script: Uuid, targets: &[Uuid]) -> (r: Option<RunPlan>)
        ensures
            match r {
                Some(plan) => self.state matches AppState::Unlocked(u) && runnable(
                    u.config.servers@,
                    origin,
                    script,
                    targets@,
                ) && ({
                    let servers = u.config.servers@;
                    let own = servers[server_index(servers, origin)];
                    let definition = own.scripts@[script_index(own.scripts@, script)];
                    &&& plan.origin_name == own.name
                    &&& plan.script_name == definition.name
                    &&& are_runs(plan.runs@, picked(servers, targets@), servers, definition)
                }),
                None => self.state matches AppState::Unlocked(u) ==> !runnable(
                    u.config.servers@,
                    origin,
                    script,
                    targets@,
                ),
            },
    {
        let u = match &self.state {
            AppState::Unlocked(u) => u,
            _ => return None,
        };
        let own = match find_server(&u.config.servers, origin) {
            Some(i) => &u.config.servers[i],
            None => return None,
        };
        let definition = match find_script(&own.scripts, script) {
            Some(i) => &own.scripts[i],
            None => return None,
        };
        let runs = plan_each(&u.config.servers, targets, definition);
        if runs.len() == 0 {
            return None;
        }
        Some(RunPlan { origin_name: own.name.clone(), script_name: definition.name.clone(), runs })
    }

    /// Shows the log of a run that is over.
    pub fn runs_over(&mut self, run: ScriptRunState)
        ensures
            final(self).same_but_state(*old(self)),
            match old(self).state {
                AppState::Unlocked(u) => final(self).state == AppState::Unlocked(
                    UnlockedState { screen: Screen::ScriptRun(run), ..u },
                ),
                _ => final(self).state == old(self).state,
            },
    {
        if let AppState::Unlocked(u) = &mut self.state {
            u.screen = Screen::ScriptRun(run);
        }
    }

    /// Says on the run screen how writing the log went: it has no footer, and is
    /// what the user is looking at.
    pub fn log_written(&mut self, path: &str, result: Result<(), String>, strings: &Strings)
        ensures
            final(self).same_but_state(*old(self)),
            match old(self).state {
                AppState::Unlocked(u) => match u.screen {
                    Screen::ScriptRun(run) => final(self).state matches AppState::Unlocked(v) && (v.screen
                        matches Screen::ScriptRun(shown) && {
                        &&& v == (UnlockedState { screen: v.screen, ..u })
                        &&& shown == (ScriptRunState { notice: shown.notice, ..run })
                        &&& says(
                            shown.notice,
                            match result {
                                Ok(_) => strings.status_saved@ + path@,
                                Err(e) => strings.save_error_prefix@ + e@,
                            },
                        )
                    }),
                    _ => final(self).state == old(self).state,
                },
                _ => final(self).state == old(self).state,
            },
    {
        if let AppState::Unlocked(u) = &mut self.state {
            if let Screen::ScriptRun(run) = &mut u.screen {
                let mut text: String;
                match result {
                    Ok(_) => {
                        text = owned(strings.status_saved);
                        text.push_str(path);
                    },
                    Err(e) => {
                        text = owned(strings.save_error_prefix);
                        text.push_str(e.as_str());
                    },
                }
                run.notice = Some(text);
            }
        }
    }
}

/// Folds what the bastions taught into their entries.
fn apply_jumps(servers: &mut Vec<ServerEntry>, jumps: &[JumpRecord])
    ensures
        final(servers)@ == with_jumps(old(servers)@, jumps@),
{
    let ghost was = servers@;
    let mut n: usize = 0;
    while n < jumps.len()
        invariant
            n <= jumps@.len(),
            servers@ == with_jumps(was, jumps@.take(n as int)),
        decreases jumps@.len() - n,
    {
        let ghost before = servers@;
        if let Some(i) = find_server(servers, jumps[n].server_id) {
            jumps[n].apply_to(&mut servers[i]);
            assert(servers@ =~= before.update(i as int, servers@[i as int]));
        }
        assert(jumps@.take(n + 1).drop_last() =~= jumps@.take(n as int));
        assert(servers@ == with_jump(before, jumps@[n as int]));
        n = n + 1;
    }
    assert(jumps@.take(n as int) =~= jumps@);
}

/// Recording what bastions taught moves no server and touches nothing of it but
/// its fingerprint.
pub proof fn bastions_teach_only_their_fingerprints(servers: Seq<ServerEntry>, jumps: Seq<JumpRecord>, i: int)
    requires
        0 <= i < servers.len(),
    ensures
        with_jumps(servers, jumps).len() == servers.len(),
        with_jumps(servers, jumps)[i] == (ServerEntry {
            host_key_fingerprint: with_jumps(servers, jumps)[i].host_key_fingerprint,
            ..servers[i]
        }),
    decreases jumps.len(),
{
    if jumps.len() > 0 {
        let before = with_jumps(servers, jumps.drop_last());
        bastions_teach_only_their_fingerprints(servers, jumps.drop_last(), i);
        lemma_server_index(before, jumps.last().server_id);
    }
}

/// A run over several servers gives every one of them its turn, in order: a
/// server that cannot be reached stops none of the others.
pub proof fn an_unreachable_server_stops_no_other(run: FleetRun, plan: RunPlan, after: FleetRun, step: FleetStep)
    requires
        !run.cancelled,
        run.next < plan.runs@.len(),
        run.advanced(plan, after, step),
    ensures
        !after.cancelled,
        after.next == run.next + 1,
        !(step is Done),
{
}

/// The placeholders of a server are its own name, host, port and user.
pub proof fn placeholders_are_the_servers_own(entry: ServerEntry)
    ensures
        vars_of(entry).name == entry.name,
        vars_of(entry).host == entry.host,
        vars_of(entry).port == entry.port,
        vars_of(entry).username == entry.username,
{
}

/// The scripts that run at a connect, of two lists one behind the other, are those
/// of each.
pub proof fn auto_runs_join(a: Seq<Script>, b: Seq<Script>)
    ensures
        auto_run(a + b) == auto_run(a) + auto_run(b),
    decreases b.len(),
{
    if b.len() == 0 {
        assert(a + b =~= a);
        assert(auto_run(a) + auto_run(b) =~= auto_run(a));
    } else {
        assert((a + b).drop_last() =~= a + b.drop_last());
        auto_runs_join(a, b.drop_last());
        assert(auto_run(a + b) =~= auto_run(a) + auto_run(b));
    }
}

/// A script runs at a connect exactly where it says so.
pub proof fn a_script_runs_at_a_connect_where_it_says_so(script: Script)
    ensures
        script.run_on_connect ==> auto_run(seq![script]) == seq![script],
        !script.run_on_connect ==> auto_run(seq![script]).len() == 0,
{
    assert(seq![script].drop_last() =~= Seq::empty());
    assert(auto_run(Seq::<Script>::empty()) =~= Seq::empty());
    assert(Seq::<Script>::empty().push(script) =~= seq![script]);
}

/// What a connect takes out of the vault: the target of the server's chain, its
/// forwards as they stand, and the scripts that run at a connect, each expanded
/// with the server's own placeholders.
pub proof fn a_connect_takes_what_its_server_says(app: &App, u: UnlockedState, i: int, c: ConnectContext)
    requires
        app.state == AppState::Unlocked(u),
        0 <= i < u.config.servers@.len(),
        forall|j: int| 0 <= j < i ==> (#[trigger] u.config.servers@[j]).id != u.config.servers@[i].id,
        call_ensures(App::connect_context, (app, u.config.servers@[i].id), Some(c)),
    ensures
        c.forwards@ == u.config.servers@[i].forwards@,
        c.target matches Ok(t) ==> {
            &&& t.endpoint.host == u.config.servers@[i].host
            &&& t.endpoint.port == u.config.servers@[i].port
            &&& t.endpoint.username == u.config.servers@[i].username
            &&& t.endpoint.auth == u.config.servers@[i].auth
            &&& t.endpoint.host_key_fingerprint == u.config.servers@[i].host_key_fingerprint
        },
        c.on_connect@.len() == auto_run(u.config.servers@[i].scripts@).len(),
        forall|k: int|
            0 <= k < c.on_connect@.len() ==> vars_of(u.config.servers@[i]).is_expansion(
                auto_run(u.config.servers@[i].scripts@)[k],
                #[trigger] c.on_connect@[k],
            ),
{
    lemma_server_index(u.config.servers@, u.config.servers@[i].id);
}

/// A changed host key has a sentence of its own, which names the new fingerprint;
/// every other failure is told by its own.
pub proof fn a_changed_host_key_is_told_apart(e: ErrorView, strings: Strings)
    ensures
        e matches ErrorView::HostKeyChanged { fingerprint } ==> connect_error_text(e, strings)
            == strings.host_key_changed_prefix@ + fingerprint + strings.host_key_changed_suffix@,
        !(e is HostKeyChanged) ==> connect_error_text(e, strings) == strings.connect_error_prefix@ + error_text(e),
{
}

/// What a bastion taught is stored with the server of its identity, and with no
/// other.
pub proof fn a_bastions_fingerprint_is_stored_with_it(servers: Seq<ServerEntry>, i: int, jump: JumpRecord)
    requires
        0 <= i < servers.len(),
        forall|j: int| 0 <= j < i ==> (#[trigger] servers[j]).id != servers[i].id,
        jump.server_id == servers[i].id,
    ensures
        with_jump(servers, jump).len() == servers.len(),
        with_jump(servers, jump)[i] == (ServerEntry { host_key_fingerprint: Some(jump.fingerprint), ..servers[i] }),
        forall|j: int| 0 <= j < servers.len() && j != i ==> #[trigger] with_jump(servers, jump)[j] == servers[j],
        with_jumps(servers, seq![jump]) == with_jump(servers, jump),
{
    lemma_server_index(servers, jump.server_id);
    assert(seq![jump].drop_last() =~= Seq::empty());
    assert(with_jumps(servers, Seq::empty()) == servers);
}

/// A session is recorded with the server it went to, and with no other, and the
/// vault is written.
pub proof fn a_session_is_recorded_with_its_server(
    before: UnlockedState,
    i: int,
    record: SessionRecord,
    after: AppState,
    effect: Effect,
)
    requires
        0 <= i < before.config.servers@.len(),
        forall|j: int| 0 <= j < i ==> (#[trigger] before.config.servers@[j]).id != before.config.servers@[i].id,
        session_recorded(
            AppState::Unlocked(before),
            before.config.servers@[i].id,
            record,
            Seq::empty(),
            after,
            effect,
        ),
    ensures
        after matches AppState::Unlocked(v) && {
            &&& v.config.servers@.len() == before.config.servers@.len()
            &&& v.config.servers@[i].last_connected_unix == Some(record.connected_at)
            &&& record.fingerprint is Some ==> v.config.servers@[i].host_key_fingerprint == record.fingerprint
            &&& record.fingerprint is None ==> v.config.servers@[i].host_key_fingerprint
                == before.config.servers@[i].host_key_fingerprint
            &&& forall|j: int|
                0 <= j < before.config.servers@.len() && j != i ==> #[trigger] v.config.servers@[j]
                    == before.config.servers@[j]
            &&& v.slots == before.slots && v.master_key == before.master_key && v.screen == before.screen
        },
        effect is Save,
{
    lemma_server_index(before.config.servers@, before.config.servers@[i].id);
    if let AppState::Unlocked(v) = after {
        let id = before.config.servers@[i].id;
        let mid = choose|mid: Seq<ServerEntry>| #[trigger]
            with_session(before.config.servers@, id, record, mid) && v.config.servers@ == with_jumps(
                mid,
                Seq::empty(),
            );
        assert(v.config.servers@ == mid);
        assert(mid == before.config.servers@.update(i, mid[i]));
    }
}

/// The servers picked by two lists of identities, one behind the other, are those
/// of each.
pub proof fn picks_join(servers: Seq<ServerEntry>, a: Seq<Uuid>, b: Seq<Uuid>)
    ensures
        picked(servers, a + b) == picked(servers, a) + picked(servers, b),
    decreases b.len(),
{
    if b.len() == 0 {
        assert(a + b =~= a);
        assert(picked(servers, a) + picked(servers, b) =~= picked(servers, a));
    } else {
        assert((a + b).drop_last() =~= a + b.drop_last());
        picks_join(servers, a, b.drop_last());
        assert(picked(servers, a + b) =~= picked(servers, a) + picked(servers, b));
    }
}

/// An identity picks its server, and nothing where that is gone.
pub proof fn a_pick_is_its_server(servers: Seq<ServerEntry>, id: Uuid)
    ensures
        forall|i: int|
            0 <= i < servers.len() && (#[trigger] servers[i]).id == id && (forall|j: int|
                0 <= j < i ==> (#[trigger] servers[j]).id != id) ==> picked(servers, seq![id]) == seq![servers[i]],
        (forall|i: int| 0 <= i < servers.len() ==> (#[trigger] servers[i]).id != id) ==> picked(servers, seq![id]).len()
            == 0,
{
    lemma_server_index(servers, id);
    assert(seq![id].drop_last() =~= Seq::empty());
    assert(picked(servers, Seq::empty()) =~= Seq::<ServerEntry>::empty());
    let at = server_index(servers, id);
    assert(Seq::<ServerEntry>::empty().push(servers[at]) =~= seq![servers[at]]);
}

/// A server's part in a run is under its name, to its own address, and with its
/// own placeholders.
pub proof fn a_run_is_the_servers_own(run: PlannedRun, entry: ServerEntry, servers: Seq<ServerEntry>, script: Script)
    requires
        is_run(run, entry, servers, script),
    ensures
        run.server_name == entry.name,
        run.target matches Ok(t) ==> t.endpoint.host == entry.host && t.endpoint.port == entry.port
            && t.endpoint.username == entry.username && t.endpoint.auth == entry.auth,
        run.script.steps@.len() == script.steps@.len(),
        forall|k: int|
            0 <= k < script.steps@.len() ==> (#[trigger] run.script.steps@[k]).command@ == vars_of(entry).expanded(
                script.steps@[k].command@,
            ),
{
}

/// A run over several servers takes them in order, each once; it connects to those
/// that can be reached by their chain, names the reason for the others, and ends
/// where none is left or where it was stopped.
pub proof fn a_fleet_takes_its_servers_in_order(run: FleetRun, plan: RunPlan, after: FleetRun, step: FleetStep)
    requires
        run.next <= plan.runs@.len(),
        run.advanced(plan, after, step),
    ensures
        step is Done <==> run.cancelled || run.next == plan.runs@.len(),
        step matches FleetStep::Done { cancelled } ==> cancelled == run.cancelled && after == run,
        step matches FleetStep::Connect { server } ==> server == run.next && plan.runs@[server as int].target is Ok,
        step matches FleetStep::Refused { server, message } ==> server == run.next && (
        plan.runs@[server as int].target matches Err(e) && message@ == error_text(e@)),
        !(step is Done) ==> after.next == run.next + 1 && !after.cancelled,
{
}

/// A footer that is set stands from that moment, and nothing else of an open vault
/// changes.
pub proof fn a_footer_stands_from_its_moment(
    before: AppState,
    u: UnlockedState,
    text: Seq<char>,
    now: u64,
    after: AppState,
)
    requires
        before == AppState::Unlocked(u),
        status_set(before, text, now, after),
    ensures
        after matches AppState::Unlocked(v) && (v.status matches Some(s) && s.text@ == text && s.shown_at == now)
            && v.config == u.config && v.screen == u.screen && v.slots == u.slots && v.master_key == u.master_key,
{
}

/// A run can be planned where the script's own server has it and some picked
/// server is there.
pub proof fn a_run_needs_its_script_and_a_target(
    servers: Seq<ServerEntry>,
    origin: Uuid,
    script: Uuid,
    targets: Seq<Uuid>,
)
    requires
        runnable(servers, origin, script, targets),
    ensures
        exists|i: int, k: int|
            0 <= i < servers.len() && 0 <= k < servers[i].scripts@.len() && (#[trigger] servers[i]).id == origin && (
            #[trigger] servers[i].scripts@[k]).id == script,
        targets.len() > 0,
{
    lemma_server_index(servers, origin);
    let i = server_index(servers, origin);
    lemma_script_index(servers[i].scripts@, script);
    let k = script_index(servers[i].scripts@, script);
    assert(servers[i].scripts@[k].id == script);
}

} // verus!
