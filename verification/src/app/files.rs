//! The file browser: where it opens, what it lists, and what a transfer reports.
use vstd::prelude::*;

use crate::app::sessions::{resolves, status_set};
use crate::app::state::{prefixed, says, App, AppState, Screen, UnlockedState};
use crate::config::model::{copy_text, find_server, has_server, server_index, Uuid};
use crate::error::{error_text, AppError, ErrorView};
use crate::i18n::Strings;
use crate::ssh::session::Target;
use crate::ssh::sftp::client::RemoteEntry;
use crate::ssh::sftp::wire::{FileKind, FX_CONNECTION_LOST, FX_NO_CONNECTION};
use crate::ssh::transfer::{
    destination, moving_bytes, moving_count, remote_join, Direction, TransferEvent, TransferPlan, TransferSummary,
};
use crate::text::{chars_of, decimal, join_path, owned, path_join, push_decimal};
use crate::tui::{BrowserEntry, FileBrowserState, Side};

verus! {

/// What opening the file browser needs out of the vault.
pub struct FilesContext {
    pub target: Result<Target, AppError>,
    pub server_name: String,
    pub last_remote: Option<String>,
    pub last_local: Option<String>,
}

/// What to do to open the file browser.
pub enum FilesStep {
    /// Connect to this server and open a file session on it.
    Connect { target: Target },
    /// The session to this server is already there.
    Reuse,
    /// It cannot be opened; the footer says why.
    Failed,
}

/// Whether an error leaves the session unusable: the stream is out of step, or
/// nothing is on the other end. A plain refusal does not.
pub open spec fn is_fatal(e: ErrorView) -> bool {
    match e {
        ErrorView::Sftp(_) => true,
        ErrorView::Io(_) => true,
        ErrorView::Ssh(_) => true,
        ErrorView::SftpStatus { code, .. } => code == FX_NO_CONNECTION || code == FX_CONNECTION_LOST,
        _ => false,
    }
}

fn fatal(e: &AppError) -> (r: bool)
    ensures
        r == is_fatal(e@),
{
    match e {
        AppError::Sftp(_) => true,
        AppError::Io(_) => true,
        AppError::Ssh(_) => true,
        AppError::SftpStatus { code, .. } => *code == FX_NO_CONNECTION || *code == FX_CONNECTION_LOST,
        _ => false,
    }
}

/// Where the local pane opens: the remembered directory where it is still one,
/// and else the current directory, or the root.
pub fn local_cwd(remembered: Option<String>, still_there: bool, current: Option<String>) -> (r: String)
    ensures
        match (remembered, current) {
            (Some(path), _) if still_there => r == path,
            (_, Some(path)) => r == path,
            _ => r@ == "/"@,
        },
{
    match remembered {
        Some(path) if still_there => path,
        _ => match current {
            Some(path) => path,
            None => owned("/"),
        },
    }
}

/// The remote path to ask about first: the remembered directory, or where the
/// login lands.
pub fn first_remote_path(remembered: &Option<String>) -> (r: String)
    ensures
        match remembered {
            Some(path) => r == *path,
            None => r@ == "."@,
        },
{
    match remembered {
        Some(path) => path.clone(),
        None => owned("."),
    }
}

/// Where the remote pane opens. The remembered directory was a convenience:
/// where it is gone the login directory takes its place, and the root where
/// even that is not told. `login` is asked for only where `first` failed.
pub fn remote_cwd(first: Result<String, AppError>, login: Option<Result<String, AppError>>) -> (r: String)
    ensures
        match (first, login) {
            (Ok(path), _) => r == path,
            (_, Some(Ok(path))) => r == path,
            _ => r@ == "/"@,
        },
{
    match first {
        Ok(path) => path,
        Err(_) => match login {
            Some(Ok(path)) => path,
            _ => owned("/"),
        },
    }
}

/// Whether an entry is shown.
pub open spec fn shown(e: RemoteEntry, show_hidden: bool) -> bool {
    show_hidden || !(e.name@.len() > 0 && e.name@[0] == '.')
}

/// The row of an entry.
pub open spec fn row(e: RemoteEntry) -> BrowserEntry {
    BrowserEntry { name: e.name, is_dir: e.kind == FileKind::Dir, size: e.size }
}

/// The rows of a listing, in its order.
pub open spec fn rows(entries: Seq<RemoteEntry>, show_hidden: bool) -> Seq<BrowserEntry>
    decreases entries.len(),
{
    if entries.len() == 0 {
        Seq::empty()
    } else {
        let rest = rows(entries.drop_last(), show_hidden);
        if shown(entries.last(), show_hidden) {
            rest.push(row(entries.last()))
        } else {
            rest
        }
    }
}

/// The rows of a listing, with the same dotfile filter that the local side
/// uses.
pub fn remote_entries(entries: &[RemoteEntry], show_hidden: bool) -> (r: Vec<BrowserEntry>)
    ensures
        r@ == rows(entries@, show_hidden),
{
    let mut out: Vec<BrowserEntry> = Vec::new();
    let mut i: usize = 0;
    while i < entries.len()
        invariant
            i <= entries@.len(),
            out@ == rows(entries@.take(i as int), show_hidden),
        decreases entries@.len() - i,
    {
        let e = &entries[i];
        let name = chars_of(e.name.as_str());
        let hidden: bool = name.len() > 0 && name[0] == '.';
        assert(entries@.take(i + 1).drop_last() =~= entries@.take(i as int));
        if show_hidden || !hidden {
            out.push(BrowserEntry { name: e.name.clone(), is_dir: e.is_dir(), size: e.size });
        }
        i = i + 1;
    }
    assert(entries@.take(i as int) =~= entries@);
    out
}

/// A name of a pane's directory as a path: remote paths are always separated by
/// `/`, local ones are joined as paths.
pub open spec fn joined_for(side: Side, cwd: Seq<char>, name: Seq<char>) -> Seq<char> {
    match side {
        Side::Remote => destination(Direction::Upload, cwd, name),
        Side::Local => path_join(cwd, name),
    }
}

/// Joins a selected name onto its pane's directory, on whichever side it came
/// from.
pub fn join_for(side: Side, cwd: &str, name: &str) -> (r: String)
    ensures
        r@ == joined_for(side, cwd@, name@),
{
    match side {
        Side::Remote => remote_join(cwd, name),
        Side::Local => join_path(cwd, name),
    }
}

/// What stands behind the count of the files and the bytes that were moved.
pub open spec fn summary_tail(summary: TransferSummary, strings: Strings) -> Seq<char> {
    let cancelled = if summary.cancelled {
        " \u{2014} "@ + strings.transfer_cancelled@
    } else {
        Seq::empty()
    };
    let failed = if summary.failures@.len() == 0 {
        Seq::empty()
    } else {
        " \u{2014} "@ + strings.transfer_failed_prefix@ + summary.failures@[0]@
    };
    let more = if summary.failures@.len() > 1 {
        " (+"@ + decimal((summary.failures@.len() - 1) as nat) + ")"@
    } else {
        Seq::empty()
    };
    cancelled + failed + more
}

/// One line describing what a finished run did.
pub open spec fn summary_line(summary: TransferSummary, size: Seq<char>, strings: Strings) -> Seq<char> {
    if summary.cancelled && summary.files == 0 {
        strings.transfer_cancelled@
    } else {
        strings.transfer_done_prefix@ + decimal(summary.files as nat) + strings.transfer_done_separator@ + size
            + summary_tail(summary, strings)
    }
}

/// One line describing what a finished run did. `size` is the number of bytes
/// as the front end writes it.
pub fn summarize(summary: &TransferSummary, size: &str, strings: &Strings) -> (r: String)
    ensures
        r@ == summary_line(*summary, size@, *strings),
{
    if summary.cancelled && summary.files == 0 {
        return owned(strings.transfer_cancelled);
    }
    let mut text = owned(strings.transfer_done_prefix);
    push_decimal(&mut text, summary.files as u64);
    text.push_str(strings.transfer_done_separator);
    text.push_str(size);
    let ghost head = text@;
    if summary.cancelled {
        text.push_str(" \u{2014} ");
        text.push_str(strings.transfer_cancelled);
    }
    if summary.failures.len() > 0 {
        text.push_str(" \u{2014} ");
        text.push_str(strings.transfer_failed_prefix);
        text.push_str(summary.failures[0].as_str());
        if summary.failures.len() > 1 {
            text.push_str(" (+");
            push_decimal(&mut text, (summary.failures.len() - 1) as u64);
            text.push_str(")");
        }
    }
    assert(text@ =~= head + summary_tail(*summary, *strings));
    text
}

/// The summary of a run that was stopped before a byte moved.
pub fn cancelled_summary() -> (r: TransferSummary)
    ensures
        r.cancelled,
        r.files == 0,
        r.bytes == 0,
        r.skipped == 0,
        r.failures@.len() == 0,
{
    let mut summary = TransferSummary::default();
    summary.cancelled = true;
    summary
}

/// How far a transfer has come.
pub struct TransferProgress {
    pub title: &'static str,
    pub name: String,
    pub file_index: usize,
    pub file_count: usize,
    pub done_bytes: u64,
    pub total_bytes: u64,
    /// The tree is still being walked.
    pub scanning: bool,
}

impl TransferProgress {
    /// A transfer whose tree has yet to be walked.
    pub fn new(title: &'static str) -> (r: Self)
        ensures
            r.title == title,
            r.name@ == Seq::<char>::empty(),
            r.file_index == 0,
            r.file_count == 0,
            r.done_bytes == 0,
            r.total_bytes == 0,
            r.scanning,
    {
        TransferProgress {
            title,
            name: String::new(),
            file_index: 0,
            file_count: 0,
            done_bytes: 0,
            total_bytes: 0,
            scanning: true,
        }
    }

    /// The walk is over and the bytes start to move.
    pub fn start(&mut self, plan: &TransferPlan)
        requires
            moving_bytes(plan.items@) <= u64::MAX,
        ensures
            *final(self) == (TransferProgress {
                scanning: false,
                total_bytes: moving_bytes(plan.items@) as u64,
                file_count: moving_count(plan.items@) as usize,
                file_index: 0,
                done_bytes: 0,
                ..*old(self)
            }),
    {
        self.scanning = false;
        self.total_bytes = plan.planned_bytes();
        self.file_count = plan.file_count();
        self.file_index = 0;
        self.done_bytes = 0;
    }

    /// Takes in what a transfer reports.
    pub fn take(&mut self, event: &TransferEvent)
        requires
            event is ItemStarted ==> old(self).file_index < usize::MAX,
        ensures
            match *event {
                TransferEvent::Scanning { files, bytes } => *final(self) == (TransferProgress {
                    file_count: files,
                    total_bytes: bytes,
                    ..*old(self)
                }),
                TransferEvent::ItemStarted { name, .. } => *final(self) == (TransferProgress {
                    name,
                    file_index: (old(self).file_index + 1) as usize,
                    ..*old(self)
                }),
                TransferEvent::Progress { done_bytes } => *final(self) == (TransferProgress {
                    done_bytes,
                    ..*old(self)
                }),
                _ => *final(self) == *old(self),
            },
    {
        match event {
            TransferEvent::Scanning { files, bytes } => {
                self.file_count = *files;
                self.total_bytes = *bytes;
            },
            TransferEvent::ItemStarted { name, .. } => {
                self.name = name.clone();
                self.file_index = self.file_index + 1;
            },
            TransferEvent::Progress { done_bytes } => {
                self.done_bytes = *done_bytes;
            },
            _ => {},
        }
    }
}

/// What to list into the open browser.
pub struct ListRequest {
    pub path: String,
    pub server_id: Uuid,
}

/// A transfer that can begin.
pub struct TransferStart {
    pub direction: Direction,
    /// The paths to copy, and which of them are directories.
    pub sources: Vec<(String, bool)>,
    /// The directory to copy them to.
    pub dest: String,
    pub title: &'static str,
}

/// The pane a selection was made in, by its directory.
pub open spec fn pane_cwd(b: FileBrowserState, side: Side) -> String {
    match side {
        Side::Local => b.local_cwd,
        Side::Remote => b.remote_cwd,
    }
}

/// The pane opposite.
pub open spec fn opposite(side: Side) -> Side {
    match side {
        Side::Local => Side::Remote,
        Side::Remote => Side::Local,
    }
}

/// Whether `sources` are the paths of what was selected.
pub open spec fn are_sources(
    sources: Seq<(String, bool)>,
    side: Side,
    cwd: Seq<char>,
    selection: Seq<BrowserEntry>,
) -> bool {
    &&& sources.len() == selection.len()
    &&& forall|i: int|
        0 <= i < selection.len() ==> {
            &&& (#[trigger] sources[i]).0@ == joined_for(side, cwd, selection[i].name@)
            &&& sources[i].1 == selection[i].is_dir
        }
}

fn sources_of(side: Side, cwd: &str, selection: &[BrowserEntry]) -> (r: Vec<(String, bool)>)
    ensures
        are_sources(r@, side, cwd@, selection@),
{
    let mut out: Vec<(String, bool)> = Vec::new();
    let mut i: usize = 0;
    while i < selection.len()
        invariant
            i <= selection@.len(),
            are_sources(out@, side, cwd@, selection@.take(i as int)),
        decreases selection@.len() - i,
    {
        let path = join_for(side, cwd, selection[i].name.as_str());
        out.push((path, selection[i].is_dir));
        i = i + 1;
    }
    assert(selection@.take(i as int) =~= selection@);
    out
}

/// What a listing does to the open browser.
pub open spec fn listed_into(
    was: FileBrowserState,
    path: String,
    listing: Result<Vec<RemoteEntry>, AppError>,
    strings: Strings,
    is: FileBrowserState,
) -> bool {
    match listing {
        Ok(entries) => is == (FileBrowserState {
            remote_cwd: path,
            remote_entries: is.remote_entries,
            remote_error: None,
            ..was
        }) && is.remote_entries@ == rows(entries@, was.show_hidden),
        Err(e) => is == (FileBrowserState { remote_error: is.remote_error, ..was }) && says(
            is.remote_error,
            strings.sftp_error_prefix@ + error_text(e@),
        ),
    }
}

fn list_into(
    browser: &mut FileBrowserState,
    path: String,
    listing: Result<Vec<RemoteEntry>, AppError>,
    strings: &Strings,
)
    ensures
        listed_into(*old(browser), path, listing, *strings, *final(browser)),
{
    match listing {
        Ok(entries) => {
            browser.remote_entries = remote_entries(&entries, browser.show_hidden);
            browser.remote_cwd = path;
            browser.remote_error = None;
        },
        Err(e) => {
            browser.remote_error = Some(prefixed(strings.sftp_error_prefix, &e));
        },
    }
}

/// The session that is left after a listing or a transfer: a fatal error drops
/// it.
pub open spec fn remote_after<T>(remote: Option<Uuid>, outcome: Result<T, AppError>) -> Option<Uuid> {
    match outcome {
        Err(e) if is_fatal(e@) => None,
        _ => remote,
    }
}

/// Whether only the open browser changed, and how.
pub open spec fn browser_of(state: AppState) -> Option<FileBrowserState> {
    match state {
        AppState::Unlocked(u) => match u.screen {
            Screen::FileBrowser(b) => Some(b),
            _ => None,
        },
        _ => None,
    }
}

/// Whether nothing but the browser on screen changed.
pub open spec fn only_browser(before: AppState, after: AppState) -> bool {
    match before {
        AppState::Unlocked(u) if u.screen is FileBrowser => after matches AppState::Unlocked(v) && v.screen
            is FileBrowser && v == (UnlockedState { screen: v.screen, ..u }),
        _ => after == before,
    }
}

impl App {
    /// What opening the file browser on a server needs out of the vault.
    pub fn files_context(&self, id: Uuid) -> (r: Option<FilesContext>)
        ensures
            match r {
                Some(c) => self.state matches AppState::Unlocked(u) && has_server(u.config.servers@, id) && ({
                    let entry = u.config.servers@[server_index(u.config.servers@, id)];
                    &&& resolves(c.target, entry, u.config.servers@)
                    &&& c.server_name == entry.name
                    &&& c.last_remote == entry.last_remote_dir
                    &&& c.last_local == entry.last_local_dir
                }),
                None => self.state matches AppState::Unlocked(u) ==> !has_server(u.config.servers@, id),
            },
    {
        match &self.state {
            AppState::Unlocked(u) => match find_server(&u.config.servers, id) {
                Some(i) => {
                    let entry = &u.config.servers[i];
                    Some(
                        FilesContext {
                            target: Target::from_entry(entry, &u.config.servers),
                            server_name: entry.name.clone(),
                            last_remote: copy_text(&entry.last_remote_dir),
                            last_local: copy_text(&entry.last_local_dir),
                        },
                    )
                },
                None => None,
            },
            _ => None,
        }
    }

    /// Begins to open the file browser. A live session to the same server is
    /// used again; one to another server is dropped.
    pub fn begin_files(&mut self, id: Uuid, target: Result<Target, AppError>, strings: &Strings, now: u64) -> (r: FilesStep)
        ensures
            match target {
                Err(e) => {
                    &&& r == FilesStep::Failed
                    &&& *final(self) == (App { state: final(self).state, remote: None, ..*old(self) })
                    &&& status_set(
                        old(self).state,
                        strings.connect_error_prefix@ + error_text(e@),
                        now,
                        final(self).state,
                    )
                },
                Ok(t) => if old(self).remote == Some(id) {
                    r == FilesStep::Reuse && *final(self) == (App { connecting: Some((id, now)), ..*old(self) })
                } else {
                    r == (FilesStep::Connect { target: t }) && *final(self) == (App {
                        connecting: Some((id, now)),
                        remote: None,
                        ..*old(self)
                    })
                },
            },
    {
        match target {
            Err(e) => {
                self.fail_to_open_files(&e, strings, now);
                FilesStep::Failed
            },
            Ok(target) => {
                self.connecting = Some((id, now));
                let live = self.session_is_to(id);
                if live {
                    FilesStep::Reuse
                } else {
                    self.remote = None;
                    FilesStep::Connect { target }
                }
            },
        }
    }

    /// Whether the live session is to this server.
    pub fn session_is_to(&self, id: Uuid) -> (r: bool)
        ensures
            r == (self.remote == Some(id)),
    {
        match self.remote {
            Some(live) => live == id,
            None => false,
        }
    }

    /// A file session on this server is open now.
    pub fn session_opened(&mut self, id: Uuid)
        ensures
            *final(self) == (App { remote: Some(id), ..*old(self) }),
    {
        self.remote = Some(id);
    }

    /// A connection that never opened leaves the user on the server list with
    /// the reason.
    pub fn fail_to_open_files(&mut self, error: &AppError, strings: &Strings, now: u64)
        ensures
            *final(self) == (App { state: final(self).state, remote: None, ..*old(self) }),
            status_set(
                old(self).state,
                strings.connect_error_prefix@ + error_text(error@),
                now,
                final(self).state,
            ),
    {
        self.remote = None;
        self.set_status(prefixed(strings.connect_error_prefix, error), now);
    }

    /// Drops the session where an error left it unusable.
    pub fn drop_remote_if_fatal(&mut self, error: &AppError)
        ensures
            *final(self) == (if is_fatal(error@) {
                App { remote: None, ..*old(self) }
            } else {
                *old(self)
            }),
    {
        if fatal(error) {
            self.remote = None;
        }
    }

    /// Shows the file browser with both panes where they belong, over the first
    /// listing.
    pub fn open_browser(
        &mut self,
        id: Uuid,
        server_name: String,
        local_cwd: String,
        remote_cwd: String,
        listing: Result<Vec<RemoteEntry>, AppError>,
        strings: &Strings,
    )
        ensures
            *final(self) == (App {
                state: final(self).state,
                remote: remote_after(old(self).remote, listing),
                ..*old(self)
            }),
            match old(self).state {
                AppState::Unlocked(u) => final(self).state matches AppState::Unlocked(v) && v == (UnlockedState {
                    screen: v.screen,
                    ..u
                }) && (v.screen matches Screen::FileBrowser(b) && b.server_id == id && b.server_name == server_name
                    && b.local_cwd == local_cwd && b.remote_cwd == remote_cwd && !b.show_hidden && b.status is None
                    && match listing {
                    Ok(entries) => b.remote_error is None && b.remote_entries@ == rows(entries@, false),
                    Err(e) => b.remote_entries@.len() == 0 && says(
                        b.remote_error,
                        strings.sftp_error_prefix@ + error_text(e@),
                    ),
                }),
                _ => final(self).state == old(self).state,
            },
    {
        if let Err(e) = &listing {
            self.drop_remote_if_fatal(e);
        }
        if let AppState::Unlocked(u) = &mut self.state {
            let mut browser = FileBrowserState {
                server_id: id,
                server_name,
                local_cwd,
                remote_cwd: remote_cwd.clone(),
                show_hidden: false,
                remote_entries: Vec::new(),
                remote_error: None,
                status: None,
            };
            list_into(&mut browser, remote_cwd, listing, strings);
            u.screen = Screen::FileBrowser(browser);
        }
    }

    /// What to list into the open browser: a new path, or the current one
    /// again. Without a session there is nothing to list, and the browser is
    /// already showing why.
    pub fn list_request(&self, path: Option<String>) -> (r: Option<ListRequest>)
        ensures
            match browser_of(self.state) {
                Some(b) if self.remote == Some(b.server_id) => r matches Some(q) && q.server_id == b.server_id
                    && q.path == (match path {
                    Some(p) => p,
                    None => b.remote_cwd,
                }),
                _ => r is None,
            },
    {
        match &self.state {
            AppState::Unlocked(u) => match &u.screen {
                Screen::FileBrowser(b) => {
                    if !self.session_is_to(b.server_id) {
                        return None;
                    }
                    let path = match path {
                        Some(p) => p,
                        None => b.remote_cwd.clone(),
                    };
                    Some(ListRequest { path, server_id: b.server_id })
                },
                _ => None,
            },
            _ => None,
        }
    }

    /// Takes a listing into the open browser.
    pub fn remote_listed(&mut self, path: String, listing: Result<Vec<RemoteEntry>, AppError>, strings: &Strings)
        ensures
            *final(self) == (App {
                state: final(self).state,
                remote: remote_after(old(self).remote, listing),
                ..*old(self)
            }),
            only_browser(old(self).state, final(self).state),
            browser_of(old(self).state) matches Some(was) ==> listed_into(
                was,
                path,
                listing,
                *strings,
                browser_of(final(self).state)->Some_0,
            ),
    {
        if let Err(e) = &listing {
            self.drop_remote_if_fatal(e);
        }
        if let AppState::Unlocked(u) = &mut self.state {
            if let Screen::FileBrowser(b) = &mut u.screen {
                list_into(b, path, listing, strings);
            }
        }
    }

    /// Begins a transfer of what is selected in the pane `side` to the other
    /// pane's directory. With nothing selected, or no session to the browser's
    /// server, the browser says that there is nothing to do.
    pub fn begin_transfer(&mut self, side: Side, selection: &[BrowserEntry], strings: &Strings) -> (r: Option<TransferStart>)
        ensures
            final(self).same_but_state(*old(self)),
            match browser_of(old(self).state) {
                None => r is None && final(self).state == old(self).state,
                Some(b) => if selection@.len() == 0 || old(self).remote != Some(b.server_id) {
                    &&& r is None
                    &&& only_browser(old(self).state, final(self).state)
                    &&& browser_of(final(self).state) matches Some(is) && is == (FileBrowserState {
                        status: is.status,
                        ..b
                    }) && says(is.status, strings.transfer_nothing_selected@)
                } else {
                    &&& final(self).state == old(self).state
                    &&& r matches Some(start) && start.dest == pane_cwd(b, opposite(side)) && are_sources(
                        start.sources@,
                        side,
                        pane_cwd(b, side)@,
                        selection@,
                    ) && match side {
                        Side::Local => start.direction == Direction::Upload && start.title
                            == strings.transfer_title_upload,
                        Side::Remote => start.direction == Direction::Download && start.title
                            == strings.transfer_title_download,
                    }
                },
            },
    {
        let remote = self.remote;
        match &mut self.state {
            AppState::Unlocked(u) => match &mut u.screen {
                Screen::FileBrowser(b) => {
                    let live: bool = match remote {
                        Some(id) => id == b.server_id,
                        None => false,
                    };
                    if selection.len() == 0 || !live {
                        b.status = Some(owned(strings.transfer_nothing_selected));
                        return None;
                    }
                    match side {
                        Side::Local => Some(
                            TransferStart {
                                direction: Direction::Upload,
                                sources: sources_of(side, b.local_cwd.as_str(), selection),
                                dest: b.remote_cwd.clone(),
                                title: strings.transfer_title_upload,
                            },
                        ),
                        Side::Remote => Some(
                            TransferStart {
                                direction: Direction::Download,
                                sources: sources_of(side, b.remote_cwd.as_str(), selection),
                                dest: b.local_cwd.clone(),
                                title: strings.transfer_title_download,
                            },
                        ),
                    }
                },
                _ => None,
            },
            _ => None,
        }
    }

    /// Takes in how a transfer went. `size` is the number of bytes as the front
    /// end writes it. The remote directory to list again comes back.
    pub fn transfer_over(&mut self, outcome: Result<TransferSummary, AppError>, size: &str, strings: &Strings) -> (r: Option<
        String,
    >)
        ensures
            *final(self) == (App {
                state: final(self).state,
                remote: remote_after(old(self).remote, outcome),
                ..*old(self)
            }),
            only_browser(old(self).state, final(self).state),
            match browser_of(old(self).state) {
                None => r is None,
                Some(was) => {
                    &&& r == Some(was.remote_cwd)
                    &&& browser_of(final(self).state) matches Some(is) && is == (FileBrowserState {
                        status: is.status,
                        ..was
                    }) && says(
                        is.status,
                        match outcome {
                            Ok(summary) => summary_line(summary, size@, *strings),
                            Err(e) => strings.sftp_error_prefix@ + error_text(e@),
                        },
                    )
                },
            },
    {
        let text = match &outcome {
            Ok(summary) => summarize(summary, size, strings),
            Err(e) => {
                self.drop_remote_if_fatal(e);
                prefixed(strings.sftp_error_prefix, e)
            },
        };
        match &mut self.state {
            AppState::Unlocked(u) => match &mut u.screen {
                Screen::FileBrowser(b) => {
                    b.status = Some(text);
                    Some(b.remote_cwd.clone())
                },
                _ => None,
            },
            _ => None,
        }
    }
}

/// Both panes hide hidden files together, and a listing loses nothing else.
pub proof fn only_hidden_entries_are_left_out(entries: Seq<RemoteEntry>, show_hidden: bool, i: int)
    requires
        0 <= i < entries.len(),
        shown(entries[i], show_hidden),
    ensures
        rows(entries, show_hidden).contains(row(entries[i])),
    decreases entries.len(),
{
    let rest = rows(entries.drop_last(), show_hidden);
    if i < entries.len() - 1 {
        only_hidden_entries_are_left_out(entries.drop_last(), show_hidden, i);
        let j = choose|j: int| 0 <= j < rest.len() && rest[j] == row(entries[i]);
        assert(rows(entries, show_hidden)[j] == row(entries[i]));
    } else {
        assert(rows(entries, show_hidden)[rest.len() as int] == row(entries[i]));
    }
}

/// A session is given up where the stream is out of step or gone, and kept after a
/// plain refusal.
pub proof fn only_a_broken_stream_ends_the_session(e: ErrorView)
    ensures
        e is Sftp || e is Io || e is Ssh ==> is_fatal(e),
        e matches ErrorView::SftpStatus { code, .. } ==> (is_fatal(e) <==> code == 6 || code == 7),
        !(e is Sftp || e is Io || e is Ssh || e is SftpStatus) ==> !is_fatal(e),
{
}

/// After a listing or a transfer the session is what it was, unless the error was
/// one that ends it.
pub proof fn a_session_outlives_a_refusal(remote: Option<Uuid>, outcome: Result<(), AppError>)
    ensures
        outcome is Ok ==> remote_after(remote, outcome) == remote,
        outcome matches Err(e) ==> (is_fatal(e@) ==> remote_after(remote, outcome) is None),
        outcome matches Err(e) ==> (!is_fatal(e@) ==> remote_after(remote, outcome) == remote),
{
}

/// The rows of two listings, one behind the other, are those of each.
pub proof fn listings_join(a: Seq<RemoteEntry>, b: Seq<RemoteEntry>, show_hidden: bool)
    ensures
        rows(a + b, show_hidden) == rows(a, show_hidden) + rows(b, show_hidden),
    decreases b.len(),
{
    if b.len() == 0 {
        assert(a + b =~= a);
        assert(rows(a, show_hidden) + rows(b, show_hidden) =~= rows(a, show_hidden));
    } else {
        assert((a + b).drop_last() =~= a + b.drop_last());
        listings_join(a, b.drop_last(), show_hidden);
        assert(rows(a + b, show_hidden) =~= rows(a, show_hidden) + rows(b, show_hidden));
    }
}

/// An entry is shown with its name, its size and whether it is a directory; one
/// whose name begins with a dot only where hidden ones are asked for.
pub proof fn an_entry_is_shown_as_it_is(e: RemoteEntry, show_hidden: bool)
    ensures
        show_hidden || e.name@.len() == 0 || e.name@[0] != '.' ==> rows(seq![e], show_hidden).len() == 1 && ({
            let row = rows(seq![e], show_hidden)[0];
            row.name == e.name && row.size == e.size && (row.is_dir <==> e.kind == FileKind::Dir)
        }),
        !show_hidden && e.name@.len() > 0 && e.name@[0] == '.' ==> rows(seq![e], show_hidden).len() == 0,
{
    assert(seq![e].drop_last() =~= Seq::empty());
    assert(rows(Seq::<RemoteEntry>::empty(), show_hidden) =~= Seq::empty());
}

/// A selection is a path in the directory of its own pane.
pub proof fn a_selection_is_in_its_pane(cwd: Seq<char>, name: Seq<char>)
    requires
        name.len() > 0,
        name[0] != '/',
        cwd.len() > 0,
    ensures
        cwd.last() == '/' ==> joined_for(Side::Remote, cwd, name) == cwd + name && joined_for(Side::Local, cwd, name)
            == cwd + name,
        cwd.last() != '/' ==> joined_for(Side::Remote, cwd, name) == cwd + seq!['/'] + name && joined_for(
            Side::Local,
            cwd,
            name,
        ) == cwd + seq!['/'] + name,
{
}

/// What goes across comes from the pane it was selected in and lands in the
/// opposite one.
pub proof fn a_transfer_crosses_over(b: FileBrowserState)
    ensures
        pane_cwd(b, Side::Local) == b.local_cwd,
        pane_cwd(b, Side::Remote) == b.remote_cwd,
        opposite(Side::Local) == Side::Remote,
        opposite(Side::Remote) == Side::Local,
{
}

/// A listing that came in replaces the rows and the directory and clears the
/// error; one that failed leaves both, and says why.
pub proof fn a_failed_listing_keeps_the_last_one(
    was: FileBrowserState,
    path: String,
    listing: Result<Vec<RemoteEntry>, AppError>,
    strings: Strings,
    is: FileBrowserState,
)
    requires
        listed_into(was, path, listing, strings, is),
    ensures
        listing is Ok ==> is.remote_cwd == path && is.remote_error is None,
        listing is Err ==> is.remote_cwd == was.remote_cwd && is.remote_entries == was.remote_entries,
        listing matches Err(e) ==> (is.remote_error matches Some(text) && text@ == strings.sftp_error_prefix@
            + error_text(e@)),
        is.local_cwd == was.local_cwd && is.server_id == was.server_id && is.show_hidden == was.show_hidden,
{
}

/// What a finished run is said to have done: how many files and bytes it moved,
/// that it was stopped where it was, and of its failures the first and how many
/// more there are. A run stopped before its first file says only that.
pub proof fn a_finished_run_is_summed_up(summary: TransferSummary, size: Seq<char>, strings: Strings)
    ensures
        summary.cancelled && summary.files == 0 ==> summary_line(summary, size, strings) == strings.transfer_cancelled@,
        !(summary.cancelled && summary.files == 0) ==> summary_line(summary, size, strings)
            == strings.transfer_done_prefix@ + decimal(summary.files as nat) + strings.transfer_done_separator@ + size
            + summary_tail(summary, strings),
        !summary.cancelled && summary.failures@.len() == 0 ==> summary_tail(summary, strings).len() == 0,
        !summary.cancelled && summary.failures@.len() == 1 ==> summary_tail(summary, strings) == " \u{2014} "@
            + strings.transfer_failed_prefix@ + summary.failures@[0]@,
        !summary.cancelled && summary.failures@.len() > 1 ==> summary_tail(summary, strings) == " \u{2014} "@
            + strings.transfer_failed_prefix@ + summary.failures@[0]@ + (" (+"@ + decimal(
            (summary.failures@.len() - 1) as nat,
        ) + ")"@),
        summary.cancelled && summary.failures@.len() == 0 ==> summary_tail(summary, strings) == " \u{2014} "@
            + strings.transfer_cancelled@,
{
    let none = Seq::<char>::empty();
    let failed = " \u{2014} "@ + strings.transfer_failed_prefix@ + summary.failures@[0]@;
    let stopped = " \u{2014} "@ + strings.transfer_cancelled@;
    assert(none + none + none =~= none);
    assert(none + failed + none =~= failed);
    assert(none + failed =~= failed);
    assert(stopped + none + none =~= stopped);
}

/// What is sent is what was selected, in order, each from the directory of its
/// pane, and a folder as a folder.
pub proof fn what_was_selected_is_sent(
    sources: Seq<(String, bool)>,
    side: Side,
    cwd: Seq<char>,
    selection: Seq<BrowserEntry>,
    i: int,
)
    requires
        are_sources(sources, side, cwd, selection),
        0 <= i < selection.len(),
        selection[i].name@.len() > 0,
        selection[i].name@[0] != '/',
        cwd.len() > 0,
    ensures
        sources.len() == selection.len(),
        sources[i].1 == selection[i].is_dir,
        cwd.last() != '/' ==> sources[i].0@ == cwd + seq!['/'] + selection[i].name@,
        cwd.last() == '/' ==> sources[i].0@ == cwd + selection[i].name@,
{
    a_selection_is_in_its_pane(cwd, selection[i].name@);
}

} // verus!
