use std::collections::HashMap;

use ssh_control::app::files::{cancelled_summary, join_for, summarize, TransferProgress};
use ssh_control::error::AppError;
use ssh_control::ssh::sftp::client::{
    data_reply, handle_reply, match_reply, ok_reply, stat_reply, try_stat_result, FileHandle, SftpClient,
};
use ssh_control::ssh::sftp::wire::{
    Attrs, Cursor, Encoder, FileKind, Reply, ATTR_PERMISSIONS, ATTR_SIZE, CHUNK, FXF_WRITE, FXP_ATTRS, FXP_DATA,
    FXP_HANDLE, FXP_OPEN, FXP_READ, FXP_REMOVE, FXP_RENAME, FXP_STAT, FXP_STATUS, FXP_WRITE, FX_EOF, FX_FAILURE,
    FX_NO_SUCH_FILE, FX_OK,
};
use ssh_control::ssh::transfer::{
    after_copy, child_kind, dir_needed, join, last_component, part_path, remote_join, ByteCount, ChildKind,
    ConflictWalk, CopyEnd, Direction, OverwriteChoice, RunStep, SkipReason, TransferEvent, TransferItem,
    TransferPlan, TransferRun, TransferSummary, Walk,
};
use ssh_control::tui::Side;

#[test]
fn the_destination_name_comes_from_the_source() {
    assert_eq!(last_component("/srv/www/index.html"), "index.html");
    assert_eq!(last_component("/srv/www/"), "www");
    assert_eq!(last_component("plain"), "plain");
}

#[test]
fn remote_destinations_never_double_their_separator() {
    assert_eq!(join(Direction::Upload, "/srv", "a"), "/srv/a");
    assert_eq!(join(Direction::Upload, "/", "a"), "/a");
}

fn item(dst: &str, is_dir: bool, size: u64, exists: bool) -> TransferItem {
    TransferItem { src: format!("/src/{dst}"), dst: dst.to_string(), is_dir, size, exists, skip: None }
}

#[test]
fn only_existing_files_count_as_conflicts() {
    let plan = TransferPlan {
        items: vec![
            item("dir", true, 0, true),
            item("a", false, 10, true),
            item("b", false, 20, false),
            TransferItem { skip: Some(SkipReason::Symlink), ..item("link", false, 0, true) },
        ],
        total_bytes: 30,
    };
    assert_eq!(plan.conflicts(), vec![1]);
}

#[test]
fn planned_bytes_exclude_skipped_files_and_directories() {
    let mut plan = TransferPlan {
        items: vec![item("dir", true, 0, false), item("a", false, 10, false), item("b", false, 20, false)],
        total_bytes: 30,
    };
    assert_eq!(plan.planned_bytes(), 30);
    assert_eq!(plan.file_count(), 2);

    plan.items[1].skip = Some(SkipReason::Exists);
    assert_eq!(plan.planned_bytes(), 20);
    assert_eq!(plan.file_count(), 1);
}

#[test]
fn the_displayed_name_is_the_destinations_last_component() {
    assert_eq!(item("/srv/www/index.html", false, 0, false).display_name(), "index.html");
}

/// A server with its files in memory, and the client side of a session on it.
struct Remote {
    client: SftpClient,
    files: HashMap<String, Vec<u8>>,
    handles: HashMap<Vec<u8>, String>,
    next_handle: u32,
}

fn status(id: u32, code: u32) -> Vec<u8> {
    let mut e = Encoder::request(FXP_STATUS, id);
    e.u32(code);
    e.str("");
    e.finish()
}

impl Remote {
    fn new() -> Remote {
        Remote { client: SftpClient::new(), files: HashMap::new(), handles: HashMap::new(), next_handle: 0 }
    }

    fn serve(&mut self, packet: &[u8]) -> Vec<u8> {
        let mut c = Cursor::new(&packet[4..]);
        let kind = c.u8().expect("type");
        let id = c.u32().expect("id");
        match kind {
            FXP_STAT => match self.files.get(&c.string().expect("path")) {
                Some(data) => {
                    let mut e = Encoder::request(FXP_ATTRS, id);
                    e.u32(ATTR_SIZE | ATTR_PERMISSIONS);
                    e.u64(data.len() as u64);
                    e.u32(0o100644);
                    e.finish()
                }
                None => status(id, FX_NO_SUCH_FILE),
            },
            FXP_OPEN => {
                let path = c.string().expect("path");
                let pflags = c.u32().expect("pflags");
                self.next_handle += 1;
                let handle = self.next_handle.to_be_bytes().to_vec();
                self.handles.insert(handle.clone(), path.clone());
                // Only a write truncates.
                if pflags & FXF_WRITE != 0 {
                    self.files.entry(path).or_default().clear();
                }
                let mut e = Encoder::request(FXP_HANDLE, id);
                e.bytes(&handle);
                e.finish()
            }
            FXP_WRITE => {
                let handle = c.bytes().expect("handle").to_vec();
                let _offset = c.u64().expect("offset");
                let data = c.bytes().expect("data").to_vec();
                let path = self.handles.get(&handle).cloned().unwrap_or_default();
                self.files.entry(path).or_default().extend_from_slice(&data);
                status(id, FX_OK)
            }
            FXP_READ => {
                let handle = c.bytes().expect("handle").to_vec();
                let offset = c.u64().expect("offset") as usize;
                let len = c.u32().expect("len") as usize;
                let path = self.handles.get(&handle).cloned().unwrap_or_default();
                let data = self.files.get(&path).cloned().unwrap_or_default();
                if offset >= data.len() {
                    status(id, FX_EOF)
                } else {
                    let end = (offset + len).min(data.len());
                    let mut e = Encoder::request(FXP_DATA, id);
                    e.bytes(&data[offset..end]);
                    e.finish()
                }
            }
            FXP_RENAME => {
                let from = c.string().expect("from");
                let to = c.string().expect("to");
                match self.files.remove(&from) {
                    // An existing target is refused, which is why the client
                    // removes first.
                    Some(_) if self.files.contains_key(&to) => status(id, FX_FAILURE),
                    Some(data) => {
                        self.files.insert(to, data);
                        status(id, FX_OK)
                    }
                    None => status(id, FX_NO_SUCH_FILE),
                }
            }
            FXP_REMOVE => {
                self.files.remove(&c.string().expect("path"));
                status(id, FX_OK)
            }
            _ => status(id, FX_OK),
        }
    }

    fn request(&mut self, (id, packet): (u32, Vec<u8>)) -> Result<Reply, AppError> {
        let answer = self.serve(&packet);
        let (reply_id, reply) = Reply::decode(&answer[4..])?;
        match_reply(id, reply_id, reply)
    }

    fn try_stat(&mut self, path: &str) -> Result<Option<Attrs>, AppError> {
        let request = self.client.stat(path);
        let reply = self.request(request)?;
        try_stat_result(stat_reply(path, reply))
    }

    fn ok(&mut self, path: &str, request: (u32, Vec<u8>)) -> Result<(), AppError> {
        let reply = self.request(request)?;
        ok_reply(path, reply)
    }

    fn open(&mut self, path: &str, request: (u32, Vec<u8>)) -> Result<FileHandle, AppError> {
        let reply = self.request(request)?;
        handle_reply("open", path, reply)
    }
}

/// A local tree in memory: files by their paths, and symlinks.
#[derive(Default)]
struct Local {
    files: HashMap<String, Vec<u8>>,
    links: Vec<String>,
}

impl Local {
    /// The children of a directory, with what they are.
    fn children(&self, dir: &str) -> Vec<(String, ChildKind)> {
        let mut found: Vec<(String, ChildKind)> = Vec::new();
        let inside = |path: &String| path.strip_prefix(&format!("{dir}/")).map(str::to_string);
        for rest in self.files.keys().filter_map(inside) {
            let (name, kind) = match rest.split_once('/') {
                Some((name, _)) => (name.to_string(), ChildKind::Dir),
                None => (rest, ChildKind::File),
            };
            if !found.iter().any(|(n, _)| *n == name) {
                found.push((name, kind));
            }
        }
        for rest in self.links.iter().filter_map(inside) {
            found.push((rest, ChildKind::Symlink));
        }
        found.sort_by(|a, b| a.0.cmp(&b.0));
        found
    }
}

/// Walks an upload of local sources.
fn plan_upload(remote: &mut Remote, local: &Local, sources: &[(&str, bool)], dest: &str) -> TransferPlan {
    let mut walk = Walk::new(Direction::Upload, dest);
    for (src, is_dir) in sources {
        if let Some(dst) = walk.add_source(src, *is_dir) {
            let exists = remote.try_stat(&dst).expect("stat").is_some();
            walk.push_file(src.to_string(), dst, local.files[*src].len() as u64, exists);
        }
    }
    while let Some((dir, _)) = walk.enter() {
        for (name, kind) in local.children(&dir) {
            let src = format!("{dir}/{name}");
            if let Some(dst) = walk.child(&src, &name, kind) {
                let exists = remote.try_stat(&dst).expect("stat").is_some();
                let size = local.files[&src].len() as u64;
                walk.push_file(src, dst, size, exists);
            }
        }
    }
    walk.plan
}

fn plan_download(remote: &mut Remote, local: &Local, src: &str, dest: &str) -> TransferPlan {
    let mut walk = Walk::new(Direction::Download, dest);
    let dst = walk.add_source(src, false).expect("a file");
    let size = remote.try_stat(src).expect("stat").and_then(|a| a.size).unwrap_or(0);
    let exists = local.files.contains_key(&dst);
    walk.push_file(src.to_string(), dst, size, exists);
    walk.plan
}

/// Copies one file, stopping where `go_on` says so.
fn copy(
    remote: &mut Remote,
    local: &mut Local,
    direction: Direction,
    item: &TransferItem,
    done_bytes: &mut u64,
    go_on: fn(&TransferEvent) -> bool,
) -> Result<bool, AppError> {
    let part = part_path(&item.dst);
    let mut count = ByteCount { offset: 0, done_bytes: *done_bytes };
    let outcome = match direction {
        Direction::Upload => {
            let request = remote.client.open_write(&part);
            let handle = remote.open(&part, request)?;
            let content = local.files[&item.src].clone();
            let mut stopped = false;
            for chunk in content.chunks(CHUNK) {
                let request = remote.client.write_chunk(&handle, count.offset, chunk);
                remote.ok(&part, request)?;
                let event = count.advance(chunk.len()).expect("not empty");
                stopped = !go_on(&event);
                if stopped {
                    break;
                }
            }
            Ok(!stopped)
        }
        Direction::Download => {
            let request = remote.client.open_read(&item.src);
            let handle = remote.open(&item.src, request)?;
            let mut out = Vec::new();
            let finished = loop {
                let request = remote.client.read_chunk(&handle, count.offset);
                let reply = remote.request(request)?;
                let n = data_reply(reply, &mut out)?;
                match count.advance(n) {
                    None => break true,
                    Some(event) => {
                        if !go_on(&event) {
                            break false;
                        }
                    }
                }
            };
            local.files.insert(part.clone(), out);
            Ok(finished)
        }
    };
    *done_bytes = count.done_bytes;
    match (direction, after_copy(direction, item.exists, &outcome)) {
        (Direction::Upload, CopyEnd::Install { remove_first }) => {
            if remove_first {
                let request = remote.client.remove(&item.dst);
                remote.ok(&item.dst, request)?;
            }
            let request = remote.client.rename(&part, &item.dst);
            remote.ok(&item.dst, request)?;
        }
        (Direction::Upload, CopyEnd::Cleanup) => {
            let request = remote.client.remove(&part);
            remote.ok(&part, request)?;
        }
        (Direction::Download, CopyEnd::Install { .. }) => {
            let content = local.files.remove(&part).expect("the partial file");
            local.files.insert(item.dst.clone(), content);
        }
        (Direction::Download, CopyEnd::Cleanup) => {
            local.files.remove(&part);
        }
    }
    outcome
}

fn run(
    remote: &mut Remote,
    local: &mut Local,
    direction: Direction,
    plan: &TransferPlan,
    go_on: fn(&TransferEvent) -> bool,
) -> TransferSummary {
    let mut run = TransferRun::new();
    let mut done_bytes = 0;
    loop {
        match run.next(plan) {
            RunStep::Done => break,
            RunStep::Report { event } => run.reported(go_on(&event)),
            RunStep::MakeDir { .. } => run.finish_item(plan, Ok(true)),
            RunStep::Copy { index } => {
                let outcome = copy(remote, local, direction, &plan.items[index], &mut done_bytes, go_on);
                run.finish_item(plan, outcome);
            }
        }
    }
    run.summary
}

fn no_cancel(_: &TransferEvent) -> bool {
    true
}

#[test]
fn an_upload_lands_under_its_final_name() {
    // Larger than one chunk, so that the offset matters.
    let content = vec![b'x'; CHUNK + 1234];
    let mut local = Local::default();
    local.files.insert("/tmp/t/hello.txt".into(), content.clone());
    let mut remote = Remote::new();

    let plan = plan_upload(&mut remote, &local, &[("/tmp/t/hello.txt", false)], "/srv");
    assert_eq!(plan.total_bytes, content.len() as u64);
    assert!(plan.conflicts().is_empty(), "nothing is there yet");

    let summary = run(&mut remote, &mut local, Direction::Upload, &plan, no_cancel);
    assert_eq!(summary.files, 1);
    assert!(summary.failures.is_empty());

    assert_eq!(remote.files.get("/srv/hello.txt"), Some(&content));
    assert!(!remote.files.contains_key("/srv/hello.txt.part"), "the partial name must not survive");
}

#[test]
fn a_download_writes_the_file_and_removes_the_partial() {
    let content = vec![b'y'; CHUNK * 2];
    let mut local = Local::default();
    let mut remote = Remote::new();
    remote.files.insert("/srv/data.bin".to_string(), content.clone());

    let plan = plan_download(&mut remote, &local, "/srv/data.bin", "/tmp/t");
    let summary = run(&mut remote, &mut local, Direction::Download, &plan, no_cancel);
    assert_eq!(summary.files, 1);
    assert_eq!(local.files.get("/tmp/t/data.bin"), Some(&content));
    assert!(!local.files.contains_key("/tmp/t/data.bin.part"), "the partial file is renamed, not left");
}

#[test]
fn a_cancelled_download_leaves_no_partial_file() {
    let mut local = Local::default();
    let mut remote = Remote::new();
    remote.files.insert("/srv/big.bin".to_string(), vec![b'z'; CHUNK * 8]);

    let plan = plan_download(&mut remote, &local, "/srv/big.bin", "/tmp/t");
    // Stop on the first chunk of progress, the way Esc would.
    let summary = run(&mut remote, &mut local, Direction::Download, &plan, |event| {
        !matches!(event, TransferEvent::Progress { .. })
    });

    assert!(summary.cancelled);
    assert_eq!(summary.files, 0);
    assert!(!local.files.contains_key("/tmp/t/big.bin"));
    assert!(!local.files.contains_key("/tmp/t/big.bin.part"), "the partial write is cleaned up");
}

#[test]
fn an_existing_destination_is_reported_as_a_conflict() {
    let mut local = Local::default();
    local.files.insert("/tmp/t/conf.yml".into(), b"new".to_vec());
    let mut remote = Remote::new();
    remote.files.insert("/srv/conf.yml".to_string(), b"old".to_vec());

    let mut plan = plan_upload(&mut remote, &local, &[("/tmp/t/conf.yml", false)], "/srv");
    assert_eq!(plan.conflicts(), vec![0]);

    // Choosing "skip" leaves what was already there untouched.
    plan.items[0].skip = Some(SkipReason::Exists);
    let summary = run(&mut remote, &mut local, Direction::Upload, &plan, no_cancel);
    assert_eq!(summary.skipped, 1);
    assert_eq!(remote.files.get("/srv/conf.yml"), Some(&b"old".to_vec()));
}

#[test]
fn overwriting_replaces_the_file_that_was_there() {
    let mut local = Local::default();
    local.files.insert("/tmp/t/conf.yml".into(), b"new".to_vec());
    let mut remote = Remote::new();
    remote.files.insert("/srv/conf.yml".to_string(), b"old".to_vec());

    let plan = plan_upload(&mut remote, &local, &[("/tmp/t/conf.yml", false)], "/srv");
    let summary = run(&mut remote, &mut local, Direction::Upload, &plan, no_cancel);

    assert_eq!(summary.files, 1);
    assert_eq!(remote.files.get("/srv/conf.yml"), Some(&b"new".to_vec()));
}

#[test]
fn a_directory_upload_walks_its_whole_tree() {
    let mut local = Local::default();
    local.files.insert("/tmp/t/site/index.html".into(), b"<html>".to_vec());
    local.files.insert("/tmp/t/site/assets/app.js".into(), b"console.log(1)".to_vec());
    local.links.push("/tmp/t/site/link.html".into());
    let mut remote = Remote::new();

    let plan = plan_upload(&mut remote, &local, &[("/tmp/t/site", true)], "/srv");

    let dirs: Vec<&str> = plan.items.iter().filter(|i| i.is_dir).map(|i| i.dst.as_str()).collect();
    assert!(dirs.contains(&"/srv/site"));
    assert!(dirs.contains(&"/srv/site/assets"));
    let first_file = plan.items.iter().position(|i| !i.is_dir).expect("a file");
    assert!(plan.items[..first_file].iter().any(|i| i.is_dir), "directories come before their contents");
    assert!(plan.items.iter().any(|i| i.skip == Some(SkipReason::Symlink)), "the symlink is a skip");

    let summary = run(&mut remote, &mut local, Direction::Upload, &plan, no_cancel);
    assert_eq!(summary.files, 2);
    assert_eq!(remote.files.get("/srv/site/index.html"), Some(&b"<html>".to_vec()));
    assert_eq!(remote.files.get("/srv/site/assets/app.js"), Some(&b"console.log(1)".to_vec()));
}

fn report(run: &mut TransferRun, plan: &TransferPlan, go_on: bool) -> TransferEvent {
    match run.next(plan) {
        RunStep::Report { event } => {
            run.reported(go_on);
            event
        }
        _ => panic!("an event was due"),
    }
}

#[test]
fn a_whole_run_counts_every_item() {
    let mut skipped = item("/d/s", false, 7, false);
    skipped.skip = Some(SkipReason::Symlink);
    let plan = TransferPlan {
        items: vec![
            item("/d/x", true, 0, false),
            skipped,
            item("/d/y", true, 0, false),
            item("/d/a", false, 1, false),
            item("/d/b", false, 2, false),
        ],
        total_bytes: 3,
    };
    let mut run = TransferRun::new();
    let mut events = 0;
    loop {
        match run.next(&plan) {
            RunStep::Done => break,
            RunStep::Report { .. } => {
                events += 1;
                run.reported(true);
            }
            RunStep::MakeDir { index: 0, dst } => {
                assert_eq!(dst, "/d/x");
                run.finish_item(&plan, Err(AppError::Sftp("denied".into())));
            }
            RunStep::MakeDir { .. } => run.finish_item(&plan, Ok(true)),
            RunStep::Copy { index } => {
                let outcome = if index == 3 { Err(AppError::Sftp("gone".into())) } else { Ok(true) };
                run.finish_item(&plan, outcome);
            }
        }
    }
    let s = &run.summary;
    assert_eq!((s.skipped, s.files, s.failures.len(), s.bytes, s.cancelled), (1, 1, 2, 2, false));
    assert_eq!(events, 6, "one failed directory, one skipped item, two starts, two ends");
}

#[test]
fn a_stopped_run_asks_for_nothing_more() {
    let plan = TransferPlan {
        items: vec![item("/d/a", false, 1, false), item("/d/b", false, 2, false)],
        total_bytes: 3,
    };
    let mut run = TransferRun::new();
    report(&mut run, &plan, false);
    assert!(run.summary.cancelled);
    assert!(matches!(run.next(&plan), RunStep::Done));
    assert!(matches!(run.next(&plan), RunStep::Done));

    let mut run = TransferRun::new();
    report(&mut run, &plan, true);
    run.finish_item(&plan, Ok(false));
    assert!(run.summary.cancelled);
    assert!(matches!(run.next(&plan), RunStep::Done));
    assert_eq!((run.summary.files, run.summary.bytes), (0, 0));
}

#[test]
fn one_failed_file_does_not_end_the_run() {
    let plan = TransferPlan {
        items: vec![item("/d/a", false, 1, false), item("/d/b", false, 2, false)],
        total_bytes: 3,
    };
    let mut run = TransferRun::new();
    assert!(matches!(report(&mut run, &plan, true), TransferEvent::ItemStarted { index: 0, name, size: 1 } if name == "a"));
    assert!(matches!(run.next(&plan), RunStep::Copy { index: 0 }));
    run.finish_item(&plan, Err(AppError::Sftp("gone".into())));
    assert!(matches!(report(&mut run, &plan, true), TransferEvent::ItemFailed { index: 0, name, .. } if name == "a"));
    assert!(matches!(report(&mut run, &plan, true), TransferEvent::ItemStarted { index: 1, .. }));
    assert!(matches!(run.next(&plan), RunStep::Copy { index: 1 }));
    run.finish_item(&plan, Ok(true));
    assert!(matches!(report(&mut run, &plan, true), TransferEvent::ItemFinished { index: 1 }));
    assert!(matches!(run.next(&plan), RunStep::Done));
    assert_eq!((run.summary.files, run.summary.bytes, run.summary.failures.len()), (1, 2, 1));
    assert!(run.summary.failures[0].starts_with("a: "));
}

#[test]
fn every_conflict_is_settled_before_a_byte_moves() {
    let mut plan = TransferPlan {
        items: vec![item("/d/a", false, 1, true), item("/d/b", false, 2, true), item("/d/c", false, 3, true)],
        total_bytes: 6,
    };
    let mut walk = ConflictWalk::new(&plan);
    assert_eq!(walk.question(&plan), Some(("a".to_string(), 3)));
    assert!(walk.answer(&mut plan, OverwriteChoice::Overwrite, false));
    assert_eq!(walk.question(&plan), Some(("b".to_string(), 2)));
    assert!(walk.answer(&mut plan, OverwriteChoice::Skip, true));
    assert_eq!(walk.question(&plan), None);
    let skips: Vec<bool> = plan.items.iter().map(|i| i.skip == Some(SkipReason::Exists)).collect();
    assert_eq!(skips, vec![false, true, true]);
    let mut again = ConflictWalk::new(&plan);
    assert!(!again.answer(&mut plan, OverwriteChoice::Cancel, false));
}

#[test]
fn a_directory_is_made_only_where_nothing_is() {
    let found = |mode: u32| Ok(Some(Attrs { size: None, permissions: Some(mode), mtime: None }));
    assert!(!dir_needed("/d", found(0o040755)).unwrap());
    assert!(dir_needed("/d", Ok(None)).unwrap());
    assert!(matches!(dir_needed("/d", found(0o100644)), Err(AppError::Sftp(m)) if m == "/d exists and is not a directory"));
    assert!(dir_needed("/d", Err(AppError::VaultInUse)).is_err());
}

#[test]
fn links_are_never_followed() {
    assert_eq!(child_kind(FileKind::Symlink), ChildKind::Symlink);
    assert_eq!(child_kind(FileKind::Dir), ChildKind::Dir);
    assert_eq!(child_kind(FileKind::File), ChildKind::File);
}

#[test]
fn names_are_joined_by_the_side_they_come_from() {
    assert_eq!(join_for(Side::Remote, "/", "a"), "/a");
    assert_eq!(join_for(Side::Remote, "/srv", "a"), remote_join("/srv", "a"));
    assert_eq!(join_for(Side::Local, "/home/u", "a"), "/home/u/a");
    assert_eq!(join_for(Side::Local, "/home/u/", "a"), "/home/u/a");
    assert_eq!(join(Direction::Download, "/home/u", "/etc/x"), "/etc/x");
}

#[test]
fn progress_follows_the_events() {
    let mut progress = TransferProgress::new("up");
    assert!(progress.scanning);
    progress.take(&TransferEvent::Scanning { files: 3, bytes: 9 });
    assert_eq!((progress.file_count, progress.total_bytes), (3, 9));
    let plan = TransferPlan { items: vec![item("/d/a", false, 4, false)], total_bytes: 4 };
    progress.start(&plan);
    assert!(!progress.scanning);
    assert_eq!((progress.file_count, progress.total_bytes), (1, 4));
    progress.take(&TransferEvent::ItemStarted { index: 0, name: "a".into(), size: 4 });
    progress.take(&TransferEvent::Progress { done_bytes: 2 });
    assert_eq!((progress.file_index, progress.done_bytes, progress.name.as_str()), (1, 2, "a"));
}

#[test]
fn a_run_is_summed_up_in_one_line() {
    let strings = strings();
    let summary = TransferSummary {
        files: 2,
        bytes: 5,
        skipped: 0,
        failures: vec!["a: no".into(), "b: no".into()],
        cancelled: true,
    };
    assert_eq!(
        summarize(&summary, "5 B", &strings),
        "[done]2[sep]5 B \u{2014} [cancelled] \u{2014} [failed]a: no (+1)"
    );
    assert_eq!(summarize(&cancelled_summary(), "0 B", &strings), "[cancelled]");
}

/// Texts that name themselves.
fn strings() -> ssh_control::i18n::Strings {
    ssh_control::i18n::Strings {
        save_error_prefix: "[save_error_prefix]",
        delete_error_prefix: "[delete_error_prefix]",
        connect_error_prefix: "[connect_error_prefix]",
        sftp_error_prefix: "[sftp_error_prefix]",
        ssh_import_error_prefix: "[ssh_import_error_prefix]",
        disconnected_prefix: "[disconnected_prefix]",
        host_key_changed_prefix: "[host_key_changed_prefix]",
        host_key_changed_suffix: "[host_key_changed_suffix]",
        err_device_not_enrolled: "[err_device_not_enrolled]",
        err_password_required_now: "[err_password_required_now]",
        err_vault_in_use: "[err_vault_in_use]",
        err_totp_replayed: "[err_totp_replayed]",
        err_totp_too_many_failures: "[err_totp_too_many_failures]",
        err_totp_invalid_code: "[err_totp_invalid_code]",
        err_current_password_wrong: "[err_current_password_wrong]",
        vault_in_use_title: "[vault_in_use_title]",
        vault_in_use_message: "[vault_in_use_message]",
        schema_too_new_title: "[schema_too_new_title]",
        schema_too_new_message: "[schema_too_new_message]",
        delete_confirm_prefix: "[delete_confirm_prefix]",
        delete_confirm_suffix: "[delete_confirm_suffix]",
        delete_script_confirm_prefix: "[delete_script_confirm_prefix]",
        delete_script_confirm_suffix: "[delete_script_confirm_suffix]",
        delete_forward_confirm_prefix: "[delete_forward_confirm_prefix]",
        delete_forward_confirm_suffix: "[delete_forward_confirm_suffix]",
        status_auto_locked: "[status_auto_locked]",
        status_saved: "[status_saved]",
        status_deleted: "[status_deleted]",
        status_imported_prefix: "[status_imported_prefix]",
        status_imported_suffix: "[status_imported_suffix]",
        status_script_saved: "[status_script_saved]",
        status_script_deleted: "[status_script_deleted]",
        status_password_changed: "[status_password_changed]",
        status_auto_lock_saved: "[status_auto_lock_saved]",
        status_connect_mode_saved: "[status_connect_mode_saved]",
        status_mode_changed: "[status_mode_changed]",
        transfer_nothing_selected: "[transfer_nothing_selected]",
        transfer_title_upload: "[transfer_title_upload]",
        transfer_title_download: "[transfer_title_download]",
        transfer_cancelled: "[cancelled]",
        transfer_done_prefix: "[done]",
        transfer_done_separator: "[sep]",
        transfer_failed_prefix: "[failed]",
        log_exit_prefix: "[log_exit_prefix]",
        log_skipped: "[log_skipped]",
        log_error_prefix: "[log_error_prefix]",
        log_timed_out_prefix: "[log_timed_out_prefix]",
        log_timed_out_suffix: "[log_timed_out_suffix]",
    }
}
