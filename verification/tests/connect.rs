use ssh_control::cli::list::render;
use ssh_control::cli::resolve::resolve;
use ssh_control::config::{
    AuthMethod, ForwardKind, ForwardRule, ServerEntry, ServerSort, SystemInfo, Uuid,
};
use ssh_control::error::AppError;
use ssh_control::session::{
    observe_handshake, observe_handshake_at, observe_jumps, script_event_text, JumpRecord, SessionRecord,
};
use ssh_control::ssh::auth::{agent_error, key_load_failed, verdict, AgentOffer, AgentProblem, Identity};
use ssh_control::ssh::channel::ChannelEvent;
use ssh_control::ssh::client::{Handler, RemoteRoute};
use ssh_control::ssh::pty_bridge::{Bridge, BridgeStep};
use ssh_control::ssh::script_runner::RunEvent;
use ssh_control::ssh::session::{handshake_error, jump_failed, MAX_JUMPS};
use ssh_control::ssh::{HostKeyOutcome, Target};
use ssh_control::i18n::Strings;

fn hop(name: &str) -> ServerEntry {
    ServerEntry::new(name.into(), format!("{name}.example.com"), 22, "root".into(), AuthMethod::Agent)
}

/// `a -> b -> c`, where `a` is the destination and `c` the outermost bastion.
fn chain(len: usize) -> Vec<ServerEntry> {
    let mut servers: Vec<_> = (0..len).map(|i| hop(&format!("hop-{i}"))).collect();
    for i in 0..len.saturating_sub(1) {
        servers[i].jump_host = Some(servers[i + 1].id);
    }
    servers
}

fn hosts(target: &Target) -> Vec<&str> {
    target.jumps.iter().map(|e| e.host.as_str()).collect()
}

#[test]
fn a_server_with_no_jump_host_is_a_direct_connect() {
    let servers = chain(1);
    let target = Target::from_entry(&servers[0], &servers).unwrap();
    assert!(target.jumps.is_empty());
    assert!(target.jump_ids.is_empty());
    assert_eq!(target.endpoint.host, "hop-0.example.com");
}

#[test]
fn a_chain_is_resolved_outermost_first() {
    let servers = chain(3);
    let target = Target::from_entry(&servers[0], &servers).unwrap();
    assert_eq!(hosts(&target), ["hop-2.example.com", "hop-1.example.com"]);
    assert_eq!(target.endpoint.host, "hop-0.example.com");
}

#[test]
fn the_ids_are_in_the_same_order_as_the_hops() {
    let servers = chain(3);
    let target = Target::from_entry(&servers[0], &servers).unwrap();
    assert_eq!(target.jump_ids, vec![servers[2].id, servers[1].id]);
}

#[test]
fn a_server_pointing_at_itself_is_refused() {
    let mut servers = chain(1);
    servers[0].jump_host = Some(servers[0].id);
    assert!(Target::from_entry(&servers[0], &servers).is_err());
}

#[test]
fn a_chain_that_loops_back_is_refused_rather_than_walked_forever() {
    let mut servers = chain(3);
    // hop-2 points back at hop-0, closing the ring.
    let first = servers[0].id;
    servers[2].jump_host = Some(first);
    assert!(Target::from_entry(&servers[0], &servers).is_err());
}

#[test]
fn a_loop_further_down_the_chain_is_refused_too() {
    let mut servers = chain(3);
    let second = servers[1].id;
    servers[2].jump_host = Some(second);
    assert!(Target::from_entry(&servers[0], &servers).is_err());
}

#[test]
fn a_jump_host_that_no_longer_exists_is_refused() {
    let mut servers = chain(2);
    servers[0].jump_host = Some(Uuid::new_v4());
    servers.truncate(1);
    assert!(Target::from_entry(&servers[0], &servers).is_err());
}

#[test]
fn a_chain_longer_than_the_cap_is_refused() {
    let servers = chain(MAX_JUMPS + 3);
    assert!(Target::from_entry(&servers[0], &servers).is_err());
    // And one that fits is still fine.
    let ok = chain(MAX_JUMPS);
    assert!(Target::from_entry(&ok[0], &ok).is_ok());
}

#[test]
fn each_hop_carries_its_own_stored_fingerprint() {
    let mut servers = chain(2);
    servers[1].host_key_fingerprint = Some("SHA256:bastion".into());
    servers[0].host_key_fingerprint = Some("SHA256:target".into());
    let target = Target::from_entry(&servers[0], &servers).unwrap();
    assert_eq!(target.jumps[0].host_key_fingerprint.as_deref(), Some("SHA256:bastion"));
    assert_eq!(target.endpoint.host_key_fingerprint.as_deref(), Some("SHA256:target"));
}

fn remote_rule(port: u16) -> ForwardRule {
    ForwardRule::new(ForwardKind::Remote {
        bind_addr: "".into(),
        bind_port: port,
        dest_host: "localhost".into(),
        dest_port: 80,
    })
}

#[test]
fn the_hops_are_dialled_in_order_and_only_the_destination_has_routes() {
    let mut servers = chain(2);
    servers[0].forwards.push(remote_rule(8080));
    servers[1].forwards.push(remote_rule(9090));
    let target = Target::from_entry(&servers[0], &servers).unwrap();
    let first = target.hop(0).unwrap();
    assert_eq!((first.endpoint.host.as_str(), first.carrier), ("hop-1.example.com", None));
    assert!(first.remote_routes.is_empty());
    let second = target.hop(1).unwrap();
    assert_eq!((second.endpoint.host.as_str(), second.carrier), ("hop-0.example.com", Some(0)));
    assert_eq!(second.remote_routes[0].bind_port, 8080);
    assert!(target.hop(2).is_none());

    assert!(
        matches!(target.hop_failed(0, AppError::VaultInUse), AppError::JumpFailed { host, .. } if host == "hop-1.example.com")
    );
    assert!(matches!(target.hop_failed(1, AppError::VaultInUse), AppError::VaultInUse));
    assert!(matches!(jump_failed("b", AppError::VaultInUse), AppError::JumpFailed { host, .. } if host == "b"));
}

/// The ed25519 key of 32 bytes of value 1, as it is encoded on the wire.
fn key() -> Vec<u8> {
    let mut key = vec![0, 0, 0, 11];
    key.extend_from_slice(b"ssh-ed25519");
    key.extend_from_slice(&[0, 0, 0, 32]);
    key.extend_from_slice(&[1; 32]);
    key
}

#[test]
fn a_host_key_is_trusted_on_the_first_connect_and_checked_after() {
    let mut first = Handler::new(None, Vec::new());
    assert!(first.check_host_key(&key()).unwrap());
    let Some(HostKeyOutcome::FirstConnect { fingerprint }) = first.outcome else { panic!("a first connect") };
    assert!(fingerprint.starts_with("SHA256:"));
    assert_eq!(fingerprint.len(), 7 + 43);

    let mut again = Handler::new(Some(fingerprint.clone()), Vec::new());
    assert!(again.check_host_key(&key()).unwrap());
    assert!(matches!(again.outcome, Some(HostKeyOutcome::Trusted)));

    let mut changed = Handler::new(Some("SHA256:other".into()), Vec::new());
    assert!(!changed.check_host_key(&key()).unwrap());
    assert!(
        matches!(&changed.outcome, Some(HostKeyOutcome::Mismatch { expected, actual }) if expected == "SHA256:other" && *actual == fingerprint)
    );
    assert!(
        matches!(handshake_error(changed.outcome.as_ref(), AppError::VaultInUse), AppError::HostKeyChanged { fingerprint: f } if f == fingerprint)
    );
    assert!(matches!(handshake_error(None, AppError::VaultInUse), AppError::VaultInUse));

    let mut unreadable = Handler::new(None, Vec::new());
    assert!(matches!(unreadable.check_host_key(b"nonsense"), Err(AppError::Ssh(_))));
    assert!(unreadable.outcome.is_none());
}

#[test]
fn a_forwarded_connection_nobody_asked_for_is_refused() {
    let route = |addr: &str, port: u16| RemoteRoute {
        bind_addr: addr.into(),
        bind_port: port,
        dest_host: "localhost".into(),
        dest_port: 80,
    };
    let handler = Handler::new(None, vec![route("10.0.0.1", 8080), route("", 9090)]);
    assert_eq!(handler.route_for("10.0.0.1", 8080).unwrap().bind_port, 8080);
    assert_eq!(handler.route_for("", 8080).unwrap().bind_port, 8080);
    assert!(handler.route_for("10.0.0.2", 8080).is_none());
    assert!(handler.route_for("anything", 9090).is_some());
    assert!(handler.route_for("", 1).is_none());
    assert!(Handler::new(None, Vec::new()).route_for("", 8080).is_none());
}

#[test]
fn every_key_of_the_agent_is_offered() {
    let held = [Identity::Certificate, Identity::PublicKey, Identity::PublicKey];
    let mut offer = AgentOffer::new();
    assert_eq!(offer.next_key(&held).unwrap(), 1);
    assert_eq!(offer.next_key(&held).unwrap(), 2);
    assert!(
        matches!(offer.next_key(&held), Err(AppError::SshAuthFailed(m)) if m == "the server accepted none of the agent's keys")
    );
    assert!(matches!(AgentOffer::new().next_key(&[Identity::Certificate]), Err(AppError::SshAgent(_))));
    assert!(matches!(AgentOffer::new().next_key(&[]), Err(AppError::SshAgent(_))));
}

#[test]
fn authentication_failures_say_whose_they_are() {
    assert!(verdict(true).is_ok());
    assert!(matches!(verdict(false), Err(AppError::SshAuthFailed(m)) if m == "credentials rejected by server"));
    assert!(
        matches!(key_load_failed("/k", "bad"), AppError::SshAuthFailed(m) if m == "failed to load key '/k': bad")
    );
    assert!(matches!(agent_error(&AgentProblem::NotSet), AppError::SshAgent(m) if m.contains("SSH_AUTH_SOCK is not set")));
    assert!(matches!(agent_error(&AgentProblem::SocketGone), AppError::SshAgent(m) if m.contains("gone away")));
    for (problem, text) in [
        (AgentProblem::Unreachable("x".into()), "could not reach the agent: x"),
        (AgentProblem::NotListed("x".into()), "could not list the agent's keys: x"),
        (AgentProblem::NotSigned("x".into()), "the agent refused to sign: x"),
    ] {
        assert!(matches!(agent_error(&problem), AppError::SshAgent(m) if m == text));
    }
}

#[test]
fn the_bridge_ends_with_the_remote_shell() {
    let mut bridge = Bridge::new();
    assert_eq!(bridge.local_read(3), BridgeStep::Send);
    assert!(bridge.stdin_open);
    assert_eq!(bridge.local_read(0), BridgeStep::SendEof);
    assert!(!bridge.stdin_open, "an ended input is not read again");
    assert_eq!(bridge.remote_sent(&ChannelEvent::Data(vec![1])), BridgeStep::Show);
    assert_eq!(bridge.remote_sent(&ChannelEvent::ExtendedData(vec![1])), BridgeStep::Show);
    assert_eq!(bridge.remote_sent(&ChannelEvent::Other), BridgeStep::Ignore);
    for end in [ChannelEvent::ExitStatus(0), ChannelEvent::Eof, ChannelEvent::Close, ChannelEvent::Gone] {
        assert_eq!(bridge.remote_sent(&end), BridgeStep::End);
    }
}

fn web() -> ServerEntry {
    ServerEntry::new(
        "web-1".into(),
        "web-1.example.com".into(),
        22,
        "root".into(),
        AuthMethod::password("x".into()),
    )
}

#[test]
fn a_first_connect_records_the_host_key() {
    let mut e = web();
    SessionRecord { fingerprint: Some("SHA256:abc".into()), connected_at: 100, system_info: None }.apply_to(&mut e);

    assert_eq!(e.host_key_fingerprint.as_deref(), Some("SHA256:abc"));
    assert_eq!(e.last_connected_unix, Some(100));
}

#[test]
fn a_failed_probe_still_counts_as_a_connection() {
    let mut e = web();
    e.system_info = Some(SystemInfo { cpu_cores: Some(8), ..SystemInfo::default() });

    SessionRecord { fingerprint: None, connected_at: 200, system_info: None }.apply_to(&mut e);

    assert_eq!(e.last_connected_unix, Some(200));
    assert_eq!(
        e.system_info.as_ref().and_then(|i| i.cpu_cores),
        Some(8),
        "the last good snapshot is kept, not blanked"
    );
    assert!(e.host_key_fingerprint.is_none(), "a trusted key writes nothing");
}

#[test]
fn only_first_connects_teach_a_fingerprint() {
    let first = HostKeyOutcome::FirstConnect { fingerprint: "SHA256:a".into() };
    let record = observe_handshake_at(&first, 7);
    assert_eq!((record.fingerprint.as_deref(), record.connected_at), (Some("SHA256:a"), 7));
    assert!(observe_handshake(&HostKeyOutcome::Trusted).fingerprint.is_none());
    assert!(observe_handshake(&HostKeyOutcome::Trusted).connected_at > 1_600_000_000);

    let ids = [Uuid { bits: 1 }, Uuid { bits: 2 }];
    let records = observe_jumps(&[HostKeyOutcome::Trusted, first], &ids);
    assert_eq!(records.len(), 1);
    assert_eq!(records[0].server_id, ids[1]);
    let mut e = web();
    JumpRecord { server_id: e.id, fingerprint: "SHA256:j".into() }.apply_to(&mut e);
    assert_eq!(e.host_key_fingerprint.as_deref(), Some("SHA256:j"));
    assert_eq!(e.last_connected_unix, None);
}

#[test]
fn output_is_printed_line_by_line() {
    let strings = strings();
    let mut partial = String::new();
    let started = RunEvent::StepStarted { index: 0, command: "ls".into() };
    assert!(script_event_text(&started, &strings, &mut partial).contains("ls"));
    let chunk = RunEvent::Output { index: 0, chunk: b"one\ntw".to_vec() };
    assert_eq!(script_event_text(&chunk, &strings, &mut partial), "one\r\n");
    assert_eq!(partial, "tw");
    let chunk = RunEvent::Output { index: 0, chunk: b"o\r\n".to_vec() };
    assert_eq!(script_event_text(&chunk, &strings, &mut partial), "two\r\n");
    let finished = RunEvent::StepFinished { index: 0, exit_code: -3 };
    assert!(script_event_text(&finished, &strings, &mut partial).contains("[log_exit_prefix]-3"));
}

fn named(name: &str) -> ServerEntry {
    ServerEntry::new(
        name.into(),
        format!("{name}.example.com"),
        22,
        "root".into(),
        AuthMethod::password("x".into()),
    )
}

#[test]
fn a_name_resolves_whatever_case_it_is_typed_in() {
    let servers = vec![named("web-1"), named("DB-1")];
    assert_eq!(servers[resolve(&servers, "WEB-1").unwrap()].name, "web-1");
    assert_eq!(servers[resolve(&servers, "db-1").unwrap()].name, "DB-1");
}

#[test]
fn an_unknown_name_says_so_and_points_at_list() {
    let servers = vec![named("web-1")];
    let error = resolve(&servers, "web-2").expect_err("there is no web-2").message();
    assert!(error.contains("web-2"));
    assert!(error.contains("list"));
}

#[test]
fn an_ambiguous_name_is_refused_rather_than_guessed() {
    let servers = vec![named("web"), named("WEB")];
    let error = resolve(&servers, "web").expect_err("ambiguous").message();
    assert!(error.contains("more than one"));
    assert!(error.contains("web") && error.contains("WEB"), "it should list them: {error}");
}

#[test]
fn a_prefix_is_not_a_match() {
    let servers = vec![named("web-1")];
    assert!(resolve(&servers, "web").is_err());
}

#[test]
fn names_compare_by_their_full_lowercase() {
    let servers = vec![named("stra\u{df}e"), named("\u{c9}COLE")];
    assert_eq!(resolve(&servers, "\u{e9}cole").unwrap(), 1);
}
/// Texts that name themselves.
fn strings() -> Strings {
    Strings {
        save_error_prefix: "[save_error_prefix]",
        delete_error_prefix: "[delete_error_prefix]",
        connect_error_prefix: "[connect_error_prefix]",
        sftp_error_prefix: "[sftp_error_prefix]",
        ssh_import_error_prefix: "[ssh_import_error_prefix]",
        disconnected_prefix: "[disconnected_prefix]",
        host_key_changed_prefix: "[host_key_changed_prefix]",
        host_key_changed_suffix: "[host_key_changed_suffix]",
        err_device_not_enrolled: "[err_device_not_enrolled]",
        err_password_required_now: "[err_password_required_now]",
        err_vault_in_use: "[err_vault_in_use]",
        err_totp_replayed: "[err_totp_replayed]",
        err_totp_too_many_failures: "[err_totp_too_many_failures]",
        err_totp_invalid_code: "[err_totp_invalid_code]",
        err_current_password_wrong: "[err_current_password_wrong]",
        vault_in_use_title: "[vault_in_use_title]",
        vault_in_use_message: "[vault_in_use_message]",
        schema_too_new_title: "[schema_too_new_title]",
        schema_too_new_message: "[schema_too_new_message]",
        delete_confirm_prefix: "[delete_confirm_prefix]",
        delete_confirm_suffix: "[delete_confirm_suffix]",
        delete_script_confirm_prefix: "[delete_script_confirm_prefix]",
        delete_script_confirm_suffix: "[delete_script_confirm_suffix]",
        delete_forward_confirm_prefix: "[delete_forward_confirm_prefix]",
        delete_forward_confirm_suffix: "[delete_forward_confirm_suffix]",
        status_auto_locked: "[status_auto_locked]",
        status_saved: "[status_saved]",
        status_deleted: "[status_deleted]",
        status_imported_prefix: "[status_imported_prefix]",
        status_imported_suffix: "[status_imported_suffix]",
        status_script_saved: "[status_script_saved]",
        status_script_deleted: "[status_script_deleted]",
        status_password_changed: "[status_password_changed]",
        status_auto_lock_saved: "[status_auto_lock_saved]",
        status_connect_mode_saved: "[status_connect_mode_saved]",
        status_mode_changed: "[status_mode_changed]",
        transfer_nothing_selected: "[transfer_nothing_selected]",
        transfer_title_upload: "[transfer_title_upload]",
        transfer_title_download: "[transfer_title_download]",
        transfer_cancelled: "[transfer_cancelled]",
        transfer_done_prefix: "[transfer_done_prefix]",
        transfer_done_separator: "[transfer_done_separator]",
        transfer_failed_prefix: "[transfer_failed_prefix]",
        log_exit_prefix: "[log_exit_prefix]",
        log_skipped: "[log_skipped]",
        log_error_prefix: "[log_error_prefix]",
        log_timed_out_prefix: "[log_timed_out_prefix]",
        log_timed_out_suffix: "[log_timed_out_suffix]",
    }
}
