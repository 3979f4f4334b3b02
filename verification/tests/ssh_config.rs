use ssh_control::ssh_config::{default_path, local_user, parse, SshConfigHost};

/// Deliberately awkward: mixed-case keywords, an `=` separator, a comment on a
/// live line, a `Match` block, a multi-pattern `Host`, and the `Host *` block at
/// the bottom where people actually put it.
const CONFIG: &str = r#"
# work
Host bastion
    HostName bastion.example.com
    User ops
    Port 2222
    IdentityFile ~/.ssh/id_bastion

host db          # the alias is all we get
    hostname=db.internal
    IdentityFile ~/.ssh/id_db
    IdentityFile ~/.ssh/id_db_backup

Host laptop-only
    HostName 10.0.0.4

Host *.internal
    User nobody

Host web-1 web1.example.com
    HostName web1.example.com

Match host *.corp
    User matched

Include ~/.ssh/config.d/*

Host *
    User default-user
    Port 22
"#;

const HOME: Option<&str> = Some("/home/u");

fn parsed() -> Vec<SshConfigHost> {
    parse(CONFIG, HOME)
}

fn get(name: &str) -> SshConfigHost {
    parsed().into_iter().find(|h| h.alias == name).unwrap_or_else(|| panic!("{name} was not imported"))
}

#[test]
fn a_block_keeps_what_it_states_whatever_the_spelling_or_separator() {
    let bastion = get("bastion");
    assert_eq!(bastion.hostname, "bastion.example.com");
    assert_eq!(bastion.user.as_deref(), Some("ops"));
    assert_eq!(bastion.port, Some(2222));

    // Lowercase keywords, an `=`, and a trailing comment on the Host line.
    let db = get("db");
    assert_eq!(db.hostname, "db.internal");
}

#[test]
fn the_wildcard_block_fills_gaps_and_never_overrides() {
    assert_eq!(get("bastion").user.as_deref(), Some("ops"), "a stated user wins over the default");
    assert_eq!(get("laptop-only").user.as_deref(), Some("default-user"), "a silent block takes the default");
    assert_eq!(get("laptop-only").port, Some(22));
}

#[test]
fn wildcards_matches_and_multi_pattern_blocks_are_not_servers() {
    let aliases: Vec<_> = parsed().into_iter().map(|h| h.alias).collect();
    assert_eq!(aliases, ["bastion", "db", "laptop-only"]);
}

#[test]
fn a_skipped_block_does_not_pour_its_settings_into_its_neighbour() {
    assert_ne!(
        get("laptop-only").user.as_deref(),
        Some("nobody"),
        "the *.internal block must not reach laptop-only"
    );
    assert!(
        !parsed().iter().any(|h| h.user.as_deref() == Some("matched")),
        "a Match block belongs to nobody here"
    );
}

#[test]
fn the_first_identity_file_in_a_block_is_the_one_kept() {
    let db = get("db");
    assert!(db.identity_file.as_deref().unwrap().ends_with("/.ssh/id_db"), "got {:?}", db.identity_file);
}

#[test]
fn a_block_with_no_identity_file_of_its_own_reports_none_unless_the_wildcard_had_one() {
    assert_eq!(get("laptop-only").identity_file, None);
}

#[test]
fn a_block_with_no_hostname_connects_to_its_alias() {
    let hosts = parse("Host shortcut\n    User me\n", HOME);
    assert_eq!(hosts[0].hostname, "shortcut");
}

#[test]
fn a_bad_port_is_dropped_and_the_host_survives() {
    let hosts = parse("Host odd\n    HostName odd.example.com\n    Port not-a-number\n", HOME);
    assert_eq!(hosts.len(), 1);
    assert_eq!(hosts[0].port, None);
    assert_eq!(hosts[0].hostname, "odd.example.com");
}

#[test]
fn a_preamble_behaves_like_the_wildcard_block() {
    let hosts = parse("Port 2200\n\nHost a\nHost b\n    Port 22\n", HOME);
    assert_eq!(hosts[0].port, Some(2200));
    assert_eq!(hosts[1].port, Some(22));
}

#[test]
fn an_empty_or_comment_only_file_is_no_hosts_rather_than_an_error() {
    assert!(parse("", HOME).is_empty());
    assert!(parse("# nothing here\n\n   \n", HOME).is_empty());
}

#[test]
fn a_leading_tilde_is_the_home_directory() {
    assert_eq!(get("bastion").identity_file.as_deref(), Some("/home/u/.ssh/id_bastion"));
    let hosts = parse("Host a\n IdentityFile ~/k\n", None);
    assert_eq!(hosts[0].identity_file.as_deref(), Some("~/k"));
    let hosts = parse("Host a\n IdentityFile /etc/k\n", HOME);
    assert_eq!(hosts[0].identity_file.as_deref(), Some("/etc/k"));
}

#[test]
fn a_port_out_of_range_is_dropped() {
    let hosts = parse("Host a\n Port 65536\nHost b\n Port 65535\n", HOME);
    assert_eq!(hosts[0].port, None);
    assert_eq!(hosts[1].port, Some(65535));
}

#[test]
fn the_config_lies_under_the_home_directory() {
    assert_eq!(default_path(HOME).as_deref(), Some("/home/u/.ssh/config"));
    assert_eq!(default_path(None), None);
}

#[test]
fn a_host_without_a_user_takes_the_local_one() {
    assert_eq!(get("bastion").username(Some("me")), "ops");
    let hosts = parse("Host a\n", HOME);
    assert_eq!(hosts[0].username(Some("me")), "me");
    assert_eq!(hosts[0].username(Some("me")), local_user(Some("me")));
}

#[test]
fn the_place_of_the_wildcard_makes_no_difference() {
    let wildcard = "Host *\n User shared\n Port 2200\n IdentityFile ~/.ssh/shared\n";
    let hosts = "Host a\n User own\nMatch host x\n User nobody\nHost b\n HostName b.example.com\n Port 22\n";
    let before = parse(&format!("{wildcard}{hosts}"), HOME);
    assert_eq!(before, parse(&format!("{hosts}{wildcard}"), HOME));
    assert_eq!(before.len(), 2);
    assert_eq!((before[0].user.as_deref(), before[0].port), (Some("own"), Some(2200)));
    assert_eq!((before[1].user.as_deref(), before[1].port), (Some("shared"), Some(22)));
}

#[test]
fn a_line_that_says_nothing_has_no_effect() {
    let a = "Host a\n User u\n";
    let b = " Port 2222\nHost b\n";
    let plain = parse(&format!("{a}{b}"), HOME);
    for line in ["", "   ", "# Host c", "User", "Include other", "ForwardAgent yes", "\tHostName\r"] {
        assert_eq!(parse(&format!("{a}{line}\n{b}"), HOME), plain);
    }
    assert!(parse("", HOME).is_empty());
    assert!(parse("# nothing here\n\n   \n", HOME).is_empty());
}
