use ssh_control::cli::list::render;
use ssh_control::config::{AuthMethod, Secret, ServerEntry, ServerSort};

fn entry(name: &str, user: &str, port: u16, tags: &[&str]) -> ServerEntry {
    let mut e = ServerEntry::new(
        name.into(),
        format!("{name}.example.com"),
        port,
        user.into(),
        AuthMethod::password("hunter2".into()),
    );
    e.tags = tags.iter().map(|t| (*t).to_string()).collect();
    e
}

fn servers() -> Vec<ServerEntry> {
    vec![entry("web-1", "root", 22, &["prod"]), entry("db-1", "postgres", 5432, &["prod", "db"])]
}

#[test]
fn the_piped_form_is_three_tab_separated_fields() {
    let out = render(&servers(), ServerSort::Name, false);
    let lines: Vec<&str> = out.lines().collect();

    assert_eq!(lines[0], "db-1\tpostgres@db-1.example.com:5432\tprod,db");
    assert_eq!(lines[1], "web-1\troot@web-1.example.com:22\tprod");
    // The whole point: `cut -f2` has to give the connection string.
    assert!(lines.iter().all(|l| l.split('\t').count() == 3));
}

#[test]
fn the_terminal_form_lines_the_columns_up() {
    let out = render(&servers(), ServerSort::Name, true);
    let starts: Vec<usize> = out.lines().map(|l| l.find('@').expect("a user@host")).collect();

    assert!(!out.contains('\t'), "padding replaces tabs, it does not join them");
    assert_eq!(starts[0] - "postgres".len(), starts[1] - "root".len(), "the second column starts at one place");
    assert!(out.lines().all(|l| l == l.trim_end()), "no trailing padding");
}

#[test]
fn a_credential_never_reaches_the_output() {
    let mut with_key = servers();
    with_key.push({
        let mut e = entry("key-box", "deploy", 22, &[]);
        e.auth = AuthMethod::SshKey {
            key_path: "/home/me/.ssh/id_ed25519".into(),
            passphrase: Some(Secret::from("pp".to_string())),
        };
        e.host_key_fingerprint = Some("SHA256:secretish".into());
        e
    });

    for aligned in [true, false] {
        let out = render(&with_key, ServerSort::Name, aligned);
        assert!(!out.contains("hunter2"));
        assert!(!out.contains("pp"));
        assert!(!out.contains("id_ed25519"));
        assert!(!out.contains("SHA256"));
    }
}

#[test]
fn an_empty_vault_prints_nothing_at_all() {
    assert_eq!(render(&[], ServerSort::Name, true), "");
    assert_eq!(render(&[], ServerSort::Name, false), "");
}

#[test]
fn the_order_is_stable_when_nothing_distinguishes_two_entries() {
    let untouched = vec![entry("b", "root", 22, &[]), entry("a", "root", 22, &[])];
    for sort in [ServerSort::Name, ServerSort::Tag, ServerSort::LastConnected] {
        let out = render(&untouched, sort, false);
        assert!(out.starts_with("a\t"), "{sort:?} should fall back to the name");
    }
}

#[test]
fn the_last_connected_comes_first() {
    let mut all = servers();
    all[0].last_connected_unix = Some(5);
    all[1].last_connected_unix = Some(4);
    assert!(render(&all, ServerSort::LastConnected, false).starts_with("web-1\t"));
    all[1].last_connected_unix = Some(6);
    assert!(render(&all, ServerSort::LastConnected, false).starts_with("db-1\t"));
}

#[test]
fn the_aligned_form_is_exact() {
    assert_eq!(
        render(&servers(), ServerSort::Name, true),
        "db-1   postgres@db-1.example.com:5432  prod,db\nweb-1  root@web-1.example.com:22       prod\n"
    );
}
