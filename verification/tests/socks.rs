use ssh_control::config::{ForwardKind, ForwardRule};
use ssh_control::ssh::forward::address::{ipv4, ipv6};
use ssh_control::ssh::forward::rules::{channel_answer, refusal, Forwards};
use ssh_control::ssh::forward::socks::{
    handshake, reply, Next, Reply, Request, SocksError, State, ADDR_DOMAIN, ADDR_IPV4, ADDR_IPV6, AUTH_NONE,
    AUTH_UNACCEPTABLE, CMD_CONNECT, VERSION,
};

/// A client that sends these bytes and then no more.
fn run(client_bytes: &[u8]) -> (Result<Request, SocksError>, Vec<u8>) {
    let (written, outcome) = handshake(client_bytes);
    (outcome, written)
}

fn connect_to(addr_type: u8, addr: &[u8], port: u16) -> Vec<u8> {
    let mut bytes = vec![VERSION, 1, AUTH_NONE, VERSION, CMD_CONNECT, 0, addr_type];
    bytes.extend_from_slice(addr);
    bytes.extend_from_slice(&port.to_be_bytes());
    bytes
}

#[test]
fn an_ipv4_connect_round_trips() {
    let (request, written) = run(&connect_to(ADDR_IPV4, &[10, 0, 0, 4], 5432));
    assert_eq!(request.unwrap(), Request { host: "10.0.0.4".into(), port: 5432 });
    assert_eq!(&written[..2], &[VERSION, AUTH_NONE], "no-auth is selected first");
}

#[test]
fn an_ipv6_connect_round_trips() {
    let addr = [0x20, 0x01, 0xd, 0xb8, 0, 0, 0, 0, 0, 0, 0, 0, 0, 0, 0, 1];
    let (request, _) = run(&connect_to(ADDR_IPV6, &addr, 443));
    assert_eq!(request.unwrap().host, "2001:db8::1");
}

#[test]
fn a_domain_name_is_passed_through_unresolved() {
    let name = b"db.internal";
    let mut addr = vec![name.len() as u8];
    addr.extend_from_slice(name);
    let (request, _) = run(&connect_to(ADDR_DOMAIN, &addr, 5432));
    assert_eq!(request.unwrap(), Request { host: "db.internal".into(), port: 5432 });
}

#[test]
fn an_unsupported_command_is_refused_with_a_code_to_answer_with() {
    let bytes = vec![VERSION, 1, AUTH_NONE, VERSION, 2 /* BIND */, 0, ADDR_IPV4, 1, 2, 3, 4, 0, 80];
    let (outcome, _) = run(&bytes);
    assert!(matches!(outcome, Err(SocksError::Refused(Reply::CommandNotSupported))));
}

#[test]
fn an_unknown_address_type_is_refused_rather_than_guessed_at() {
    let bytes = vec![VERSION, 1, AUTH_NONE, VERSION, CMD_CONNECT, 0, 9, 0, 80];
    let (outcome, _) = run(&bytes);
    assert!(matches!(outcome, Err(SocksError::Refused(Reply::AddressTypeNotSupported))));
}

#[test]
fn a_client_that_cannot_do_no_auth_is_told_so() {
    let (outcome, written) = run(&[VERSION, 1, 2 /* user/pass only */]);
    assert!(matches!(outcome, Err(SocksError::Protocol(_))));
    assert_eq!(written, vec![VERSION, AUTH_UNACCEPTABLE]);
}

#[test]
fn something_that_is_not_socks5_is_an_error_not_a_hang() {
    let (outcome, _) = run(b"GET / HTTP/1.1\r\n");
    assert!(matches!(outcome, Err(SocksError::Protocol(_))));
}

#[test]
fn every_truncation_is_an_error_rather_than_a_panic() {
    for prefix in [
        vec![VERSION],
        vec![VERSION, 3, AUTH_NONE],
        vec![VERSION, 1, AUTH_NONE, VERSION, CMD_CONNECT],
        vec![VERSION, 1, AUTH_NONE, VERSION, CMD_CONNECT, 0, ADDR_IPV4, 10, 0],
        vec![VERSION, 1, AUTH_NONE, VERSION, CMD_CONNECT, 0, ADDR_DOMAIN, 40, b'a'],
    ] {
        let (outcome, _) = run(&prefix);
        assert!(outcome.is_err(), "{prefix:?} must not parse");
    }
}

#[test]
fn a_reply_is_ten_bytes_and_names_its_code() {
    assert_eq!(reply(Reply::HostUnreachable), vec![VERSION, 4, 0, ADDR_IPV4, 0, 0, 0, 0, 0, 0]);
}

#[test]
fn a_handshake_can_be_fed_piece_by_piece() {
    let bytes = connect_to(ADDR_IPV4, &[10, 0, 0, 4], 5432);
    let mut state = State::Greeting;
    let mut at = 0;
    let mut written = Vec::new();
    let request = loop {
        let n = state.wants();
        let (out, next) = state.feed(&bytes[at..at + n]);
        at += n;
        written.extend(out);
        match next {
            Next::Continue(s) => state = s,
            Next::Done(request) => break request,
            Next::Failed(e) => panic!("{}", e.message()),
        }
    };
    assert_eq!(at, bytes.len());
    assert_eq!(written, vec![VERSION, AUTH_NONE]);
    assert_eq!(request, Request { host: "10.0.0.4".into(), port: 5432 });
}

#[test]
fn a_request_is_read_whole_or_not_at_all() {
    let bytes = connect_to(ADDR_DOMAIN, b"\x02db", 5432);
    for n in 0..bytes.len() {
        assert!(matches!(run(&bytes[..n]).0, Err(SocksError::Io(_))), "{n} bytes");
    }
    let mut more = bytes.clone();
    more.extend_from_slice(b"the client's first words");
    assert_eq!(run(&more).0.unwrap(), Request { host: "db".into(), port: 5432 });
}

#[test]
fn addresses_are_written_as_their_standard_texts() {
    assert_eq!(ipv4(&[192, 168, 0, 255]), "192.168.0.255");
    let v6 = |words: [u16; 8]| {
        let bytes: Vec<u8> = words.iter().flat_map(|w| w.to_be_bytes()).collect();
        ipv6(&bytes)
    };
    for words in [
        [0, 0, 0, 0, 0, 0, 0, 0],
        [0, 0, 0, 0, 0, 0, 0, 1],
        [0x2001, 0xdb8, 0, 0, 1, 0, 0, 1],
        [0x2001, 0xdb8, 0, 1, 1, 1, 1, 1],
        [0xfe80, 0, 0, 0, 0, 0, 0, 0],
        [1, 2, 3, 4, 5, 6, 7, 8],
        [0, 0, 0, 0, 0, 0xffff, 0x0a00, 0x0004],
        [0, 0, 0, 0, 0, 0, 0x0a00, 0x0004],
        [1, 0, 0, 2, 0, 0, 0, 3],
    ] {
        let expected = format!("{}", core::net::Ipv6Addr::from(words));
        assert_eq!(v6(words), expected);
    }
}

fn rule(port: u16, enabled: bool) -> ForwardRule {
    let mut rule = ForwardRule::new(ForwardKind::Dynamic { bind_addr: "127.0.0.1".into(), bind_port: port });
    rule.enabled = enabled;
    rule
}

#[test]
fn only_the_rules_that_are_switched_on_come_up() {
    let rules = vec![rule(1, false), rule(2, true), rule(3, false), rule(4, true)];
    let mut forwards = Forwards::new();
    assert_eq!(forwards.next_rule(&rules), Some(1));
    forwards.report(&rules[1], Err("address in use".into()));
    assert_eq!(forwards.next_rule(&rules), Some(3));
    forwards.report(&rules[3], Ok(()));
    assert_eq!(forwards.next_rule(&rules), None);
    assert_eq!(forwards.failed.len(), 1);
    assert_eq!(forwards.failed[0].error, "address in use");
    assert_eq!(forwards.failed[0].id, rules[1].id);
    assert_eq!(forwards.started.len(), 1);
    assert_eq!(forwards.started[0].id, rules[3].id);
}

#[test]
fn a_proxied_client_is_told_what_became_of_it() {
    assert_eq!(refusal(&SocksError::Refused(Reply::CommandNotSupported)), Some(Reply::CommandNotSupported));
    assert_eq!(refusal(&SocksError::Protocol("x")), None);
    assert_eq!(channel_answer(true), Reply::Succeeded);
    assert_eq!(channel_answer(false), Reply::HostUnreachable);
}
