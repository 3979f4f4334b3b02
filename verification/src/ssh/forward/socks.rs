//! Just enough SOCKS5 to be the front half of a dynamic forward.
//!
//! Only `CONNECT`. The other commands are answered rather than ignored, so a
//! client that wants them fails immediately and legibly. The handshake says how
//! many bytes it wants next and is fed exactly those, so a truncated packet can
//! only end it, never misread it.
use vstd::prelude::*;
use vstd::slice::slice_subrange;
use vstd::utf8::{decode_utf8, valid_utf8};

use crate::bytes::from_be16;
use crate::ssh::forward::address::{ipv4, ipv4_text, ipv6, ipv6_text};
use crate::text::{decimal, from_utf8, owned};

verus! {

pub const VERSION: u8 = 5;

pub const AUTH_NONE: u8 = 0;

pub const AUTH_UNACCEPTABLE: u8 = 0xff;

pub const CMD_CONNECT: u8 = 1;

pub const ADDR_IPV4: u8 = 1;

pub const ADDR_DOMAIN: u8 = 3;

pub const ADDR_IPV6: u8 = 4;

/// Reply codes, as far as this proxy uses them.
#[derive(Clone, Copy, PartialEq, Eq, Debug, Structural)]
pub enum Reply {
    Succeeded,
    GeneralFailure,
    HostUnreachable,
    CommandNotSupported,
    AddressTypeNotSupported,
}

impl Reply {
    /// The code on the wire.
    pub open spec fn number(self) -> u8 {
        match self {
            Reply::Succeeded => 0,
            Reply::GeneralFailure => 1,
            Reply::HostUnreachable => 4,
            Reply::CommandNotSupported => 7,
            Reply::AddressTypeNotSupported => 8,
        }
    }

    /// The code on the wire.
    pub fn code(self) -> (r: u8)
        ensures
            r == self.number(),
    {
        match self {
            Reply::Succeeded => 0,
            Reply::GeneralFailure => 1,
            Reply::HostUnreachable => 4,
            Reply::CommandNotSupported => 7,
            Reply::AddressTypeNotSupported => 8,
        }
    }

    /// The code by its name.
    pub fn name(self) -> (r: &'static str)
        ensures
            r@ == match self {
                Reply::Succeeded => "Succeeded"@,
                Reply::GeneralFailure => "GeneralFailure"@,
                Reply::HostUnreachable => "HostUnreachable"@,
                Reply::CommandNotSupported => "CommandNotSupported"@,
                Reply::AddressTypeNotSupported => "AddressTypeNotSupported"@,
            },
    {
        match self {
            Reply::Succeeded => "Succeeded",
            Reply::GeneralFailure => "GeneralFailure",
            Reply::HostUnreachable => "HostUnreachable",
            Reply::CommandNotSupported => "CommandNotSupported",
            Reply::AddressTypeNotSupported => "AddressTypeNotSupported",
        }
    }
}

/// Where a client asked to be connected. A domain is left as written: the far
/// end resolves it.
#[derive(Clone, PartialEq, Eq, Debug)]
pub struct Request {
    pub host: String,
    pub port: u16,
}

#[derive(Debug)]
pub enum SocksError {
    /// Not SOCKS5, or not as this proxy can use it.
    Protocol(&'static str),
    /// The stream ended or failed.
    Io(String),
    /// Well-formed, but asking for something this proxy does not do. Carries
    /// the code to answer with.
    Refused(Reply),
}

/// A `SocksError` by its texts.
#[verifier::ext_equal]
pub enum SocksErrorView {
    Protocol(Seq<char>),
    Io(Seq<char>),
    Refused(Reply),
}

impl View for SocksError {
    type V = SocksErrorView;

    open spec fn view(&self) -> SocksErrorView {
        match *self {
            SocksError::Protocol(m) => SocksErrorView::Protocol(m@),
            SocksError::Io(m) => SocksErrorView::Io(m@),
            SocksError::Refused(r) => SocksErrorView::Refused(r),
        }
    }
}

impl SocksError {
    /// The sentence this error is shown as.
    pub fn message(&self) -> (r: String)
        ensures
            r@ == match self@ {
                SocksErrorView::Protocol(m) => m,
                SocksErrorView::Io(m) => m,
                SocksErrorView::Refused(code) => "refused: "@ + match code {
                    Reply::Succeeded => "Succeeded"@,
                    Reply::GeneralFailure => "GeneralFailure"@,
                    Reply::HostUnreachable => "HostUnreachable"@,
                    Reply::CommandNotSupported => "CommandNotSupported"@,
                    Reply::AddressTypeNotSupported => "AddressTypeNotSupported"@,
                },
            },
    {
        match self {
            SocksError::Protocol(m) => owned(m),
            SocksError::Io(m) => owned(m.as_str()),
            SocksError::Refused(code) => {
                let mut s = owned("refused: ");
                s.push_str(code.name());
                s
            },
        }
    }
}

/// How far a handshake has come.
pub enum State {
    /// Before the version and the number of methods.
    Greeting,
    /// Before the methods.
    Methods { count: u8 },
    /// Before the head of the request.
    Head,
    /// Before an address of this many octets.
    Ipv4,
    Ipv6,
    /// Before the length of a name, and before the name.
    DomainLen,
    Domain { len: u8 },
    /// Before the port.
    Port { host: String },
}

/// A `State` by its text.
#[verifier::ext_equal]
pub enum StateView {
    Greeting,
    Methods { count: u8 },
    Head,
    Ipv4,
    Ipv6,
    DomainLen,
    Domain { len: u8 },
    Port { host: Seq<char> },
}

impl View for State {
    type V = StateView;

    open spec fn view(&self) -> StateView {
        match *self {
            State::Greeting => StateView::Greeting,
            State::Methods { count } => StateView::Methods { count },
            State::Head => StateView::Head,
            State::Ipv4 => StateView::Ipv4,
            State::Ipv6 => StateView::Ipv6,
            State::DomainLen => StateView::DomainLen,
            State::Domain { len } => StateView::Domain { len },
            State::Port { host } => StateView::Port { host: host@ },
        }
    }
}

/// What a handshake does next.
pub enum Next {
    Continue(State),
    Done(Request),
    Failed(SocksError),
}

/// A `Next` by its texts.
#[verifier::ext_equal]
pub enum NextView {
    Continue(StateView),
    Done { host: Seq<char>, port: u16 },
    Failed(SocksErrorView),
}

impl View for Next {
    type V = NextView;

    open spec fn view(&self) -> NextView {
        match *self {
            Next::Continue(state) => NextView::Continue(state@),
            Next::Done(request) => NextView::Done { host: request.host@, port: request.port },
            Next::Failed(e) => NextView::Failed(e@),
        }
    }
}

impl StateView {
    /// How many bytes are wanted next.
    pub open spec fn wants(self) -> nat {
        match self {
            StateView::Greeting => 2,
            StateView::Methods { count } => count as nat,
            StateView::Head => 4,
            StateView::Ipv4 => 4,
            StateView::Ipv6 => 16,
            StateView::DomainLen => 1,
            StateView::Domain { len } => len as nat,
            StateView::Port { .. } => 2,
        }
    }

    /// How many steps are left at most.
    pub open spec fn left(self) -> nat {
        match self {
            StateView::Greeting => 6,
            StateView::Methods { .. } => 5,
            StateView::Head => 4,
            StateView::Ipv4 => 2,
            StateView::Ipv6 => 2,
            StateView::DomainLen => 3,
            StateView::Domain { .. } => 2,
            StateView::Port { .. } => 1,
        }
    }

    /// What is written and what happens next, once the wanted bytes are there.
    pub open spec fn fed(self, bytes: Seq<u8>) -> (Seq<u8>, NextView) {
        match self {
            StateView::Greeting => if bytes[0] != VERSION {
                (Seq::empty(), NextView::Failed(SocksErrorView::Protocol("not a SOCKS5 client"@)))
            } else {
                (Seq::empty(), NextView::Continue(StateView::Methods { count: bytes[1] }))
            },
            StateView::Methods { .. } => if bytes.contains(AUTH_NONE) {
                (seq![VERSION, AUTH_NONE], NextView::Continue(StateView::Head))
            } else {
                (
                    seq![VERSION, AUTH_UNACCEPTABLE],
                    NextView::Failed(SocksErrorView::Protocol("the client offered no usable auth method"@)),
                )
            },
            StateView::Head => (
                Seq::empty(),
                if bytes[0] != VERSION {
                    NextView::Failed(SocksErrorView::Protocol("not a SOCKS5 request"@))
                } else if bytes[1] != CMD_CONNECT {
                    NextView::Failed(SocksErrorView::Refused(Reply::CommandNotSupported))
                } else if bytes[3] == ADDR_IPV4 {
                    NextView::Continue(StateView::Ipv4)
                } else if bytes[3] == ADDR_IPV6 {
                    NextView::Continue(StateView::Ipv6)
                } else if bytes[3] == ADDR_DOMAIN {
                    NextView::Continue(StateView::DomainLen)
                } else {
                    NextView::Failed(SocksErrorView::Refused(Reply::AddressTypeNotSupported))
                },
            ),
            StateView::Ipv4 => (Seq::empty(), NextView::Continue(StateView::Port { host: ipv4_text(bytes) })),
            StateView::Ipv6 => (Seq::empty(), NextView::Continue(StateView::Port { host: ipv6_text(bytes) })),
            StateView::DomainLen => (Seq::empty(), NextView::Continue(StateView::Domain { len: bytes[0] })),
            StateView::Domain { .. } => (
                Seq::empty(),
                if valid_utf8(bytes) {
                    NextView::Continue(StateView::Port { host: decode_utf8(bytes) })
                } else {
                    NextView::Failed(SocksErrorView::Protocol("the destination name is not utf-8"@))
                },
            ),
            StateView::Port { host } => (Seq::empty(), NextView::Done { host, port: from_be16(bytes) }),
        }
    }

    /// What a client that sends these bytes and then stops gets: what is
    /// written to it, and what its request comes to.
    pub open spec fn outcome(self, bytes: Seq<u8>) -> (Seq<u8>, NextView)
        decreases self.left(),
    {
        if bytes.len() < self.wants() {
            (Seq::empty(), NextView::Failed(SocksErrorView::Io("early eof"@)))
        } else {
            let n = self.wants() as int;
            let (written, next) = self.fed(bytes.take(n));
            match next {
                NextView::Continue(state) => if state.left() < self.left() {
                    let (more, end) = state.outcome(bytes.skip(n));
                    (written + more, end)
                } else {
                    (written, next)
                },
                _ => (written, next),
            }
        }
    }
}

fn has_method(methods: &[u8], method: u8) -> (r: bool)
    ensures
        r == methods@.contains(method),
{
    let mut i: usize = 0;
    while i < methods.len()
        invariant
            i <= methods@.len(),
            forall|j: int| 0 <= j < i ==> methods@[j] != method,
        decreases methods@.len() - i,
    {
        if methods[i] == method {
            return true;
        }
        i = i + 1;
    }
    false
}

impl State {
    /// How many bytes are wanted next.
    pub fn wants(&self) -> (r: usize)
        ensures
            r == self@.wants(),
    {
        match self {
            State::Greeting => 2,
            State::Methods { count } => *count as usize,
            State::Head => 4,
            State::Ipv4 => 4,
            State::Ipv6 => 16,
            State::DomainLen => 1,
            State::Domain { len } => *len as usize,
            State::Port { .. } => 2,
        }
    }

    /// Takes in the wanted bytes. What comes back is to be written first, and
    /// then followed.
    pub fn feed(self, bytes: &[u8]) -> (r: (Vec<u8>, Next))
        requires
            bytes@.len() == self@.wants(),
        ensures
            (r.0@, r.1@) == self@.fed(bytes@),
    {
        let mut written: Vec<u8> = Vec::new();
        assert(written@ =~= Seq::<u8>::empty());
        let next = match self {
            State::Greeting => {
                if bytes[0] != VERSION {
                    Next::Failed(SocksError::Protocol("not a SOCKS5 client"))
                } else {
                    Next::Continue(State::Methods { count: bytes[1] })
                }
            },
            State::Methods { .. } => {
                written.push(VERSION);
                // No authentication: the session behind the listener is already
                // authenticated.
                if has_method(bytes, AUTH_NONE) {
                    written.push(AUTH_NONE);
                    assert(written@ =~= seq![VERSION, AUTH_NONE]);
                    Next::Continue(State::Head)
                } else {
                    written.push(AUTH_UNACCEPTABLE);
                    assert(written@ =~= seq![VERSION, AUTH_UNACCEPTABLE]);
                    Next::Failed(SocksError::Protocol("the client offered no usable auth method"))
                }
            },
            State::Head => {
                if bytes[0] != VERSION {
                    Next::Failed(SocksError::Protocol("not a SOCKS5 request"))
                } else if bytes[1] != CMD_CONNECT {
                    Next::Failed(SocksError::Refused(Reply::CommandNotSupported))
                } else if bytes[3] == ADDR_IPV4 {
                    Next::Continue(State::Ipv4)
                } else if bytes[3] == ADDR_IPV6 {
                    Next::Continue(State::Ipv6)
                } else if bytes[3] == ADDR_DOMAIN {
                    Next::Continue(State::DomainLen)
                } else {
                    Next::Failed(SocksError::Refused(Reply::AddressTypeNotSupported))
                }
            },
            State::Ipv4 => Next::Continue(State::Port { host: ipv4(bytes) }),
            State::Ipv6 => Next::Continue(State::Port { host: ipv6(bytes) }),
            State::DomainLen => Next::Continue(State::Domain { len: bytes[0] }),
            State::Domain { .. } => {
                match from_utf8(vstd::slice::slice_to_vec(bytes)) {
                    Some(host) => Next::Continue(State::Port { host }),
                    None => Next::Failed(SocksError::Protocol("the destination name is not utf-8")),
                }
            },
            State::Port { host } => {
                let port: u16 = 256 * bytes[0] as u16 + bytes[1] as u16;
                Next::Done(Request { host, port })
            },
        };
        (written, next)
    }
}

/// The whole handshake of a client whose bytes are all there: greeting, method
/// selection and the `CONNECT` request. What is written to the client, and
/// where it wants to go.
pub fn handshake(bytes: &[u8]) -> (r: (Vec<u8>, Result<Request, SocksError>))
    ensures
        ({
            let (written, end) = StateView::Greeting.outcome(bytes@);
            &&& r.0@ == written
            &&& match r.1 {
                Ok(request) => end == (NextView::Done { host: request.host@, port: request.port }),
                Err(e) => end == NextView::Failed(e@),
            }
        }),
{
    let mut state = State::Greeting;
    let mut at: usize = 0;
    let mut written: Vec<u8> = Vec::new();
    let ghost start = StateView::Greeting.outcome(bytes@);
    assert(bytes@.skip(0) =~= bytes@);
    assert(written@ + start.0 =~= start.0);
    loop
        invariant
            at <= bytes@.len(),
            start == StateView::Greeting.outcome(bytes@),
            start == (written@ + state@.outcome(bytes@.skip(at as int)).0, state@.outcome(bytes@.skip(at as int)).1),
        decreases state@.left(),
    {
        let ghost here = state@;
        let ghost rest = bytes@.skip(at as int);
        let n: usize = state.wants();
        if bytes.len() - at < n {
            assert(written@ + Seq::<u8>::empty() =~= written@);
            return (written, Err(SocksError::Io(owned("early eof"))));
        }
        let chunk = slice_subrange(bytes, at, at + n);
        assert(chunk@ =~= rest.take(n as int));
        let (more, next) = state.feed(chunk);
        let ghost before = written@;
        crate::bytes::push_all(&mut written, &more);
        at = at + n;
        assert(bytes@.skip(at as int) =~= rest.skip(n as int));
        match next {
            Next::Continue(s) => {
                proof {
                    let tail = s@.outcome(bytes@.skip(at as int));
                    assert(before + (more@ + tail.0) =~= written@ + tail.0);
                }
                state = s;
            },
            Next::Done(request) => return (written, Ok(request)),
            Next::Failed(e) => return (written, Err(e)),
        }
    }
}

/// Answers a request. The bound address is always reported as `0.0.0.0:0`:
/// there is no local socket to name, the far end made the connection.
pub fn reply(answer: Reply) -> (r: Vec<u8>)
    ensures
        r@ == seq![VERSION, answer.number(), 0, ADDR_IPV4, 0, 0, 0, 0, 0, 0],
{
    let mut out: Vec<u8> = Vec::new();
    out.push(VERSION);
    out.push(answer.code());
    out.push(0);
    out.push(ADDR_IPV4);
    out.push(0);
    out.push(0);
    out.push(0);
    out.push(0);
    out.push(0);
    out.push(0);
    assert(out@ =~= seq![VERSION, answer.number(), 0, ADDR_IPV4, 0, 0, 0, 0, 0, 0]);
    out
}

/// A client that asks for a name gets exactly that name as its destination,
/// unresolved.
pub proof fn a_name_is_passed_through(name: Seq<char>, port: u16)
    requires
        crate::text::utf8(name).len() <= 255,
    ensures
        ({
            let bytes = crate::text::utf8(name);
            let client = seq![VERSION, 1u8, AUTH_NONE, VERSION, CMD_CONNECT, 0u8, ADDR_DOMAIN, bytes.len() as u8] + bytes
                + crate::bytes::be16(port);
            StateView::Greeting.outcome(client) == (seq![VERSION, AUTH_NONE], NextView::Done { host: name, port })
        }),
{
    let bytes = crate::text::utf8(name);
    let len = bytes.len() as u8;
    let tail = bytes + crate::bytes::be16(port);
    let client = seq![VERSION, 1u8, AUTH_NONE, VERSION, CMD_CONNECT, 0u8, ADDR_DOMAIN, len] + bytes
        + crate::bytes::be16(port);
    vstd::utf8::encode_utf8_valid_utf8(name);
    vstd::utf8::encode_utf8_decode_utf8(name);
    crate::bytes::lemma_be16_round_trip(port);
    reveal_with_fuel(StateView::outcome, 7);
    let s1 = client.skip(2);
    let s2 = s1.skip(1);
    let s3 = s2.skip(4);
    let s4 = s3.skip(1);
    let s5 = s4.skip(len as int);
    assert(client.take(2) =~= seq![VERSION, 1u8]);
    assert(s1.take(1) =~= seq![AUTH_NONE]);
    assert(s1.take(1)[0] == AUTH_NONE);
    assert(s2.take(4) =~= seq![VERSION, CMD_CONNECT, 0u8, ADDR_DOMAIN]);
    assert(s3.take(1) =~= seq![len]);
    assert(s4 =~= tail);
    assert(s4.take(len as int) =~= bytes);
    assert(s5 =~= crate::bytes::be16(port));
    assert(s5.take(2) =~= crate::bytes::be16(port));
    let host = StateView::Port { host: name };
    assert(host.outcome(s5) == (Seq::<u8>::empty(), NextView::Done { host: name, port }));
    assert(StateView::Domain { len }.outcome(s4) == (Seq::<u8>::empty() + Seq::<u8>::empty(), NextView::Done {
        host: name,
        port,
    }));
    assert(StateView::Greeting.outcome(client).0 =~= seq![VERSION, AUTH_NONE]);
}

impl StateView {
    /// How many bytes a handshake reads before it is done or fails.
    pub open spec fn used(self, bytes: Seq<u8>) -> nat
        decreases self.left(),
    {
        if bytes.len() < self.wants() {
            bytes.len()
        } else {
            let n = self.wants();
            match self.fed(bytes.take(n as int)).1 {
                NextView::Continue(state) => if state.left() < self.left() {
                    n + state.used(bytes.skip(n as int))
                } else {
                    n
                },
                _ => n,
            }
        }
    }
}

/// Every truncation is an error: a client that stops before its request is
/// complete gets none.
pub proof fn a_truncated_handshake_fails(state: StateView, bytes: Seq<u8>, n: int)
    requires
        state.outcome(bytes).1 is Done,
        0 <= n < state.used(bytes),
        n <= bytes.len(),
    ensures
        state.outcome(bytes.take(n)).1 == NextView::Failed(SocksErrorView::Io("early eof"@)),
    decreases state.left(),
{
    let wants = state.wants() as int;
    let cut = bytes.take(n);
    if n >= wants {
        assert(cut.take(wants) =~= bytes.take(wants));
        if let NextView::Continue(next) = state.fed(bytes.take(wants)).1 {
            assert(cut.skip(wants) =~= bytes.skip(wants).take(n - wants));
            a_truncated_handshake_fails(next, bytes.skip(wants), n - wants);
        }
    }
}

/// What a client sends behind its request is left for the connection: it does
/// not change what was asked for.
pub proof fn later_bytes_change_nothing(state: StateView, bytes: Seq<u8>, more: Seq<u8>)
    requires
        state.outcome(bytes).1 is Done,
    ensures
        state.outcome(bytes + more) == state.outcome(bytes),
        state.used(bytes + more) == state.used(bytes),
    decreases state.left(),
{
    let wants = state.wants() as int;
    assert((bytes + more).take(wants) =~= bytes.take(wants));
    if let NextView::Continue(next) = state.fed(bytes.take(wants)).1 {
        assert((bytes + more).skip(wants) =~= bytes.skip(wants) + more);
        later_bytes_change_nothing(next, bytes.skip(wants), more);
    }
}

/// What a client sends that offers `methods` and asks to be connected to the
/// address `o` of a kind, and to `port`.
pub open spec fn client_bytes(methods: Seq<u8>, reserved: u8, kind: u8, o: Seq<u8>, port: u16) -> Seq<u8> {
    seq![5u8, methods.len() as u8] + methods + seq![5u8, 1, reserved, kind] + o + crate::bytes::be16(port)
}

/// A client that offers to go without a login, among any other methods, and asks
/// to be connected to an IPv4 address gets its answer and is connected to that
/// address and port.
pub proof fn an_ipv4_address_is_passed_through(methods: Seq<u8>, reserved: u8, o: Seq<u8>, port: u16)
    requires
        0 < methods.len() <= 255,
        methods.contains(0u8),
        o.len() == 4,
    ensures
        StateView::Greeting.outcome(client_bytes(methods, reserved, 1, o, port)) == (
            seq![5u8, 0],
            (NextView::Done {
                host: decimal(o[0] as nat) + "."@ + decimal(o[1] as nat) + "."@ + decimal(o[2] as nat) + "."@ + decimal(
                    o[3] as nat,
                ),
                port,
            }),
        ),
{
    lemma_request(methods, reserved, 1, o, port);
}

/// The same of an IPv6 address.
pub proof fn an_ipv6_address_is_passed_through(methods: Seq<u8>, reserved: u8, o: Seq<u8>, port: u16)
    requires
        0 < methods.len() <= 255,
        methods.contains(0u8),
        o.len() == 16,
    ensures
        StateView::Greeting.outcome(client_bytes(methods, reserved, 4, o, port)) == (
            seq![5u8, 0],
            (NextView::Done { host: ipv6_text(o), port }),
        ),
{
    lemma_request(methods, reserved, 4, o, port);
}

proof fn lemma_request(methods: Seq<u8>, reserved: u8, kind: u8, o: Seq<u8>, port: u16)
    requires
        0 < methods.len() <= 255,
        methods.contains(0u8),
        kind == 1 && o.len() == 4 || kind == 4 && o.len() == 16,
    ensures
        kind == 1 ==> StateView::Greeting.outcome(client_bytes(methods, reserved, kind, o, port)) == (
            seq![5u8, 0],
            (NextView::Done { host: ipv4_text(o), port }),
        ),
        kind == 4 ==> StateView::Greeting.outcome(client_bytes(methods, reserved, kind, o, port)) == (
            seq![5u8, 0],
            (NextView::Done { host: ipv6_text(o), port }),
        ),
{
    let count = methods.len() as u8;
    let n = methods.len() as int;
    let head = seq![5u8, 1, reserved, kind];
    let ports = crate::bytes::be16(port);
    let client = client_bytes(methods, reserved, kind, o, port);
    crate::bytes::lemma_be16_round_trip(port);
    let s1 = client.skip(2);
    let s2 = s1.skip(n);
    let s3 = s2.skip(4);
    let s4 = s3.skip(o.len() as int);
    assert(client.take(2) =~= seq![5u8, count]);
    assert(s1 =~= methods + head + o + ports);
    assert(s1.take(n) =~= methods);
    assert(s2 =~= head + o + ports);
    assert(s2.take(4) =~= head);
    assert(s3 =~= o + ports);
    assert(s3.take(o.len() as int) =~= o);
    assert(s4 =~= ports);
    assert(s4.take(2) =~= ports);
    let host = if kind == 1 {
        ipv4_text(o)
    } else {
        ipv6_text(o)
    };
    let none = Seq::<u8>::empty();
    let done = NextView::Done { host, port };
    assert(none + none =~= none);
    assert(StateView::Port { host }.outcome(s4) == (none, done));
    let at = if kind == 1 {
        StateView::Ipv4
    } else {
        StateView::Ipv6
    };
    assert(at.outcome(s3) == (none, done));
    assert(StateView::Head.outcome(s2) == (none, done));
    assert(seq![5u8, 0] + none =~= seq![5u8, 0]);
    assert(StateView::Methods { count }.outcome(s1) == (seq![5u8, 0], done));
    assert(none + seq![5u8, 0] =~= seq![5u8, 0]);
}

/// What is no SOCKS5 client is turned away in silence; one that offers no way
/// without a login is told so; and a command or a kind of address that is not
/// served is refused with the code for it.
pub proof fn what_is_not_served_is_refused(bytes: Seq<u8>, count: u8)
    ensures
        bytes.len() == 2 && bytes[0] != 5 ==> StateView::Greeting.fed(bytes) == (
            Seq::<u8>::empty(),
            NextView::Failed(SocksErrorView::Protocol("not a SOCKS5 client"@)),
        ),
        bytes.len() == count && !bytes.contains(0u8) ==> (StateView::Methods { count }).fed(bytes) == (
            seq![5u8, 0xff],
            NextView::Failed(SocksErrorView::Protocol("the client offered no usable auth method"@)),
        ),
        bytes.len() == 4 && bytes[0] == 5 && bytes[1] != 1 ==> StateView::Head.fed(bytes).1 == NextView::Failed(
            SocksErrorView::Refused(Reply::CommandNotSupported),
        ),
        bytes.len() == 4 && bytes[0] == 5 && bytes[1] == 1 && bytes[3] != 1 && bytes[3] != 3 && bytes[3] != 4
            ==> StateView::Head.fed(bytes).1 == NextView::Failed(
            SocksErrorView::Refused(Reply::AddressTypeNotSupported),
        ),
        bytes.len() == 4 && bytes[0] != 5 ==> StateView::Head.fed(bytes).1 is Failed,
{
}

/// The codes on the wire are those of the protocol.
pub proof fn the_reply_codes_are_the_protocols()
    ensures
        Reply::Succeeded.number() == 0,
        Reply::GeneralFailure.number() == 1,
        Reply::HostUnreachable.number() == 4,
        Reply::CommandNotSupported.number() == 7,
        Reply::AddressTypeNotSupported.number() == 8,
{
}

} // verus!
