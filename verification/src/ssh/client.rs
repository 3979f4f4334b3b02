//! What the client decides about a server's callbacks: whether its host key is
//! the one it had before, and whether a forwarded connection was asked for.
use vstd::prelude::*;

use crate::error::{AppError, ErrorView};
use crate::text::{owned, same_text};

verus! {

/// Result of the trust-on-first-connect check of a host key.
pub enum HostKeyOutcome {
    /// The fingerprint matched the one already stored for this server.
    Trusted,
    /// No fingerprint was stored yet; this one was accepted and is to be stored.
    FirstConnect { fingerprint: String },
    /// The fingerprint did not match the stored one: the connection is refused.
    Mismatch { expected: String, actual: String },
}

/// Where one remote forward's incoming connections should be delivered.
pub struct RemoteRoute {
    pub bind_addr: String,
    pub bind_port: u16,
    pub dest_host: String,
    pub dest_port: u16,
}

impl Clone for HostKeyOutcome {
    fn clone(&self) -> (r: Self)
        ensures
            r == *self,
    {
        match self {
            HostKeyOutcome::Trusted => HostKeyOutcome::Trusted,
            HostKeyOutcome::FirstConnect { fingerprint } => HostKeyOutcome::FirstConnect {
                fingerprint: fingerprint.clone(),
            },
            HostKeyOutcome::Mismatch { expected, actual } => HostKeyOutcome::Mismatch {
                expected: expected.clone(),
                actual: actual.clone(),
            },
        }
    }
}

impl Clone for RemoteRoute {
    fn clone(&self) -> (r: Self)
        ensures
            r == *self,
    {
        RemoteRoute {
            bind_addr: self.bind_addr.clone(),
            bind_port: self.bind_port,
            dest_host: self.dest_host.clone(),
            dest_port: self.dest_port,
        }
    }
}

/// The client's side of one session's callbacks.
pub struct Handler {
    pub expected_fingerprint: Option<String>,
    /// What the host-key check came to, once it was made.
    pub outcome: Option<HostKeyOutcome>,
    /// Empty for a bastion and for a session with no remote forward. An empty
    /// table refuses everything.
    pub remote_routes: Vec<RemoteRoute>,
}

/// What `ssh_key::PublicKey::fingerprint` gives for the key that these bytes
/// encode, with SHA-256, as text; `None` where they encode no key.
pub uninterp spec fn key_fingerprint(key: Seq<u8>) -> Option<Seq<char>>;

/// `russh::keys::PublicKey::from_bytes`, and of the key that it reads
/// `fingerprint` with `HashAlg::Sha256`, as text. The fingerprint is a function
/// of the bytes of the key alone; nothing else is claimed of it.
#[verifier::external_body]
fn fingerprint(key: &[u8]) -> (r: Option<String>)
    ensures
        match r {
            Some(text) => key_fingerprint(key@) == Some(text@),
            None => r is None && key_fingerprint(key@) is None,
        },
{
    let key = russh::keys::PublicKey::from_bytes(key).ok()?;
    Some(key.fingerprint(russh::keys::HashAlg::Sha256).to_string())
}

/// What a host key's fingerprint comes to, given the stored one.
pub open spec fn judged(expected: Option<String>, actual: String) -> HostKeyOutcome {
    match expected {
        None => HostKeyOutcome::FirstConnect { fingerprint: actual },
        Some(e) => if e@ == actual@ {
            HostKeyOutcome::Trusted
        } else {
            HostKeyOutcome::Mismatch { expected: e, actual }
        },
    }
}

/// Whether a connection on the server's `port` and `address` belongs to a
/// route: the port identifies the rule, and the address only has to not
/// contradict it.
pub open spec fn route_takes(route: RemoteRoute, address: Seq<char>, port: u32) -> bool {
    route.bind_port == port % 65536 && (route.bind_addr@.len() == 0 || route.bind_addr@ == address || address.len()
        == 0)
}

/// The first route that takes a connection.
pub open spec fn first_route(routes: Seq<RemoteRoute>, address: Seq<char>, port: u32) -> Option<RemoteRoute>
    decreases routes.len(),
{
    if routes.len() == 0 {
        None
    } else if route_takes(routes[0], address, port) {
        Some(routes[0])
    } else {
        first_route(routes.drop_first(), address, port)
    }
}

impl Handler {
    /// The handler for a server with this stored fingerprint and these routes.
    pub fn new(expected_fingerprint: Option<String>, remote_routes: Vec<RemoteRoute>) -> (r: Self)
        ensures
            r.expected_fingerprint == expected_fingerprint,
            r.outcome is None,
            r.remote_routes == remote_routes,
    {
        Handler { expected_fingerprint, outcome: None, remote_routes }
    }

    /// Judges the server's host key, given as it is encoded on the wire. Bytes
    /// that encode no key are an error, and nothing is judged.
    pub fn check_host_key(&mut self, key: &[u8]) -> (r: Result<bool, AppError>)
        ensures
            match key_fingerprint(key@) {
                Some(text) => exists|actual: String|
                    #[trigger] actual@ == text && final(self).outcome == Some(
                        judged(old(self).expected_fingerprint, actual),
                    ) && final(self).expected_fingerprint == old(self).expected_fingerprint
                        && final(self).remote_routes == old(self).remote_routes && r == Ok::<bool, AppError>(
                        !(judged(old(self).expected_fingerprint, actual) is Mismatch),
                    ),
                None => *final(self) == *old(self) && (r matches Err(e) && e@ == ErrorView::Ssh(
                    "the server's host key cannot be read"@,
                )),
            },
    {
        match fingerprint(key) {
            Some(actual) => {
                let ghost known = actual@;
                assert(exists|a: String| #[trigger] a@ == known && a == actual);
                Ok(self.check_server_key(actual))
            },
            None => Err(AppError::Ssh(owned("the server's host key cannot be read"))),
        }
    }

    /// Judges the server's host key by its fingerprint, and says whether the
    /// connection goes on. Only a fingerprint that differs from a stored one is
    /// refused.
    pub fn check_server_key(&mut self, actual: String) -> (r: bool)
        ensures
            final(self).outcome == Some(judged(old(self).expected_fingerprint, actual)),
            final(self).expected_fingerprint == old(self).expected_fingerprint,
            final(self).remote_routes == old(self).remote_routes,
            r == !(judged(old(self).expected_fingerprint, actual) is Mismatch),
    {
        match &self.expected_fingerprint {
            None => {
                self.outcome = Some(HostKeyOutcome::FirstConnect { fingerprint: actual });
                true
            },
            Some(expected) => {
                if same_text(expected.as_str(), actual.as_str()) {
                    self.outcome = Some(HostKeyOutcome::Trusted);
                    true
                } else {
                    let expected = expected.clone();
                    self.outcome = Some(HostKeyOutcome::Mismatch { expected, actual });
                    false
                }
            },
        }
    }

    /// Where a connection that arrives on a remote forward is to be delivered,
    /// or `None` where nothing asked for it and it is refused.
    pub fn route_for(&self, connected_address: &str, connected_port: u32) -> (r: Option<RemoteRoute>)
        ensures
            r == first_route(self.remote_routes@, connected_address@, connected_port),
    {
        let routes = &self.remote_routes;
        let mut i: usize = 0;
        assert(routes@.skip(0) =~= routes@);
        while i < routes.len()
            invariant
                i <= routes@.len(),
                routes@ == self.remote_routes@,
                first_route(routes@, connected_address@, connected_port) == first_route(
                    routes@.skip(i as int),
                    connected_address@,
                    connected_port,
                ),
            decreases routes@.len() - i,
        {
            let route = &routes[i];
            assert(routes@.skip(i as int)[0] == *route);
            assert(routes@.skip(i as int).drop_first() =~= routes@.skip(i + 1));
            if route.bind_port == (connected_port % 65536) as u16 && (route.bind_addr.as_str().is_empty() || same_text(
                route.bind_addr.as_str(),
                connected_address,
            ) || connected_address.is_empty()) {
                return Some(route.clone());
            }
            i = i + 1;
        }
        None
    }
}

/// A changed host key is refused, and one that matches or is the first is not.
pub proof fn only_a_changed_key_is_refused(expected: Option<String>, actual: String)
    ensures
        judged(expected, actual) is Mismatch <==> (expected matches Some(e) && e@ != actual@),
        judged(expected, actual) is FirstConnect <==> expected is None,
{
}

/// Without routes every forwarded connection is refused.
pub proof fn no_routes_take_nothing(address: Seq<char>, port: u32)
    ensures
        first_route(Seq::empty(), address, port) is None,
{
}

/// What a host key comes to: trusted where its fingerprint is the stored one;
/// where none is stored, the first, to be stored as it is; else a mismatch that
/// names both.
pub proof fn a_host_key_is_judged_by_the_stored_one(expected: Option<String>, actual: String)
    ensures
        judged(expected, actual) is Trusted <==> (expected matches Some(e) && e@ == actual@),
        judged(expected, actual) matches HostKeyOutcome::FirstConnect { fingerprint } ==> fingerprint == actual,
        judged(expected, actual) matches HostKeyOutcome::Mismatch { expected: e, actual: a } ==> expected == Some(e) && a
            == actual && e@ != a@,
        expected is None ==> judged(expected, actual) is FirstConnect,
{
}

/// A connection goes to the first route on its port whose address does not
/// contradict it, an empty one on either side contradicting nothing; where there
/// is none it is refused.
pub proof fn a_connection_goes_to_the_first_route_on_its_port(routes: Seq<RemoteRoute>, address: Seq<char>, port: u32)
    requires
        port < 65536,
    ensures
        match first_route(routes, address, port) {
            Some(route) => {
                &&& route.bind_port == port
                &&& route.bind_addr@.len() == 0 || address.len() == 0 || route.bind_addr@ == address
                &&& exists|i: int|
                    0 <= i < routes.len() && #[trigger] routes[i] == route && forall|j: int|
                        0 <= j < i ==> (#[trigger] routes[j]).bind_port != port || (routes[j].bind_addr@.len() > 0
                            && address.len() > 0 && routes[j].bind_addr@ != address)
            },
            None => forall|j: int|
                0 <= j < routes.len() ==> (#[trigger] routes[j]).bind_port != port || (routes[j].bind_addr@.len() > 0
                    && address.len() > 0 && routes[j].bind_addr@ != address),
        },
    decreases routes.len(),
{
    if routes.len() > 0 {
        let rest = routes.drop_first();
        a_connection_goes_to_the_first_route_on_its_port(rest, address, port);
        if route_takes(routes[0], address, port) {
            assert(routes[0] == first_route(routes, address, port)->Some_0);
        } else {
            match first_route(routes, address, port) {
                Some(route) => {
                    let i = choose|i: int|
                        0 <= i < rest.len() && #[trigger] rest[i] == route && forall|j: int|
                            0 <= j < i ==> (#[trigger] rest[j]).bind_port != port || (rest[j].bind_addr@.len() > 0
                                && address.len() > 0 && rest[j].bind_addr@ != address);
                    assert(routes[i + 1] == route);
                    assert forall|j: int| 0 <= j < i + 1 implies (#[trigger] routes[j]).bind_port != port || (
                    routes[j].bind_addr@.len() > 0 && address.len() > 0 && routes[j].bind_addr@ != address) by {
                        if j > 0 {
                            assert(rest[j - 1] == routes[j]);
                        }
                    }
                },
                None => {
                    assert forall|j: int| 0 <= j < routes.len() implies (#[trigger] routes[j]).bind_port != port || (
                    routes[j].bind_addr@.len() > 0 && address.len() > 0 && routes[j].bind_addr@ != address) by {
                        if j > 0 {
                            assert(rest[j - 1] == routes[j]);
                        }
                    }
                },
            }
        }
    }
}

/// A server whose key can be read is accepted unless it has another key than the
/// one that is stored; what was found is kept for the record.
pub proof fn only_another_key_turns_a_server_away(
    handler: &mut Handler,
    key: &[u8],
    r: Result<bool, AppError>,
)
    requires
        call_ensures(Handler::check_host_key, (handler, key), r),
    ensures
        key_fingerprint(key@) matches Some(text) ==> {
            &&& r == Ok::<bool, AppError>(
                old(handler).expected_fingerprint is None || old(handler).expected_fingerprint->Some_0@ == text,
            )
            &&& old(handler).expected_fingerprint is None ==> (final(handler).outcome
                matches Some(HostKeyOutcome::FirstConnect { fingerprint }) && fingerprint@ == text)
            &&& final(handler).expected_fingerprint == old(handler).expected_fingerprint
        },
        key_fingerprint(key@) is None ==> r is Err,
{
}

} // verus!
