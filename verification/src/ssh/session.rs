//! Resolving a server into what is dialled: the destination, and the bastions
//! on the way to it.
use vstd::prelude::*;

use crate::config::model::{
    copy_text, find_server, has_server, lemma_server_index, server_index, AuthMethod, ForwardKind, ForwardRule,
    ServerEntry, Uuid,
};
use crate::error::{AppError, ErrorView};
use crate::ssh::client::{HostKeyOutcome, RemoteRoute};
use crate::text::{decimal, owned, push_decimal};

verus! {

/// How many bastions a chain may name before it is refused.
pub const MAX_JUMPS: usize = 8;

/// Everything needed to authenticate one hop.
pub struct Endpoint {
    pub host: String,
    pub port: u16,
    pub username: String,
    pub auth: AuthMethod,
    pub host_key_fingerprint: Option<String>,
}

/// One destination, plus the bastions to reach it through.
pub struct Target {
    pub endpoint: Endpoint,
    /// Bastions to traverse, outermost first. Empty is a direct connect.
    pub jumps: Vec<Endpoint>,
    /// The vault ids of `jumps`, in the same order.
    pub jump_ids: Vec<Uuid>,
    /// The remote forwards, in the shape the handler needs them.
    pub remote_routes: Vec<RemoteRoute>,
}

/// What is needed of a server to log in to it.
pub open spec fn endpoint_of(entry: ServerEntry) -> Endpoint {
    Endpoint {
        host: entry.host,
        port: entry.port,
        username: entry.username,
        auth: entry.auth,
        host_key_fingerprint: entry.host_key_fingerprint,
    }
}

/// A `Validation` error about the server `name`.
pub open spec fn chain_error(name: Seq<char>, text: Seq<char>) -> ErrorView {
    ErrorView::Validation("'"@ + name + text)
}

/// Whether a server has been passed already: the destination itself, or one of
/// the bastions so far.
pub open spec fn passed(entry: ServerEntry, servers: Seq<ServerEntry>, hops: Seq<int>, id: Uuid) -> bool {
    id == entry.id || exists|i: int| 0 <= i < hops.len() && servers[#[trigger] hops[i]].id == id
}

/// The bastions of `entry`, by their places in the list, nearest first, when
/// the walk has come to `at` by way of `hops`.
pub open spec fn chain_from(entry: ServerEntry, servers: Seq<ServerEntry>, at: ServerEntry, hops: Seq<int>) -> Result<
    Seq<int>,
    ErrorView,
>
    decreases MAX_JUMPS + 1 - hops.len(),
{
    match at.jump_host {
        None => Ok(hops),
        Some(next) => if passed(entry, servers, hops, next) {
            Err(chain_error(entry.name@, "' is reached through a jump chain that loops back on itself"@))
        } else if !has_server(servers, next) {
            Err(chain_error(at.name@, "' is set to connect through a server that no longer exists"@))
        } else if hops.len() >= MAX_JUMPS {
            Err(
                chain_error(
                    entry.name@,
                    "' is behind more than "@ + decimal(MAX_JUMPS as nat) + " jump hosts"@,
                ),
            )
        } else {
            chain_from(
                entry,
                servers,
                servers[server_index(servers, next)],
                hops.push(server_index(servers, next)),
            )
        },
    }
}

/// The bastions of `entry`, by their places in the list, nearest first.
pub open spec fn chain(entry: ServerEntry, servers: Seq<ServerEntry>) -> Result<Seq<int>, ErrorView> {
    chain_from(entry, servers, entry, Seq::empty())
}

/// The routes of the remote forwards that are turned on, in order.
pub open spec fn routes_of(forwards: Seq<ForwardRule>) -> Seq<RemoteRoute>
    decreases forwards.len(),
{
    if forwards.len() == 0 {
        Seq::empty()
    } else {
        let front = routes_of(forwards.drop_last());
        match forwards.last().kind {
            ForwardKind::Remote { bind_addr, bind_port, dest_host, dest_port } => if forwards.last().enabled {
                front.push(RemoteRoute { bind_addr, bind_port, dest_host, dest_port })
            } else {
                front
            },
            _ => front,
        }
    }
}

/// Whether `target` leads to `entry` through the servers at `hops`, given
/// nearest first and held outermost first.
pub open spec fn leads_to(target: Target, entry: ServerEntry, servers: Seq<ServerEntry>, hops: Seq<int>) -> bool {
    &&& target.endpoint == endpoint_of(entry)
    &&& target.jumps@ == hops.reverse().map_values(|i: int| endpoint_of(servers[i]))
    &&& target.jump_ids@ == hops.reverse().map_values(|i: int| servers[i].id)
    &&& target.remote_routes@ == routes_of(entry.forwards@)
}

impl Endpoint {
    /// What is needed of a server to log in to it.
    pub fn from_entry(entry: &ServerEntry) -> (r: Self)
        ensures
            r == endpoint_of(*entry),
    {
        Endpoint {
            host: entry.host.clone(),
            port: entry.port,
            username: entry.username.clone(),
            auth: entry.auth.clone(),
            host_key_fingerprint: copy_text(&entry.host_key_fingerprint),
        }
    }
}

fn name_error(name: &str, text: &str) -> (r: AppError)
    ensures
        r@ == chain_error(name@, text@),
{
    let mut s = owned("'");
    s.push_str(name);
    s.push_str(text);
    AppError::Validation(s)
}

fn collect_routes(forwards: &Vec<ForwardRule>) -> (r: Vec<RemoteRoute>)
    ensures
        r@ == routes_of(forwards@),
{
    let mut out: Vec<RemoteRoute> = Vec::new();
    let mut i: usize = 0;
    while i < forwards.len()
        invariant
            i <= forwards@.len(),
            out@ == routes_of(forwards@.take(i as int)),
        decreases forwards@.len() - i,
    {
        let rule = &forwards[i];
        assert(forwards@.take(i + 1).drop_last() =~= forwards@.take(i as int));
        assert(forwards@.take(i + 1).last() == *rule);
        if rule.enabled {
            match &rule.kind {
                ForwardKind::Remote { bind_addr, bind_port, dest_host, dest_port } => {
                    out.push(
                        RemoteRoute {
                            bind_addr: bind_addr.clone(),
                            bind_port: *bind_port,
                            dest_host: dest_host.clone(),
                            dest_port: *dest_port,
                        },
                    );
                },
                _ => {},
            }
        }
        i = i + 1;
    }
    assert(forwards@.take(forwards@.len() as int) =~= forwards@);
    out
}

/// Whether the walk has passed the server `id`.
fn has_passed(entry: &ServerEntry, servers: &[ServerEntry], hops: &Vec<usize>, id: Uuid) -> (r: bool)
    requires
        forall|i: int| 0 <= i < hops@.len() ==> #[trigger] hops@[i] < servers@.len(),
    ensures
        r == passed(*entry, servers@, hops@.map_values(|i: usize| i as int), id),
{
    let ghost places = hops@.map_values(|i: usize| i as int);
    if id == entry.id {
        return true;
    }
    let mut i: usize = 0;
    while i < hops.len()
        invariant
            i <= hops@.len(),
            places == hops@.map_values(|i: usize| i as int),
            forall|j: int| 0 <= j < hops@.len() ==> #[trigger] hops@[j] < servers@.len(),
            forall|j: int| 0 <= j < i ==> servers@[#[trigger] places[j]].id != id,
        decreases hops@.len() - i,
    {
        if servers[hops[i]].id == id {
            assert(servers@[places[i as int]].id == id);
            return true;
        }
        i = i + 1;
    }
    false
}

impl Target {
    /// Resolves `entry`'s bastion chain out of `servers`. A jump reference can
    /// dangle, loop or lead too far, and each of these is refused.
    pub fn from_entry(entry: &ServerEntry, servers: &[ServerEntry]) -> (r: Result<Self, AppError>)
        ensures
            match r {
                Ok(target) => chain(*entry, servers@) matches Ok(hops) && leads_to(target, *entry, servers@, hops),
                Err(e) => chain(*entry, servers@) == Err::<Seq<int>, ErrorView>(e@),
            },
            r matches Ok(target) ==> {
                &&& target.endpoint.host == entry.host
                &&& target.endpoint.port == entry.port
                &&& target.endpoint.username == entry.username
                &&& target.endpoint.auth == entry.auth
                &&& target.endpoint.host_key_fingerprint == entry.host_key_fingerprint
            },
    {
        let mut hops: Vec<usize> = Vec::new();
        let mut at: &ServerEntry = entry;
        assert(hops@.map_values(|i: usize| i as int) =~= Seq::<int>::empty());
        loop
            invariant_except_break
                hops@.len() <= MAX_JUMPS,
                forall|i: int| 0 <= i < hops@.len() ==> #[trigger] hops@[i] < servers@.len(),
                chain(*entry, servers@) == chain_from(
                    *entry,
                    servers@,
                    *at,
                    hops@.map_values(|i: usize| i as int),
                ),
            ensures
                hops@.len() <= MAX_JUMPS,
                forall|i: int| 0 <= i < hops@.len() ==> #[trigger] hops@[i] < servers@.len(),
                chain(*entry, servers@) == Ok::<Seq<int>, ErrorView>(hops@.map_values(|i: usize| i as int)),
            decreases MAX_JUMPS + 1 - hops@.len(),
        {
            let next_id: Uuid = match at.jump_host {
                Some(id) => id,
                None => break,
            };
            let ghost places = hops@.map_values(|i: usize| i as int);
            if has_passed(entry, servers, &hops, next_id) {
                return Err(
                    name_error(entry.name.as_str(), "' is reached through a jump chain that loops back on itself"),
                );
            }
            let index: usize = match find_server(servers, next_id) {
                Some(index) => index,
                None => {
                    return Err(
                        name_error(at.name.as_str(), "' is set to connect through a server that no longer exists"),
                    );
                },
            };
            proof {
                lemma_server_index(servers@, next_id);
            }
            if hops.len() == MAX_JUMPS {
                let mut text = owned("' is behind more than ");
                push_decimal(&mut text, MAX_JUMPS as u64);
                text.push_str(" jump hosts");
                return Err(name_error(entry.name.as_str(), text.as_str()));
            }
            hops.push(index);
            at = &servers[index];
            assert(hops@.map_values(|i: usize| i as int) =~= places.push(index as int));
        }
        // Walked nearest first; the outermost bastion is dialled first.
        let ghost places = hops@.map_values(|i: usize| i as int);
        let mut jumps: Vec<Endpoint> = Vec::new();
        let mut jump_ids: Vec<Uuid> = Vec::new();
        let mut left: usize = hops.len();
        while left > 0
            invariant
                left <= hops@.len(),
                places == hops@.map_values(|i: usize| i as int),
                forall|i: int| 0 <= i < hops@.len() ==> #[trigger] hops@[i] < servers@.len(),
                jumps@.len() == hops@.len() - left,
                jump_ids@.len() == hops@.len() - left,
                forall|j: int|
                    0 <= j < jumps@.len() ==> #[trigger] jumps@[j] == endpoint_of(servers@[places.reverse()[j]]),
                forall|j: int|
                    0 <= j < jump_ids@.len() ==> #[trigger] jump_ids@[j] == servers@[places.reverse()[j]].id,
            decreases left,
        {
            left = left - 1;
            let hop = &servers[hops[left]];
            assert(places.reverse()[hops@.len() - 1 - left] == hops@[left as int]);
            jumps.push(Endpoint::from_entry(hop));
            jump_ids.push(hop.id);
        }
        assert(jumps@ =~= places.reverse().map_values(|i: int| endpoint_of(servers@[i])));
        assert(jump_ids@ =~= places.reverse().map_values(|i: int| servers@[i].id));
        Ok(
            Target {
                endpoint: Endpoint::from_entry(entry),
                jumps,
                jump_ids,
                remote_routes: collect_routes(&entry.forwards),
            },
        )
    }
}

/// Whether `hops` is a walk from `entry` outwards: each bastion is the jump
/// host of the one before it.
pub open spec fn is_walk(entry: ServerEntry, servers: Seq<ServerEntry>, hops: Seq<int>) -> bool {
    &&& forall|i: int| 0 <= i < hops.len() ==> 0 <= #[trigger] hops[i] < servers.len()
    &&& forall|i: int|
        0 <= i < hops.len() ==> (if i == 0 {
            entry.jump_host
        } else {
            servers[hops[i - 1]].jump_host
        }) == Some(servers[#[trigger] hops[i]].id)
    &&& forall|i: int| 0 <= i < hops.len() ==> servers[#[trigger] hops[i]].id != entry.id
    &&& forall|i: int, j: int|
        0 <= i < j < hops.len() ==> servers[#[trigger] hops[i]].id != servers[#[trigger] hops[j]].id
}

/// The server that a walk has come to.
pub open spec fn walk_end(entry: ServerEntry, servers: Seq<ServerEntry>, hops: Seq<int>) -> ServerEntry {
    if hops.len() == 0 {
        entry
    } else {
        servers[hops.last()]
    }
}

proof fn lemma_chain(entry: ServerEntry, servers: Seq<ServerEntry>, hops: Seq<int>)
    requires
        is_walk(entry, servers, hops),
        hops.len() <= MAX_JUMPS,
    ensures
        chain_from(entry, servers, walk_end(entry, servers, hops), hops) matches Ok(all) ==> {
            &&& is_walk(entry, servers, all)
            &&& all.len() <= MAX_JUMPS
            &&& walk_end(entry, servers, all).jump_host is None
        },
    decreases MAX_JUMPS + 1 - hops.len(),
{
    let at = walk_end(entry, servers, hops);
    if let Some(next) = at.jump_host {
        if !passed(entry, servers, hops, next) && has_server(servers, next) && hops.len() < MAX_JUMPS {
            lemma_server_index(servers, next);
            let place = server_index(servers, next);
            let more = hops.push(place);
            assert forall|i: int| 0 <= i < more.len() implies (if i == 0 {
                entry.jump_host
            } else {
                servers[more[i - 1]].jump_host
            }) == Some(servers[#[trigger] more[i]].id) by {
                if i < hops.len() {
                    assert(more[i] == hops[i]);
                    if i > 0 {
                        assert(more[i - 1] == hops[i - 1]);
                    }
                } else if i > 0 {
                    assert(more[i - 1] == hops.last());
                }
            }
            assert forall|i: int, j: int| 0 <= i < j < more.len() implies servers[#[trigger] more[i]].id
                != servers[#[trigger] more[j]].id by {
                assert(more[i] == hops[i]);
                if j < hops.len() {
                    assert(more[j] == hops[j]);
                } else {
                    assert(servers[hops[i]].id != next);
                }
            }
            assert forall|i: int| 0 <= i < more.len() implies servers[#[trigger] more[i]].id != entry.id by {
                if i < hops.len() {
                    assert(more[i] == hops[i]);
                }
            }
            lemma_chain(entry, servers, more);
        }
    }
}

/// A resolved chain leads from the destination outwards, jump host by jump
/// host, to a server that is reached directly. No server stands in it twice,
/// the destination not at all, and it has at most eight bastions.
pub proof fn a_resolved_chain_is_a_walk(entry: ServerEntry, servers: Seq<ServerEntry>)
    ensures
        chain(entry, servers) matches Ok(hops) ==> {
            &&& is_walk(entry, servers, hops)
            &&& hops.len() <= MAX_JUMPS
            &&& walk_end(entry, servers, hops).jump_host is None
        },
{
    lemma_chain(entry, servers, Seq::empty());
}

/// The hops and their ids are one list in two halves, and each hop carries the
/// fingerprint stored for it.
pub proof fn hops_and_ids_agree(target: Target, entry: ServerEntry, servers: Seq<ServerEntry>, hops: Seq<int>, i: int)
    requires
        leads_to(target, entry, servers, hops),
        0 <= i < hops.len(),
    ensures
        target.jumps@.len() == target.jump_ids@.len() == hops.len(),
        target.jump_ids@[i] == servers[hops[hops.len() - 1 - i]].id,
        target.jumps@[i].host_key_fingerprint == servers[hops[hops.len() - 1 - i]].host_key_fingerprint,
{
}

/// A server without a jump host is a direct connect.
pub proof fn no_jump_host_is_a_direct_connect(entry: ServerEntry, servers: Seq<ServerEntry>)
    requires
        entry.jump_host is None,
    ensures
        chain(entry, servers) == Ok::<Seq<int>, ErrorView>(Seq::empty()),
{
}

/// One hop of the way to a destination.
pub struct Hop<'a> {
    pub endpoint: &'a Endpoint,
    /// The hop whose session carries this one; the first is dialled directly.
    pub carrier: Option<usize>,
    /// A bastion gets no routes: a remote forward belongs to the destination.
    pub remote_routes: Vec<RemoteRoute>,
}

impl Target {
    /// The endpoint of a hop: the bastions, outermost first, and then the
    /// destination.
    pub open spec fn endpoint_at(self, i: int) -> Endpoint {
        if i < self.jumps@.len() {
            self.jumps@[i]
        } else {
            self.endpoint
        }
    }

    /// The hop at the place `i`, or `None` behind the destination.
    pub fn hop(&self, i: usize) -> (r: Option<Hop<'_>>)
        ensures
            match r {
                Some(hop) => {
                    &&& i <= self.jumps@.len()
                    &&& *hop.endpoint == self.endpoint_at(i as int)
                    &&& i < self.jumps@.len() ==> *hop.endpoint == self.jumps@[i as int]
                    &&& i == self.jumps@.len() ==> *hop.endpoint == self.endpoint
                    &&& hop.carrier == (if i == 0 {
                        None
                    } else {
                        Some((i - 1) as usize)
                    })
                    &&& hop.remote_routes@ == (if i < self.jumps@.len() {
                        Seq::empty()
                    } else {
                        self.remote_routes@
                    })
                },
                None => i > self.jumps@.len(),
            },
    {
        let carrier: Option<usize> = if i == 0 {
            None
        } else {
            Some(i - 1)
        };
        if i < self.jumps.len() {
            let none: Vec<RemoteRoute> = Vec::new();
            assert(none@ =~= Seq::<RemoteRoute>::empty());
            Some(Hop { endpoint: &self.jumps[i], carrier, remote_routes: none })
        } else if i == self.jumps.len() {
            Some(Hop { endpoint: &self.endpoint, carrier, remote_routes: copy_routes(&self.remote_routes) })
        } else {
            None
        }
    }

    /// What a failure at the hop `i` is reported as: a bastion is named.
    pub fn hop_failed(&self, i: usize, error: AppError) -> (r: AppError)
        ensures
            if i < self.jumps@.len() {
                r@ == (ErrorView::JumpFailed {
                    host: self.jumps@[i as int].host@,
                    source: Box::new(error@),
                })
            } else {
                r == error
            },
    {
        if i < self.jumps.len() {
            jump_failed(self.jumps[i].host.as_str(), error)
        } else {
            error
        }
    }
}

fn copy_routes(routes: &Vec<RemoteRoute>) -> (r: Vec<RemoteRoute>)
    ensures
        r@ == routes@,
{
    let mut out: Vec<RemoteRoute> = Vec::new();
    let mut i: usize = 0;
    while i < routes.len()
        invariant
            i <= routes@.len(),
            out@ == routes@.take(i as int),
        decreases routes@.len() - i,
    {
        out.push(routes[i].clone());
        i = i + 1;
        assert(out@ =~= routes@.take(i as int));
    }
    assert(routes@.take(i as int) =~= routes@);
    out
}

/// Says which bastion refused, so that a failure on the way does not read as
/// the destination rejecting the user.
pub fn jump_failed(host: &str, source: AppError) -> (r: AppError)
    ensures
        r@ == (ErrorView::JumpFailed { host: host@, source: Box::new(source@) }),
{
    AppError::JumpFailed { host: owned(host), source: Box::new(source) }
}

/// What a failed handshake is reported as: a host key that changed, where that
/// was the reason.
pub fn handshake_error(outcome: Option<&HostKeyOutcome>, error: AppError) -> (r: AppError)
    ensures
        match outcome {
            Some(HostKeyOutcome::Mismatch { actual, .. }) => r@ == (ErrorView::HostKeyChanged { fingerprint: actual@ }),
            _ => r == error,
        },
{
    match outcome {
        Some(HostKeyOutcome::Mismatch { actual, .. }) => AppError::HostKeyChanged { fingerprint: actual.clone() },
        _ => error,
    }
}

/// A resolved target dials what the servers themselves say: the destination's
/// host, port, user, login and stored fingerprint are the entry's own, and those
/// of each bastion are its server's own, the outermost bastion first.
pub proof fn every_hop_is_dialled_as_its_server_says(
    target: Target,
    entry: ServerEntry,
    servers: Seq<ServerEntry>,
    hops: Seq<int>,
    i: int,
)
    requires
        leads_to(target, entry, servers, hops),
        0 <= i < hops.len(),
    ensures
        target.endpoint.host == entry.host,
        target.endpoint.port == entry.port,
        target.endpoint.username == entry.username,
        target.endpoint.auth == entry.auth,
        target.endpoint.host_key_fingerprint == entry.host_key_fingerprint,
        target.jumps@.len() == hops.len(),
        target.jump_ids@.len() == hops.len(),
        target.jumps@[i].host == servers[hops[hops.len() - 1 - i]].host,
        target.jumps@[i].port == servers[hops[hops.len() - 1 - i]].port,
        target.jumps@[i].username == servers[hops[hops.len() - 1 - i]].username,
        target.jumps@[i].auth == servers[hops[hops.len() - 1 - i]].auth,
        target.jumps@[i].host_key_fingerprint == servers[hops[hops.len() - 1 - i]].host_key_fingerprint,
        target.jump_ids@[i] == servers[hops[hops.len() - 1 - i]].id,
{
}

/// The same of a direct connect, which has no bastion.
pub proof fn a_direct_connect_dials_the_entry(target: Target, entry: ServerEntry, servers: Seq<ServerEntry>)
    requires
        entry.jump_host is None,
        chain(entry, servers) matches Ok(hops) && leads_to(target, entry, servers, hops),
    ensures
        target.endpoint.host == entry.host,
        target.endpoint.port == entry.port,
        target.endpoint.username == entry.username,
        target.endpoint.auth == entry.auth,
        target.endpoint.host_key_fingerprint == entry.host_key_fingerprint,
        target.jumps@.len() == 0,
        target.jump_ids@.len() == 0,
{
}

/// What `Endpoint::from_entry` may return: an endpoint with the five parts of
/// the entry.
pub proof fn an_endpoint_is_its_entrys(entry: &ServerEntry, r: Endpoint)
    requires
        call_ensures(Endpoint::from_entry, (entry,), r),
    ensures
        r.host == entry.host,
        r.port == entry.port,
        r.username == entry.username,
        r.auth == entry.auth,
        r.host_key_fingerprint == entry.host_key_fingerprint,
{
}

/// The routes of two lists of rules, one behind the other, are the routes of
/// each, one behind the other.
pub proof fn routes_join(a: Seq<ForwardRule>, b: Seq<ForwardRule>)
    ensures
        routes_of(a + b) == routes_of(a) + routes_of(b),
    decreases b.len(),
{
    if b.len() == 0 {
        assert(a + b =~= a);
        assert(routes_of(a) + routes_of(b) =~= routes_of(a));
    } else {
        assert((a + b).drop_last() =~= a + b.drop_last());
        assert((a + b).last() == b.last());
        routes_join(a, b.drop_last());
        assert(routes_of(a + b) =~= routes_of(a) + routes_of(b));
    }
}

/// Whether a route is the one that a remote rule asks for, in all four parts.
pub open spec fn carries_out(route: RemoteRoute, rule: ForwardRule) -> bool {
    rule.enabled && (rule.kind matches ForwardKind::Remote { bind_addr, bind_port, dest_host, dest_port } && {
        &&& route.bind_addr == bind_addr
        &&& route.bind_port == bind_port
        &&& route.dest_host == dest_host
        &&& route.dest_port == dest_port
    })
}

/// A remote rule that is turned on has one route, with its four parts; a rule of
/// another kind, or one that is turned off, has none.
pub proof fn a_rule_has_its_own_route(rule: ForwardRule)
    ensures
        rule.enabled && rule.kind is Remote ==> routes_of(seq![rule]).len() == 1 && carries_out(
            routes_of(seq![rule])[0],
            rule,
        ),
        !rule.enabled || !(rule.kind is Remote) ==> routes_of(seq![rule]).len() == 0,
{
    assert(seq![rule].drop_last() =~= Seq::empty());
    assert(routes_of(Seq::<ForwardRule>::empty()) =~= Seq::empty());
}

/// Every remote rule that is turned on has a route.
pub proof fn every_remote_rule_has_a_route(forwards: Seq<ForwardRule>, i: int)
    requires
        0 <= i < forwards.len(),
        forwards[i].enabled,
        forwards[i].kind is Remote,
    ensures
        exists|k: int| 0 <= k < routes_of(forwards).len() && carries_out(#[trigger] routes_of(forwards)[k], forwards[i]),
{
    let front = forwards.take(i);
    let rest = forwards.skip(i + 1);
    let one = seq![forwards[i]];
    assert(forwards =~= front + one + rest);
    routes_join(front + one, rest);
    routes_join(front, one);
    a_rule_has_its_own_route(forwards[i]);
    let k = routes_of(front).len() as int;
    assert(routes_of(forwards)[k] == routes_of(one)[0]);
}

/// There are no other routes.
pub proof fn every_route_has_a_remote_rule(forwards: Seq<ForwardRule>, k: int)
    requires
        0 <= k < routes_of(forwards).len(),
    ensures
        exists|i: int| 0 <= i < forwards.len() && carries_out(routes_of(forwards)[k], #[trigger] forwards[i]),
    decreases forwards.len(),
{
    let front = forwards.drop_last();
    let before = routes_of(front);
    if k < before.len() {
        every_route_has_a_remote_rule(front, k);
        let i = choose|i: int| 0 <= i < front.len() && carries_out(before[k], #[trigger] front[i]);
        assert(routes_of(forwards)[k] == before[k]);
        assert(forwards[i] == front[i]);
    } else {
        assert(carries_out(routes_of(forwards)[k], forwards[forwards.len() - 1]));
    }
}

/// Why a walk that has come to `at` goes no further: it would come back to a
/// server it has passed, the next server is not there, or it is eight bastions
/// long already.
pub open spec fn stuck(entry: ServerEntry, servers: Seq<ServerEntry>, hops: Seq<int>, e: ErrorView) -> bool {
    let at = walk_end(entry, servers, hops);
    at.jump_host matches Some(next) && {
        let again = next == entry.id || exists|i: int| 0 <= i < hops.len() && servers[#[trigger] hops[i]].id == next;
        let there = exists|k: int| 0 <= k < servers.len() && (#[trigger] servers[k]).id == next;
        if again {
            e == ErrorView::Validation(
                "'"@ + entry.name@ + "' is reached through a jump chain that loops back on itself"@,
            )
        } else if !there {
            e == ErrorView::Validation("'"@ + at.name@ + "' is set to connect through a server that no longer exists"@)
        } else {
            hops.len() == 8 && e == ErrorView::Validation(
                "'"@ + entry.name@ + ("' is behind more than "@ + decimal(8) + " jump hosts"@),
            )
        }
    }
}

proof fn lemma_stuck(entry: ServerEntry, servers: Seq<ServerEntry>, hops: Seq<int>)
    requires
        is_walk(entry, servers, hops),
        hops.len() <= 8,
    ensures
        chain_from(entry, servers, walk_end(entry, servers, hops), hops) matches Err(e) ==> exists|all: Seq<int>|
            is_walk(entry, servers, all) && all.len() <= 8 && #[trigger] stuck(entry, servers, all, e),
    decreases 9 - hops.len(),
{
    let at = walk_end(entry, servers, hops);
    if let Some(next) = at.jump_host {
        lemma_server_index(servers, next);
        if !passed(entry, servers, hops, next) && has_server(servers, next) && hops.len() < 8 {
            lemma_walk_on(entry, servers, hops, next, server_index(servers, next));
            lemma_stuck(entry, servers, hops.push(server_index(servers, next)));
        } else if let Err(e) = chain_from(entry, servers, at, hops) {
            assert(stuck(entry, servers, hops, e));
        }
    }
}

#[verifier::spinoff_prover]
#[verifier::rlimit(40)]
proof fn lemma_walk_on(entry: ServerEntry, servers: Seq<ServerEntry>, hops: Seq<int>, next: Uuid, place: int)
    requires
        is_walk(entry, servers, hops),
        walk_end(entry, servers, hops).jump_host == Some(next),
        0 <= place < servers.len(),
        servers[place].id == next,
        next != entry.id,
        forall|i: int| 0 <= i < hops.len() ==> servers[#[trigger] hops[i]].id != next,
    ensures
        is_walk(entry, servers, hops.push(place)),
{
    let more = hops.push(place);
    assert(forall|i: int| 0 <= i < hops.len() ==> #[trigger] more[i] == hops[i]);
    assert forall|i: int| 0 <= i < more.len() implies (if i == 0 {
        entry.jump_host
    } else {
        servers[more[i - 1]].jump_host
    }) == Some(servers[#[trigger] more[i]].id) by {
        if i < hops.len() {
            assert(more[i] == hops[i]);
            if i > 0 {
                assert(more[i - 1] == hops[i - 1]);
            }
        } else if i > 0 {
            assert(more[i - 1] == hops.last());
        }
    }
}

/// A chain is refused only where the walk along the jump hosts gets stuck, and
/// for that reason: it loops, the next server is gone, or there are more than
/// eight bastions. A walk that ends at a server without a jump host never gets
/// stuck, so every chain that can be walked in eight steps is resolved.
pub proof fn a_refused_chain_is_stuck(entry: ServerEntry, servers: Seq<ServerEntry>)
    ensures
        chain(entry, servers) matches Err(e) ==> exists|hops: Seq<int>|
            is_walk(entry, servers, hops) && hops.len() <= 8 && #[trigger] stuck(entry, servers, hops, e),
        chain(entry, servers) matches Ok(hops) ==> hops.len() <= 8,
{
    lemma_stuck(entry, servers, Seq::empty());
    lemma_chain(entry, servers, Seq::empty());
}

/// A server may stand behind eight others.
pub proof fn a_chain_has_eight_bastions_at_most()
    ensures
        MAX_JUMPS == 8,
{
}

/// A target takes the routes of its entry with it: one for every remote rule that
/// is turned on, and no other.
pub proof fn a_target_has_its_entrys_routes(
    target: Target,
    entry: ServerEntry,
    servers: Seq<ServerEntry>,
    hops: Seq<int>,
    i: int,
    k: int,
)
    requires
        leads_to(target, entry, servers, hops),
    ensures
        0 <= i < entry.forwards@.len() && entry.forwards@[i].enabled && entry.forwards@[i].kind is Remote ==> exists|
            j: int,
        |
            0 <= j < target.remote_routes@.len() && carries_out(#[trigger] target.remote_routes@[j], entry.forwards@[i]),
        0 <= k < target.remote_routes@.len() ==> exists|j: int|
            0 <= j < entry.forwards@.len() && carries_out(target.remote_routes@[k], #[trigger] entry.forwards@[j]),
{
    if 0 <= i < entry.forwards@.len() && entry.forwards@[i].enabled && entry.forwards@[i].kind is Remote {
        every_remote_rule_has_a_route(entry.forwards@, i);
    }
    if 0 <= k < target.remote_routes@.len() {
        every_route_has_a_remote_rule(entry.forwards@, k);
    }
}

/// The hops of a target are its bastions in order and then itself, each carried by
/// the one before; only the last has the routes, and a failure on the way names
/// the bastion it came from.
pub proof fn each_hop_is_carried_by_the_one_before(
    target: Target,
    i: usize,
    hop: Option<Hop<'_>>,
    error: AppError,
    told: AppError,
)
    requires
        call_ensures(Target::hop, (&target, i), hop),
        call_ensures(Target::hop_failed, (&target, i, error), told),
    ensures
        hop is Some <==> i <= target.jumps@.len(),
        hop matches Some(h) ==> (i < target.jumps@.len() ==> *h.endpoint == target.jumps@[i as int]
            && h.remote_routes@.len() == 0),
        hop matches Some(h) ==> (i == target.jumps@.len() ==> *h.endpoint == target.endpoint && h.remote_routes@
            == target.remote_routes@),
        hop matches Some(h) ==> (i == 0 ==> h.carrier is None) && (i > 0 ==> h.carrier == Some((i - 1) as usize)),
        i < target.jumps@.len() ==> (told@ matches ErrorView::JumpFailed { host, .. } && host
            == target.jumps@[i as int].host@),
        i >= target.jumps@.len() ==> told == error,
{
}

} // verus!
