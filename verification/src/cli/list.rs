//! Listing the servers.
//!
//! Two forms: aligned columns for a person, a single tab between fields for a
//! pipe.
use vstd::prelude::*;
use vstd::slice::slice_subrange;

use crate::config::model::{ServerEntry, ServerSort};
use crate::text::{
    chars_of, decimal, join, joined, lemma_text_order_chain, lemma_text_order_equal, lemma_text_order_flips, lowercase,
    order_texts, push_decimal, space, text_of, text_order, texts, to_lowercase, trim_end,
};

verus! {

/// What is listed of a server: never a credential, and not the fingerprint of
/// its host key either.
#[verifier::ext_equal]
pub struct Listed {
    pub name: Seq<char>,
    pub username: Seq<char>,
    pub host: Seq<char>,
    pub port: u16,
    pub tags: Seq<Seq<char>>,
    pub last_connected: Option<u64>,
}

/// What is listed of a server.
pub open spec fn listed(e: ServerEntry) -> Listed {
    Listed {
        name: e.name@,
        username: e.username@,
        host: e.host@,
        port: e.port,
        tags: texts(e.tags@),
        last_connected: e.last_connected_unix,
    }
}

/// What is listed of these servers.
pub open spec fn all_listed(servers: Seq<ServerEntry>) -> Seq<Listed> {
    servers.map_values(|e: ServerEntry| listed(e))
}

/// What a server is ordered by: a rank, then a tag, then its name.
#[verifier::ext_equal]
pub struct SortKey {
    pub rank: int,
    pub tag: Seq<char>,
    pub name: Seq<char>,
}

impl Listed {
    /// What this server is ordered by. Without a tag it comes behind the tagged
    /// ones; never connected it comes behind the connected ones; the rest is
    /// settled by the name.
    pub open spec fn key(self, sort: ServerSort) -> SortKey {
        let name = lowercase(self.name);
        match sort {
            ServerSort::Name => SortKey { rank: 0, tag: Seq::empty(), name },
            ServerSort::Tag => if self.tags.len() == 0 {
                SortKey { rank: 1, tag: Seq::empty(), name }
            } else {
                SortKey { rank: 0, tag: lowercase(self.tags[0]), name }
            },
            ServerSort::LastConnected => SortKey {
                rank: match self.last_connected {
                    Some(t) => u64::MAX - t,
                    None => u64::MAX + 1,
                },
                tag: Seq::empty(),
                name,
            },
        }
    }

    /// The three columns.
    pub open spec fn row(self) -> (Seq<char>, Seq<char>, Seq<char>) {
        (
            self.name,
            self.username + "@"@ + self.host + ":"@ + decimal(self.port as nat),
            joined(self.tags, ","@),
        )
    }
}

impl SortKey {
    /// Whether this key comes before the other.
    pub open spec fn before(self, other: SortKey) -> bool {
        ||| self.rank < other.rank
        ||| self.rank == other.rank && text_order(self.tag, other.tag) < 0
        ||| self.rank == other.rank && self.tag == other.tag && text_order(self.name, other.name) < 0
    }
}

/// Where a server at `place` comes among `order`: behind every one that it does
/// not come before.
pub open spec fn insert_at(order: Seq<int>, keys: Seq<SortKey>, place: int, at: int) -> int
    decreases at,
{
    if at > 0 && keys[place].before(keys[order[at - 1]]) {
        insert_at(order, keys, place, at - 1)
    } else {
        at
    }
}

/// The first `n` places in the order of their keys, those of equal keys as they
/// stand.
pub open spec fn ordered_places(keys: Seq<SortKey>, n: nat) -> Seq<int>
    decreases n,
{
    if n == 0 {
        Seq::empty()
    } else {
        let front = ordered_places(keys, (n - 1) as nat);
        front.insert(insert_at(front, keys, n - 1, front.len() as int), n - 1)
    }
}

/// The keys of these servers.
pub open spec fn keys_of(all: Seq<Listed>, sort: ServerSort) -> Seq<SortKey> {
    all.map_values(|l: Listed| l.key(sort))
}

/// The order in which servers are listed, by their places.
pub open spec fn list_order(all: Seq<Listed>, sort: ServerSort) -> Seq<int> {
    ordered_places(keys_of(all, sort), all.len())
}

/// `n` spaces.
pub open spec fn blanks(n: int) -> Seq<char> {
    Seq::new(
        if n > 0 {
            n as nat
        } else {
            0
        },
        |i: int| ' ',
    )
}

/// The widest of the first columns, and of the second ones.
pub open spec fn width0(rows: Seq<Listed>) -> int
    decreases rows.len(),
{
    if rows.len() == 0 {
        0
    } else {
        let w = width0(rows.drop_last());
        let n = rows.last().row().0.len();
        if n > w {
            n as int
        } else {
            w
        }
    }
}

pub open spec fn width1(rows: Seq<Listed>) -> int
    decreases rows.len(),
{
    if rows.len() == 0 {
        0
    } else {
        let w = width1(rows.drop_last());
        let n = rows.last().row().1.len();
        if n > w {
            n as int
        } else {
            w
        }
    }
}

/// A line for a pipe: three fields with a tab between them.
pub open spec fn tab_line(l: Listed) -> Seq<char> {
    l.row().0 + "\t"@ + l.row().1 + "\t"@ + l.row().2 + "\n"@
}

/// A line for a person: columns of one width, and no blanks at its end.
pub open spec fn column_line(l: Listed, w0: int, w1: int) -> Seq<char> {
    let (a, b, c) = l.row();
    trim_end(a + blanks(w0 - a.len()) + "  "@ + b + blanks(w1 - b.len()) + "  "@ + c) + "\n"@
}

/// The lines of these rows.
pub open spec fn lines_of(rows: Seq<Listed>, aligned: bool, w0: int, w1: int) -> Seq<char>
    decreases rows.len(),
{
    if rows.len() == 0 {
        Seq::empty()
    } else {
        lines_of(rows.drop_last(), aligned, w0, w1) + (if aligned {
            column_line(rows.last(), w0, w1)
        } else {
            tab_line(rows.last())
        })
    }
}

/// The whole listing.
pub open spec fn rendered(all: Seq<Listed>, sort: ServerSort, aligned: bool) -> Seq<char> {
    let rows = list_order(all, sort).map_values(|i: int| all[i]);
    lines_of(rows, aligned, width0(rows), width1(rows))
}

/// A computed sort key.
struct Key {
    rank: u128,
    tag: Vec<char>,
    name: Vec<char>,
}

impl View for Key {
    type V = SortKey;

    closed spec fn view(&self) -> SortKey {
        SortKey { rank: self.rank as int, tag: self.tag@, name: self.name@ }
    }
}

fn key_of(e: &ServerEntry, sort: ServerSort) -> (r: Key)
    ensures
        r@ == listed(*e).key(sort),
{
    let name = chars_of(to_lowercase(e.name.as_str()).as_str());
    let mut tag: Vec<char> = Vec::new();
    let mut rank: u128 = 0;
    match sort {
        ServerSort::Name => {},
        ServerSort::Tag => {
            assert(listed(*e).tags.len() == e.tags@.len());
            if e.tags.len() == 0 {
                rank = 1;
            } else {
                tag = chars_of(to_lowercase(e.tags[0].as_str()).as_str());
            }
        },
        ServerSort::LastConnected => {
            rank = match e.last_connected_unix {
                Some(t) => (u64::MAX - t) as u128,
                None => u64::MAX as u128 + 1,
            };
        },
    }
    assert(tag@.len() == 0 ==> tag@ =~= Seq::<char>::empty());
    Key { rank, tag, name }
}

fn comes_before(a: &Key, b: &Key) -> (r: bool)
    ensures
        r == a@.before(b@),
{
    if a.rank != b.rank {
        return a.rank < b.rank;
    }
    proof {
        lemma_text_order_equal(a.tag@, b.tag@);
        lemma_text_order_flips(a.tag@, b.tag@);
    }
    let tags: i8 = order_texts(&a.tag, &b.tag);
    if tags != 0 {
        return tags < 0;
    }
    order_texts(&a.name, &b.name) < 0
}

/// Servers in display order, by their places.
pub fn ordered(servers: &[ServerEntry], sort: ServerSort) -> (r: Vec<usize>)
    ensures
        r@.map_values(|i: usize| i as int) == list_order(all_listed(servers@), sort),
        forall|i: int| 0 <= i < r@.len() ==> #[trigger] r@[i] < servers@.len(),
        r@.len() == servers@.len(),
{
    let ghost keys = keys_of(all_listed(servers@), sort);
    let mut computed: Vec<Key> = Vec::new();
    let mut order: Vec<usize> = Vec::new();
    let mut n: usize = 0;
    assert(order@.map_values(|i: usize| i as int) =~= Seq::<int>::empty());
    while n < servers.len()
        invariant
            n <= servers@.len(),
            keys == keys_of(all_listed(servers@), sort),
            computed@.len() == n,
            forall|j: int| 0 <= j < n ==> (#[trigger] computed@[j])@ == keys[j],
            order@.len() == n,
            forall|j: int| 0 <= j < n ==> #[trigger] order@[j] < n,
            order@.map_values(|i: usize| i as int) == ordered_places(keys, n as nat),
        decreases servers@.len() - n,
    {
        let key = key_of(&servers[n], sort);
        assert(key@ == keys[n as int]);
        let ghost front = ordered_places(keys, n as nat);
        let mut at: usize = n;
        while at > 0 && comes_before(&key, &computed[order[at - 1]])
            invariant
                at <= n,
                n < servers@.len(),
                keys == keys_of(all_listed(servers@), sort),
                key@ == keys[n as int],
                computed@.len() == n,
                forall|j: int| 0 <= j < n ==> (#[trigger] computed@[j])@ == keys[j],
                order@.len() == n,
                forall|j: int| 0 <= j < n ==> #[trigger] order@[j] < n,
                front == order@.map_values(|i: usize| i as int),
                insert_at(front, keys, n as int, n as int) == insert_at(front, keys, n as int, at as int),
            decreases at,
        {
            at = at - 1;
        }
        let ghost before = order@;
        order.insert(at, n);
        computed.push(key);
        proof {
            assert(order@.map_values(|i: usize| i as int) =~= front.insert(at as int, n as int));
            assert forall|j: int| 0 <= j < n + 1 implies #[trigger] order@[j] < n + 1 by {
                if j < at {
                    assert(order@[j] == before[j]);
                } else if j > at {
                    assert(order@[j] == before[j - 1]);
                }
            }
        }
        n = n + 1;
    }
    order
}

/// The three columns of a server.
fn row(e: &ServerEntry) -> (r: (String, String, String))
    ensures
        (r.0@, r.1@, r.2@) == listed(*e).row(),
{
    let mut address = e.username.clone();
    address.push_str("@");
    address.push_str(e.host.as_str());
    address.push_str(":");
    push_decimal(&mut address, e.port as u64);
    (e.name.clone(), address, join(&e.tags, ","))
}

/// Appends blanks up to a width.
fn pad(out: &mut String, used: usize, width: usize)
    ensures
        final(out)@ == old(out)@ + blanks(width - used),
{
    let mut n: usize = used;
    assert(old(out)@ + blanks(0) =~= old(out)@);
    while n < width
        invariant
            used <= n <= width || n == used,
            out@ == old(out)@ + blanks(n - used),
        decreases width - n,
    {
        out.push(' ');
        n = n + 1;
        assert(out@ =~= old(out)@ + blanks(n - used));
    }
    assert(blanks(n - used) =~= blanks(width - used));
}

/// `v` without the whitespace at its end.
fn without_trailing(v: &[char]) -> (r: &[char])
    ensures
        r@ == trim_end(v@),
{
    let mut to: usize = v.len();
    assert(v@.subrange(0, v@.len() as int) =~= v@);
    while to > 0 && space(v[to - 1])
        invariant
            to <= v@.len(),
            trim_end(v@) == trim_end(v@.subrange(0, to as int)),
        decreases to,
    {
        assert(v@.subrange(0, to as int).drop_last() =~= v@.subrange(0, to - 1));
        to = to - 1;
    }
    slice_subrange(v, 0, to)
}

/// The whole output, ready to print. Widths are counted in characters, and the
/// last column is never padded.
pub fn render(servers: &[ServerEntry], sort: ServerSort, aligned: bool) -> (r: String)
    ensures
        r@ == rendered(all_listed(servers@), sort, aligned),
{
    let order = ordered(servers, sort);
    let ghost all = all_listed(servers@);
    let ghost rows = list_order(all, sort).map_values(|i: int| all[i]);
    let mut w0: usize = 0;
    let mut w1: usize = 0;
    let mut i: usize = 0;
    while i < order.len()
        invariant
            i <= order@.len(),
            order@.len() == servers@.len(),
            all == all_listed(servers@),
            order@.map_values(|i: usize| i as int) == list_order(all, sort),
            rows == list_order(all, sort).map_values(|i: int| all[i]),
            forall|j: int| 0 <= j < order@.len() ==> #[trigger] order@[j] < servers@.len(),
            w0 == width0(rows.take(i as int)),
            w1 == width1(rows.take(i as int)),
        decreases order@.len() - i,
    {
        let (a, b, _) = row(&servers[order[i]]);
        assert(rows.take(i + 1).drop_last() =~= rows.take(i as int));
        assert(list_order(all, sort)[i as int] == order@[i as int]);
        assert(rows.take(i + 1).last() == listed(servers@[order@[i as int] as int]));
        let na: usize = chars_of(a.as_str()).len();
        let nb: usize = chars_of(b.as_str()).len();
        if na > w0 {
            w0 = na;
        }
        if nb > w1 {
            w1 = nb;
        }
        i = i + 1;
    }
    assert(rows.take(rows.len() as int) =~= rows);
    let mut out = String::new();
    i = 0;
    while i < order.len()
        invariant
            i <= order@.len(),
            order@.len() == servers@.len(),
            all == all_listed(servers@),
            order@.map_values(|i: usize| i as int) == list_order(all, sort),
            rows == list_order(all, sort).map_values(|i: int| all[i]),
            forall|j: int| 0 <= j < order@.len() ==> #[trigger] order@[j] < servers@.len(),
            w0 == width0(rows),
            w1 == width1(rows),
            out@ == lines_of(rows.take(i as int), aligned, w0 as int, w1 as int),
        decreases order@.len() - i,
    {
        let (a, b, c) = row(&servers[order[i]]);
        assert(rows.take(i + 1).drop_last() =~= rows.take(i as int));
        assert(list_order(all, sort)[i as int] == order@[i as int]);
        assert(rows.take(i + 1).last() == listed(servers@[order@[i as int] as int]));
        let na: usize = chars_of(a.as_str()).len();
        let nb: usize = chars_of(b.as_str()).len();
        let mut line = a;
        if aligned {
            pad(&mut line, na, w0);
            line.push_str("  ");
            line.push_str(b.as_str());
            pad(&mut line, nb, w1);
            line.push_str("  ");
            line.push_str(c.as_str());
            line = text_of(without_trailing(&chars_of(line.as_str())));
        } else {
            line.push_str("\t");
            line.push_str(b.as_str());
            line.push_str("\t");
            line.push_str(c.as_str());
        }
        line.push_str("\n");
        out.push_str(line.as_str());
        i = i + 1;
    }
    out
}

proof fn lemma_before_chain(a: SortKey, b: SortKey, c: SortKey)
    requires
        !b.before(a),
        !c.before(b),
    ensures
        !c.before(a),
{
    lemma_text_order_flips(a.tag, b.tag);
    lemma_text_order_flips(b.tag, c.tag);
    lemma_text_order_flips(a.tag, c.tag);
    lemma_text_order_flips(a.name, b.name);
    lemma_text_order_flips(b.name, c.name);
    lemma_text_order_flips(a.name, c.name);
    lemma_text_order_equal(a.tag, b.tag);
    lemma_text_order_equal(b.tag, c.tag);
    lemma_text_order_equal(a.tag, c.tag);
    if a.rank == b.rank && b.rank == c.rank {
        lemma_text_order_chain(a.tag, b.tag, c.tag);
        if a.tag == b.tag && b.tag == c.tag {
            lemma_text_order_chain(a.name, b.name, c.name);
        }
    }
}

/// Whether the places stand in the order of their keys, and those of equal keys
/// in their own order.
pub open spec fn in_order(order: Seq<int>, keys: Seq<SortKey>) -> bool {
    forall|i: int, j: int|
        0 <= i < j < order.len() ==> !keys[#[trigger] order[j]].before(keys[#[trigger] order[i]]) && (!keys[order[i]].before(
            keys[order[j]],
        ) ==> order[i] < order[j])
}

proof fn lemma_insert_at(order: Seq<int>, keys: Seq<SortKey>, place: int, at: int)
    requires
        0 <= at <= order.len(),
        forall|i: int| at <= i < order.len() ==> keys[place].before(keys[#[trigger] order[i]]),
    ensures
        ({
            let p = insert_at(order, keys, place, at);
            &&& 0 <= p <= at
            &&& p > 0 ==> !keys[place].before(keys[order[p - 1]])
            &&& forall|i: int| p <= i < order.len() ==> keys[place].before(keys[#[trigger] order[i]])
        }),
    decreases at,
{
    if at > 0 && keys[place].before(keys[order[at - 1]]) {
        lemma_insert_at(order, keys, place, at - 1);
    }
}

proof fn lemma_not_both(a: SortKey, b: SortKey)
    ensures
        !(a.before(b) && b.before(a)),
{
    lemma_text_order_flips(a.tag, b.tag);
    lemma_text_order_flips(a.name, b.name);
    lemma_text_order_equal(a.tag, b.tag);
}

proof fn lemma_ordered_places(keys: Seq<SortKey>, n: nat)
    requires
        n <= keys.len(),
    ensures
        ordered_places(keys, n).len() == n,
        in_order(ordered_places(keys, n), keys),
        forall|i: int| 0 <= i < n ==> 0 <= (#[trigger] ordered_places(keys, n)[i]) < n,
        forall|p: int| 0 <= p < n ==> #[trigger] ordered_places(keys, n).contains(p),
    decreases n,
{
    if n > 0 {
        let front = ordered_places(keys, (n - 1) as nat);
        let place = n - 1;
        lemma_ordered_places(keys, (n - 1) as nat);
        lemma_insert_at(front, keys, place, front.len() as int);
        let at = insert_at(front, keys, place, front.len() as int);
        let order = front.insert(at, place);
        assert(order == ordered_places(keys, n));
        assert forall|i: int, j: int| 0 <= i < j < order.len() implies !keys[#[trigger] order[j]].before(
            keys[#[trigger] order[i]],
        ) && (!keys[order[i]].before(keys[order[j]]) ==> order[i] < order[j]) by {
            let a = if i < at { i } else { i - 1 };
            let b = if j < at { j } else { j - 1 };
            if i != at {
                assert(order[i] == front[a]);
            }
            if j != at {
                assert(order[j] == front[b]);
            }
            if i == at {
                assert(keys[place].before(keys[front[b]]));
                lemma_not_both(keys[place], keys[front[b]]);
            } else if j == at {
                assert(!keys[place].before(keys[front[at - 1]]));
                if a < at - 1 {
                    assert(!keys[front[at - 1]].before(keys[front[a]]));
                    lemma_before_chain(keys[front[a]], keys[front[at - 1]], keys[place]);
                }
            } else {
                assert(a < b);
            }
        }
        assert forall|i: int| 0 <= i < n implies 0 <= (#[trigger] order[i]) < n by {
            if i < at {
                assert(order[i] == front[i]);
            } else if i > at {
                assert(order[i] == front[i - 1]);
            }
        }
        assert forall|p: int| 0 <= p < n implies #[trigger] order.contains(p) by {
            if p == place {
                assert(order[at] == place);
            } else {
                assert(front.contains(p));
                let k = choose|k: int| 0 <= k < front.len() && front[k] == p;
                if k < at {
                    assert(order[k] == p);
                } else {
                    assert(order[k + 1] == p);
                }
            }
        }
    }
}

/// The listing shows every server exactly once, in the order of its keys; where
/// nothing tells two apart they stay as they stand in the vault, so two runs
/// give the same order.
pub proof fn the_order_is_stable_and_complete(all: Seq<Listed>, sort: ServerSort)
    ensures
        list_order(all, sort).len() == all.len(),
        in_order(list_order(all, sort), keys_of(all, sort)),
        forall|p: int| 0 <= p < all.len() ==> #[trigger] list_order(all, sort).contains(p),
{
    lemma_ordered_places(keys_of(all, sort), all.len());
}

/// Nothing reaches the output but the name, the address and the tags: two
/// vaults that agree on those, and on when each server was last reached, are
/// listed the same, whatever credentials they hold.
pub proof fn a_credential_never_reaches_the_output(
    a: Seq<ServerEntry>,
    b: Seq<ServerEntry>,
    sort: ServerSort,
    aligned: bool,
)
    requires
        a.len() == b.len(),
        forall|i: int| 0 <= i < a.len() ==> listed(#[trigger] a[i]) == listed(b[i]),
    ensures
        rendered(all_listed(a), sort, aligned) == rendered(all_listed(b), sort, aligned),
{
    assert(all_listed(a) =~= all_listed(b));
}

/// By name, servers are ordered by their names without regard to case.
pub proof fn names_are_ordered_without_case(a: Listed, b: Listed)
    ensures
        a.key(ServerSort::Name).before(b.key(ServerSort::Name)) <==> text_order(lowercase(a.name), lowercase(b.name)) < 0,
{
    crate::text::lemma_text_order_equal(Seq::empty(), Seq::empty());
}

/// By tag, servers with a tag come first, ordered by their first one and then by
/// name; those without come behind, by name.
pub proof fn tagged_servers_come_first(a: Listed, b: Listed)
    ensures
        ({
            let first = a.key(ServerSort::Tag).before(b.key(ServerSort::Tag));
            let by_name = text_order(lowercase(a.name), lowercase(b.name)) < 0;
            &&& a.tags.len() > 0 && b.tags.len() == 0 ==> first
            &&& a.tags.len() == 0 && b.tags.len() > 0 ==> !first
            &&& a.tags.len() == 0 && b.tags.len() == 0 ==> (first <==> by_name)
            &&& a.tags.len() > 0 && b.tags.len() > 0 && lowercase(a.tags[0]) == lowercase(b.tags[0]) ==> (first
                <==> by_name)
            &&& a.tags.len() > 0 && b.tags.len() > 0 && lowercase(a.tags[0]) != lowercase(b.tags[0]) ==> (first
                <==> text_order(lowercase(a.tags[0]), lowercase(b.tags[0])) < 0)
        }),
{
    crate::text::lemma_text_order_equal(Seq::empty(), Seq::empty());
    if a.tags.len() > 0 && b.tags.len() > 0 {
        crate::text::lemma_text_order_equal(lowercase(a.tags[0]), lowercase(b.tags[0]));
    }
}

/// By the last connection, the latest comes first and what was never connected to
/// comes last; what is left is settled by name.
pub proof fn the_latest_connection_comes_first(a: Listed, b: Listed)
    ensures
        ({
            let first = a.key(ServerSort::LastConnected).before(b.key(ServerSort::LastConnected));
            let by_name = text_order(lowercase(a.name), lowercase(b.name)) < 0;
            &&& a.last_connected matches Some(t) ==> (b.last_connected matches Some(u) ==> (t > u ==> first))
            &&& a.last_connected matches Some(t) ==> (b.last_connected matches Some(u) ==> (t < u ==> !first))
            &&& a.last_connected is Some && b.last_connected is None ==> first
            &&& a.last_connected is None && b.last_connected is Some ==> !first
            &&& a.last_connected == b.last_connected ==> (first <==> by_name)
        }),
{
    crate::text::lemma_text_order_equal(Seq::empty(), Seq::empty());
}

/// What is listed of a server is its own name, user, host, port, tags and last
/// connection.
pub proof fn a_listed_server_is_the_entry(e: ServerEntry)
    ensures
        listed(e).name == e.name@,
        listed(e).username == e.username@,
        listed(e).host == e.host@,
        listed(e).port == e.port,
        listed(e).tags.len() == e.tags@.len(),
        forall|i: int| 0 <= i < e.tags@.len() ==> #[trigger] listed(e).tags[i] == e.tags@[i]@,
        listed(e).last_connected == e.last_connected_unix,
{
}

/// A line for a pipe is the name, the address as user, host and port, and the
/// tags, with a tab between each two.
pub proof fn a_piped_line_has_three_fields(l: Listed)
    ensures
        tab_line(l) == l.name + "\t"@ + (l.username + "@"@ + l.host + ":"@ + decimal(l.port as nat)) + "\t"@ + joined(
            l.tags,
            ","@,
        ) + "\n"@,
{
}

/// A column is as wide as its widest entry.
pub proof fn a_column_holds_its_widest_entry(rows: Seq<Listed>)
    ensures
        forall|i: int| 0 <= i < rows.len() ==> (#[trigger] rows[i]).name.len() <= width0(rows),
        forall|i: int| 0 <= i < rows.len() ==> (#[trigger] rows[i]).row().1.len() <= width1(rows),
        rows.len() > 0 ==> exists|i: int| 0 <= i < rows.len() && (#[trigger] rows[i]).name.len() == width0(rows),
        rows.len() > 0 ==> exists|i: int| 0 <= i < rows.len() && (#[trigger] rows[i]).row().1.len() == width1(rows),
        rows.len() == 0 ==> width0(rows) == 0 && width1(rows) == 0,
    decreases rows.len(),
{
    if rows.len() > 0 {
        let front = rows.drop_last();
        let n = front.len() as int;
        a_column_holds_its_widest_entry(front);
        assert forall|i: int| 0 <= i < rows.len() implies (#[trigger] rows[i]).name.len() <= width0(rows) by {
            if i < n {
                assert(front[i] == rows[i]);
            }
        }
        assert forall|i: int| 0 <= i < rows.len() implies (#[trigger] rows[i]).row().1.len() <= width1(rows) by {
            if i < n {
                assert(front[i] == rows[i]);
            }
        }
        if width0(rows) > width0(front) || n == 0 {
            assert(rows[n].name.len() == width0(rows));
        } else {
            let i = choose|i: int| 0 <= i < front.len() && (#[trigger] front[i]).name.len() == width0(front);
            assert(rows[i].name.len() == width0(rows));
        }
        if width1(rows) > width1(front) || n == 0 {
            assert(rows[n].row().1.len() == width1(rows));
        } else {
            let i = choose|i: int| 0 <= i < front.len() && (#[trigger] front[i]).row().1.len() == width1(front);
            assert(rows[i].row().1.len() == width1(rows));
        }
    }
}

/// A line for a person has the name first, the address two blanks behind the
/// widest name, and the tags two blanks behind the widest address.
pub proof fn a_line_stands_in_columns(l: Listed, w0: int, w1: int)
    requires
        l.name.len() <= w0,
        l.row().1.len() <= w1,
        joined(l.tags, ","@).len() > 0,
        !crate::text::is_space(joined(l.tags, ","@).last()),
    ensures
        ({
            let line = column_line(l, w0, w1);
            let tags = joined(l.tags, ","@);
            &&& line.len() == w0 + 2 + w1 + 2 + tags.len() + 1
            &&& line.take(l.name.len() as int) == l.name
            &&& line.subrange(w0 + 2, w0 + 2 + l.row().1.len()) == l.username + "@"@ + l.host + ":"@ + decimal(
                l.port as nat,
            )
            &&& line.subrange(w0 + w1 + 4, w0 + w1 + 4 + tags.len()) == tags
            &&& line.last() == '\n'
        }),
{
    reveal_strlit("  ");
    reveal_strlit("\n");
    let (a, b, c) = l.row();
    let text = a + blanks(w0 - a.len()) + "  "@ + b + blanks(w1 - b.len()) + "  "@ + c;
    assert(text.last() == c.last());
    assert(trim_end(text) == text);
    let line = column_line(l, w0, w1);
    assert(line == text + "\n"@);
    assert(line.take(a.len() as int) =~= a);
    assert(line.subrange(w0 + 2, w0 + 2 + b.len()) =~= b);
    assert(line.subrange(w0 + w1 + 4, w0 + w1 + 4 + c.len()) =~= c);
}

/// The lines of two lists of rows, one behind the other, are those of each.
pub proof fn listed_lines_join(a: Seq<Listed>, b: Seq<Listed>, aligned: bool, w0: int, w1: int)
    ensures
        lines_of(a + b, aligned, w0, w1) == lines_of(a, aligned, w0, w1) + lines_of(b, aligned, w0, w1),
    decreases b.len(),
{
    if b.len() == 0 {
        assert(a + b =~= a);
        assert(lines_of(a, aligned, w0, w1) + lines_of(b, aligned, w0, w1) =~= lines_of(a, aligned, w0, w1));
    } else {
        assert((a + b).drop_last() =~= a + b.drop_last());
        listed_lines_join(a, b.drop_last(), aligned, w0, w1);
        assert(lines_of(a + b, aligned, w0, w1) =~= lines_of(a, aligned, w0, w1) + lines_of(b, aligned, w0, w1));
    }
}

/// A row is one line: in columns for a person, with tabs for a pipe.
pub proof fn a_row_is_one_line(l: Listed, w0: int, w1: int)
    ensures
        lines_of(seq![l], true, w0, w1) == column_line(l, w0, w1),
        lines_of(seq![l], false, w0, w1) == tab_line(l),
{
    assert(seq![l].drop_last() =~= Seq::empty());
    assert(lines_of(Seq::empty(), true, w0, w1) =~= Seq::<char>::empty());
    assert(lines_of(Seq::empty(), false, w0, w1) =~= Seq::<char>::empty());
    assert(Seq::<char>::empty() + column_line(l, w0, w1) =~= column_line(l, w0, w1));
    assert(Seq::<char>::empty() + tab_line(l) =~= tab_line(l));
}

} // verus!
