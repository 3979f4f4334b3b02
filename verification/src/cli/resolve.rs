//! Finding the one server that a name on the command line refers to.
use vstd::prelude::*;

use crate::config::model::ServerEntry;
use crate::error::{AppError, ErrorView};
use crate::text::{join, joined, lowercase, owned, same_text, texts, to_lowercase};

verus! {

/// The places of the servers that a name matches, ignoring case.
pub open spec fn matching(servers: Seq<ServerEntry>, name: Seq<char>) -> Seq<int>
    decreases servers.len(),
{
    if servers.len() == 0 {
        Seq::empty()
    } else {
        let front = matching(servers.drop_last(), name);
        if lowercase(servers.last().name@) == lowercase(name) {
            front.push(servers.len() - 1)
        } else {
            front
        }
    }
}

/// The names at these places.
pub open spec fn names_at(servers: Seq<ServerEntry>, places: Seq<int>) -> Seq<Seq<char>> {
    places.map_values(|i: int| servers[i].name@)
}

/// Why a name refers to no one server.
pub open spec fn unresolved(servers: Seq<ServerEntry>, name: Seq<char>) -> ErrorView {
    let places = matching(servers, name);
    if places.len() == 0 {
        ErrorView::Cli("no server named '"@ + name + "' — `ssh-control list` shows them"@)
    } else {
        ErrorView::Cli(
            "'"@ + name + "' matches more than one server: "@ + joined(names_at(servers, places), ", "@),
        )
    }
}

/// The one server `name` refers to, by its place.
///
/// Case-insensitive and exact: a prefix that grew ambiguous when a server was
/// added would silently start connecting somewhere else. More than one match
/// is reported rather than resolved.
pub fn resolve(servers: &[ServerEntry], name: &str) -> (r: Result<usize, AppError>)
    ensures
        match r {
            Ok(i) => matching(servers@, name@) == seq![i as int] && i < servers@.len(),
            Err(e) => matching(servers@, name@).len() != 1 && e@ == unresolved(servers@, name@),
        },
{
    let needle = to_lowercase(name);
    let mut found: Vec<usize> = Vec::new();
    let mut names: Vec<String> = Vec::new();
    let mut i: usize = 0;
    let ghost mut places: Seq<int> = Seq::empty();
    assert(texts(names@) =~= names_at(servers@, places));
    assert(found@.map_values(|i: usize| i as int) =~= places);
    while i < servers.len()
        invariant
            i <= servers@.len(),
            needle@ == lowercase(name@),
            places == matching(servers@.take(i as int), name@),
            found@.map_values(|i: usize| i as int) == places,
            forall|j: int| 0 <= j < found@.len() ==> #[trigger] found@[j] < servers@.len(),
            texts(names@) == names_at(servers@, places),
        decreases servers@.len() - i,
    {
        assert(servers@.take(i + 1).drop_last() =~= servers@.take(i as int));
        assert(servers@.take(i + 1).last() == servers@[i as int]);
        if same_text(to_lowercase(servers[i].name.as_str()).as_str(), needle.as_str()) {
            let ghost names_before = names@;
            found.push(i);
            names.push(servers[i].name.clone());
            proof {
                let before = names_at(servers@, places);
                let texts_before = texts(names_before);
                places = places.push(i as int);
                assert(found@.map_values(|i: usize| i as int) =~= places);
                assert(names_at(servers@, places) =~= before.push(servers@[i as int].name@));
                assert(texts(names@) =~= texts_before.push(servers@[i as int].name@));
            }
        }
        i = i + 1;
    }
    assert(servers@.take(servers@.len() as int) =~= servers@);
    assert(found@.len() == places.len());
    if found.len() == 1 {
        assert(places =~= seq![found@[0] as int]);
        return Ok(found[0]);
    }
    let mut text;
    if found.len() == 0 {
        text = owned("no server named '");
        text.push_str(name);
        text.push_str("' — `ssh-control list` shows them");
    } else {
        text = owned("'");
        text.push_str(name);
        text.push_str("' matches more than one server: ");
        text.push_str(join(&names, ", ").as_str());
    }
    Err(AppError::Cli(text))
}

proof fn lemma_matching(servers: Seq<ServerEntry>, name: Seq<char>)
    ensures
        forall|i: int|
            0 <= i < servers.len() ==> (matching(servers, name).contains(i) <==> lowercase(
                (#[trigger] servers[i]).name@,
            ) == lowercase(name)),
        forall|i: int| matching(servers, name).contains(i) ==> 0 <= i < servers.len(),
    decreases servers.len(),
{
    if servers.len() > 0 {
        let front = servers.drop_last();
        lemma_matching(front, name);
        let n = servers.len() - 1;
        let before = matching(front, name);
        let all = matching(servers, name);
        assert forall|i: int| 0 <= i < servers.len() implies (all.contains(i) <==> lowercase(
            (#[trigger] servers[i]).name@,
        ) == lowercase(name)) by {
            if i < n {
                assert(front[i] == servers[i]);
                if before.contains(i) {
                    let k = choose|k: int| 0 <= k < before.len() && before[k] == i;
                    assert(all[k] == i);
                }
                if all.contains(i) {
                    let k = choose|k: int| 0 <= k < all.len() && all[k] == i;
                    assert(before[k] == i);
                }
            } else {
                if lowercase(servers.last().name@) == lowercase(name) {
                    assert(all[before.len() as int] == n);
                }
                if all.contains(n) && all == before {
                    assert(before.contains(n));
                }
            }
        }
        assert forall|i: int| all.contains(i) implies 0 <= i < servers.len() by {
            let k = choose|k: int| 0 <= k < all.len() && all[k] == i;
            if k < before.len() {
                assert(before[k] == i);
                assert(before.contains(i));
            }
        }
    }
}

/// A name that resolves belongs to that server and to no other.
pub proof fn a_resolved_name_is_the_only_match(servers: Seq<ServerEntry>, name: Seq<char>, i: int, other: int)
    requires
        matching(servers, name) == seq![i],
        0 <= other < servers.len(),
    ensures
        0 <= i < servers.len(),
        lowercase(servers[i].name@) == lowercase(name),
        other != i ==> lowercase(servers[other].name@) != lowercase(name),
{
    lemma_matching(servers, name);
    assert(matching(servers, name)[0] == i);
    assert(matching(servers, name).contains(i));
    assert(servers[i] == servers[i]);
    if lowercase(servers[other].name@) == lowercase(name) {
        assert(matching(servers, name).contains(other));
    }
}

/// A name that exactly one server has, whatever the case, is resolved to it.
pub proof fn a_name_that_one_server_has_is_resolved(servers: Seq<ServerEntry>, name: Seq<char>, i: int)
    requires
        0 <= i < servers.len(),
        lowercase(servers[i].name@) == lowercase(name),
        forall|j: int| 0 <= j < servers.len() && j != i ==> lowercase((#[trigger] servers[j]).name@) != lowercase(name),
    ensures
        matching(servers, name) == seq![i],
    decreases servers.len(),
{
    let front = servers.drop_last();
    if i == servers.len() - 1 {
        lemma_no_match(front, name);
        assert(matching(servers, name) =~= seq![i]);
    } else {
        assert(front[i] == servers[i]);
        assert forall|j: int| 0 <= j < front.len() && j != i implies lowercase((#[trigger] front[j]).name@)
            != lowercase(name) by {
            assert(front[j] == servers[j]);
        }
        a_name_that_one_server_has_is_resolved(front, name, i);
        assert(servers[servers.len() - 1].name@ == servers.last().name@);
    }
}

proof fn lemma_no_match(servers: Seq<ServerEntry>, name: Seq<char>)
    requires
        forall|j: int| 0 <= j < servers.len() ==> lowercase((#[trigger] servers[j]).name@) != lowercase(name),
    ensures
        matching(servers, name) == Seq::<int>::empty(),
    decreases servers.len(),
{
    if servers.len() > 0 {
        let front = servers.drop_last();
        assert forall|j: int| 0 <= j < front.len() implies lowercase((#[trigger] front[j]).name@) != lowercase(name) by {
            assert(front[j] == servers[j]);
        }
        lemma_no_match(front, name);
        assert(servers[servers.len() - 1].name@ == servers.last().name@);
    }
}

/// A name that no server has is refused by name; one that several have is refused
/// with all of them.
pub proof fn an_unresolved_name_is_explained(servers: Seq<ServerEntry>, name: Seq<char>)
    ensures
        (forall|j: int| 0 <= j < servers.len() ==> lowercase((#[trigger] servers[j]).name@) != lowercase(name))
            ==> unresolved(servers, name) == ErrorView::Cli(
            "no server named '"@ + name + "' — `ssh-control list` shows them"@,
        ),
        matching(servers, name).len() > 1 ==> unresolved(servers, name) == ErrorView::Cli(
            "'"@ + name + "' matches more than one server: "@ + joined(
                matching(servers, name).map_values(|i: int| servers[i].name@),
                ", "@,
            ),
        ),
{
    if forall|j: int| 0 <= j < servers.len() ==> lowercase((#[trigger] servers[j]).name@) != lowercase(name) {
        lemma_no_match(servers, name);
    }
}

} // verus!
