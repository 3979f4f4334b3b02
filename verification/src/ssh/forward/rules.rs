//! Bringing up the port forwards of a session.
use vstd::prelude::*;

use crate::config::model::{ForwardRule, Uuid};
use crate::ssh::forward::socks::{Reply, SocksError};

verus! {

/// A rule that came up.
pub struct Started {
    pub id: Uuid,
    pub label: String,
}

/// A rule that did not come up, and why.
pub struct Failed {
    pub id: Uuid,
    pub label: String,
    pub error: String,
}

/// How far a session has come in bringing up its forwards. One that will not
/// come up is reported, never fatal.
pub struct Forwards {
    /// The rules before this one have been dealt with.
    pub next: usize,
    pub started: Vec<Started>,
    pub failed: Vec<Failed>,
}

/// How many of the rules are switched on.
pub open spec fn enabled_count(rules: Seq<ForwardRule>) -> nat
    decreases rules.len(),
{
    if rules.len() == 0 {
        0
    } else {
        enabled_count(rules.drop_last()) + if rules.last().enabled {
            1nat
        } else {
            0
        }
    }
}

/// Rules that are all switched off count for nothing.
proof fn lemma_disabled(rules: Seq<ForwardRule>, from: int, to: int)
    requires
        0 <= from <= to <= rules.len(),
        forall|j: int| from <= j < to ==> !(#[trigger] rules[j]).enabled,
    ensures
        enabled_count(rules.take(to)) == enabled_count(rules.take(from)),
    decreases to - from,
{
    if from < to {
        lemma_disabled(rules, from, to - 1);
        assert(rules.take(to).drop_last() =~= rules.take(to - 1));
    }
}

impl Forwards {
    /// A session whose forwards have yet to be brought up.
    pub fn new() -> (r: Self)
        ensures
            r.next == 0,
            r.started@.len() == 0,
            r.failed@.len() == 0,
    {
        Forwards { next: 0, started: Vec::new(), failed: Vec::new() }
    }

    /// Whether every rule so far that is switched on has been reported on.
    pub open spec fn complete(self, rules: Seq<ForwardRule>) -> bool {
        &&& self.next <= rules.len()
        &&& self.started@.len() + self.failed@.len() == enabled_count(rules.take(self.next as int))
    }

    /// The place of the next rule to bring up: the first one ahead that is
    /// switched on.
    pub fn next_rule(&mut self, rules: &[ForwardRule]) -> (r: Option<usize>)
        requires
            old(self).next <= rules@.len(),
        ensures
            final(self).started == old(self).started,
            final(self).failed == old(self).failed,
            match r {
                Some(i) => {
                    &&& old(self).next <= i < rules@.len()
                    &&& rules@[i as int].enabled
                    &&& forall|j: int| old(self).next <= j < i ==> !(#[trigger] rules@[j]).enabled
                    &&& final(self).next == i + 1
                    &&& enabled_count(rules@.take(i + 1)) == enabled_count(rules@.take(old(self).next as int)) + 1
                },
                None => {
                    &&& final(self).next == rules@.len()
                    &&& forall|j: int| old(self).next <= j < rules@.len() ==> !(#[trigger] rules@[j]).enabled
                    &&& enabled_count(rules@) == enabled_count(rules@.take(old(self).next as int))
                },
            },
    {
        let ghost from = self.next as int;
        let mut i: usize = self.next;
        while i < rules.len()
            invariant
                from <= i <= rules@.len(),
                self.next == from,
                from == old(self).next,
                self.started == old(self).started,
                self.failed == old(self).failed,
                forall|j: int| from <= j < i ==> !(#[trigger] rules@[j]).enabled,
            decreases rules@.len() - i,
        {
            if rules[i].enabled {
                self.next = i + 1;
                proof {
                    lemma_disabled(rules@, from, i as int);
                    assert(rules@.take(i + 1).drop_last() =~= rules@.take(i as int));
                }
                return Some(i);
            }
            i = i + 1;
        }
        self.next = rules.len();
        proof {
            lemma_disabled(rules@, from, i as int);
            assert(rules@.take(i as int) =~= rules@);
        }
        None
    }

    /// Takes in how it went.
    pub fn report(&mut self, rule: &ForwardRule, outcome: Result<(), String>)
        ensures
            final(self).next == old(self).next,
            match outcome {
                Ok(_) => {
                    &&& final(self).failed == old(self).failed
                    &&& final(self).started@.len() == old(self).started@.len() + 1
                    &&& final(self).started@.drop_last() == old(self).started@
                    &&& final(self).started@.last().id == rule.id
                    &&& final(self).started@.last().label@ == rule.line()
                },
                Err(error) => {
                    &&& final(self).started == old(self).started
                    &&& final(self).failed@.len() == old(self).failed@.len() + 1
                    &&& final(self).failed@.drop_last() == old(self).failed@
                    &&& final(self).failed@.last().id == rule.id
                    &&& final(self).failed@.last().label@ == rule.line()
                    &&& final(self).failed@.last().error == error
                },
            },
    {
        let label = rule.label();
        match outcome {
            Ok(_) => {
                self.started.push(Started { id: rule.id, label });
                assert(self.started@.drop_last() =~= old(self).started@);
            },
            Err(error) => {
                self.failed.push(Failed { id: rule.id, label, error });
                assert(self.failed@.drop_last() =~= old(self).failed@);
            },
        }
    }
}

/// What a proxied client is answered when its handshake failed. A refusal still
/// gets an answer, so that the client can say why it failed.
pub fn refusal(error: &SocksError) -> (r: Option<Reply>)
    ensures
        r == (match *error {
            SocksError::Refused(code) => Some(code),
            _ => None,
        }),
{
    match error {
        SocksError::Refused(code) => Some(*code),
        _ => None,
    }
}

/// What a proxied client is answered once its channel was tried: never that it
/// succeeded before the far end is open.
pub fn channel_answer(opened: bool) -> (r: Reply)
    ensures
        r == (if opened {
            Reply::Succeeded
        } else {
            Reply::HostUnreachable
        }),
{
    if opened {
        Reply::Succeeded
    } else {
        Reply::HostUnreachable
    }
}

/// A rule that will not come up stops no other: bringing up a rule and
/// reporting on it, however it went, keeps the account complete, and once
/// nothing is left every rule that is switched on is either up or named with
/// its reason.
pub proof fn a_failed_rule_stops_no_other(
    before: Forwards,
    rules: Seq<ForwardRule>,
    at: int,
    after: Forwards,
)
    requires
        before.complete(rules),
        before.next <= at < rules.len(),
        rules[at].enabled,
        forall|j: int| before.next <= j < at ==> !(#[trigger] rules[j]).enabled,
        after.next == at + 1,
        after.started@.len() + after.failed@.len() == before.started@.len() + before.failed@.len() + 1,
    ensures
        after.complete(rules),
        after.next == rules.len() ==> after.started@.len() + after.failed@.len() == enabled_count(rules),
{
    lemma_disabled(rules, before.next as int, at);
    assert(rules.take(at + 1).drop_last() =~= rules.take(at));
    assert(rules.take(rules.len() as int) =~= rules);
}

/// The rules of two lists that are switched on, together, are those of each.
pub proof fn enabled_rules_add_up(a: Seq<ForwardRule>, b: Seq<ForwardRule>)
    ensures
        enabled_count(a + b) == enabled_count(a) + enabled_count(b),
    decreases b.len(),
{
    if b.len() == 0 {
        assert(a + b =~= a);
    } else {
        assert((a + b).drop_last() =~= a + b.drop_last());
        enabled_rules_add_up(a, b.drop_last());
    }
}

/// A rule that is switched on counts for one, and one that is off for nothing.
pub proof fn a_rule_counts_when_it_is_on(rule: ForwardRule)
    ensures
        enabled_count(seq![rule]) == (if rule.enabled {
            1nat
        } else {
            0
        }),
{
    assert(seq![rule].drop_last() =~= Seq::empty());
    assert(enabled_count(Seq::<ForwardRule>::empty()) == 0);
}

/// A client is told that its connection stands only once the far end is open,
/// and that the host is unreachable otherwise.
pub proof fn a_client_is_answered_by_the_far_end(opened: bool, r: Reply)
    requires
        call_ensures(channel_answer, (opened,), r),
    ensures
        opened <==> r == Reply::Succeeded,
        !opened ==> r == Reply::HostUnreachable,
{
}

/// A rule that was started is listed as such, one that failed with its reason, each
/// under its identity and its own line.
pub proof fn a_rule_is_reported_under_its_line(
    start: &mut Forwards,
    rule: ForwardRule,
    outcome: Result<(), String>,
)
    requires
        call_ensures(Forwards::report, (start, &rule, outcome), ()),
    ensures
        outcome is Ok ==> final(start).failed == old(start).failed && final(start).started@.len()
            == old(start).started@.len() + 1 && final(start).started@.last().id == rule.id
            && final(start).started@.last().label@ == rule.line(),
        outcome matches Err(why) ==> final(start).started == old(start).started && final(start).failed@.len()
            == old(start).failed@.len() + 1 && final(start).failed@.last().id == rule.id
            && final(start).failed@.last().error == why,
{
}

/// A client is answered with the code of its refusal; what is no request of the
/// protocol gets no answer.
pub proof fn a_refused_client_is_answered(error: SocksError, r: Option<Reply>)
    requires
        call_ensures(refusal, (&error,), r),
    ensures
        error matches SocksError::Refused(code) ==> r == Some(code),
        !(error is Refused) ==> r is None,
{
}

} // verus!
