//! Authenticating: what an answer of the server or of the agent comes to.
use vstd::prelude::*;

use crate::error::{AppError, ErrorView};
use crate::text::owned;

verus! {

/// What a password or key attempt comes to.
pub fn verdict(accepted: bool) -> (r: Result<(), AppError>)
    ensures
        match r {
            Ok(_) => accepted,
            Err(e) => !accepted && e@ == ErrorView::SshAuthFailed("credentials rejected by server"@),
        },
{
    if accepted {
        Ok(())
    } else {
        Err(AppError::SshAuthFailed(owned("credentials rejected by server")))
    }
}

/// The error for a key file that cannot be loaded.
pub fn key_load_failed(key_path: &str, reason: &str) -> (r: AppError)
    ensures
        r@ == ErrorView::SshAuthFailed("failed to load key '"@ + key_path@ + "': "@ + reason@),
{
    let mut s = owned("failed to load key '");
    s.push_str(key_path);
    s.push_str("': ");
    s.push_str(reason);
    AppError::SshAuthFailed(s)
}

/// What went wrong with the agent, before any server saw a signature.
pub enum AgentProblem {
    /// No agent is configured.
    NotSet,
    /// Its socket is gone.
    SocketGone,
    Unreachable(String),
    NotListed(String),
    NotSigned(String),
}

/// The sentence for a problem with the agent.
pub open spec fn problem_text(problem: AgentProblem) -> Seq<char> {
    match problem {
        AgentProblem::NotSet => "SSH_AUTH_SOCK is not set \u{2014} no agent is running"@,
        AgentProblem::SocketGone => "SSH_AUTH_SOCK points at a socket that is not there \u{2014} the agent has gone away"@,
        AgentProblem::Unreachable(e) => "could not reach the agent: "@ + e@,
        AgentProblem::NotListed(e) => "could not list the agent's keys: "@ + e@,
        AgentProblem::NotSigned(e) => "the agent refused to sign: "@ + e@,
    }
}

fn described(text: &str, reason: &str) -> (r: String)
    ensures
        r@ == text@ + reason@,
{
    let mut s = owned(text);
    s.push_str(reason);
    s
}

/// The error for a problem with the agent: in none of these is anything wrong
/// with the user's account on the remote host.
pub fn agent_error(problem: &AgentProblem) -> (r: AppError)
    ensures
        r@ == ErrorView::SshAgent(problem_text(*problem)),
{
    AppError::SshAgent(
        match problem {
            AgentProblem::NotSet => owned("SSH_AUTH_SOCK is not set \u{2014} no agent is running"),
            AgentProblem::SocketGone => owned(
                "SSH_AUTH_SOCK points at a socket that is not there \u{2014} the agent has gone away",
            ),
            AgentProblem::Unreachable(e) => described("could not reach the agent: ", e.as_str()),
            AgentProblem::NotListed(e) => described("could not list the agent's keys: ", e.as_str()),
            AgentProblem::NotSigned(e) => described("the agent refused to sign: ", e.as_str()),
        },
    )
}

/// What an agent holds.
#[derive(Clone, Copy, Debug, PartialEq, Eq, Structural)]
pub enum Identity {
    PublicKey,
    /// Left out: a certificate is offered in another way.
    Certificate,
}

/// Whether any key of the agent can be offered.
pub open spec fn usable(identities: Seq<Identity>) -> bool {
    exists|i: int| 0 <= i < identities.len() && #[trigger] identities[i] == Identity::PublicKey
}

/// An offer of an agent's keys, one after another. Every one is tried, not just
/// the first: only one of several may be known to the host.
pub struct AgentOffer {
    /// The identities before this one have been dealt with.
    pub next: usize,
    /// Whether any key was offered.
    pub offered: bool,
}

impl AgentOffer {
    pub fn new() -> (r: Self)
        ensures
            r.next == 0,
            !r.offered,
    {
        AgentOffer { next: 0, offered: false }
    }

    /// Whether `offered` says what it is meant to.
    pub open spec fn wf(self, identities: Seq<Identity>) -> bool {
        &&& self.next <= identities.len()
        &&& self.offered == usable(identities.take(self.next as int))
    }

    /// The place of the next key to offer, once those before it were turned
    /// down.
    pub fn next_key(&mut self, identities: &[Identity]) -> (r: Result<usize, AppError>)
        requires
            old(self).wf(identities@),
        ensures
            final(self).wf(identities@),
            match r {
                Ok(i) => {
                    &&& old(self).next <= i < identities@.len()
                    &&& identities@[i as int] == Identity::PublicKey
                    &&& forall|j: int| old(self).next <= j < i ==> #[trigger] identities@[j] == Identity::Certificate
                    &&& final(self).next == i + 1
                },
                Err(e) => {
                    &&& forall|j: int|
                        old(self).next <= j < identities@.len() ==> #[trigger] identities@[j] == Identity::Certificate
                    &&& e@ == (if usable(identities@) {
                        ErrorView::SshAuthFailed("the server accepted none of the agent's keys"@)
                    } else {
                        ErrorView::SshAgent(
                            "the agent is running but holds no usable keys \u{2014} try `ssh-add`"@,
                        )
                    })
                },
            },
    {
        let ghost from = self.next as int;
        let ghost before = identities@.take(from);
        let mut i: usize = self.next;
        while i < identities.len()
            invariant
                from == old(self).next,
                *self == *old(self),
                from <= i <= identities@.len(),
                forall|j: int| from <= j < i ==> #[trigger] identities@[j] == Identity::Certificate,
            decreases identities@.len() - i,
        {
            match identities[i] {
                Identity::PublicKey => {
                    self.next = i + 1;
                    self.offered = true;
                    assert(identities@.take(i + 1)[i as int] == Identity::PublicKey);
                    return Ok(i);
                },
                Identity::Certificate => {},
            }
            i = i + 1;
        }
        proof {
            if usable(identities@) {
                let k = choose|k: int| 0 <= k < identities@.len() && identities@[k] == Identity::PublicKey;
                assert(before[k] == identities@[k]);
            }
            if usable(before) {
                let k = choose|k: int| 0 <= k < before.len() && before[k] == Identity::PublicKey;
                assert(identities@[k] == before[k]);
            }
        }
        if self.offered {
            Err(AppError::SshAuthFailed(owned("the server accepted none of the agent's keys")))
        } else {
            Err(AppError::SshAgent(owned("the agent is running but holds no usable keys \u{2014} try `ssh-add`")))
        }
    }
}

/// What is wrong with the agent is told apart, with the reason where there is one.
pub proof fn an_agents_problem_is_told(problem: AgentProblem)
    ensures
        problem is NotSet ==> problem_text(problem) == "SSH_AUTH_SOCK is not set \u{2014} no agent is running"@,
        problem is SocketGone ==> problem_text(problem)
            == "SSH_AUTH_SOCK points at a socket that is not there \u{2014} the agent has gone away"@,
        problem matches AgentProblem::Unreachable(e) ==> problem_text(problem) == "could not reach the agent: "@ + e@,
        problem matches AgentProblem::NotListed(e) ==> problem_text(problem) == "could not list the agent's keys: "@ + e@,
        problem matches AgentProblem::NotSigned(e) ==> problem_text(problem) == "the agent refused to sign: "@ + e@,
{
}

/// The agent's keys are offered in order, each once, and certificates are passed
/// over. Where none is left the error says whether there was any.
pub proof fn every_key_is_offered_in_order(
    offer: &mut AgentOffer,
    identities: &[Identity],
    i: int,
    r: Result<usize, AppError>,
)
    requires
        old(offer).wf(identities@),
        call_ensures(AgentOffer::next_key, (offer, identities), r),
        old(offer).next <= i < identities@.len(),
        identities@[i] == Identity::PublicKey,
    ensures
        r matches Ok(k) && k <= i && identities@[k as int] == Identity::PublicKey && final(offer).next == k + 1,
{
}

/// A login that the server rejects is an error, one that it takes is none.
pub proof fn a_rejected_login_is_an_error(accepted: bool, r: Result<(), AppError>)
    requires
        call_ensures(verdict, (accepted,), r),
    ensures
        accepted <==> r is Ok,
        r matches Err(e) ==> e@ is SshAuthFailed,
{
}

} // verus!
