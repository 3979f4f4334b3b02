//! How a server is shown where a developer looks: everything but its
//! credential.
use vstd::prelude::*;

use crate::config::model::{
    quote, quoted, uuid_string, uuid_text, AuthMethod, Script, ScriptStep, ServerEntry, StepCondition, SystemInfo,
};
use crate::config::secret::Secret;
use crate::text::{decimal, has_prefix, join, joined, number, owned, texts};

verus! {

/// An optional value by its own text.
pub open spec fn optional(inner: Option<Seq<char>>) -> Seq<char> {
    match inner {
        Some(text) => "Some("@ + text + ")"@,
        None => "None"@,
    }
}

fn show_optional(inner: Option<String>) -> (r: String)
    ensures
        r@ == optional(
            match inner {
                Some(text) => Some(text@),
                None => None,
            },
        ),
{
    match inner {
        Some(text) => {
            let mut s = owned("Some(");
            s.push_str(text.as_str());
            s.push_str(")");
            s
        },
        None => owned("None"),
    }
}

/// An optional text.
pub open spec fn optional_text(t: Option<String>) -> Seq<char> {
    optional(
        match t {
            Some(text) => Some(quoted(text@)),
            None => None,
        },
    )
}

fn show_text(t: &Option<String>) -> (r: String)
    ensures
        r@ == optional_text(*t),
{
    show_optional(
        match t {
            Some(text) => Some(quote(text.as_str())),
            None => None,
        },
    )
}

/// An optional number.
pub open spec fn optional_number(n: Option<u64>) -> Seq<char> {
    optional(
        match n {
            Some(v) => Some(decimal(v as nat)),
            None => None,
        },
    )
}

fn show_number(n: Option<u64>) -> (r: String)
    ensures
        r@ == optional_number(n),
{
    show_optional(
        match n {
            Some(v) => Some(number(v)),
            None => None,
        },
    )
}

/// Items in brackets, by their own texts.
pub open spec fn bracketed(items: Seq<Seq<char>>) -> Seq<char> {
    "["@ + joined(items, ", "@) + "]"@
}

fn show_list(items: &[String]) -> (r: String)
    ensures
        r@ == bracketed(texts(items@)),
{
    let mut s = owned("[");
    s.push_str(join(items, ", ").as_str());
    s.push_str("]");
    s
}

impl StepCondition {
    /// How a condition is shown.
    pub open spec fn debug(self) -> Seq<char> {
        match self {
            StepCondition::Always => "Always"@,
            StepCondition::OnSuccess => "OnSuccess"@,
            StepCondition::OnFailure => "OnFailure"@,
            StepCondition::OutputContains(needle) => "OutputContains("@ + quoted(needle@) + ")"@,
        }
    }

    /// How a condition is shown.
    pub fn debug_text(&self) -> (r: String)
        ensures
            r@ == self.debug(),
    {
        match self {
            StepCondition::Always => owned("Always"),
            StepCondition::OnSuccess => owned("OnSuccess"),
            StepCondition::OnFailure => owned("OnFailure"),
            StepCondition::OutputContains(needle) => {
                let mut s = owned("OutputContains(");
                s.push_str(quote(needle.as_str()).as_str());
                s.push_str(")");
                s
            },
        }
    }
}

impl ScriptStep {
    /// How a step is shown.
    pub open spec fn debug(self) -> Seq<char> {
        "ScriptStep { command: "@ + quoted(self.command@) + ", condition: "@ + self.condition.debug()
            + ", timeout_secs: "@ + optional_number(self.timeout_secs) + " }"@
    }

    /// How a step is shown.
    pub fn debug_text(&self) -> (r: String)
        ensures
            r@ == self.debug(),
    {
        let mut s = owned("ScriptStep { command: ");
        s.push_str(quote(self.command.as_str()).as_str());
        s.push_str(", condition: ");
        s.push_str(self.condition.debug_text().as_str());
        s.push_str(", timeout_secs: ");
        s.push_str(show_number(self.timeout_secs).as_str());
        s.push_str(" }");
        s
    }
}

impl Script {
    /// How a script is shown.
    pub open spec fn debug(self) -> Seq<char> {
        "Script { id: "@ + uuid_text(self.id.bits) + ", name: "@ + quoted(self.name@) + ", run_on_connect: "@ + (
        if self.run_on_connect {
            "true"@
        } else {
            "false"@
        }) + ", steps: "@ + bracketed(self.steps@.map_values(|step: ScriptStep| step.debug())) + " }"@
    }

    /// How a script is shown.
    pub fn debug_text(&self) -> (r: String)
        ensures
            r@ == self.debug(),
    {
        let mut steps: Vec<String> = Vec::new();
        let mut i: usize = 0;
        while i < self.steps.len()
            invariant
                i <= self.steps@.len(),
                steps@.len() == i,
                forall|j: int| 0 <= j < i ==> (#[trigger] steps@[j])@ == self.steps@[j].debug(),
            decreases self.steps@.len() - i,
        {
            steps.push(self.steps[i].debug_text());
            i = i + 1;
        }
        assert(texts(steps@) =~= self.steps@.map_values(|step: ScriptStep| step.debug()));
        let mut s = owned("Script { id: ");
        s.push_str(uuid_string(self.id.bits).as_str());
        s.push_str(", name: ");
        s.push_str(quote(self.name.as_str()).as_str());
        s.push_str(", run_on_connect: ");
        s.push_str(
            if self.run_on_connect {
                "true"
            } else {
                "false"
            },
        );
        s.push_str(", steps: ");
        s.push_str(show_list(&steps).as_str());
        s.push_str(" }");
        s
    }
}

impl SystemInfo {
    /// How a snapshot is shown.
    pub open spec fn debug(self) -> Seq<char> {
        "SystemInfo { cpu_model: "@ + optional_text(self.cpu_model) + ", cpu_cores: "@ + optional_number(
            match self.cpu_cores {
                Some(n) => Some(n as u64),
                None => None,
            },
        ) + ", mem_total_bytes: "@ + optional_number(self.mem_total_bytes) + ", mem_used_bytes: "@ + optional_number(
            self.mem_used_bytes,
        ) + ", disk_total_bytes: "@ + optional_number(self.disk_total_bytes) + ", disk_used_bytes: "@
            + optional_number(self.disk_used_bytes) + ", gpu_model: "@ + optional_text(self.gpu_model) + ", gpus: "@
            + bracketed(self.gpus@.map_values(|g: String| quoted(g@))) + ", fetched_at_unix: "@ + decimal(
            self.fetched_at_unix as nat,
        ) + " }"@
    }

    /// How a snapshot is shown.
    pub fn debug_text(&self) -> (r: String)
        ensures
            r@ == self.debug(),
    {
        let mut gpus: Vec<String> = Vec::new();
        let mut i: usize = 0;
        while i < self.gpus.len()
            invariant
                i <= self.gpus@.len(),
                gpus@.len() == i,
                forall|j: int| 0 <= j < i ==> (#[trigger] gpus@[j])@ == quoted(self.gpus@[j]@),
            decreases self.gpus@.len() - i,
        {
            gpus.push(quote(self.gpus[i].as_str()));
            i = i + 1;
        }
        assert(texts(gpus@) =~= self.gpus@.map_values(|g: String| quoted(g@)));
        let cores: Option<u64> = match self.cpu_cores {
            Some(n) => Some(n as u64),
            None => None,
        };
        let mut s = owned("SystemInfo { cpu_model: ");
        s.push_str(show_text(&self.cpu_model).as_str());
        s.push_str(", cpu_cores: ");
        s.push_str(show_number(cores).as_str());
        s.push_str(", mem_total_bytes: ");
        s.push_str(show_number(self.mem_total_bytes).as_str());
        s.push_str(", mem_used_bytes: ");
        s.push_str(show_number(self.mem_used_bytes).as_str());
        s.push_str(", disk_total_bytes: ");
        s.push_str(show_number(self.disk_total_bytes).as_str());
        s.push_str(", disk_used_bytes: ");
        s.push_str(show_number(self.disk_used_bytes).as_str());
        s.push_str(", gpu_model: ");
        s.push_str(show_text(&self.gpu_model).as_str());
        s.push_str(", gpus: ");
        s.push_str(show_list(&gpus).as_str());
        s.push_str(", fetched_at_unix: ");
        s.push_str(number(self.fetched_at_unix).as_str());
        s.push_str(" }");
        s
    }
}

impl ServerEntry {
    /// How a server is shown: without its credential.
    pub open spec fn debug(self) -> Seq<char> {
        "ServerEntry { id: "@ + uuid_text(self.id.bits) + ", name: "@ + quoted(self.name@) + ", host: "@ + quoted(
            self.host@,
        ) + ", port: "@ + decimal(self.port as nat) + ", username: "@ + quoted(self.username@) + ", auth: "@
            + self.auth.debug() + ", host_key_fingerprint: "@ + optional_text(self.host_key_fingerprint)
            + ", system_info: "@ + optional(
            match self.system_info {
                Some(info) => Some(info.debug()),
                None => None,
            },
        ) + ", scripts: "@ + bracketed(self.scripts@.map_values(|script: Script| script.debug())) + " }"@
    }

    /// How a server is shown where a developer looks.
    pub fn debug_text(&self) -> (r: String)
        ensures
            r@ == self.debug(),
    {
        let mut scripts: Vec<String> = Vec::new();
        let mut i: usize = 0;
        while i < self.scripts.len()
            invariant
                i <= self.scripts@.len(),
                scripts@.len() == i,
                forall|j: int| 0 <= j < i ==> (#[trigger] scripts@[j])@ == self.scripts@[j].debug(),
            decreases self.scripts@.len() - i,
        {
            scripts.push(self.scripts[i].debug_text());
            i = i + 1;
        }
        assert(texts(scripts@) =~= self.scripts@.map_values(|script: Script| script.debug()));
        let info = match &self.system_info {
            Some(info) => Some(info.debug_text()),
            None => None,
        };
        let mut s = owned("ServerEntry { id: ");
        s.push_str(uuid_string(self.id.bits).as_str());
        s.push_str(", name: ");
        s.push_str(quote(self.name.as_str()).as_str());
        s.push_str(", host: ");
        s.push_str(quote(self.host.as_str()).as_str());
        s.push_str(", port: ");
        s.push_str(number(self.port as u64).as_str());
        s.push_str(", username: ");
        s.push_str(quote(self.username.as_str()).as_str());
        s.push_str(", auth: ");
        s.push_str(self.auth.debug_text().as_str());
        s.push_str(", host_key_fingerprint: ");
        s.push_str(show_text(&self.host_key_fingerprint).as_str());
        s.push_str(", system_info: ");
        s.push_str(show_optional(info).as_str());
        s.push_str(", scripts: ");
        s.push_str(show_list(&scripts).as_str());
        s.push_str(" }");
        s
    }
}

/// What is shown of a server never depends on its password or passphrase.
pub proof fn a_credential_is_never_shown(
    entry: ServerEntry,
    other: ServerEntry,
    password: Secret,
    passphrase: Option<Secret>,
)
    requires
        other == (ServerEntry {
            auth: match entry.auth {
                AuthMethod::Password { .. } => AuthMethod::Password { password },
                AuthMethod::SshKey { key_path, .. } => AuthMethod::SshKey { key_path, passphrase },
                AuthMethod::Agent => AuthMethod::Agent,
            },
            ..entry
        }),
    ensures
        other.debug() == entry.debug(),
{
}

/// A missing value is printed as `None`, one that is there in `Some(..)`, and a
/// step's condition by its name.
pub proof fn a_value_is_printed_as_it_is(t: Option<String>, n: Option<u64>, c: StepCondition)
    ensures
        t is None ==> optional_text(t) == "None"@,
        t matches Some(text) ==> optional_text(t) == "Some("@ + quoted(text@) + ")"@,
        n is None ==> optional_number(n) == "None"@,
        n matches Some(v) ==> optional_number(n) == "Some("@ + decimal(v as nat) + ")"@,
        c is Always ==> c.debug() == "Always"@,
        c is OnSuccess ==> c.debug() == "OnSuccess"@,
        c is OnFailure ==> c.debug() == "OnFailure"@,
        c matches StepCondition::OutputContains(needle) ==> c.debug() == "OutputContains("@ + quoted(needle@) + ")"@,
{
}

proof fn lemma_prefix(a: Seq<char>, b: Seq<char>, p: Seq<char>)
    requires
        has_prefix(a, p),
    ensures
        has_prefix(a + b, p),
{
    assert((a + b).subrange(0, p.len() as int) =~= a.subrange(0, p.len() as int));
}

/// A server is printed with its identity, its name, its address and its user first,
/// each under its own name, and its login behind them.
pub proof fn a_server_is_printed_with_its_address(e: ServerEntry)
    ensures
        has_prefix(
            e.debug(),
            "ServerEntry { id: "@ + uuid_text(e.id.bits) + ", name: "@ + quoted(e.name@) + ", host: "@ + quoted(e.host@)
                + ", port: "@ + decimal(e.port as nat) + ", username: "@ + quoted(e.username@) + ", auth: "@
                + e.auth.debug() + ", host_key_fingerprint: "@ + optional_text(e.host_key_fingerprint),
        ),
{
    let p = "ServerEntry { id: "@ + uuid_text(e.id.bits) + ", name: "@ + quoted(e.name@) + ", host: "@ + quoted(e.host@)
        + ", port: "@ + decimal(e.port as nat) + ", username: "@ + quoted(e.username@) + ", auth: "@ + e.auth.debug()
        + ", host_key_fingerprint: "@ + optional_text(e.host_key_fingerprint);
    let info = optional(
        match e.system_info {
            Some(info) => Some(info.debug()),
            None => None,
        },
    );
    let scripts = bracketed(e.scripts@.map_values(|script: Script| script.debug()));
    let a = p + ", system_info: "@;
    let b = a + info;
    let c = b + ", scripts: "@;
    let d = c + scripts;
    assert(p.subrange(0, p.len() as int) =~= p);
    lemma_prefix(p, ", system_info: "@, p);
    lemma_prefix(a, info, p);
    lemma_prefix(b, ", scripts: "@, p);
    lemma_prefix(c, scripts, p);
    lemma_prefix(d, " }"@, p);
    assert(e.debug() == d + " }"@);
}

/// A login is printed by its kind, a key with its path; what is secret never is.
pub proof fn a_login_is_printed_by_its_kind(auth: AuthMethod)
    ensures
        auth is Password ==> auth.debug() == "Password { password: \"<redacted>\" }"@,
        auth is Agent ==> auth.debug() == "Agent"@,
        auth matches AuthMethod::SshKey { key_path, .. } ==> auth.debug() == "SshKey { key_path: "@ + quoted(key_path@)
            + ", passphrase: \"<redacted>\" }"@,
{
}

} // verus!
