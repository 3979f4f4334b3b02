//! What the vault holds: servers, their credentials, scripts and forwards.
use vstd::prelude::*;

use crate::config::secret::Secret;
use crate::text::{decimal, owned, push_decimal};

verus! {

pub const DEFAULT_PORT: u16 = 22;

pub const CURRENT_SCHEMA_VERSION: u32 = 1;

/// Idle minutes before the vault re-locks itself. A file written before this
/// field existed gets the protective default rather than "off".
pub const DEFAULT_AUTO_LOCK_MINUTES: u32 = 15;

/// The identity of a server, a script or a forward: 128 bits.
#[derive(Clone, Copy, Debug, PartialEq, Eq, Structural)]
pub struct Uuid {
    pub bits: u128,
}

/// `uuid::Uuid::new_v4`. The bits are random, so nothing is claimed of them.
#[verifier::external_body]
fn random_uuid_bits() -> u128 {
    uuid::Uuid::new_v4().as_u128()
}

/// The hyphenated text of 128 bits of identity.
pub uninterp spec fn uuid_text(bits: u128) -> Seq<char>;

/// `uuid::Uuid`'s text form: a function of the bits alone, and always 36
/// characters long.
#[verifier::external_body]
pub(crate) fn uuid_string(bits: u128) -> (r: String)
    ensures
        r@ == uuid_text(bits),
        r@.len() == 36,
{
    uuid::Uuid::from_u128(bits).to_string()
}

impl Uuid {
    /// A fresh identity.
    pub fn new_v4() -> (r: Self) {
        Uuid { bits: random_uuid_bits() }
    }

    /// The identity that no item has.
    pub fn nil() -> (r: Self)
        ensures
            r.bits == 0,
    {
        Uuid { bits: 0 }
    }
}

/// How the server list is ordered.
#[derive(Clone, Copy, Debug, PartialEq, Eq, Structural)]
pub enum ServerSort {
    Name,
    Tag,
    LastConnected,
}

impl ServerSort {
    /// The ordering after this one. Three steps lead back to the start.
    pub open spec fn after(self) -> ServerSort {
        match self {
            ServerSort::Name => ServerSort::Tag,
            ServerSort::Tag => ServerSort::LastConnected,
            ServerSort::LastConnected => ServerSort::Name,
        }
    }

    /// The ordering after this one.
    pub fn next(self) -> (r: ServerSort)
        ensures
            r == self.after(),
            r.after().after() == self,
    {
        match self {
            ServerSort::Name => ServerSort::Tag,
            ServerSort::Tag => ServerSort::LastConnected,
            ServerSort::LastConnected => ServerSort::Name,
        }
    }
}

/// Where a session opens: over the whole terminal, or in a pane beside the list.
#[derive(Clone, Copy, Debug, PartialEq, Eq, Structural)]
pub enum ConnectMode {
    FullScreen,
    Pane,
}

/// The decrypted vault.
pub struct Config {
    pub schema_version: u32,
    pub servers: Vec<ServerEntry>,
    /// Present in the modes with a second factor.
    pub totp: Option<TotpConfig>,
    /// Minutes of no key input before the vault locks. `0` disables it.
    pub auto_lock_minutes: u32,
    pub server_sort: ServerSort,
    pub connect_mode: ConnectMode,
}

/// The second factor's shared secret.
pub struct TotpConfig {
    pub secret_base32: Secret,
}

impl TotpConfig {
    /// How the secret is shown where a developer looks.
    pub fn debug_text(&self) -> (r: String)
        ensures
            r@ == "TotpConfig { secret_base32: \"<redacted>\" }"@,
    {
        owned("TotpConfig { secret_base32: \"<redacted>\" }")
    }
}

impl Clone for TotpConfig {
    fn clone(&self) -> (r: Self)
        ensures
            r == *self,
    {
        TotpConfig { secret_base32: self.secret_base32.clone() }
    }
}

/// The schema version of a config that does not state one.
pub fn default_schema_version() -> (r: u32)
    ensures
        r == CURRENT_SCHEMA_VERSION,
{
    CURRENT_SCHEMA_VERSION
}

/// The auto-lock time of a config that does not state one.
pub fn default_auto_lock_minutes() -> (r: u32)
    ensures
        r == DEFAULT_AUTO_LOCK_MINUTES,
{
    DEFAULT_AUTO_LOCK_MINUTES
}

impl Default for Config {
    fn default() -> (r: Self)
        ensures
            r.schema_version == CURRENT_SCHEMA_VERSION,
            r.servers@ == Seq::<ServerEntry>::empty(),
            r.totp is None,
            r.auto_lock_minutes == DEFAULT_AUTO_LOCK_MINUTES,
            r.server_sort == ServerSort::Name,
            r.connect_mode == ConnectMode::FullScreen,
    {
        Config {
            schema_version: CURRENT_SCHEMA_VERSION,
            servers: Vec::new(),
            totp: None,
            auto_lock_minutes: DEFAULT_AUTO_LOCK_MINUTES,
            server_sort: ServerSort::Name,
            connect_mode: ConnectMode::FullScreen,
        }
    }
}

/// One server and everything kept about it.
pub struct ServerEntry {
    pub id: Uuid,
    pub name: String,
    pub host: String,
    pub port: u16,
    pub username: String,
    pub tags: Vec<String>,
    pub auth: AuthMethod,
    /// Pinned on the first connect.
    pub host_key_fingerprint: Option<String>,
    /// Snapshot from the most recent connection that yielded one.
    pub system_info: Option<SystemInfo>,
    pub scripts: Vec<Script>,
    /// When the user last connected, whether or not the probe worked.
    pub last_connected_unix: Option<u64>,
    /// The bastion to connect through.
    pub jump_host: Option<Uuid>,
    pub forwards: Vec<ForwardRule>,
    /// Where the file browser's panes were left.
    pub last_remote_dir: Option<String>,
    pub last_local_dir: Option<String>,
}

impl ServerEntry {
    /// A server as it is first entered: nothing learned about it yet. Its
    /// identity is fresh.
    pub fn new(name: String, host: String, port: u16, username: String, auth: AuthMethod) -> (r: Self)
        ensures
            r.name == name,
            r.host == host,
            r.port == port,
            r.username == username,
            r.auth == auth,
            r.tags@ == Seq::<String>::empty(),
            r.host_key_fingerprint is None,
            r.system_info is None,
            r.scripts@ == Seq::<Script>::empty(),
            r.last_connected_unix is None,
            r.jump_host is None,
            r.forwards@ == Seq::<ForwardRule>::empty(),
            r.last_remote_dir is None,
            r.last_local_dir is None,
    {
        ServerEntry {
            id: Uuid::new_v4(),
            name,
            host,
            port,
            username,
            tags: Vec::new(),
            auth,
            host_key_fingerprint: None,
            system_info: None,
            scripts: Vec::new(),
            last_connected_unix: None,
            jump_host: None,
            forwards: Vec::new(),
            last_remote_dir: None,
            last_local_dir: None,
        }
    }
}

/// A named, ordered sequence of remote shell commands. Each step's condition
/// is judged by the step before it; the first step always runs.
pub struct Script {
    pub id: Uuid,
    pub name: String,
    pub run_on_connect: bool,
    pub steps: Vec<ScriptStep>,
}

pub struct ScriptStep {
    pub command: String,
    pub condition: StepCondition,
    /// How long the step may take; unset means the standard time.
    pub timeout_secs: Option<u64>,
}

#[derive(Debug)]
pub enum StepCondition {
    Always,
    OnSuccess,
    OnFailure,
    OutputContains(String),
}

impl Clone for StepCondition {
    fn clone(&self) -> (r: Self)
        ensures
            r == *self,
    {
        match self {
            StepCondition::Always => StepCondition::Always,
            StepCondition::OnSuccess => StepCondition::OnSuccess,
            StepCondition::OnFailure => StepCondition::OnFailure,
            StepCondition::OutputContains(needle) => StepCondition::OutputContains(needle.clone()),
        }
    }
}

/// Best-effort hardware snapshot. Every field is optional because not every
/// remote shell has every probing tool.
#[derive(Debug)]
pub struct SystemInfo {
    pub cpu_model: Option<String>,
    pub cpu_cores: Option<u32>,
    pub mem_total_bytes: Option<u64>,
    pub mem_used_bytes: Option<u64>,
    pub disk_total_bytes: Option<u64>,
    pub disk_used_bytes: Option<u64>,
    /// The first of `gpus`.
    pub gpu_model: Option<String>,
    pub gpus: Vec<String>,
    pub fetched_at_unix: u64,
}

impl SystemInfo {
    /// Whether two snapshots say the same.
    pub open spec fn same(self, other: SystemInfo) -> bool {
        &&& self.cpu_model == other.cpu_model
        &&& self.cpu_cores == other.cpu_cores
        &&& self.mem_total_bytes == other.mem_total_bytes
        &&& self.mem_used_bytes == other.mem_used_bytes
        &&& self.disk_total_bytes == other.disk_total_bytes
        &&& self.disk_used_bytes == other.disk_used_bytes
        &&& self.gpu_model == other.gpu_model
        &&& self.gpus@ == other.gpus@
        &&& self.fetched_at_unix == other.fetched_at_unix
    }
}

/// A copy of each text.
pub fn copy_texts(v: &Vec<String>) -> (r: Vec<String>)
    ensures
        r@ == v@,
{
    let mut out: Vec<String> = Vec::new();
    let mut i: usize = 0;
    while i < v.len()
        invariant
            i <= v@.len(),
            out@ == v@.take(i as int),
        decreases v@.len() - i,
    {
        out.push(v[i].clone());
        i = i + 1;
        assert(v@.take(i as int) =~= v@.take(i - 1).push(v@[i - 1]));
    }
    assert(v@.take(v@.len() as int) =~= v@);
    out
}

/// A copy of the text, if there is one.
pub fn copy_text(v: &Option<String>) -> (r: Option<String>)
    ensures
        r == *v,
{
    match v {
        Some(s) => Some(s.clone()),
        None => None,
    }
}

impl Clone for SystemInfo {
    fn clone(&self) -> (r: Self)
        ensures
            r.same(*self),
    {
        SystemInfo {
            cpu_model: copy_text(&self.cpu_model),
            cpu_cores: self.cpu_cores,
            mem_total_bytes: self.mem_total_bytes,
            mem_used_bytes: self.mem_used_bytes,
            disk_total_bytes: self.disk_total_bytes,
            disk_used_bytes: self.disk_used_bytes,
            gpu_model: copy_text(&self.gpu_model),
            gpus: copy_texts(&self.gpus),
            fetched_at_unix: self.fetched_at_unix,
        }
    }
}

impl Default for SystemInfo {
    fn default() -> (r: Self)
        ensures
            r.cpu_model is None,
            r.cpu_cores is None,
            r.mem_total_bytes is None,
            r.mem_used_bytes is None,
            r.disk_total_bytes is None,
            r.disk_used_bytes is None,
            r.gpu_model is None,
            r.gpus@ == Seq::<String>::empty(),
            r.fetched_at_unix == 0,
    {
        SystemInfo {
            cpu_model: None,
            cpu_cores: None,
            mem_total_bytes: None,
            mem_used_bytes: None,
            disk_total_bytes: None,
            disk_used_bytes: None,
            gpu_model: None,
            gpus: Vec::new(),
            fetched_at_unix: 0,
        }
    }
}

/// How to log in.
pub enum AuthMethod {
    Password { password: Secret },
    SshKey { key_path: String, passphrase: Option<Secret> },
    /// The keys stay in the ssh agent; nothing is stored.
    Agent,
}

impl Clone for AuthMethod {
    fn clone(&self) -> (r: Self)
        ensures
            r == *self,
    {
        match self {
            AuthMethod::Password { password } => AuthMethod::Password { password: password.clone() },
            AuthMethod::SshKey { key_path, passphrase } => AuthMethod::SshKey {
                key_path: key_path.clone(),
                passphrase: match passphrase {
                    Some(p) => Some(p.clone()),
                    None => None,
                },
            },
            AuthMethod::Agent => AuthMethod::Agent,
        }
    }
}

/// A text in quotation marks, as `std` shows it where a developer looks.
pub uninterp spec fn quoted(s: Seq<char>) -> Seq<char>;

/// `std`'s `Debug` for `str`: the text in quotation marks with what is not
/// plain escaped, a function of the text alone.
#[verifier::external_body]
pub(crate) fn quote(s: &str) -> (r: String)
    ensures
        r@ == quoted(s@),
{
    format!("{s:?}")
}

impl AuthMethod {
    /// Logging in with a password.
    pub fn password(password: String) -> (r: Self)
        ensures
            r matches AuthMethod::Password { password: p } && p@ == password@,
    {
        AuthMethod::Password { password: Secret::new(password) }
    }

    /// How a login method is shown where a developer looks: without its
    /// credential.
    pub open spec fn debug(self) -> Seq<char> {
        match self {
            AuthMethod::Password { .. } => "Password { password: \"<redacted>\" }"@,
            AuthMethod::SshKey { key_path, .. } => "SshKey { key_path: "@ + quoted(key_path@)
                + ", passphrase: \"<redacted>\" }"@,
            AuthMethod::Agent => "Agent"@,
        }
    }

    /// How a login method is shown where a developer looks.
    pub fn debug_text(&self) -> (r: String)
        ensures
            r@ == self.debug(),
    {
        match self {
            AuthMethod::Password { .. } => owned("Password { password: \"<redacted>\" }"),
            AuthMethod::SshKey { key_path, .. } => {
                let mut s = owned("SshKey { key_path: ");
                s.push_str(quote(key_path.as_str()).as_str());
                s.push_str(", passphrase: \"<redacted>\" }");
                s
            },
            AuthMethod::Agent => owned("Agent"),
        }
    }
}

/// What a forward listens on and leads to.
pub enum ForwardKind {
    Local { bind_addr: String, bind_port: u16, dest_host: String, dest_port: u16 },
    Remote { bind_addr: String, bind_port: u16, dest_host: String, dest_port: u16 },
    Dynamic { bind_addr: String, bind_port: u16 },
}

impl Clone for ForwardKind {
    fn clone(&self) -> (r: Self)
        ensures
            r == *self,
    {
        match self {
            ForwardKind::Local { bind_addr, bind_port, dest_host, dest_port } => ForwardKind::Local {
                bind_addr: bind_addr.clone(),
                bind_port: *bind_port,
                dest_host: dest_host.clone(),
                dest_port: *dest_port,
            },
            ForwardKind::Remote { bind_addr, bind_port, dest_host, dest_port } => ForwardKind::Remote {
                bind_addr: bind_addr.clone(),
                bind_port: *bind_port,
                dest_host: dest_host.clone(),
                dest_port: *dest_port,
            },
            ForwardKind::Dynamic { bind_addr, bind_port } => ForwardKind::Dynamic {
                bind_addr: bind_addr.clone(),
                bind_port: *bind_port,
            },
        }
    }
}

/// One port forward. A rule can be kept and turned off.
pub struct ForwardRule {
    pub id: Uuid,
    pub enabled: bool,
    pub kind: ForwardKind,
}

impl Clone for ForwardRule {
    fn clone(&self) -> (r: Self)
        ensures
            r == *self,
    {
        ForwardRule { id: self.id, enabled: self.enabled, kind: self.kind.clone() }
    }
}

/// `addr:port`.
pub open spec fn address(addr: Seq<char>, port: u16) -> Seq<char> {
    addr + ":"@ + decimal(port as nat)
}

fn push_address(s: &mut String, addr: &str, port: u16)
    ensures
        final(s)@ == old(s)@ + address(addr@, port),
{
    s.push_str(addr);
    s.push_str(":");
    push_decimal(s, port as u64);
    assert(s@ =~= old(s)@ + address(addr@, port));
}

impl ForwardRule {
    /// A new rule, turned on.
    pub fn new(kind: ForwardKind) -> (r: Self)
        ensures
            r.enabled,
            r.kind == kind,
    {
        ForwardRule { id: Uuid::new_v4(), enabled: true, kind }
    }

    /// The rule in one line.
    pub open spec fn line(self) -> Seq<char> {
        match self.kind {
            ForwardKind::Local { bind_addr, bind_port, dest_host, dest_port } => "L "@ + address(bind_addr@, bind_port)
                + " -> "@ + address(dest_host@, dest_port),
            ForwardKind::Remote { bind_addr, bind_port, dest_host, dest_port } => "R "@ + address(
                bind_addr@,
                bind_port,
            ) + " -> "@ + address(dest_host@, dest_port),
            ForwardKind::Dynamic { bind_addr, bind_port } => "D "@ + address(bind_addr@, bind_port),
        }
    }

    /// The rule in one line.
    pub fn label(&self) -> (r: String)
        ensures
            r@ == self.line(),
    {
        match &self.kind {
            ForwardKind::Local { bind_addr, bind_port, dest_host, dest_port } => {
                let mut s = owned("L ");
                push_address(&mut s, bind_addr.as_str(), *bind_port);
                s.push_str(" -> ");
                push_address(&mut s, dest_host.as_str(), *dest_port);
                s
            },
            ForwardKind::Remote { bind_addr, bind_port, dest_host, dest_port } => {
                let mut s = owned("R ");
                push_address(&mut s, bind_addr.as_str(), *bind_port);
                s.push_str(" -> ");
                push_address(&mut s, dest_host.as_str(), *dest_port);
                s
            },
            ForwardKind::Dynamic { bind_addr, bind_port } => {
                let mut s = owned("D ");
                push_address(&mut s, bind_addr.as_str(), *bind_port);
                s
            },
        }
    }
}

/// Where the server `id` stands in the list: its first place, or the length.
pub open spec fn server_index(servers: Seq<ServerEntry>, id: Uuid) -> int
    decreases servers.len(),
{
    if servers.len() == 0 || servers[0].id == id {
        0
    } else {
        1 + server_index(servers.drop_first(), id)
    }
}

/// Whether a server with this identity is in the list.
pub open spec fn has_server(servers: Seq<ServerEntry>, id: Uuid) -> bool {
    server_index(servers, id) < servers.len()
}

/// The place of a server is the first one with its identity.
pub proof fn lemma_server_index(servers: Seq<ServerEntry>, id: Uuid)
    ensures
        0 <= server_index(servers, id) <= servers.len(),
        forall|i: int| 0 <= i < server_index(servers, id) ==> (#[trigger] servers[i]).id != id,
        server_index(servers, id) < servers.len() ==> servers[server_index(servers, id)].id == id,
    decreases servers.len(),
{
    if servers.len() > 0 && servers[0].id != id {
        lemma_server_index(servers.drop_first(), id);
        assert forall|i: int| 0 <= i < server_index(servers, id) implies (#[trigger] servers[i]).id != id by {
            if i > 0 {
                assert(servers[i] == servers.drop_first()[i - 1]);
            }
        }
    }
}

/// The first place of the server `id`, if it is in the list.
pub fn find_server(servers: &[ServerEntry], id: Uuid) -> (r: Option<usize>)
    ensures
        match r {
            Some(i) => i < servers@.len() && i == server_index(servers@, id) && servers@[i as int].id == id,
            None => !has_server(servers@, id),
        },
{
    let mut i: usize = 0;
    while i < servers.len()
        invariant
            i <= servers@.len(),
            forall|j: int| 0 <= j < i ==> (#[trigger] servers@[j]).id != id,
        decreases servers@.len() - i,
    {
        if servers[i].id == id {
            proof {
                lemma_server_index(servers@, id);
            }
            return Some(i);
        }
        i = i + 1;
    }
    proof {
        lemma_server_index(servers@, id);
    }
    None
}

/// Where the script `id` stands in the list: its first place, or the length.
pub open spec fn script_index(scripts: Seq<Script>, id: Uuid) -> int
    decreases scripts.len(),
{
    if scripts.len() == 0 || scripts[0].id == id {
        0
    } else {
        1 + script_index(scripts.drop_first(), id)
    }
}

/// Whether a script with this identity is in the list.
pub open spec fn has_script(scripts: Seq<Script>, id: Uuid) -> bool {
    script_index(scripts, id) < scripts.len()
}

/// The place of a script is the first one with its identity.
pub proof fn lemma_script_index(scripts: Seq<Script>, id: Uuid)
    ensures
        0 <= script_index(scripts, id) <= scripts.len(),
        forall|i: int| 0 <= i < script_index(scripts, id) ==> (#[trigger] scripts[i]).id != id,
        script_index(scripts, id) < scripts.len() ==> scripts[script_index(scripts, id)].id == id,
    decreases scripts.len(),
{
    if scripts.len() > 0 && scripts[0].id != id {
        lemma_script_index(scripts.drop_first(), id);
        assert forall|i: int| 0 <= i < script_index(scripts, id) implies (#[trigger] scripts[i]).id != id by {
            if i > 0 {
                assert(scripts[i] == scripts.drop_first()[i - 1]);
            }
        }
    }
}

/// The first place of the script `id`, if it is in the list.
pub fn find_script(scripts: &[Script], id: Uuid) -> (r: Option<usize>)
    ensures
        match r {
            Some(i) => i < scripts@.len() && i == script_index(scripts@, id) && scripts@[i as int].id == id,
            None => !has_script(scripts@, id),
        },
{
    let mut i: usize = 0;
    while i < scripts.len()
        invariant
            i <= scripts@.len(),
            forall|j: int| 0 <= j < i ==> (#[trigger] scripts@[j]).id != id,
        decreases scripts@.len() - i,
    {
        if scripts[i].id == id {
            proof {
                lemma_script_index(scripts@, id);
            }
            return Some(i);
        }
        i = i + 1;
    }
    proof {
        lemma_script_index(scripts@, id);
    }
    None
}

/// The scripts without those of this identity.
pub open spec fn without_script(scripts: Seq<Script>, id: Uuid) -> Seq<Script>
    decreases scripts.len(),
{
    if scripts.len() == 0 {
        Seq::empty()
    } else {
        let front = without_script(scripts.drop_last(), id);
        if scripts.last().id == id {
            front
        } else {
            front.push(scripts.last())
        }
    }
}

/// Removes the scripts of this identity.
pub fn remove_script(scripts: &mut Vec<Script>, id: Uuid)
    ensures
        final(scripts)@ == without_script(old(scripts)@, id),
{
    let ghost all = scripts@;
    let ghost mut seen: int = 0;
    let mut i: usize = 0;
    assert(scripts@ =~= without_script(all.take(0), id) + all.skip(0));
    while i < scripts.len()
        invariant
            0 <= seen <= all.len(),
            i == without_script(all.take(seen), id).len(),
            scripts@ == without_script(all.take(seen), id) + all.skip(seen),
        decreases scripts@.len() - i,
    {
        let ghost kept = without_script(all.take(seen), id);
        proof {
            assert(scripts@[i as int] == all.skip(seen)[0]);
            assert(all.take(seen + 1).drop_last() =~= all.take(seen));
        }
        if scripts[i].id == id {
            scripts.remove(i);
            proof {
                seen = seen + 1;
                assert(scripts@ =~= kept + all.skip(seen));
            }
        } else {
            i = i + 1;
            proof {
                seen = seen + 1;
                assert(scripts@ =~= kept.push(all[seen - 1]) + all.skip(seen));
            }
        }
    }
    proof {
        assert(all.skip(seen).len() == 0);
        assert(all.take(seen) =~= all);
        assert(scripts@ =~= without_script(all, id));
    }
}

/// Where the forward `id` stands in the list: its first place, or the length.
pub open spec fn forward_index(forwards: Seq<ForwardRule>, id: Uuid) -> int
    decreases forwards.len(),
{
    if forwards.len() == 0 || forwards[0].id == id {
        0
    } else {
        1 + forward_index(forwards.drop_first(), id)
    }
}

/// Whether a forward with this identity is in the list.
pub open spec fn has_forward(forwards: Seq<ForwardRule>, id: Uuid) -> bool {
    forward_index(forwards, id) < forwards.len()
}

/// The place of a forward is the first one with its identity.
pub proof fn lemma_forward_index(forwards: Seq<ForwardRule>, id: Uuid)
    ensures
        0 <= forward_index(forwards, id) <= forwards.len(),
        forall|i: int| 0 <= i < forward_index(forwards, id) ==> (#[trigger] forwards[i]).id != id,
        forward_index(forwards, id) < forwards.len() ==> forwards[forward_index(forwards, id)].id == id,
    decreases forwards.len(),
{
    if forwards.len() > 0 && forwards[0].id != id {
        lemma_forward_index(forwards.drop_first(), id);
        assert forall|i: int| 0 <= i < forward_index(forwards, id) implies (#[trigger] forwards[i]).id != id by {
            if i > 0 {
                assert(forwards[i] == forwards.drop_first()[i - 1]);
            }
        }
    }
}

/// The first place of the forward `id`, if it is in the list.
pub fn find_forward(forwards: &[ForwardRule], id: Uuid) -> (r: Option<usize>)
    ensures
        match r {
            Some(i) => i < forwards@.len() && i == forward_index(forwards@, id) && forwards@[i as int].id == id,
            None => !has_forward(forwards@, id),
        },
{
    let mut i: usize = 0;
    while i < forwards.len()
        invariant
            i <= forwards@.len(),
            forall|j: int| 0 <= j < i ==> (#[trigger] forwards@[j]).id != id,
        decreases forwards@.len() - i,
    {
        if forwards[i].id == id {
            proof {
                lemma_forward_index(forwards@, id);
            }
            return Some(i);
        }
        i = i + 1;
    }
    proof {
        lemma_forward_index(forwards@, id);
    }
    None
}

/// The forwards without those of this identity.
pub open spec fn without_forward(forwards: Seq<ForwardRule>, id: Uuid) -> Seq<ForwardRule>
    decreases forwards.len(),
{
    if forwards.len() == 0 {
        Seq::empty()
    } else {
        let front = without_forward(forwards.drop_last(), id);
        if forwards.last().id == id {
            front
        } else {
            front.push(forwards.last())
        }
    }
}

/// Removes the forwards of this identity.
pub fn remove_forward(forwards: &mut Vec<ForwardRule>, id: Uuid)
    ensures
        final(forwards)@ == without_forward(old(forwards)@, id),
{
    let ghost all = forwards@;
    let ghost mut seen: int = 0;
    let mut i: usize = 0;
    assert(forwards@ =~= without_forward(all.take(0), id) + all.skip(0));
    while i < forwards.len()
        invariant
            0 <= seen <= all.len(),
            i == without_forward(all.take(seen), id).len(),
            forwards@ == without_forward(all.take(seen), id) + all.skip(seen),
        decreases forwards@.len() - i,
    {
        let ghost kept = without_forward(all.take(seen), id);
        proof {
            assert(forwards@[i as int] == all.skip(seen)[0]);
            assert(all.take(seen + 1).drop_last() =~= all.take(seen));
        }
        if forwards[i].id == id {
            forwards.remove(i);
            proof {
                seen = seen + 1;
                assert(forwards@ =~= kept + all.skip(seen));
            }
        } else {
            i = i + 1;
            proof {
                seen = seen + 1;
                assert(forwards@ =~= kept.push(all[seen - 1]) + all.skip(seen));
            }
        }
    }
    proof {
        assert(all.skip(seen).len() == 0);
        assert(all.take(seen) =~= all);
        assert(forwards@ =~= without_forward(all, id));
    }
}

/// A server as it stands once `gone` is deleted: connected direct, if it was
/// reached through it.
pub open spec fn detached(e: ServerEntry, gone: Uuid) -> ServerEntry {
    if e.jump_host == Some(gone) {
        ServerEntry { jump_host: None, ..e }
    } else {
        e
    }
}

/// The servers once `gone` is deleted.
pub open spec fn without_server(servers: Seq<ServerEntry>, gone: Uuid) -> Seq<ServerEntry>
    decreases servers.len(),
{
    if servers.len() == 0 {
        Seq::empty()
    } else {
        let front = without_server(servers.drop_last(), gone);
        if servers.last().id == gone {
            front
        } else {
            front.push(detached(servers.last(), gone))
        }
    }
}

/// Deletes the server `gone`. Anything that connected through it now connects
/// direct: a reference left pointing at a deleted entry would fail only when
/// it is used.
pub fn delete_server(servers: &mut Vec<ServerEntry>, gone: Uuid)
    ensures
        final(servers)@ == without_server(old(servers)@, gone),
{
    let ghost all = servers@;
    let ghost mut seen: int = 0;
    let mut i: usize = 0;
    assert(servers@ =~= without_server(all.take(0), gone) + all.skip(0));
    while i < servers.len()
        invariant
            0 <= seen <= all.len(),
            i == without_server(all.take(seen), gone).len(),
            servers@ == without_server(all.take(seen), gone) + all.skip(seen),
        decreases servers@.len() - i,
    {
        let ghost kept = without_server(all.take(seen), gone);
        proof {
            assert(servers@[i as int] == all.skip(seen)[0]);
            assert(all.take(seen + 1).drop_last() =~= all.take(seen));
        }
        if servers[i].id == gone {
            servers.remove(i);
            proof {
                seen = seen + 1;
                assert(servers@ =~= kept + all.skip(seen));
            }
        } else {
            let through: bool = match servers[i].jump_host {
                Some(id) => id == gone,
                None => false,
            };
            if through {
                servers[i].jump_host = None;
            }
            i = i + 1;
            proof {
                seen = seen + 1;
                assert(servers@ =~= kept.push(detached(all[seen - 1], gone)) + all.skip(seen));
            }
        }
    }
    proof {
        assert(all.skip(seen).len() == 0);
        assert(all.take(seen) =~= all);
        assert(servers@ =~= without_server(all, gone));
    }
}

/// After a deletion no server has the deleted identity, and none connects
/// through it.
pub proof fn a_deleted_server_leaves_no_reference(servers: Seq<ServerEntry>, gone: Uuid)
    ensures
        forall|i: int|
            0 <= i < without_server(servers, gone).len() ==> (#[trigger] without_server(servers, gone)[i]).id != gone
                && without_server(servers, gone)[i].jump_host != Some(gone),
    decreases servers.len(),
{
    if servers.len() > 0 {
        a_deleted_server_leaves_no_reference(servers.drop_last(), gone);
        let front = without_server(servers.drop_last(), gone);
        let all = without_server(servers, gone);
        assert forall|i: int| 0 <= i < all.len() implies (#[trigger] all[i]).id != gone && all[i].jump_host != Some(
            gone,
        ) by {
            if i < front.len() {
                assert(all[i] == front[i]);
            }
        }
    }
}

/// Deleting from two lists, one behind the other, is deleting from each.
pub proof fn deletions_join(a: Seq<ServerEntry>, b: Seq<ServerEntry>, gone: Uuid)
    ensures
        without_server(a + b, gone) == without_server(a, gone) + without_server(b, gone),
    decreases b.len(),
{
    if b.len() == 0 {
        assert(a + b =~= a);
        assert(without_server(a, gone) + without_server(b, gone) =~= without_server(a, gone));
    } else {
        assert((a + b).drop_last() =~= a + b.drop_last());
        deletions_join(a, b.drop_last(), gone);
        assert(without_server(a + b, gone) =~= without_server(a, gone) + without_server(b, gone));
    }
}

/// Of one server a deletion leaves nothing where it is the one that goes, else
/// all of it; only where it is reached through the one that goes, it is reached
/// directly from then on.
pub proof fn a_deletion_keeps_every_other_server(e: ServerEntry, gone: Uuid)
    ensures
        e.id == gone ==> without_server(seq![e], gone).len() == 0,
        e.id != gone && e.jump_host != Some(gone) ==> without_server(seq![e], gone) == seq![e],
        e.id != gone && e.jump_host == Some(gone) ==> without_server(seq![e], gone) == seq![
            ServerEntry { jump_host: None, ..e },
        ],
{
    assert(seq![e].drop_last() =~= Seq::empty());
    assert(without_server(Seq::<ServerEntry>::empty(), gone) =~= Seq::empty());
    assert(Seq::<ServerEntry>::empty().push(detached(e, gone)) =~= seq![detached(e, gone)]);
}

/// Removing a script from two lists, one behind the other, is removing it from
/// each.
pub proof fn removed_scripts_join(a: Seq<Script>, b: Seq<Script>, id: Uuid)
    ensures
        without_script(a + b, id) == without_script(a, id) + without_script(b, id),
    decreases b.len(),
{
    if b.len() == 0 {
        assert(a + b =~= a);
        assert(without_script(a, id) + without_script(b, id) =~= without_script(a, id));
    } else {
        assert((a + b).drop_last() =~= a + b.drop_last());
        removed_scripts_join(a, b.drop_last(), id);
        assert(without_script(a + b, id) =~= without_script(a, id) + without_script(b, id));
    }
}

/// Only the script with the identity goes, and every other stays as it is.
pub proof fn only_that_script_goes(script: Script, id: Uuid)
    ensures
        script.id == id ==> without_script(seq![script], id).len() == 0,
        script.id != id ==> without_script(seq![script], id) == seq![script],
{
    assert(seq![script].drop_last() =~= Seq::empty());
    assert(without_script(Seq::<Script>::empty(), id) =~= Seq::empty());
    assert(Seq::<Script>::empty().push(script) =~= seq![script]);
}

/// Removing a rule from two lists, one behind the other, is removing it from
/// each.
pub proof fn removed_forwards_join(a: Seq<ForwardRule>, b: Seq<ForwardRule>, id: Uuid)
    ensures
        without_forward(a + b, id) == without_forward(a, id) + without_forward(b, id),
    decreases b.len(),
{
    if b.len() == 0 {
        assert(a + b =~= a);
        assert(without_forward(a, id) + without_forward(b, id) =~= without_forward(a, id));
    } else {
        assert((a + b).drop_last() =~= a + b.drop_last());
        removed_forwards_join(a, b.drop_last(), id);
        assert(without_forward(a + b, id) =~= without_forward(a, id) + without_forward(b, id));
    }
}

/// Only the rule with the identity goes, and every other stays as it is.
pub proof fn only_that_forward_goes(rule: ForwardRule, id: Uuid)
    ensures
        rule.id == id ==> without_forward(seq![rule], id).len() == 0,
        rule.id != id ==> without_forward(seq![rule], id) == seq![rule],
{
    assert(seq![rule].drop_last() =~= Seq::empty());
    assert(without_forward(Seq::<ForwardRule>::empty(), id) =~= Seq::empty());
    assert(Seq::<ForwardRule>::empty().push(rule) =~= seq![rule]);
}

/// A rule's line begins with its kind, and gives where it listens and, but for a
/// dynamic one, where it leads.
pub proof fn a_rule_is_shown_with_both_ends(rule: ForwardRule)
    ensures
        rule.kind matches ForwardKind::Local { bind_addr, bind_port, dest_host, dest_port } ==> rule.line() == "L "@ + (
        bind_addr@ + ":"@ + decimal(bind_port as nat)) + " -> "@ + (dest_host@ + ":"@ + decimal(dest_port as nat)),
        rule.kind matches ForwardKind::Remote { bind_addr, bind_port, dest_host, dest_port } ==> rule.line() == "R "@ + (
        bind_addr@ + ":"@ + decimal(bind_port as nat)) + " -> "@ + (dest_host@ + ":"@ + decimal(dest_port as nat)),
        rule.kind matches ForwardKind::Dynamic { bind_addr, bind_port } ==> rule.line() == "D "@ + (bind_addr@ + ":"@
            + decimal(bind_port as nat)),
{
}

/// The orderings follow one another in a circle: by name, by tag, by the last
/// connection.
pub proof fn the_orderings_go_round(sort: ServerSort)
    ensures
        sort == ServerSort::Name ==> sort.after() == ServerSort::Tag,
        sort == ServerSort::Tag ==> sort.after() == ServerSort::LastConnected,
        sort.after().after().after() == sort,
{
}

/// What a new entry, a new rule and an entry without a setting start with.
pub proof fn the_defaults_are_these(
    name: String,
    host: String,
    port: u16,
    username: String,
    auth: AuthMethod,
    kind: ForwardKind,
    e: ServerEntry,
    rule: ForwardRule,
)
    requires
        call_ensures(ServerEntry::new, (name, host, port, username, auth), e),
        call_ensures(ForwardRule::new, (kind,), rule),
    ensures
        e.name == name && e.host == host && e.port == port && e.username == username && e.auth == auth,
        e.jump_host is None && e.host_key_fingerprint is None && e.scripts@.len() == 0 && e.forwards@.len() == 0,
        rule.enabled && rule.kind == kind,
        DEFAULT_PORT == 22,
        DEFAULT_AUTO_LOCK_MINUTES == 15,
        CURRENT_SCHEMA_VERSION == 1,
{
}

} // verus!
