//! What can go wrong, and how it is said.
use vstd::prelude::*;

use crate::text::{decimal, owned, push_decimal};

verus! {

/// Every failure the application reports.
#[derive(Debug)]
pub enum AppError {
    Io(String),
    NoConfigDir,
    ConfigNotFound(String),
    WrongPasswordOrCorrupt,
    NotOurFile,
    UnsupportedFormatVersion(u8),
    CorruptFile(String),
    Serde(String),
    Validation(String),
    SshConnect(String),
    SshAuthFailed(String),
    /// The ssh agent could not be used. Not an authentication failure: the
    /// server never got to judge a key.
    SshAgent(String),
    Ssh(String),
    HostKeyChanged { fingerprint: String },
    /// A bastion on the way to the target could not be passed.
    JumpFailed { host: String, source: Box<AppError> },
    Kdf(String),
    Crypto(String),
    /// The decrypted config was written by a newer version.
    ///
    /// Refused rather than opened: fields this build does not know would be
    /// dropped, and every save rewrites the whole config.
    SchemaTooNew { found: u32, supported: u32 },
    /// Another running instance holds this vault's advisory lock.
    VaultInUse,
    /// A malformed frame, a desynced stream, or a reply whose request id does
    /// not match. The stream cannot be trusted afterwards.
    Sftp(String),
    /// The server answered, and said no.
    SftpStatus { code: u32, path: String, message: String },
    /// The OS credential store could not be reached or did not hold what was
    /// expected.
    Keyring(String),
    /// The command line asked for something that cannot be done.
    Cli(String),
}

/// An `AppError` with its texts as character sequences.
pub enum ErrorView {
    Io(Seq<char>),
    NoConfigDir,
    ConfigNotFound(Seq<char>),
    WrongPasswordOrCorrupt,
    NotOurFile,
    UnsupportedFormatVersion(u8),
    CorruptFile(Seq<char>),
    Serde(Seq<char>),
    Validation(Seq<char>),
    SshConnect(Seq<char>),
    SshAuthFailed(Seq<char>),
    SshAgent(Seq<char>),
    Ssh(Seq<char>),
    HostKeyChanged { fingerprint: Seq<char> },
    JumpFailed { host: Seq<char>, source: Box<ErrorView> },
    Kdf(Seq<char>),
    Crypto(Seq<char>),
    SchemaTooNew { found: u32, supported: u32 },
    VaultInUse,
    Sftp(Seq<char>),
    SftpStatus { code: u32, path: Seq<char>, message: Seq<char> },
    Keyring(Seq<char>),
    Cli(Seq<char>),
}

/// The error with its texts as character sequences.
pub open spec fn error_view(e: AppError) -> ErrorView
    decreases e,
{
    match e {
        AppError::Io(s) => ErrorView::Io(s@),
        AppError::NoConfigDir => ErrorView::NoConfigDir,
        AppError::ConfigNotFound(s) => ErrorView::ConfigNotFound(s@),
        AppError::WrongPasswordOrCorrupt => ErrorView::WrongPasswordOrCorrupt,
        AppError::NotOurFile => ErrorView::NotOurFile,
        AppError::UnsupportedFormatVersion(v) => ErrorView::UnsupportedFormatVersion(v),
        AppError::CorruptFile(s) => ErrorView::CorruptFile(s@),
        AppError::Serde(s) => ErrorView::Serde(s@),
        AppError::Validation(s) => ErrorView::Validation(s@),
        AppError::SshConnect(s) => ErrorView::SshConnect(s@),
        AppError::SshAuthFailed(s) => ErrorView::SshAuthFailed(s@),
        AppError::SshAgent(s) => ErrorView::SshAgent(s@),
        AppError::Ssh(s) => ErrorView::Ssh(s@),
        AppError::HostKeyChanged { fingerprint } => ErrorView::HostKeyChanged { fingerprint: fingerprint@ },
        AppError::JumpFailed { host, source } => ErrorView::JumpFailed {
            host: host@,
            source: Box::new(error_view(*source)),
        },
        AppError::Kdf(s) => ErrorView::Kdf(s@),
        AppError::Crypto(s) => ErrorView::Crypto(s@),
        AppError::SchemaTooNew { found, supported } => ErrorView::SchemaTooNew { found, supported },
        AppError::VaultInUse => ErrorView::VaultInUse,
        AppError::Sftp(s) => ErrorView::Sftp(s@),
        AppError::SftpStatus { code, path, message } => ErrorView::SftpStatus { code, path: path@, message: message@ },
        AppError::Keyring(s) => ErrorView::Keyring(s@),
        AppError::Cli(s) => ErrorView::Cli(s@),
    }
}

impl View for AppError {
    type V = ErrorView;

    open spec fn view(&self) -> ErrorView {
        error_view(*self)
    }
}

/// The sentence an error is shown as.
pub open spec fn error_text(e: ErrorView) -> Seq<char>
    decreases e,
{
    match e {
        ErrorView::Io(s) => "I/O error: "@ + s,
        ErrorView::NoConfigDir => "could not determine config directory"@,
        ErrorView::ConfigNotFound(s) => "config file not found at "@ + s,
        ErrorView::WrongPasswordOrCorrupt => "incorrect password"@,
        ErrorView::NotOurFile => "not a ssh-control config file"@,
        ErrorView::UnsupportedFormatVersion(v) => "unsupported config format version "@ + decimal(v as nat),
        ErrorView::CorruptFile(s) => "config file is corrupt: "@ + s,
        ErrorView::Serde(s) => "serialization error: "@ + s,
        ErrorView::Validation(s) => "validation error: "@ + s,
        ErrorView::SshConnect(s) => "connection failed: "@ + s,
        ErrorView::SshAuthFailed(s) => "authentication failed: "@ + s,
        ErrorView::SshAgent(s) => "ssh agent: "@ + s,
        ErrorView::Ssh(s) => "ssh error: "@ + s,
        ErrorView::HostKeyChanged { fingerprint } => "host key changed for this server: new fingerprint "@
            + fingerprint,
        ErrorView::JumpFailed { host, source } => "jump host "@ + host + ": "@ + error_text(*source),
        ErrorView::Kdf(s) => "key derivation error: "@ + s,
        ErrorView::Crypto(s) => "encryption error: "@ + s,
        ErrorView::SchemaTooNew { found, supported } =>
            "this vault was written by a newer version of ssh-control (schema "@ + decimal(found as nat)
            + ", this build understands "@ + decimal(supported as nat) + ") — upgrade to open it"@,
        ErrorView::VaultInUse => "another instance of ssh-control already has this vault open"@,
        ErrorView::Sftp(s) => "sftp error: "@ + s,
        ErrorView::SftpStatus { code: _, path, message } => message + " ("@ + path + ")"@,
        ErrorView::Keyring(s) => "credential store error: "@ + s,
        ErrorView::Cli(s) => s,
    }
}

/// `prefix` with `rest` behind it.
fn said(prefix: &str, rest: &str) -> (r: String)
    ensures
        r@ == prefix@ + rest@,
{
    let mut s = owned(prefix);
    s.push_str(rest);
    s
}

impl AppError {
    /// The sentence this error is shown as.
    pub fn message(&self) -> (r: String)
        ensures
            r@ == error_text(self@),
        decreases self,
    {
        match self {
            AppError::Io(s) => said("I/O error: ", s.as_str()),
            AppError::NoConfigDir => owned("could not determine config directory"),
            AppError::ConfigNotFound(s) => said("config file not found at ", s.as_str()),
            AppError::WrongPasswordOrCorrupt => owned("incorrect password"),
            AppError::NotOurFile => owned("not a ssh-control config file"),
            AppError::UnsupportedFormatVersion(v) => {
                let mut s = owned("unsupported config format version ");
                push_decimal(&mut s, *v as u64);
                s
            },
            AppError::CorruptFile(s) => said("config file is corrupt: ", s.as_str()),
            AppError::Serde(s) => said("serialization error: ", s.as_str()),
            AppError::Validation(s) => said("validation error: ", s.as_str()),
            AppError::SshConnect(s) => said("connection failed: ", s.as_str()),
            AppError::SshAuthFailed(s) => said("authentication failed: ", s.as_str()),
            AppError::SshAgent(s) => said("ssh agent: ", s.as_str()),
            AppError::Ssh(s) => said("ssh error: ", s.as_str()),
            AppError::HostKeyChanged { fingerprint } => said(
                "host key changed for this server: new fingerprint ",
                fingerprint.as_str(),
            ),
            AppError::JumpFailed { host, source } => {
                let mut s = said("jump host ", host.as_str());
                s.push_str(": ");
                s.push_str(source.message().as_str());
                s
            },
            AppError::Kdf(s) => said("key derivation error: ", s.as_str()),
            AppError::Crypto(s) => said("encryption error: ", s.as_str()),
            AppError::SchemaTooNew { found, supported } => {
                let mut s = owned("this vault was written by a newer version of ssh-control (schema ");
                push_decimal(&mut s, *found as u64);
                s.push_str(", this build understands ");
                push_decimal(&mut s, *supported as u64);
                s.push_str(") — upgrade to open it");
                s
            },
            AppError::VaultInUse => owned("another instance of ssh-control already has this vault open"),
            AppError::Sftp(s) => said("sftp error: ", s.as_str()),
            AppError::SftpStatus { code: _, path, message } => {
                let mut s = said(message.as_str(), " (");
                s.push_str(path.as_str());
                s.push_str(")");
                s
            },
            AppError::Keyring(s) => said("credential store error: ", s.as_str()),
            AppError::Cli(s) => owned(s.as_str()),
        }
    }
}

/// Every error is told in its own words, with the reason it carries in full.
pub proof fn an_error_is_told_with_its_reason(e: ErrorView)
    ensures
        e matches ErrorView::Io(s) ==> error_text(e) == "I/O error: "@ + s,
        e is NoConfigDir ==> error_text(e) == "could not determine config directory"@,
        e matches ErrorView::ConfigNotFound(s) ==> error_text(e) == "config file not found at "@ + s,
        e is WrongPasswordOrCorrupt ==> error_text(e) == "incorrect password"@,
        e is NotOurFile ==> error_text(e) == "not a ssh-control config file"@,
        e matches ErrorView::UnsupportedFormatVersion(v) ==> error_text(e) == "unsupported config format version "@
            + decimal(v as nat),
        e matches ErrorView::CorruptFile(s) ==> error_text(e) == "config file is corrupt: "@ + s,
        e matches ErrorView::Serde(s) ==> error_text(e) == "serialization error: "@ + s,
        e matches ErrorView::Validation(s) ==> error_text(e) == "validation error: "@ + s,
        e matches ErrorView::SshConnect(s) ==> error_text(e) == "connection failed: "@ + s,
        e matches ErrorView::SshAuthFailed(s) ==> error_text(e) == "authentication failed: "@ + s,
        e matches ErrorView::SshAgent(s) ==> error_text(e) == "ssh agent: "@ + s,
        e matches ErrorView::Ssh(s) ==> error_text(e) == "ssh error: "@ + s,
        e matches ErrorView::HostKeyChanged { fingerprint } ==> error_text(e)
            == "host key changed for this server: new fingerprint "@ + fingerprint,
        e matches ErrorView::JumpFailed { host, source } ==> error_text(e) == "jump host "@ + host + ": "@ + error_text(
            *source,
        ),
        e matches ErrorView::Kdf(s) ==> error_text(e) == "key derivation error: "@ + s,
        e matches ErrorView::Crypto(s) ==> error_text(e) == "encryption error: "@ + s,
        e matches ErrorView::SchemaTooNew { found, supported } ==> error_text(e)
            == "this vault was written by a newer version of ssh-control (schema "@ + decimal(found as nat)
            + ", this build understands "@ + decimal(supported as nat) + ") — upgrade to open it"@,
        e is VaultInUse ==> error_text(e) == "another instance of ssh-control already has this vault open"@,
        e matches ErrorView::Sftp(s) ==> error_text(e) == "sftp error: "@ + s,
        e matches ErrorView::SftpStatus { path, message, .. } ==> error_text(e) == message + " ("@ + path + ")"@,
        e matches ErrorView::Keyring(s) ==> error_text(e) == "credential store error: "@ + s,
        e matches ErrorView::Cli(s) ==> error_text(e) == s,
{
}

/// An error and its view are of one kind, with the same texts.
pub proof fn an_error_keeps_its_kind(e: AppError)
    ensures
        e matches AppError::Kdf(s) ==> e@ == ErrorView::Kdf(s@),
        e matches AppError::Crypto(s) ==> e@ == ErrorView::Crypto(s@),
        e matches AppError::CorruptFile(s) ==> e@ == ErrorView::CorruptFile(s@),
        e matches AppError::Validation(s) ==> e@ == ErrorView::Validation(s@),
        e matches AppError::Cli(s) ==> e@ == ErrorView::Cli(s@),
        e matches AppError::Sftp(s) ==> e@ == ErrorView::Sftp(s@),
        e matches AppError::Ssh(s) ==> e@ == ErrorView::Ssh(s@),
        e matches AppError::Io(s) ==> e@ == ErrorView::Io(s@),
        e matches AppError::Keyring(s) ==> e@ == ErrorView::Keyring(s@),
        e is WrongPasswordOrCorrupt <==> e@ is WrongPasswordOrCorrupt,
        e is VaultInUse <==> e@ is VaultInUse,
        e matches AppError::SchemaTooNew { found, supported } ==> e@ == (ErrorView::SchemaTooNew { found, supported }),
        e matches AppError::HostKeyChanged { fingerprint } ==> e@ == (ErrorView::HostKeyChanged {
            fingerprint: fingerprint@,
        }),
        e matches AppError::SftpStatus { code, path, message } ==> e@ == (ErrorView::SftpStatus {
            code,
            path: path@,
            message: message@,
        }),
{
}

} // verus!
