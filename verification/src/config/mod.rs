//! The vault: its file format, its key slots, and what it holds.
pub mod debug;
pub mod device;
pub mod format;
pub mod keyslot;
pub mod migrate;
pub mod model;
pub mod secret;
pub mod store;

pub use model::{
    AuthMethod, Config, ConnectMode, ForwardKind, ForwardRule, Script, ScriptStep, ServerEntry, ServerSort,
    StepCondition, SystemInfo, TotpConfig, Uuid,
};
pub use secret::Secret;
pub use store::{ConfigStore, Unlocked};
