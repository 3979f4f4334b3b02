//! What the command line decides. Its texts are English and held stable: shell
//! scripts read them as much as people do.
pub mod list;
pub mod resolve;
pub mod unlock;
