//! The application's state machine.
//!
//! Nothing here reads a file, a key or a clock. A step changes the state and
//! says what has to be done outside; what came of that is handed back in, and
//! changes the state again.
pub mod editing;
pub mod files;
pub mod flows;
pub mod keys;
pub mod laws;
pub mod locked;
pub mod saves;
pub mod sessions;
pub mod second_factor;
pub mod security;
pub mod state;
pub mod steps;
