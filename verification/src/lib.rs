//! Branch ranking and selection for an interactive branch switcher.
//!
//! The library holds the decisions of a session: how the settings are
//! resolved, which branches make up the catalog, how they are ranked and
//! windowed, which options are offered, and what the picker's answer means.

pub mod branch;
pub mod config;
pub mod options;
pub mod rank;
pub mod session;
pub mod store;
pub mod text;

pub use config::Config;
pub use session::SelectBranchError;
