//! A local git fleet synchronizer core: discovery of repository
//! specifications, a safety-first per-repository sync state machine,
//! an orchestrator with adaptive concurrency, and a persistent event
//! and state store, all with verified contracts.

pub mod config;
pub mod daemon;
pub mod discovery;
pub mod ext;
pub mod git;
pub mod github;
pub mod glob;
pub mod health;
pub mod machine;
pub mod state;
pub mod strutil;
pub mod sync;

pub use config::Config;
pub use daemon::DaemonStatus;
pub use git::{GitClient, RepoState, SyncResult};
pub use sync::{SyncEngine, SyncSummary};
