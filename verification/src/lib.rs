//! Verified core of the Minerva on-disk storage layer.

pub mod text;
pub mod error;
pub mod schema;
pub mod path;
pub mod layout;
pub mod atomic_write;
pub mod file_lock;
pub mod findings;
pub mod event_log;
pub mod task_index;
pub mod validation;
pub mod catalog;
pub mod project_init;
pub mod repair;
pub mod yaml;
pub mod migration;
pub mod documents;
pub mod repository;

pub use atomic_write::{temp_path, AtomicReplace, ReplaceAction, ReplaceStep};
pub use error::MinervaError;
pub use layout::{project_layout, task_layout, LayoutClass, LayoutEntry, MinervaLayout};
pub use project_init::{agents_md, instructions_md, SCHEMA_VERSION};
pub use repository::{FilesystemProjectRepository, FilesystemTaskRepository};
pub use task_index::{task_index_status, TaskIndexStatus};
