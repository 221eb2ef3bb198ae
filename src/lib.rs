//! A small task manager: a store of tasks with due dates, a parser for
//! free-text field updates, filters by due-date bucket and by completion,
//! and statistics over the store.

pub mod cli;
pub mod config;
pub mod crud;
pub mod error;
pub mod filtering;
pub mod stats;
pub mod task;
pub mod text;
pub mod time;
pub mod update;

pub use error::TaskError;
pub use task::Task;
pub use time::Timestamp;
pub use update::{parse_update_fields, TaskCommandUpdateArgs, UpdateFields};
pub use filtering::{CompletionFilter, DueFilter};
pub use stats::Stats;
pub use crud::Tasks;
pub use cli::{run, TaskCommand};
pub use config::Config;
