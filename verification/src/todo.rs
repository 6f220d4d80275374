//! A task list in layers: the tasks themselves, the repository that holds
//! them, the use cases that work on a repository, and an application that
//! ties them to a repository in memory.

pub mod domain;
pub mod infrastructure;
pub mod ports;
pub mod todo_app;
pub mod use_cases;
