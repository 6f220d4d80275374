//! Small, verified building blocks: text parsers, validated newtypes, text
//! statistics, a task list and a levelled logger.

pub mod calculator;
pub mod logging;
pub mod parser;
pub mod text;
pub mod text_stats;
pub mod todo;
pub mod unicode;
pub mod validation;
