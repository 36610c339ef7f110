//! A personal task manager's core: flexible due-date interpretation,
//! phrase extraction from free text, and the ordering and filtering of tasks.

pub mod calendar;
pub mod commands;
pub mod date_parser;
pub mod error;
pub mod filter;
pub mod moment;
pub mod renderer;
pub mod storage;
pub mod task;
pub mod text;
