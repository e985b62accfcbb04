// A task list kept as one line per task in a text file: reading and writing those lines,
// sorting tasks by due date, and grouping them by that date against the current day.

pub mod config;
pub mod date;
pub mod laws;
pub mod order;
pub mod task;
pub mod task_handler;
pub mod text;
