//! Turns a table or a directory of paired files into one batch-scheduler job
//! array: resolves the command of every task, plans the concurrency limit,
//! renders the submission and reads back the scheduler's answers.
//!
//! The library reads no file and starts no process. It takes the bytes of the
//! table, or the names of the files, and says what is to be written and run;
//! it takes the scheduler's answers as text and says what they mean.

pub mod decimal;
pub mod error;
pub mod joblog;
pub mod jobs;
pub mod order;
pub mod pairs;
pub mod scheduler;
pub mod split;
pub mod status;
pub mod submission;
pub mod text;
