//! The core of `pilot`, a task runner: the task model and the task file's
//! schema, the command line, the decisions of the task executor, the
//! sanitizer of captured terminal output, and the colour and alignment
//! bookkeeping of interleaved output.

pub mod cli;
pub mod executor;
pub mod load;
pub mod output;
pub mod sanitize;
pub mod tasks;
