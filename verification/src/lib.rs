//! The front end and the orchestration of a small interactive shell.
//!
//! A line of text becomes tokens ([`tokenizer`]), the tokens become the stages
//! of a pipeline ([`pipeline`]), and the pipeline is run either by the shell
//! itself ([`shell`]) or as processes joined by pipes ([`process`],
//! [`piping`]); [`execute`] makes the choice. Assignments and references to
//! variables are recognised by [`parser`] and kept in [`variables`].
//!
//! The library decides and describes; it starts no process and prints
//! nothing. The one thing it does to its surroundings is to fetch and to
//! change the working directory ([`fs`]).

pub mod chars;
pub mod error;
pub mod execute;
pub mod fs;
pub mod fs_impl;
pub mod parser;
pub mod pipeline;
pub mod piping;
pub mod process;
pub mod shell;
pub mod tokenizer;
pub mod variables;

pub use crate::shell::{load_startup_path, match_expression, TokenizedOutput};
