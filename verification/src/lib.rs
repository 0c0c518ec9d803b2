//! The core of a command-line assistant that asks a language model to edit
//! files.
//!
//! The library builds the prompts and the request, parses the reply into an
//! explanation and file sections, holds every path of the reply against the
//! allow-list of the run, and decides what the run prints and writes. It
//! reads no file, opens no connection and prints nothing: its caller does,
//! and hands over plain values.
//!
//! - `text`: characters, lines, trimming, searching.
//! - `grammar`: the sentinel lines of a reply.
//! - `scan`: the line scanner, a state machine.
//! - `llm`: the prompts, and the parser of a reply.
//! - `guard`: the allow-list, and the verdict on a reply.
//! - `materialize`: the actions of a run, one at a time.
//! - `inputs`: the input files of a run.
//! - `config`: the command line and the model profiles.
//! - `app`: errors, the request, and the smaller decisions of a run.
//! - `json`: JSON text from `serde_json`.
//! - `utils`: names of the files that a run leaves behind.
//! - `laws`, `format`: what holds of all this on every input.

pub mod app;
pub mod config;
pub mod format;
pub mod grammar;
pub mod guard;
pub mod inputs;
pub mod json;
pub mod laws;
pub mod llm;
pub mod materialize;
pub mod scan;
pub mod text;
pub mod utils;
