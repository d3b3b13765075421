//! Keeps personal branches of a fork in step with their upstream.
use vstd::prelude::*;

pub mod assistant;
pub mod autonomy;
pub mod cli;
pub mod command;
pub mod config;
pub mod conflict;
pub mod daemon;
pub mod digest;
pub mod doctor;
pub mod git;
pub mod http;
pub mod json;
pub mod laws;
pub mod linear;
pub mod llm;
pub mod notify;
pub mod order;
pub mod paths;
pub mod prompts;
pub mod protection;
pub mod release;
pub mod report;
pub mod sandbox;
pub mod service;
pub mod strings;
pub mod sync;
pub mod table;
pub mod text;
pub mod version;
pub mod watch;

verus! {

} // verus!
