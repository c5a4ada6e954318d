//! A fleet inventory engine: parsers for remote command output, per-host
//! issue derivation and report assembly, each stated and proved with Verus.
use vstd::prelude::*;

pub mod text;
pub mod models;
pub mod ssh_client;
pub mod scanner;
pub mod web;
pub mod ssh_config;

verus! {

} // verus!
