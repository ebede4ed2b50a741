//! Verified core of the Arqen backend toolkit: configuration, errors, health,
//! request logging, metrics, authentication and the other decisions that the
//! HTTP server, workers and command-line tool are built from.
use vstd::prelude::*;

pub mod text;
pub mod parse;
pub mod error;
pub mod config;
pub mod health;
pub mod counts;
pub mod metrics;
pub mod textmap;
pub mod auth;
pub mod context;
pub mod module;
pub mod request_log;
pub mod scheduler;
pub mod oenv;
pub mod cli;
pub mod generate;
pub mod dev;
pub mod migration;
pub mod schema;
pub mod openapi;
pub mod jobs;
pub mod thingd;
pub mod json;
pub mod agent;
pub mod tooling;
pub mod launch;

verus! {
} // verus!
