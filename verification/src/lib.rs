//! Deterministic launching of worksets: bundles of shell commands with an
//! optional tiled-window layout, replayed against a window manager that is
//! reachable only through queries and one-way dispatches.
//!
//! The library decides and never acts. A launch is a state machine: it says
//! what it asks for next ([`gateway::Request`]), its driver does that and
//! hands back what came of it ([`gateway::Reply`]) together with the time on
//! a clock that counts milliseconds. [`launch::run_workset`] starts a launch
//! and [`launch::Launch::feed`] carries it on until it asks for nothing more.
//!
//! Every machine is stated twice: as a function on its view, which contracts
//! and laws speak of, and as the executable function that is proved to
//! compute it.
pub mod ancestry;
pub mod ancestry_laws;
pub mod cleanup;
pub mod config;
pub mod decimal;
pub mod dialog;
pub mod editing;
pub mod gateway;
pub mod launch;
pub mod launch_laws;
pub mod plan;
pub mod poll;
pub mod progress;
pub mod protocol;
pub mod ratio;
pub mod replay;
pub mod replay_laws;
pub mod resolve;
pub mod sequence;
pub mod shell;
pub mod status;
pub mod tabs;
pub mod text;
pub mod workspace;
pub mod wrapping;
