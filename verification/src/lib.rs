//! Verified core of a Frida method tracer: the agent script it injects, the
//! reading of what Frida prints back, the process listing, the saved rules and
//! settings, and the state of a tracing session.
pub mod commands;
pub mod config_storage;
pub mod event_parser;
pub mod frida_manager;
pub mod json;
pub mod models;
pub mod processes;
pub mod script_generator;
pub mod text;
