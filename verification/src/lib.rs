//! A process supervisor: the bookkeeping of supervised programs, the
//! control requests that change it, and the decisions of the loop that keeps
//! each program running.
pub mod text;
pub mod names;
pub mod config;
pub mod state;
pub mod ipc;
pub mod web;
pub mod supervisor;
pub mod client;
pub mod laws;
