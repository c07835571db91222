//! A fuzzy command launcher's core: matching and ranking, the interactive
//! state machine, the controller of streamed runs and the interpreter of
//! terminal colour codes.

pub mod ansi;
pub mod app;
pub mod catalog;
pub mod config;
pub mod input;
pub mod laws;
pub mod model;
mod paths;
pub mod provider;
pub mod rank;
pub mod run;
pub mod search;
pub mod session;
pub mod stream;
pub mod text;
pub mod view;
