//! A GPU command-submission runtime: a generational resource table, a
//! per-resource usage tracker that synthesizes barriers, a pass recorder
//! and the command encoder state machine that ties them together, with the
//! surface that a client process drives them through.
//!
//! Apart from these, `font` and `font_parse` hold the specified values of
//! the font properties of a style sheet, and the reading of some of them
//! from CSS text.

pub mod action;
pub mod binder;
pub mod command;
pub mod compute;
pub mod device;
pub mod encoder;
pub mod error;
pub mod font;
pub mod font_parse;
pub mod global;
pub mod id;
pub mod instance;
pub mod message;
pub mod pass;
pub mod queue;
pub mod recorded;
pub mod registry;
pub mod replay;
pub mod resource;
pub mod server;
pub mod track;
pub mod transfer;
pub mod usage;
pub mod wire;
pub mod wire_adapter;
pub mod wire_pass;
