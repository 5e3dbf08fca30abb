//! The editing core of a non-linear video editor.
//!
//! Every editing surface funnels through one command type and one transaction:
//! snapshot the document, run the command, commit only if something changed.

pub mod alike;
pub mod app_core;
pub mod apply;
pub mod arrange;
pub mod binary64;
pub mod command;
pub mod commands;
pub mod edit;
pub mod entries;
pub mod events;
pub mod frames;
pub mod fresh;
pub mod ids;
pub mod keyframe_track;
pub mod laws;
pub mod links;
pub mod locate;
pub mod media;
pub mod model;
pub mod order;
pub mod paths;
pub mod registry;
pub mod session;
pub mod state;
pub mod text;
pub mod transitions;
