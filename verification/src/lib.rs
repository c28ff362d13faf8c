//! Decision core of a local desktop assistant.
use vstd::prelude::*;

pub mod command;
pub mod confidence;
pub mod conversation;
pub mod execution;
pub mod files;
pub mod gate;
pub mod intent;
pub mod json;
pub mod laws;
pub mod logs;
pub mod model;
pub mod network;
pub mod paths;
pub mod planner;
pub mod safety;
pub mod scope;
pub mod search;
pub mod session;
pub mod settings;
pub mod system;
pub mod text;
pub mod walk;

verus! {

} // verus!
