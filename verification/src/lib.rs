//! Service layer of a local package and session manager for Lua strategies.

use vstd::prelude::*;

pub mod archive;
pub mod calendar;
pub mod copy;
pub mod doctor;
pub mod env;
pub mod health;
pub mod install;
pub mod json;
pub mod laws;
pub mod link;
pub mod list;
pub mod logs;
pub mod manifest;
pub mod migrate;
pub mod name_map;
pub mod names;
pub mod order;
pub mod pack;
pub mod paths;
pub mod pool;
pub mod profile;
pub mod project;
pub mod read;
pub mod remove;
pub mod repair;
pub mod reply;
pub mod scaffold;
pub mod scenarios;
pub mod search_path;
pub mod sections;
pub mod session;
pub mod source;
pub mod stats;
pub mod testing;
pub mod text;
pub mod unpack;

verus! {

} // verus!
