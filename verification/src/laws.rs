//! What the operations of the library are for, stated of all their inputs.

use vstd::prelude::*;

pub mod archives;
pub mod code;
pub mod contents;
pub mod copying;
pub mod dates;
pub mod doctor;
pub mod documents;
pub mod environment;
pub mod health;
pub mod install;
pub mod linking;
pub mod listing;
pub mod logging;
pub mod messages;
pub mod migrating;
pub mod modes;
pub mod origins;
pub mod outcomes;
pub mod packing;
pub mod places;
pub mod projects;
pub mod recording;
pub mod removing;
pub mod repair;
pub mod replying;
pub mod restore;
pub mod scaffolding;
pub mod scenarios;
pub mod sections;
pub mod sorting;
pub mod statistics;
pub mod testing;
pub mod texts;
pub mod tools;
pub mod workers;

verus! {

} // verus!
