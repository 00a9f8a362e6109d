//! Verified core of the Rainy MaTE desktop agent services.
use vstd::prelude::*;

pub mod text;
pub mod paths;
pub mod net;
pub mod order;
pub mod digest;
pub mod tool_policy;
pub mod executor;
pub mod manifest;
pub mod third_party;
pub mod installer;
pub mod documents;
pub mod memory;
pub mod vault;
pub mod settings;
pub mod prompt_skills;
pub mod args;
pub mod sessions;
pub mod sandbox;
pub mod schedule;
pub mod recorder;
pub mod admission;
pub mod tools;
pub mod tasks;
pub mod research;
pub mod reflection;
pub mod distiller;
pub mod browser;
pub mod evm;
pub mod search;
pub mod files;
pub mod scheduler;
pub mod neural;
pub mod crystalline;
pub mod socket;
pub mod dispatch;

verus! {

} // verus!
