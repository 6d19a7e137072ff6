use vstd::prelude::*;

pub mod api;
pub mod command;
pub mod config;
pub mod endpoint;
pub mod secret;
pub mod supervisor;
pub mod text;

verus! {

} // verus!
