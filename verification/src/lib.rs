use vstd::prelude::*;

pub mod cli;
pub mod clock;
pub mod constants;
pub mod engine;
pub mod helpers;
pub mod ipc;
pub mod json;
pub mod models;
pub mod ordering;
pub mod text;
pub mod ui;

verus! {

} // verus!
