use vstd::prelude::*;

pub mod assoc;
pub mod clock;
pub mod json;
pub mod text;
pub mod error;
pub mod models;
pub mod discovery;
pub mod config;
pub mod claude_process;
pub mod session_manager;
pub mod api;
pub mod laws;

verus! {

} // verus!
