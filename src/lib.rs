use vstd::prelude::*;

pub mod circuit_breaker;
pub mod config;
pub mod discovery;
pub mod execution;
pub mod market;
pub mod position_tracker;
pub mod price_text;
pub mod text;
pub mod types;

verus! {

} // verus!
