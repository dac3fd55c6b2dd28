use vstd::prelude::*;

pub mod errors;
pub mod contract;
pub mod events;
pub mod laws;
pub mod rules;
pub mod types;

pub use errors::Error;
pub use types::{Address, Contribution, DataKey, SavingsGoal};

verus! {

} // verus!
