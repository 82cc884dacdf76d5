//! Token vesting: an escrow of tokens released to a recipient on a schedule
//! of (release time, amount) events.
use vstd::prelude::*;

pub mod address;
pub mod error;
pub mod instruction;
pub mod processer;
pub mod state;
pub mod utils;

verus! {

} // verus!
