//! Verified core logic of a long/short pair derivatives protocol.
use vstd::prelude::*;

pub mod calculator;
pub mod constants;
pub mod factory;
pub mod fixed_point;
pub mod funding;
pub mod linear;
pub mod ln;
pub mod normal_oracle;
pub mod oracle;
pub mod pair;
pub mod pair_calculator;
pub mod pool;

verus! {

} // verus!
