use vstd::prelude::*;

pub mod accrual;
pub mod address;
pub mod contract;
pub mod errors;
pub mod storage;

verus! {

} // verus!
