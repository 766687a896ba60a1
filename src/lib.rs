use vstd::prelude::*;

pub mod calendar;
pub mod cli;
pub mod credentials;
pub mod layout;
pub mod navigation;

verus! {

} // verus!
