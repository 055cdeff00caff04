use vstd::prelude::*;

pub mod consumer;
pub mod fixture;
pub mod layout;
pub mod texture;

verus! {

} // verus!
