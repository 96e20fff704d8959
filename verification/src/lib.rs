use vstd::prelude::*;

pub mod text;
pub mod outside;
pub mod json;
pub mod db;
pub mod demand_letter;
pub mod device_sync;

verus! {

} // verus!
