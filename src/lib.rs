use vstd::prelude::*;

pub mod config;
pub mod laws;
pub mod player;
pub mod playlist;
pub mod text;
pub mod ui;

verus! {

} // verus!
