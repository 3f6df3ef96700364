use vstd::prelude::*;

pub mod api;
pub mod config;
pub mod get;
pub mod grid;
pub mod groups;
pub mod json_query;
pub mod listing;
pub mod manifest;
pub mod name_map;
pub mod printers;
pub mod text;

verus! {

} // verus!
