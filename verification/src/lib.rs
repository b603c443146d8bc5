use vstd::prelude::*;

pub mod storage;
pub mod server;
pub mod text;
pub mod filter;
pub mod clock;
pub mod sessions;
pub mod rich_text;
pub mod display;
pub mod workspace;
pub mod items;
pub mod projects;
pub mod logging;

verus! {
} // verus!
