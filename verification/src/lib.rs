use vstd::prelude::*;

pub mod clipboard;
pub mod failure;
pub mod fingerprint;
pub mod host;
pub mod item;
pub mod laws;
pub mod media;
pub mod request;
pub mod store;
pub mod text;

verus! {
} // verus!
