//! Edge proxy and gateway client library.
use vstd::prelude::*;

pub mod text;
pub mod path;
pub mod html;
pub mod headers;
pub mod models;
pub mod numbers;
pub mod payload;
pub mod cookie;
pub mod crypto;
pub mod collect;
pub mod compute;
pub mod proxy;
pub mod config;
pub mod routing;
pub mod providers;
pub mod client;
pub mod request;
pub mod cli;

verus! {

} // verus!
