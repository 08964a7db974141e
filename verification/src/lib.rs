//! Credential-proxy logic: OAuth flows, request shaping and token counting.
use vstd::prelude::*;

pub mod config;
pub mod credential_input;
pub mod do_state;
pub mod json;
pub mod laws;
pub mod oauth;
pub mod primitives;
pub mod proxy;
pub mod requests;
pub mod text;
pub mod tokenizer;

verus! {

} // verus!
