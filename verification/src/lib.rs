//! A webhook endpoint's core: authenticate a signed interaction event, decode
//! its envelope, dispatch it by kind and command name, and build the reply —
//! with the outbound content fetches handed back to the surrounding program
//! as explicit steps, so that everything in between is verified.
use vstd::prelude::*;

pub mod article;
pub mod commands;
pub mod config;
pub mod envelope;
pub mod gateway;
pub mod headers;
pub mod hexfmt;
pub mod jsontext;
pub mod numfmt;
pub mod parse;
pub mod response;
pub mod sig;
pub mod text;
pub mod wikipedia;

verus! {

} // verus!
