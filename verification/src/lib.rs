//! The logic of a Discord bot: link rewriting, name and password
//! generation, text styling, countdown formatting and the decisions taken on
//! the replies of web services.
use vstd::prelude::*;

pub mod commands;
pub mod common;
pub mod countdown;
pub mod json;
pub mod reply;
pub mod text;
pub mod web;
pub mod websites;
pub mod words;

verus! {

} // verus!
