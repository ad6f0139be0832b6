//! Stashes.
use vstd::prelude::*;
use crate::text::string_of;

verus! {

pub struct StashInfo {
    pub index: usize,
    pub message: String,
}

/// The message a stash is saved under: the one given, else `WIP`.
pub fn stash_message(message: Option<String>) -> (r: String)
    ensures
        r@ == match message {
            Some(m) => m@,
            None => "WIP"@,
        },
{
    match message {
        Some(m) => m,
        None => string_of("WIP"),
    }
}

} // verus!
