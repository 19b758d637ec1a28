//! A small note keeper: notes are title/content records stored one file per
//! name in a notes directory. This crate holds the rules of the store, the
//! record codec and the command grammar; the caller performs the file and
//! console work.
use vstd::prelude::*;

pub mod commands;
pub mod notes;
pub mod record;
pub mod settings;
pub mod text;

verus! {

} // verus!
