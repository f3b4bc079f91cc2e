//! Verified core of a harness that drives language-server tests through Neovim.
use vstd::prelude::*;

pub mod text;
pub mod test_type;
pub mod types;
pub mod test_case;
pub mod lua;
pub mod path;
pub mod json;
pub mod compare;
pub mod completion;
pub mod runner;
pub mod uri;
pub mod server;
pub mod requests;
pub mod responses;
pub mod fixtures;
pub mod hover;
pub mod edits;
pub mod diagnostics;
pub mod links;
pub mod calls;
pub mod signature;

verus! {

} // verus!
