//! What the program is started with.

use vstd::prelude::*;

verus! {

/// The settings of the program: the token that the chat platform knows the
/// bot by.
#[derive(Debug)]
pub struct Config {
    pub token: String,
}

} // verus!
