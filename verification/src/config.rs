//! What a store is set up with.

use vstd::prelude::*;

verus! {

/// The settings of a store: the registry and the account to log in with,
/// and the image that the store is published as.
#[derive(Debug, Clone, PartialEq, Eq)]
pub struct Config {
    pub server: String,
    pub username: String,
    pub password: String,
    pub image_name: String,
}

} // verus!
