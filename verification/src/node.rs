//! The node itself: a configuration to run with.
use vstd::prelude::*;
use crate::config::Config;

verus! {

/// A node, given by its configuration.
pub struct Node {
    pub config: Config,
}

} // verus!
