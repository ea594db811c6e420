//! Plugin identity.

use vstd::prelude::*;

verus! {

/// Identity of a plugin: the name under which it is registered.
#[derive(Debug, Clone, Copy, PartialEq, Eq)]
pub struct PluginDescriptor {
    pub name: &'static str,
}

} // verus!
