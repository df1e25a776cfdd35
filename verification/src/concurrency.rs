use vstd::prelude::*;

verus! {

/// Concurrency limits for the surrounding tool. The merge engine treats the
/// record as opaque beyond its "is default" predicate: a layer that sets any
/// limit replaces the record wholesale.
#[derive(Debug, Clone, Copy, PartialEq, Eq)]
pub struct ConcurrencyConfig {
    /// Maximal number of simultaneous solves.
    pub solves: Option<i64>,
    /// Maximal number of simultaneous downloads.
    pub downloads: Option<i64>,
}

impl ConcurrencyConfig {
    /// The record that sets no limit.
    pub open spec fn default_spec() -> Self {
        ConcurrencyConfig { solves: None, downloads: None }
    }

    /// Both limits are unset.
    pub open spec fn is_default_spec(self) -> bool {
        self == Self::default_spec()
    }

    /// Other-wins-if-non-default, wholesale: a higher-priority record that
    /// sets anything replaces the lower-priority record entirely.
    pub open spec fn spec_merge(self, other: Self) -> Self {
        if other.is_default_spec() {
            self
        } else {
            other
        }
    }

    /// Returns the record that sets no limit.
    pub fn empty() -> (r: Self)
        ensures
            r == Self::default_spec(),
    {
        ConcurrencyConfig { solves: None, downloads: None }
    }

    /// Returns whether both limits are unset.
    pub fn is_default(&self) -> (r: bool)
        ensures
            r == self.is_default_spec(),
    {
        self.solves.is_none() && self.downloads.is_none()
    }

    /// Merges `other` (higher priority) into `self`.
    pub fn merge(&self, other: Self) -> (r: Self)
        ensures
            r == self.spec_merge(other),
    {
        if other.is_default() {
            *self
        } else {
            other
        }
    }
}

impl Default for ConcurrencyConfig {
    /// The default record sets no limit.
    fn default() -> (r: Self)
        ensures
            r == Self::default_spec(),
    {
        ConcurrencyConfig::empty()
    }
}

} // verus!
