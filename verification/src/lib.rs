//! An upgradeable delegation core.
//!
//! A stable front end (the proxy) forwards operations to a replaceable
//! backend holding a dataset of signed integers. Two backend versions exist:
//! the first keeps values in insertion order and reports their truncating
//! arithmetic mean, the second keeps them sorted and reports their median.
//! Replacing the backend migrates every stored value into the new instance
//! and either fully succeeds or leaves the old backend authoritative.
//!
//! The host execution environment (caller identities, account resolution,
//! instantiation of a backend from a code template) is an external
//! collaborator: every operation takes the identities it needs as explicit
//! parameters, and the outcome of a host-side instantiation is handed to
//! `upgrade` as a value.

use vstd::prelude::*;

pub mod backend;
pub mod dataset;
pub mod proxy;
pub mod v1;
pub mod v2;

verus! {

/// A principal known to the host environment: an end user, the proxy, or a
/// backend instance, identified by its address.
pub type AccountId = u64;

/// The capability interface shared by every backend version: record a value,
/// report a single summary value for the whole dataset.
///
/// Each implementation maintains its own storage layout, captured by
/// [`Averager::wf`], and exposes the values it holds as [`Averager::dataset`].
/// Inserting may reorder storage, but never changes which values are held
/// beyond adding the new one.
pub trait Averager {
    /// The well-formedness condition this implementation maintains on its
    /// storage layout.
    spec fn wf(&self) -> bool;

    /// The values held, in storage order.
    spec fn dataset(&self) -> Seq<i32>;

    /// The summary value this implementation reports for its dataset: the
    /// truncating arithmetic mean in the first version, the median in the
    /// second.
    spec fn summary(&self) -> int;

    /// Record one value.
    fn insert(&mut self, value: i32)
        requires
            old(self).wf(),
        ensures
            final(self).wf(),
            final(self).dataset().to_multiset() == old(self).dataset().to_multiset().insert(
                value,
            ),
    ;

    /// Report the implementation's summary of the dataset; 0 when empty.
    fn average(&self) -> (r: i32)
        requires
            self.wf(),
        ensures
            r == self.summary(),
            self.dataset().len() == 0 ==> r == 0,
    ;
}

} // verus!
