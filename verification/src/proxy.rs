//! The stable front end: forwards operations to the current backend,
//! enforces upgrade authorization, and performs the atomic backend swap.

use vstd::prelude::*;

use crate::backend::{Backend, Version};
use crate::dataset::{mean, median, sorted};
use crate::v1::V1;
use crate::v2::V2;
use crate::AccountId;

verus! {

/// The failures a proxy operation reports.
#[derive(Clone, Copy, Debug, PartialEq, Eq, Structural)]
pub enum Error {
    /// A new backend could not be instantiated during an upgrade.
    UpgradeError,
    /// The caller fails an owner or permission check.
    UnauthorizedCaller,
    /// The invoking principal fails a backend's proxy-binding check.
    NotCalledFromProxy,
    /// An index accessor was asked for a position beyond the dataset.
    OutOfRange,
}

/// The stable-address front end. It owns the current backend, exposes the
/// same logical operations to external callers, and replaces the backend
/// only through [`Proxy::upgrade`].
pub struct Proxy {
    backend: Backend,
    owner: AccountId,
    address: AccountId,
}

impl Proxy {
    /// The co-binding invariant: the current backend is well formed, is
    /// bound to this proxy's own address, and records this proxy's owner.
    pub closed spec fn wf(&self) -> bool {
        &&& self.backend.wf()
        &&& self.backend.proxy_id() == self.address
        &&& self.backend.owner_id() == self.owner
    }

    /// The principal authorized to call `upgrade` and, through forwarding,
    /// to mutate the dataset.
    pub closed spec fn owner_id(&self) -> AccountId {
        self.owner
    }

    /// This proxy's own address, which its backends record as their bound
    /// proxy.
    pub closed spec fn address_id(&self) -> AccountId {
        self.address
    }

    /// The current backend's dataset.
    pub closed spec fn dataset(&self) -> Seq<i32> {
        self.backend.dataset()
    }

    /// The current backend's version.
    pub closed spec fn version(&self) -> Version {
        self.backend.version()
    }

    /// The summary the current backend reports for the dataset.
    pub closed spec fn average_value(&self) -> int {
        self.backend.average_value()
    }

    /// Deploy a proxy at `address` with a fresh empty backend of `version`;
    /// the deploying principal `env_caller` becomes the owner of both.
    pub fn new(version: Version, env_caller: AccountId, address: AccountId) -> (r: Self)
        ensures
            r.wf(),
            r.owner_id() == env_caller,
            r.address_id() == address,
            r.version() == version,
            r.dataset() == Seq::<i32>::empty(),
    {
        let backend = match version {
            Version::V1 => Backend::V1(V1::new(env_caller, address)),
            Version::V2 => Backend::V2(V2::new(env_caller, address)),
        };
        Proxy { backend: backend, owner: env_caller, address: address }
    }

    /// Replace the current backend. Only the owner may trigger it.
    /// `instantiated` is the outcome of the host-side instantiation of the
    /// supplied code template: `None` when the host failed to instantiate.
    /// The swap is atomic: either the new backend is created with every
    /// stored value migrated into it and becomes current, or the proxy is
    /// left exactly as it was.
    pub fn upgrade(&mut self, env_caller: AccountId, instantiated: Option<Version>) -> (r: Result<
        (),
        Error,
    >)
        requires
            old(self).wf(),
        ensures
            final(self).wf(),
            final(self).owner_id() == old(self).owner_id(),
            final(self).address_id() == old(self).address_id(),
            env_caller != old(self).owner_id() ==> r == Err::<(), Error>(Error::UnauthorizedCaller)
                && *final(self) == *old(self),
            env_caller == old(self).owner_id() && instantiated is None ==> r == Err::<(), Error>(
                Error::UpgradeError,
            ) && *final(self) == *old(self),
            env_caller == old(self).owner_id() ==> (instantiated matches Some(version) ==> {
                &&& r == Ok::<(), Error>(())
                &&& final(self).version() == version
                &&& final(self).dataset().len() == old(self).dataset().len()
                &&& final(self).dataset().to_multiset() == old(self).dataset().to_multiset()
                &&& version == Version::V1 ==> final(self).dataset() == old(self).dataset()
                &&& version == Version::V2 ==> sorted(final(self).dataset())
            }),
    {
        if env_caller != self.owner {
            return Err(Error::UnauthorizedCaller);
        }
        match instantiated {
            None => Err(Error::UpgradeError),
            Some(Version::V1) => {
                let created = V1::upgrade_from(&self.backend, self.address);
                self.backend = Backend::V1(created);
                Ok(())
            },
            Some(Version::V2) => {
                let created = V2::upgrade_from(&self.backend, self.address);
                self.backend = Backend::V2(created);
                Ok(())
            },
        }
    }

    /// Record one value through the current backend, forwarding the invoking
    /// principal's identity as the caller; the backend's verdict is returned
    /// unmodified.
    pub fn insert(&mut self, value: i32, env_caller: AccountId) -> (r: Result<(), Error>)
        requires
            old(self).wf(),
        ensures
            final(self).wf(),
            final(self).owner_id() == old(self).owner_id(),
            final(self).address_id() == old(self).address_id(),
            final(self).version() == old(self).version(),
            env_caller != old(self).owner_id() ==> r == Err::<(), Error>(Error::UnauthorizedCaller)
                && *final(self) == *old(self),
            env_caller == old(self).owner_id() ==> ({
                &&& r == Ok::<(), Error>(())
                &&& final(self).dataset().to_multiset() == old(self).dataset().to_multiset()
                    .insert(value)
                &&& old(self).version() == Version::V1 ==> final(self).dataset() == old(self)
                    .dataset().push(value)
            }),
    {
        self.backend.insert(value, env_caller, self.address)
    }

    /// The current backend's summary of the dataset, forwarded unmodified.
    /// Reads are not restricted to the owner.
    pub fn average(&self, env_caller: AccountId) -> (r: Result<i32, Error>)
        requires
            self.wf(),
        ensures
            (r matches Ok(v) && v == self.average_value()),
            self.version() == Version::V1 ==> (r matches Ok(v) && v == mean(self.dataset())),
            self.version() == Version::V2 ==> (r matches Ok(v) && v == median(self.dataset())),
    {
        self.backend.average(env_caller, self.address)
    }

    /// How many values the current backend holds; reading has no side
    /// effect.
    pub fn items(&self) -> (r: usize)
        ensures
            r == self.dataset().len(),
    {
        self.backend.items()
    }

    /// The value the current backend holds at `idx`; `OutOfRange` beyond the
    /// dataset. Reading has no side effect.
    pub fn nth(&self, idx: usize) -> (r: Result<i32, Error>)
        ensures
            idx < self.dataset().len() ==> r == Ok::<i32, Error>(self.dataset()[idx as int]),
            idx >= self.dataset().len() ==> r == Err::<i32, Error>(Error::OutOfRange),
    {
        self.backend.nth(idx)
    }

    /// The immediate caller's identity, echoed back for diagnostics.
    pub fn parent(&self, env_caller: AccountId) -> (r: AccountId)
        ensures
            r == env_caller,
    {
        env_caller
    }

    /// Round-trip authorization check: asks the current backend for its
    /// bound-proxy identity, which must be this proxy itself.
    pub fn nested(&self) -> (r: Result<AccountId, Error>)
        ensures
            (r matches Ok(a) ==> a == self.address_id()),
            self.wf() ==> r == Ok::<AccountId, Error>(self.address_id()),
    {
        let bound = self.backend.bound_proxy();
        if bound == self.address {
            Ok(bound)
        } else {
            Err(Error::NotCalledFromProxy)
        }
    }
}

impl Default for Proxy {
    /// An unbound deployment: a fresh first-version backend, owned by the
    /// zero principal and living at the zero address.
    fn default() -> (r: Self)
        ensures
            r.wf(),
            r.owner_id() == 0,
            r.address_id() == 0,
            r.version() == Version::V1,
            r.dataset() == Seq::<i32>::empty(),
    {
        Proxy::new(Version::V1, 0, 0)
    }
}

} // verus!
