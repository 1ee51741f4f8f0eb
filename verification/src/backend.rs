//! The closed set of backend variants behind one dispatching union: the
//! proxy holds "a backend" whose concrete version is fixed at construction
//! or upgrade time.

use vstd::prelude::*;

use crate::dataset::{mean, median};
use crate::proxy::Error;
use crate::v1::V1;
use crate::v2::V2;
use crate::{AccountId, Averager};

verus! {

/// The backend version a code template resolves to.
#[derive(Clone, Copy, Debug, PartialEq, Eq, Structural)]
pub enum Version {
    /// Insertion order, truncating mean.
    V1,
    /// Sorted order, median.
    V2,
}

/// The current backend of a proxy: exactly one live variant at a time.
pub enum Backend {
    /// A first-version instance.
    V1(V1),
    /// A second-version instance.
    V2(V2),
}

impl Backend {
    /// Which version this backend runs.
    pub open spec fn version(&self) -> Version {
        match self {
            Backend::V1(_) => Version::V1,
            Backend::V2(_) => Version::V2,
        }
    }

    /// The values held, in the variant's own storage order.
    pub open spec fn dataset(&self) -> Seq<i32> {
        match self {
            Backend::V1(b) => b.dataset(),
            Backend::V2(b) => b.dataset(),
        }
    }

    /// The principal authorized to mutate and query through the proxy.
    pub open spec fn owner_id(&self) -> AccountId {
        match self {
            Backend::V1(b) => b.owner_id(),
            Backend::V2(b) => b.owner_id(),
        }
    }

    /// The one principal allowed to invoke operations on this backend.
    pub open spec fn proxy_id(&self) -> AccountId {
        match self {
            Backend::V1(b) => b.proxy_id(),
            Backend::V2(b) => b.proxy_id(),
        }
    }

    /// The variant's own storage-layout condition.
    pub open spec fn wf(&self) -> bool {
        match self {
            Backend::V1(b) => b.wf(),
            Backend::V2(b) => b.wf(),
        }
    }

    /// The summary value this variant reports for its dataset: the truncating
    /// mean in the first version, the median in the second.
    pub open spec fn average_value(&self) -> int {
        match self {
            Backend::V1(b) => mean(b.dataset()),
            Backend::V2(b) => median(b.dataset()),
        }
    }

    /// How many values the dataset holds; reading has no side effect.
    pub fn items(&self) -> (r: usize)
        ensures
            r == self.dataset().len(),
    {
        match self {
            Backend::V1(b) => b.items(),
            Backend::V2(b) => b.items(),
        }
    }

    /// The value at `idx` in storage order; `OutOfRange` beyond the dataset.
    /// Reading has no side effect.
    pub fn nth(&self, idx: usize) -> (r: Result<i32, Error>)
        ensures
            idx < self.dataset().len() ==> r == Ok::<i32, Error>(self.dataset()[idx as int]),
            idx >= self.dataset().len() ==> r == Err::<i32, Error>(Error::OutOfRange),
    {
        match self {
            Backend::V1(b) => match b.nth(idx) {
                Ok(v) => Ok(v),
                Err(_) => Err(Error::OutOfRange),
            },
            Backend::V2(b) => match b.nth(idx) {
                Ok(v) => Ok(v),
                Err(_) => Err(Error::OutOfRange),
            },
        }
    }

    /// The recorded owner, carried forward by migration. Reading has no side
    /// effect.
    pub fn owner(&self) -> (r: AccountId)
        ensures
            r == self.owner_id(),
    {
        match self {
            Backend::V1(b) => b.owner(),
            Backend::V2(b) => b.owner(),
        }
    }

    /// The bound proxy identity recorded at construction.
    pub fn bound_proxy(&self) -> (r: AccountId)
        ensures
            r == self.proxy_id(),
    {
        match self {
            Backend::V1(b) => b.bound_proxy(),
            Backend::V2(b) => b.bound_proxy(),
        }
    }

    /// Record `value` on behalf of `caller` through the current variant:
    /// allowed exactly when the bound proxy invokes it and `caller` is the
    /// owner. The first version appends; the second inserts in sorted order;
    /// either way the dataset's values grow by exactly `value`.
    pub fn insert(&mut self, value: i32, caller: AccountId, env_caller: AccountId) -> (r: Result<
        (),
        Error,
    >)
        requires
            old(self).wf(),
        ensures
            final(self).wf(),
            final(self).version() == old(self).version(),
            final(self).owner_id() == old(self).owner_id(),
            final(self).proxy_id() == old(self).proxy_id(),
            env_caller != old(self).proxy_id() ==> r == Err::<(), Error>(Error::NotCalledFromProxy)
                && *final(self) == *old(self),
            env_caller == old(self).proxy_id() && caller != old(self).owner_id() ==> r == Err::<
                (),
                Error,
            >(Error::UnauthorizedCaller) && *final(self) == *old(self),
            env_caller == old(self).proxy_id() && caller == old(self).owner_id() ==> r == Ok::<
                (),
                Error,
            >(()) && final(self).dataset().to_multiset() == old(self).dataset().to_multiset()
                .insert(value) && (old(self).version() == Version::V1 ==> final(self).dataset()
                == old(self).dataset().push(value)),
    {
        let ghost prev = self.dataset();
        match self {
            Backend::V1(b) => match b.insert(value, caller, env_caller) {
                Ok(()) => {
                    proof {
                        vstd::seq_lib::to_multiset_build(prev, value);
                    }
                    Ok(())
                },
                Err(crate::v1::Error::NotCalledFromProxy) => Err(Error::NotCalledFromProxy),
                Err(crate::v1::Error::UnauthorizedCaller) => Err(Error::UnauthorizedCaller),
                Err(crate::v1::Error::OutOfRange) => Err(Error::OutOfRange),
            },
            Backend::V2(b) => match b.insert(value, caller, env_caller) {
                Ok(()) => Ok(()),
                Err(crate::v2::Error::NotCalledFromProxy) => Err(Error::NotCalledFromProxy),
                Err(crate::v2::Error::UnauthorizedCaller) => Err(Error::UnauthorizedCaller),
                Err(crate::v2::Error::OutOfRange) => Err(Error::OutOfRange),
            },
        }
    }

    /// The current variant's summary of the dataset, forwarding `caller`.
    /// The proxy-binding check applies; reads are not restricted to the
    /// owner.
    pub fn average(&self, caller: AccountId, env_caller: AccountId) -> (r: Result<i32, Error>)
        ensures
            env_caller != self.proxy_id() ==> r == Err::<i32, Error>(Error::NotCalledFromProxy),
            env_caller == self.proxy_id() ==> (r matches Ok(v) && v == self.average_value()),
    {
        match self {
            Backend::V1(b) => match b.average(caller, env_caller) {
                Ok(v) => Ok(v),
                Err(_) => Err(Error::NotCalledFromProxy),
            },
            Backend::V2(b) => match b.average(env_caller) {
                Ok(v) => Ok(v),
                Err(_) => Err(Error::NotCalledFromProxy),
            },
        }
    }
}

} // verus!
