//! The second backend version: the dataset is kept sorted non-decreasing and
//! the reported summary is the median.

use vstd::prelude::*;

use crate::backend::Backend;
use crate::dataset::{
    lemma_insert_keeps_sorted, lemma_median_in_range, median, sorted, trunc_div,
};
use crate::{AccountId, Averager};

verus! {

/// The failures a backend operation reports.
#[derive(Clone, Copy, Debug, PartialEq, Eq, Structural)]
pub enum Error {
    /// The invoking principal is not the backend's bound proxy.
    NotCalledFromProxy,
    /// The forwarded caller is not the recorded owner.
    UnauthorizedCaller,
    /// An index accessor was asked for a position beyond the dataset.
    OutOfRange,
}

/// A backend holding its values sorted non-decreasing.
pub struct V2 {
    values: Vec<i32>,
    proxy: AccountId,
    owner: AccountId,
}

impl Averager for V2 {
    /// The storage layout is sorted non-decreasing after every operation.
    closed spec fn wf(&self) -> bool {
        sorted(self.values@)
    }

    closed spec fn dataset(&self) -> Seq<i32> {
        self.values@
    }

    /// This version reports the median of the sorted dataset.
    open spec fn summary(&self) -> int {
        median(self.dataset())
    }

    fn insert(&mut self, value: i32) {
        self.insert_internal(value);
    }

    fn average(&self) -> (r: i32) {
        self.average_internal()
    }
}

impl V2 {
    /// The principal authorized to mutate and query through the proxy.
    pub closed spec fn owner_id(&self) -> AccountId {
        self.owner
    }

    /// The one principal allowed to invoke operations on this backend.
    pub closed spec fn proxy_id(&self) -> AccountId {
        self.proxy
    }

    /// Create an empty backend owned by `caller` and bound to the invoking
    /// principal `env_caller` (the proxy that instantiates it).
    pub fn new(caller: AccountId, env_caller: AccountId) -> (r: Self)
        ensures
            r.wf(),
            r.dataset() == Seq::<i32>::empty(),
            r.owner_id() == caller,
            r.proxy_id() == env_caller,
    {
        V2 { values: Vec::new(), owner: caller, proxy: env_caller }
    }

    /// Construct a backend carrying over every value of `previous`, replayed
    /// through `insert_internal` in ascending index order — which restores
    /// sortedness regardless of how `previous` stored its values — owned by
    /// the same owner and bound to the invoking principal `env_caller` (the
    /// proxy performing the upgrade). `previous` is read only, never mutated.
    pub fn upgrade_from(previous: &Backend, env_caller: AccountId) -> (r: Self)
        requires
            previous.wf(),
        ensures
            r.wf(),
            sorted(r.dataset()),
            r.dataset().to_multiset() == previous.dataset().to_multiset(),
            r.dataset().len() == previous.dataset().len(),
            r.owner_id() == previous.owner_id(),
            r.proxy_id() == env_caller,
    {
        let mut created = V2 { values: Vec::new(), owner: previous.owner(), proxy: env_caller };
        let n = previous.items();
        let mut i: usize = 0;
        proof {
            assert(created.dataset() =~= previous.dataset().subrange(0, 0));
        }
        while i < n
            invariant
                previous.wf(),
                n == previous.dataset().len(),
                i <= n,
                created.wf(),
                sorted(created.dataset()),
                created.dataset().to_multiset() == previous.dataset().subrange(
                    0,
                    i as int,
                ).to_multiset(),
                created.dataset().len() == i,
                created.owner_id() == previous.owner_id(),
                created.proxy_id() == env_caller,
            decreases n - i,
        {
            let v = previous.nth(i).unwrap();
            created.insert_internal(v);
            proof {
                assert(previous.dataset().subrange(0, (i + 1) as int) =~= previous.dataset()
                    .subrange(0, i as int).push(previous.dataset()[i as int]));
                vstd::seq_lib::to_multiset_build(
                    previous.dataset().subrange(0, i as int),
                    previous.dataset()[i as int],
                );
            }
            i = i + 1;
        }
        proof {
            assert(previous.dataset().subrange(0, n as int) =~= previous.dataset());
        }
        created
    }

    /// The proxy-binding check: only the bound proxy may invoke operations.
    fn enforce_proxy_call(&self, env_caller: AccountId) -> (r: Result<(), Error>)
        ensures
            env_caller != self.proxy_id() ==> r == Err::<(), Error>(Error::NotCalledFromProxy),
            env_caller == self.proxy_id() ==> r == Ok::<(), Error>(()),
    {
        if env_caller != self.proxy {
            Err(Error::NotCalledFromProxy)
        } else {
            Ok(())
        }
    }

    /// The owner check: only the recorded owner, as forwarded by the proxy,
    /// may mutate the dataset.
    fn enforce_owner_call(&self, caller: AccountId) -> (r: Result<(), Error>)
        ensures
            caller != self.owner_id() ==> r == Err::<(), Error>(Error::UnauthorizedCaller),
            caller == self.owner_id() ==> r == Ok::<(), Error>(()),
    {
        if caller != self.owner {
            Err(Error::UnauthorizedCaller)
        } else {
            Ok(())
        }
    }

    /// How many values the dataset holds; reading has no side effect.
    pub fn items(&self) -> (r: usize)
        ensures
            r == self.dataset().len(),
    {
        self.values.len()
    }

    /// The value at `idx` in sorted order; `OutOfRange` beyond the dataset.
    /// Reading has no side effect.
    pub fn nth(&self, idx: usize) -> (r: Result<i32, Error>)
        ensures
            idx < self.dataset().len() ==> r == Ok::<i32, Error>(self.dataset()[idx as int]),
            idx >= self.dataset().len() ==> r == Err::<i32, Error>(Error::OutOfRange),
    {
        if idx < self.values.len() {
            Ok(self.values[idx])
        } else {
            Err(Error::OutOfRange)
        }
    }

    /// The recorded owner, carried forward by migration. Reading has no side
    /// effect.
    pub fn owner(&self) -> (r: AccountId)
        ensures
            r == self.owner_id(),
    {
        self.owner
    }

    /// The bound proxy identity recorded at construction.
    pub fn bound_proxy(&self) -> (r: AccountId)
        ensures
            r == self.proxy_id(),
    {
        self.proxy
    }

    /// Record `value` on behalf of `caller`: allowed exactly when the bound
    /// proxy invokes it (`env_caller`) and `caller` is the owner. The dataset
    /// stays sorted; its values grow by exactly `value`.
    pub fn insert(&mut self, value: i32, caller: AccountId, env_caller: AccountId) -> (r: Result<
        (),
        Error,
    >)
        requires
            old(self).wf(),
        ensures
            final(self).wf(),
            final(self).owner_id() == old(self).owner_id(),
            final(self).proxy_id() == old(self).proxy_id(),
            env_caller != old(self).proxy_id() ==> r == Err::<(), Error>(Error::NotCalledFromProxy)
                && *final(self) == *old(self),
            env_caller == old(self).proxy_id() && caller != old(self).owner_id() ==> r == Err::<
                (),
                Error,
            >(Error::UnauthorizedCaller) && *final(self) == *old(self),
            env_caller == old(self).proxy_id() && caller == old(self).owner_id() ==> r == Ok::<
                (),
                Error,
            >(()) && sorted(final(self).dataset()) && final(self).dataset().to_multiset() == old(
                self,
            ).dataset().to_multiset().insert(value),
    {
        match self.enforce_proxy_call(env_caller) {
            Err(e) => Err(e),
            Ok(()) => match self.enforce_owner_call(caller) {
                Err(e) => Err(e),
                Ok(()) => {
                    self.insert_internal(value);
                    Ok(())
                },
            },
        }
    }

    /// The median of the dataset. The proxy-binding check applies; reads are
    /// not restricted to the owner.
    pub fn average(&self, env_caller: AccountId) -> (r: Result<i32, Error>)
        ensures
            env_caller != self.proxy_id() ==> r == Err::<i32, Error>(Error::NotCalledFromProxy),
            env_caller == self.proxy_id() ==> (r matches Ok(v) && v == median(self.dataset())),
    {
        match self.enforce_proxy_call(env_caller) {
            Err(e) => Err(e),
            Ok(()) => Ok(self.average_internal()),
        }
    }

    /// Insert one value at its sorted position, found by binary search.
    pub fn insert_internal(&mut self, value: i32)
        requires
            sorted(old(self).dataset()),
        ensures
            final(self).wf(),
            sorted(final(self).dataset()),
            final(self).dataset().to_multiset() == old(self).dataset().to_multiset().insert(
                value,
            ),
            final(self).dataset().len() == old(self).dataset().len() + 1,
            final(self).owner_id() == old(self).owner_id(),
            final(self).proxy_id() == old(self).proxy_id(),
    {
        let mut lo: usize = 0;
        let mut hi: usize = self.values.len();
        while lo < hi
            invariant
                lo <= hi <= self.values@.len(),
                sorted(self.values@),
                forall|k: int| 0 <= k < lo ==> self.values@[k] < value,
                forall|k: int| hi <= k < self.values@.len() ==> self.values@[k] >= value,
            decreases hi - lo,
        {
            let mid = lo + (hi - lo) / 2;
            if self.values[mid] < value {
                proof {
                    assert forall|k: int| 0 <= k < mid + 1 implies self.values@[k] < value by {
                        if k < mid {
                            assert(self.values@[k] <= self.values@[mid as int]);
                        }
                    }
                }
                lo = mid + 1;
            } else {
                proof {
                    assert forall|k: int| mid <= k < self.values@.len() implies self.values@[k]
                        >= value by {
                        if k > mid {
                            assert(self.values@[mid as int] <= self.values@[k]);
                        }
                    }
                }
                hi = mid;
            }
        }
        proof {
            lemma_insert_keeps_sorted(self.values@, lo as int, value);
            vstd::seq_lib::to_multiset_insert(self.values@, lo as int, value);
        }
        self.values.insert(lo, value);
    }

    /// The median of the dataset read in index order: 0 when empty, the
    /// middle element for an odd count, the truncating mean of the two middle
    /// elements for an even count.
    pub fn average_internal(&self) -> (r: i32)
        ensures
            r == median(self.dataset()),
    {
        let n = self.values.len();
        if n == 0 {
            0
        } else if n % 2 == 1 {
            self.values[n / 2]
        } else {
            let a = self.values[n / 2 - 1];
            let b = self.values[n / 2];
            let t: i64 = a as i64 + b as i64;
            proof {
                lemma_median_in_range(self.dataset());
            }
            if t >= 0 {
                let q: u64 = (t as u64) / 2;
                assert(q == trunc_div(a as int + b as int, 2));
                q as i32
            } else {
                let q: u64 = ((-t) as u64) / 2;
                assert(-(q as int) == trunc_div(a as int + b as int, 2));
                (-(q as i64)) as i32
            }
        }
    }
}

} // verus!
