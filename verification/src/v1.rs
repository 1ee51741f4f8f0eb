//! The first backend version: the dataset is kept in insertion order and the
//! reported summary is the truncating arithmetic mean.

use vstd::prelude::*;

use crate::backend::Backend;
use crate::dataset::{lemma_mean_in_range, lemma_sum_push, mean, sum, trunc_div};
use crate::{AccountId, Averager};

verus! {

/// The failures a backend operation reports.
#[derive(Clone, Copy, Debug, PartialEq, Eq, Structural)]
pub enum Error {
    /// The invoking principal is not the backend's bound proxy.
    NotCalledFromProxy,
    /// The forwarded caller is not the recorded owner.
    UnauthorizedCaller,
    /// An index accessor was asked for a position beyond the dataset.
    OutOfRange,
}

/// A backend holding its values in insertion order.
pub struct V1 {
    values: Vec<i32>,
    proxy: AccountId,
    owner: AccountId,
}

impl Averager for V1 {
    /// Insertion order imposes no condition on the storage layout.
    closed spec fn wf(&self) -> bool {
        true
    }

    closed spec fn dataset(&self) -> Seq<i32> {
        self.values@
    }

    /// This version reports the truncating arithmetic mean.
    open spec fn summary(&self) -> int {
        mean(self.dataset())
    }

    fn insert(&mut self, value: i32) {
        let ghost prev = self.dataset();
        self.insert_internal(value);
        proof {
            vstd::seq_lib::to_multiset_build(prev, value);
        }
    }

    fn average(&self) -> (r: i32) {
        self.average_internal()
    }
}

impl V1 {
    /// The principal authorized to mutate and query through the proxy.
    pub closed spec fn owner_id(&self) -> AccountId {
        self.owner
    }

    /// The one principal allowed to invoke operations on this backend.
    pub closed spec fn proxy_id(&self) -> AccountId {
        self.proxy
    }

    /// Create an empty backend owned by `caller` and bound to the invoking
    /// principal `env_caller` (the proxy that instantiates it).
    pub fn new(caller: AccountId, env_caller: AccountId) -> (r: Self)
        ensures
            r.wf(),
            r.dataset() == Seq::<i32>::empty(),
            r.owner_id() == caller,
            r.proxy_id() == env_caller,
    {
        V1 { values: Vec::new(), owner: caller, proxy: env_caller }
    }

    /// Construct a backend carrying over every value of `previous`, replayed
    /// through `insert_internal` in ascending index order — which preserves
    /// the stored order exactly — owned by the same owner and bound to the
    /// invoking principal `env_caller` (the proxy performing the upgrade).
    /// `previous` is read only, never mutated.
    pub fn upgrade_from(previous: &Backend, env_caller: AccountId) -> (r: Self)
        requires
            previous.wf(),
        ensures
            r.wf(),
            r.dataset() == previous.dataset(),
            r.owner_id() == previous.owner_id(),
            r.proxy_id() == env_caller,
    {
        let mut created = V1 { values: Vec::new(), owner: previous.owner(), proxy: env_caller };
        let n = previous.items();
        let mut i: usize = 0;
        while i < n
            invariant
                previous.wf(),
                n == previous.dataset().len(),
                i <= n,
                created.dataset() == previous.dataset().subrange(0, i as int),
                created.owner_id() == previous.owner_id(),
                created.proxy_id() == env_caller,
            decreases n - i,
        {
            let v = previous.nth(i).unwrap();
            created.insert_internal(v);
            proof {
                assert(previous.dataset().subrange(0, (i + 1) as int) =~= previous.dataset()
                    .subrange(0, i as int).push(previous.dataset()[i as int]));
            }
            i = i + 1;
        }
        proof {
            assert(previous.dataset().subrange(0, n as int) =~= previous.dataset());
        }
        created
    }

    /// The proxy-binding check: only the bound proxy may invoke operations.
    fn enforce_proxy_call(&self, env_caller: AccountId) -> (r: Result<(), Error>)
        ensures
            env_caller != self.proxy_id() ==> r == Err::<(), Error>(Error::NotCalledFromProxy),
            env_caller == self.proxy_id() ==> r == Ok::<(), Error>(()),
    {
        if env_caller != self.proxy {
            Err(Error::NotCalledFromProxy)
        } else {
            Ok(())
        }
    }

    /// The owner check: only the recorded owner, as forwarded by the proxy,
    /// may mutate the dataset.
    fn enforce_owner_call(&self, caller: AccountId) -> (r: Result<(), Error>)
        ensures
            caller != self.owner_id() ==> r == Err::<(), Error>(Error::UnauthorizedCaller),
            caller == self.owner_id() ==> r == Ok::<(), Error>(()),
    {
        if caller != self.owner {
            Err(Error::UnauthorizedCaller)
        } else {
            Ok(())
        }
    }

    /// How many values the dataset holds; reading has no side effect.
    pub fn items(&self) -> (r: usize)
        ensures
            r == self.dataset().len(),
    {
        self.values.len()
    }

    /// The value at `idx` in storage order; `OutOfRange` beyond the dataset.
    /// Reading has no side effect.
    pub fn nth(&self, idx: usize) -> (r: Result<i32, Error>)
        ensures
            idx < self.dataset().len() ==> r == Ok::<i32, Error>(self.dataset()[idx as int]),
            idx >= self.dataset().len() ==> r == Err::<i32, Error>(Error::OutOfRange),
    {
        if idx < self.values.len() {
            Ok(self.values[idx])
        } else {
            Err(Error::OutOfRange)
        }
    }

    /// The recorded owner, carried forward by migration. Reading has no side
    /// effect.
    pub fn owner(&self) -> (r: AccountId)
        ensures
            r == self.owner_id(),
    {
        self.owner
    }

    /// The bound proxy identity recorded at construction.
    pub fn bound_proxy(&self) -> (r: AccountId)
        ensures
            r == self.proxy_id(),
    {
        self.proxy
    }

    /// Record `value` on behalf of `caller`: allowed exactly when the bound
    /// proxy invokes it (`env_caller`) and `caller` is the owner.
    pub fn insert(&mut self, value: i32, caller: AccountId, env_caller: AccountId) -> (r: Result<
        (),
        Error,
    >)
        ensures
            final(self).wf(),
            final(self).owner_id() == old(self).owner_id(),
            final(self).proxy_id() == old(self).proxy_id(),
            env_caller != old(self).proxy_id() ==> r == Err::<(), Error>(Error::NotCalledFromProxy)
                && *final(self) == *old(self),
            env_caller == old(self).proxy_id() && caller != old(self).owner_id() ==> r == Err::<
                (),
                Error,
            >(Error::UnauthorizedCaller) && *final(self) == *old(self),
            env_caller == old(self).proxy_id() && caller == old(self).owner_id() ==> r == Ok::<
                (),
                Error,
            >(()) && final(self).dataset() == old(self).dataset().push(value),
    {
        match self.enforce_proxy_call(env_caller) {
            Err(e) => Err(e),
            Ok(()) => match self.enforce_owner_call(caller) {
                Err(e) => Err(e),
                Ok(()) => {
                    self.insert_internal(value);
                    Ok(())
                },
            },
        }
    }

    /// The truncating mean of the dataset. The proxy-binding check applies;
    /// the forwarded caller is not restricted for reads.
    pub fn average(&self, _caller: AccountId, env_caller: AccountId) -> (r: Result<i32, Error>)
        ensures
            env_caller != self.proxy_id() ==> r == Err::<i32, Error>(Error::NotCalledFromProxy),
            env_caller == self.proxy_id() ==> (r matches Ok(v) && v == mean(self.dataset())),
    {
        match self.enforce_proxy_call(env_caller) {
            Err(e) => Err(e),
            Ok(()) => Ok(self.average_internal()),
        }
    }

    /// Append one value to the dataset.
    pub fn insert_internal(&mut self, value: i32)
        ensures
            final(self).wf(),
            final(self).dataset() == old(self).dataset().push(value),
            final(self).owner_id() == old(self).owner_id(),
            final(self).proxy_id() == old(self).proxy_id(),
    {
        self.values.push(value);
    }

    /// The truncating arithmetic mean of the dataset, 0 when it is empty,
    /// computed by full-scan summation.
    pub fn average_internal(&self) -> (r: i32)
        ensures
            r == mean(self.dataset()),
    {
        let n = self.values.len();
        if n == 0 {
            return 0;
        }
        let mut acc: i128 = 0;
        let mut i: usize = 0;
        while i < n
            invariant
                n == self.values@.len(),
                i <= n,
                acc == sum(self.values@.subrange(0, i as int)),
                (i as int) * (i32::MIN as int) <= acc <= (i as int) * (i32::MAX as int),
            decreases n - i,
    {
            let ghost prefix = self.values@.subrange(0, i as int);
            proof {
                lemma_sum_push(prefix, self.values@[i as int]);
                assert(self.values@.subrange(0, (i + 1) as int) =~= prefix.push(
                    self.values@[i as int],
                ));
            }
            acc = acc + (self.values[i] as i128);
            i = i + 1;
        }
        proof {
            assert(self.values@.subrange(0, n as int) =~= self.values@);
            lemma_mean_in_range(self.values@);
        }
        let d: u128 = n as u128;
        if acc >= 0 {
            let q: u128 = (acc as u128) / d;
            assert(q == trunc_div(sum(self.values@), n as int));
            q as i32
        } else {
            let q: u128 = ((-acc) as u128) / d;
            assert(-(q as int) == trunc_div(sum(self.values@), n as int));
            (-(q as i128)) as i32
        }
    }
}

} // verus!
