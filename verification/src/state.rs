//! The orchestrator's persistent state: the administrator, the registry
//! identifier, and the pair cache.
//!
//! The cache maps an *ordered* pair of token identifiers to the pool that
//! serves the pair and that pool's fee.  Every logical pair is stored under
//! both orderings, so lookups never re-sort; the well-formedness predicate
//! `wf` records that invariant together with key uniqueness.

use vstd::prelude::*;

use crate::errors::FlashSwapError;
use crate::AccountId;

verus! {

/// One cache entry: a key ordering of a token pair, with the pool serving the
/// pair and the pool's fee in parts per thousand.
pub type CacheEntry = ((AccountId, AccountId), (AccountId, u8));

/// The first entry of `s` whose key equals `key`, if any.
pub open spec fn lookup_entries(s: Seq<CacheEntry>, key: (AccountId, AccountId)) -> Option<
    (AccountId, u8),
>
    decreases s.len(),
{
    if s.len() == 0 {
        None
    } else if s[0].0 == key {
        Some(s[0].1)
    } else {
        lookup_entries(s.drop_first(), key)
    }
}

/// The flash-swap orchestrator: administrator, registry, and pair cache.
#[derive(Clone)]
pub struct FlashSwap {
    owner: AccountId,
    factory: AccountId,
    pairs: Vec<CacheEntry>,
}

impl FlashSwap {
    /// The administrator.
    pub closed spec fn spec_owner(self) -> AccountId {
        self.owner
    }

    /// The registry that resolves a token pair to a pool.
    pub closed spec fn spec_factory(self) -> AccountId {
        self.factory
    }

    /// The cached pool and fee of the ordered pair `(token_0, token_1)`.
    pub closed spec fn cached(self, token_0: AccountId, token_1: AccountId) -> Option<
        (AccountId, u8),
    > {
        lookup_entries(self.pairs@, (token_0, token_1))
    }

    /// Cache keys are unique, so an entry can be removed by deleting one slot.
    pub closed spec fn uniq(self) -> bool {
        forall|i: int, j: int|
            0 <= i < j < self.pairs@.len() ==> (#[trigger] self.pairs@[i]).0 != (
            #[trigger] self.pairs@[j]).0
    }

    /// Whatever is cached under one ordering is cached under the other, with
    /// the same pool and fee.
    pub open spec fn symmetric(self) -> bool {
        forall|a: AccountId, b: AccountId|
            (#[trigger] self.cached(a, b)) is Some ==> self.cached(b, a) == self.cached(a, b)
    }

    /// Well-formedness of the cache, established by the constructor and kept
    /// by every entry point.
    pub open spec fn wf(self) -> bool {
        self.uniq() && self.symmetric()
    }

    /// Creates an orchestrator administered by `caller` that resolves pools
    /// through `factory`, with an empty cache.
    pub fn new(factory: AccountId, caller: AccountId) -> (r: FlashSwap)
        ensures
            r.wf(),
            r.spec_owner() == caller,
            r.spec_factory() == factory,
            forall|a: AccountId, b: AccountId| #[trigger] r.cached(a, b) is None,
    {
        let r = FlashSwap { owner: caller, factory, pairs: Vec::new() };
        proof {
            assert forall|a: AccountId, b: AccountId| #[trigger] r.cached(a, b) is None by {
                lemma_lookup_none(r.pairs@, (a, b));
            }
        }
        r
    }

    /// The administrator.
    pub fn owner(&self) -> (r: AccountId)
        ensures
            r == self.spec_owner(),
    {
        self.owner
    }

    /// The registry identifier.
    pub fn factory(&self) -> (r: AccountId)
        ensures
            r == self.spec_factory(),
    {
        self.factory
    }

    /// Reassigns the administrator.  Only the administrator may do so.
    pub fn set_owner(&mut self, caller: AccountId, new_owner: AccountId) -> (r: Result<
        (),
        FlashSwapError,
    >)
        ensures
            caller != old(self).spec_owner() ==> r == Err::<(), FlashSwapError>(
                FlashSwapError::CallerIsNotOwner,
            ) && *final(self) == *old(self),
            caller == old(self).spec_owner() ==> r == Ok::<(), FlashSwapError>(())
                && final(self).spec_owner() == new_owner && final(self).spec_factory() == old(self).spec_factory() && final(self).cached_unchanged_from(*old(self)),
            old(self).wf() ==> final(self).wf(),
    {
        if caller != self.owner {
            return Err(FlashSwapError::CallerIsNotOwner);
        }
        self.owner = new_owner;
        proof {
            if old(self).wf() {
                lemma_wf_same_pairs(*old(self), *self);
            }
        }
        Ok(())
    }

    /// The whole cache mapping of `other`, carried over unchanged.
    pub open spec fn cached_unchanged_from(self, other: FlashSwap) -> bool {
        forall|a: AccountId, b: AccountId| #[trigger] self.cached(a, b) == other.cached(a, b)
    }

    /// The cached pool and fee of `(token_0, token_1)`, with no external call.
    pub fn read_cache(&self, token_0: AccountId, token_1: AccountId) -> (r: Option<
        (AccountId, u8),
    >)
        ensures
            r == self.cached(token_0, token_1),
    {
        match self.find_index(token_0, token_1) {
            Some(i) => {
                proof {
                    lemma_lookup_at(self.pairs@, (token_0, token_1), i as int);
                }
                Some(self.pairs[i].1)
            },
            None => {
                proof {
                    lemma_lookup_none(self.pairs@, (token_0, token_1));
                }
                None
            },
        }
    }

    /// The cached pool of `(token_0, token_1)`; `PairNotFound` when the pair
    /// is not cached.  No resolution is attempted: during settlement the pool
    /// must already be known.
    pub fn get_pair_safe(&self, token_0: AccountId, token_1: AccountId) -> (r: Result<
        AccountId,
        FlashSwapError,
    >)
        ensures
            self.cached(token_0, token_1) matches Some(v) ==> r == Ok::<AccountId, FlashSwapError>(
                v.0,
            ),
            self.cached(token_0, token_1) is None ==> r == Err::<AccountId, FlashSwapError>(
                FlashSwapError::PairNotFound,
            ),
    {
        match self.read_cache(token_0, token_1) {
            Some(entry) => Ok(entry.0),
            None => Err(FlashSwapError::PairNotFound),
        }
    }

    /// Stores `(pool, fee)` for the pair under both orderings.
    pub fn cache_pair(&mut self, token_0: AccountId, token_1: AccountId, pool: AccountId, fee: u8)
        requires
            old(self).wf(),
        ensures
            final(self).wf(),
            final(self).spec_owner() == old(self).spec_owner(),
            final(self).spec_factory() == old(self).spec_factory(),
            final(self).cached(token_0, token_1) == Some((pool, fee)),
            final(self).cached(token_1, token_0) == Some((pool, fee)),
            forall|a: AccountId, b: AccountId|
                (a, b) != (token_0, token_1) && (a, b) != (token_1, token_0)
                    ==> #[trigger] final(self).cached(a, b) == old(self).cached(a, b),
    {
        self.insert_entry(token_0, token_1, pool, fee);
        self.insert_entry(token_1, token_0, pool, fee);
        proof {
            assert forall|a: AccountId, b: AccountId|
                (#[trigger] self.cached(a, b)) is Some implies self.cached(b, a) == self.cached(
                a,
                b,
            ) by {
                if (a, b) == (token_0, token_1) || (a, b) == (token_1, token_0) {
                } else {
                    assert(self.cached(a, b) == old(self).cached(a, b));
                    assert(self.cached(b, a) == old(self).cached(b, a));
                }
            }
        }
    }

    /// Caches a pair explicitly.  Administrator-only.
    pub fn add_pair_to_cache(
        &mut self,
        caller: AccountId,
        pool: AccountId,
        token_0: AccountId,
        token_1: AccountId,
        fee: u8,
    ) -> (r: Result<(), FlashSwapError>)
        requires
            old(self).wf(),
        ensures
            final(self).wf(),
            final(self).spec_owner() == old(self).spec_owner(),
            final(self).spec_factory() == old(self).spec_factory(),
            caller != old(self).spec_owner() ==> r == Err::<(), FlashSwapError>(
                FlashSwapError::CallerIsNotOwner,
            ) && *final(self) == *old(self),
            caller == old(self).spec_owner() ==> r == Ok::<(), FlashSwapError>(()) && final(self).cached(token_0, token_1) == Some((pool, fee)) && final(self).cached(token_1, token_0)
                == Some((pool, fee)) && (forall|a: AccountId, b: AccountId|
                (a, b) != (token_0, token_1) && (a, b) != (token_1, token_0)
                    ==> #[trigger] final(self).cached(a, b) == old(self).cached(a, b)),
    {
        if caller != self.owner {
            return Err(FlashSwapError::CallerIsNotOwner);
        }
        self.cache_pair(token_0, token_1, pool, fee);
        Ok(())
    }

    /// Forgets a pair under both orderings.  Administrator-only.
    pub fn remove_pair_from_cache(
        &mut self,
        caller: AccountId,
        token_0: AccountId,
        token_1: AccountId,
    ) -> (r: Result<(), FlashSwapError>)
        requires
            old(self).wf(),
        ensures
            final(self).wf(),
            final(self).spec_owner() == old(self).spec_owner(),
            final(self).spec_factory() == old(self).spec_factory(),
            caller != old(self).spec_owner() ==> r == Err::<(), FlashSwapError>(
                FlashSwapError::CallerIsNotOwner,
            ) && *final(self) == *old(self),
            caller == old(self).spec_owner() ==> r == Ok::<(), FlashSwapError>(()) && final(self).cached(token_0, token_1) is None && final(self).cached(token_1, token_0) is None && (
            forall|a: AccountId, b: AccountId|
                (a, b) != (token_0, token_1) && (a, b) != (token_1, token_0)
                    ==> #[trigger] final(self).cached(a, b) == old(self).cached(a, b)),
    {
        if caller != self.owner {
            return Err(FlashSwapError::CallerIsNotOwner);
        }
        self.remove_entry(token_0, token_1);
        self.remove_entry(token_1, token_0);
        proof {
            assert forall|a: AccountId, b: AccountId|
                (#[trigger] self.cached(a, b)) is Some implies self.cached(b, a) == self.cached(
                a,
                b,
            ) by {
                if (a, b) == (token_0, token_1) || (a, b) == (token_1, token_0) {
                } else {
                    assert(self.cached(a, b) == old(self).cached(a, b));
                    assert(self.cached(b, a) == old(self).cached(b, a));
                }
            }
        }
        Ok(())
    }

    /// Resolves a pair: answers from the cache when possible, and otherwise
    /// records `fetched`, the answer the caller obtained from the registry
    /// (`None` when the registry knows no pool for the pair).
    ///
    /// When the pair is already cached the result does not depend on
    /// `fetched` and the state does not change: re-resolving is free of
    /// external effect.
    pub fn get_pair_and_fee(
        &mut self,
        token_0: AccountId,
        token_1: AccountId,
        fetched: Option<(AccountId, u8)>,
    ) -> (r: Result<(AccountId, u8), FlashSwapError>)
        requires
            old(self).wf(),
        ensures
            final(self).wf(),
            final(self).spec_owner() == old(self).spec_owner(),
            final(self).spec_factory() == old(self).spec_factory(),
            old(self).cached(token_0, token_1) matches Some(v) ==> r == Ok::<
                (AccountId, u8),
                FlashSwapError,
            >(v) && *final(self) == *old(self),
            old(self).cached(token_0, token_1) is None && fetched is None ==> r == Err::<
                (AccountId, u8),
                FlashSwapError,
            >(FlashSwapError::PairNotFound) && *final(self) == *old(self),
            old(self).cached(token_0, token_1) is None ==> (fetched matches Some(v) ==> r == Ok::<
                (AccountId, u8),
                FlashSwapError,
            >(v) && final(self).cached(token_0, token_1) == Some(v) && final(self).cached(
                token_1,
                token_0,
            ) == Some(v) && (forall|a: AccountId, b: AccountId|
                (a, b) != (token_0, token_1) && (a, b) != (token_1, token_0)
                    ==> #[trigger] final(self).cached(a, b) == old(self).cached(a, b))),
    {
        if let Some(entry) = self.read_cache(token_0, token_1) {
            return Ok(entry);
        }
        match fetched {
            None => Err(FlashSwapError::PairNotFound),
            Some((pool, fee)) => {
                self.cache_pair(token_0, token_1, pool, fee);
                Ok((pool, fee))
            },
        }
    }

    /// Index of the entry keyed `(token_0, token_1)`, if one exists.
    fn find_index(&self, token_0: AccountId, token_1: AccountId) -> (r: Option<usize>)
        ensures
            match r {
                Some(i) => 0 <= i < self.pairs@.len() && self.pairs@[i as int].0 == (
                    token_0,
                    token_1,
                ) && forall|j: int|
                    0 <= j < i ==> (#[trigger] self.pairs@[j]).0 != (token_0, token_1),
                None => forall|j: int|
                    0 <= j < self.pairs@.len() ==> (#[trigger] self.pairs@[j]).0 != (
                    token_0,
                    token_1,
                ),
            },
    {
        let n = self.pairs.len();
        let mut i: usize = 0;
        while i < n
            invariant
                i <= n,
                n == self.pairs@.len(),
                forall|j: int| 0 <= j < i ==> (#[trigger] self.pairs@[j]).0 != (token_0, token_1),
            decreases n - i,
        {
            if self.pairs[i].0.0 == token_0 && self.pairs[i].0.1 == token_1 {
                return Some(i);
            }
            i += 1;
        }
        None
    }

    /// Stores `(pool, fee)` under the single key `(token_0, token_1)`.
    fn insert_entry(&mut self, token_0: AccountId, token_1: AccountId, pool: AccountId, fee: u8)
        requires
            old(self).uniq(),
        ensures
            final(self).uniq(),
            final(self).owner == old(self).owner,
            final(self).factory == old(self).factory,
            final(self).cached(token_0, token_1) == Some((pool, fee)),
            forall|a: AccountId, b: AccountId|
                (a, b) != (token_0, token_1) ==> #[trigger] final(self).cached(a, b) == old(self).cached(a, b),
    {
        let ghost s = self.pairs@;
        let key = (token_0, token_1);
        match self.find_index(token_0, token_1) {
            Some(i) => {
                self.pairs[i] = (key, (pool, fee));
                proof {
                    assert forall|a: AccountId, b: AccountId|
                        (a, b) != (token_0, token_1) implies #[trigger] self.cached(a, b) == old(self).cached(a, b) by {
                        lemma_lookup_update(s, i as int, (pool, fee), (a, b));
                    }
                    lemma_lookup_update(s, i as int, (pool, fee), key);
                }
            },
            None => {
                self.pairs.push((key, (pool, fee)));
                proof {
                    assert forall|a: AccountId, b: AccountId|
                        (a, b) != (token_0, token_1) implies #[trigger] self.cached(a, b) == old(self).cached(a, b) by {
                        lemma_lookup_push(s, (key, (pool, fee)), (a, b));
                    }
                    lemma_lookup_push(s, (key, (pool, fee)), key);
                    lemma_lookup_none(s, key);
                }
            },
        }
    }

    /// Deletes the entry keyed `(token_0, token_1)`, if one exists.
    fn remove_entry(&mut self, token_0: AccountId, token_1: AccountId)
        requires
            old(self).uniq(),
        ensures
            final(self).uniq(),
            final(self).owner == old(self).owner,
            final(self).factory == old(self).factory,
            final(self).cached(token_0, token_1) is None,
            forall|a: AccountId, b: AccountId|
                (a, b) != (token_0, token_1) ==> #[trigger] final(self).cached(a, b) == old(self).cached(a, b),
    {
        let ghost s = self.pairs@;
        let key = (token_0, token_1);
        match self.find_index(token_0, token_1) {
            Some(i) => {
                self.pairs.remove(i);
                proof {
                    assert forall|a: AccountId, b: AccountId|
                        (a, b) != (token_0, token_1) implies #[trigger] self.cached(a, b) == old(self).cached(a, b) by {
                        lemma_lookup_remove(s, i as int, (a, b));
                    }
                    lemma_lookup_remove(s, i as int, key);
                }
            },
            None => {
                proof {
                    lemma_lookup_none(s, key);
                }
            },
        }
    }
}

/// Two states with the same entries have the same well-formedness.
proof fn lemma_wf_same_pairs(a: FlashSwap, b: FlashSwap)
    requires
        a.pairs@ == b.pairs@,
        a.wf(),
    ensures
        b.wf(),
{
    assert forall|i: int, j: int| 0 <= i < j < b.pairs@.len() implies (#[trigger] b.pairs@[i]).0
        != (#[trigger] b.pairs@[j]).0 by {
        assert(a.pairs@[i] == b.pairs@[i]);
        assert(a.pairs@[j] == b.pairs@[j]);
    }
    assert forall|x: AccountId, y: AccountId| (#[trigger] b.cached(x, y)) is Some implies b.cached(
        y,
        x,
    ) == b.cached(x, y) by {
        assert(b.cached(x, y) == a.cached(x, y));
        assert(b.cached(y, x) == a.cached(y, x));
        assert(a.cached(x, y) is Some ==> a.cached(y, x) == a.cached(x, y));
    }
}

/// A sequence without an entry for `key` looks it up to `None`.
proof fn lemma_lookup_none(s: Seq<CacheEntry>, key: (AccountId, AccountId))
    requires
        forall|j: int| 0 <= j < s.len() ==> (#[trigger] s[j]).0 != key,
    ensures
        lookup_entries(s, key) is None,
    decreases s.len(),
{
    if s.len() > 0 {
        assert forall|j: int| 0 <= j < s.drop_first().len() implies (#[trigger] s.drop_first()[j]).0
            != key by {
            assert(s.drop_first()[j] == s[j + 1]);
        }
        lemma_lookup_none(s.drop_first(), key);
    }
}

/// A first match at index `i` decides the lookup.
proof fn lemma_lookup_at(s: Seq<CacheEntry>, key: (AccountId, AccountId), i: int)
    requires
        0 <= i < s.len(),
        s[i].0 == key,
        forall|j: int| 0 <= j < i ==> (#[trigger] s[j]).0 != key,
    ensures
        lookup_entries(s, key) == Some(s[i].1),
    decreases i,
{
    if i > 0 {
        assert(s.drop_first()[i - 1] == s[i]);
        assert forall|j: int| 0 <= j < i - 1 implies (#[trigger] s.drop_first()[j]).0 != key by {
            assert(s.drop_first()[j] == s[j + 1]);
        }
        lemma_lookup_at(s.drop_first(), key, i - 1);
    }
}

/// Overwriting the value of the first entry keyed `k` changes the lookup of
/// `k` to the new value and no other lookup.
proof fn lemma_lookup_update(
    s: Seq<CacheEntry>,
    i: int,
    v: (AccountId, u8),
    key: (AccountId, AccountId),
)
    requires
        0 <= i < s.len(),
        forall|j: int| 0 <= j < i ==> (#[trigger] s[j]).0 != s[i].0,
    ensures
        key == s[i].0 ==> lookup_entries(s.update(i, (s[i].0, v)), key) == Some(v),
        key != s[i].0 ==> lookup_entries(s.update(i, (s[i].0, v)), key) == lookup_entries(s, key),
    decreases i,
{
    let t = s.update(i, (s[i].0, v));
    if i == 0 {
        if key != s[0].0 {
            assert(t.drop_first() =~= s.drop_first());
        }
    } else {
        assert(t[0] == s[0]);
        if s[0].0 != key {
            assert(t.drop_first() =~= s.drop_first().update(i - 1, (s.drop_first()[i - 1].0, v)));
            assert forall|j: int| 0 <= j < i - 1 implies (#[trigger] s.drop_first()[j]).0
                != s.drop_first()[i - 1].0 by {
                assert(s.drop_first()[j] == s[j + 1]);
                assert(s.drop_first()[i - 1] == s[i]);
            }
            lemma_lookup_update(s.drop_first(), i - 1, v, key);
        }
    }
}

/// Appending an entry leaves every present key unchanged and gives an absent
/// key the new entry's value when the keys match.
proof fn lemma_lookup_push(s: Seq<CacheEntry>, e: CacheEntry, key: (AccountId, AccountId))
    ensures
        lookup_entries(s.push(e), key) == (if lookup_entries(s, key) is Some {
            lookup_entries(s, key)
        } else if e.0 == key {
            Some(e.1)
        } else {
            None
        }),
    decreases s.len(),
{
    if s.len() == 0 {
        assert(s.push(e).len() == 1);
        assert(s.push(e)[0] == e);
        assert(s.push(e).drop_first() =~= Seq::<CacheEntry>::empty());
        assert(lookup_entries(s.push(e).drop_first(), key) is None);
        assert(lookup_entries(s, key) is None);
    } else {
        assert(s.push(e)[0] == s[0]);
        if s[0].0 == key {
            assert(lookup_entries(s.push(e), key) == Some(s[0].1));
            assert(lookup_entries(s, key) == Some(s[0].1));
        } else {
            assert(s.push(e).drop_first() =~= s.drop_first().push(e));
            lemma_lookup_push(s.drop_first(), e, key);
            assert(lookup_entries(s.push(e), key) == lookup_entries(s.drop_first().push(e), key));
            assert(lookup_entries(s, key) == lookup_entries(s.drop_first(), key));
        }
    }
}

/// Deleting the only entry keyed `k` empties the lookup of `k` and changes no
/// other lookup.
proof fn lemma_lookup_remove(s: Seq<CacheEntry>, i: int, key: (AccountId, AccountId))
    requires
        0 <= i < s.len(),
        forall|j: int| 0 <= j < s.len() && j != i ==> (#[trigger] s[j]).0 != s[i].0,
    ensures
        key == s[i].0 ==> lookup_entries(s.remove(i), key) is None,
        key != s[i].0 ==> lookup_entries(s.remove(i), key) == lookup_entries(s, key),
    decreases i,
{
    let t = s.remove(i);
    if i == 0 {
        assert(t =~= s.drop_first());
        if key == s[0].0 {
            assert forall|j: int| 0 <= j < t.len() implies (#[trigger] t[j]).0 != key by {
                assert(t[j] == s[j + 1]);
            }
            lemma_lookup_none(t, key);
        }
    } else {
        assert(t[0] == s[0]);
        if s[0].0 != key {
            assert(t.drop_first() =~= s.drop_first().remove(i - 1));
            assert(s.drop_first()[i - 1] == s[i]);
            assert forall|j: int|
                0 <= j < s.drop_first().len() && j != i - 1 implies (#[trigger] s.drop_first()[j]).0
                != s.drop_first()[i - 1].0 by {
                assert(s.drop_first()[j] == s[j + 1]);
            }
            lemma_lookup_remove(s.drop_first(), i - 1, key);
        } else {
            if key == s[i].0 {
                assert(s[0].0 == s[i].0 && 0 != i);
            }
        }
    }
}

} // verus!
