//! Walking a path of assets hop by hop: pricing each hop from oriented
//! reserves, and building the swap instructions of the interior hops.

use vstd::prelude::*;

use crate::errors::FlashSwapError;
use crate::orchestrator::SwapStep;
use crate::pricing::amount_out_spec;
use crate::state::FlashSwap;
use crate::AccountId;

verus! {

/// Canonical slot assignment: a pool stores its reserves in ascending token
/// order, so the pair `(reserve_0, reserve_1)` is flipped exactly when
/// `token_0` is the larger identifier.
pub open spec fn oriented_reserves(
    token_0: AccountId,
    token_1: AccountId,
    reserve_0: u128,
    reserve_1: u128,
) -> (u128, u128) {
    if token_0 < token_1 {
        (reserve_0, reserve_1)
    } else {
        (reserve_1, reserve_0)
    }
}

/// Canonical slot assignment of an output amount: the amount leaves on the
/// slot of `token_out`, the other slot stays zero.
pub open spec fn slot_amounts(token_in: AccountId, token_out: AccountId, amount: u128) -> (
    u128,
    u128,
) {
    if token_in < token_out {
        (0u128, amount)
    } else {
        (amount, 0u128)
    }
}

impl FlashSwap {
    /// What `get_reserves` returns: the reserves oriented for a swap from
    /// `token_0` into `token_1`, with the cached fee of the pair.
    pub open spec fn reserves_spec(
        self,
        token_0: AccountId,
        token_1: AccountId,
        reserve_0: u128,
        reserve_1: u128,
    ) -> Result<(u128, u128, u8), FlashSwapError> {
        if token_0 == token_1 {
            Err(FlashSwapError::IdenticalAddresses)
        } else {
            match self.cached(token_0, token_1) {
                None => Err(FlashSwapError::PairNotFound),
                Some(pf) => Ok(
                    (
                        oriented_reserves(token_0, token_1, reserve_0, reserve_1).0,
                        oriented_reserves(token_0, token_1, reserve_0, reserve_1).1,
                        pf.1,
                    ),
                ),
            }
        }
    }

    /// Orients a pool's raw reserves — as the pool reports them, in ascending
    /// token order — so that the first component belongs to `token_0`, and
    /// reads the pair's fee from the cache.  The pair must already be
    /// resolved: no discovery happens while amounts are being priced.
    pub fn get_reserves(
        &self,
        token_0: AccountId,
        token_1: AccountId,
        reserve_0: u128,
        reserve_1: u128,
    ) -> (r: Result<(u128, u128, u8), FlashSwapError>)
        ensures
            r == self.reserves_spec(token_0, token_1, reserve_0, reserve_1),
    {
        if token_0 == token_1 {
            return Err(FlashSwapError::IdenticalAddresses);
        }
        match self.read_cache(token_0, token_1) {
            None => Err(FlashSwapError::PairNotFound),
            Some(pf) => {
                if token_0 < token_1 {
                    Ok((reserve_0, reserve_1, pf.1))
                } else {
                    Ok((reserve_1, reserve_0, pf.1))
                }
            },
        }
    }

    /// The priced output of one hop from `token_0` into `token_1`.
    pub open spec fn hop_out(
        self,
        token_0: AccountId,
        token_1: AccountId,
        reserve_0: u128,
        reserve_1: u128,
        amount_in: u128,
    ) -> Result<u128, FlashSwapError> {
        match self.reserves_spec(token_0, token_1, reserve_0, reserve_1) {
            Err(e) => Err(e),
            Ok(rs) => amount_out_spec(amount_in, rs.0, rs.1, rs.2),
        }
    }

    /// The amount sequence from hop `i` on, continuing the amounts `acc`
    /// already priced (one per path entry up to and including `i`).
    pub open spec fn amounts_rec(
        self,
        acc: Seq<u128>,
        path: Seq<AccountId>,
        reserves: Seq<(u128, u128)>,
        i: int,
    ) -> Result<Seq<u128>, FlashSwapError>
        decreases path.len() - i,
    {
        if i < 0 || i >= path.len() - 1 {
            Ok(acc)
        } else {
            match self.hop_out(path[i], path[i + 1], reserves[i].0, reserves[i].1, acc.last()) {
                Err(e) => Err(e),
                Ok(v) => self.amounts_rec(acc.push(v), path, reserves, i + 1),
            }
        }
    }

    /// The full behaviour of `calculate_amounts_out`.
    pub open spec fn amounts_out_spec(
        self,
        amount_in: u128,
        path: Seq<AccountId>,
        reserves: Seq<(u128, u128)>,
    ) -> Result<Seq<u128>, FlashSwapError> {
        if path.len() < 2 {
            Err(FlashSwapError::InvalidPath)
        } else {
            self.amounts_rec(seq![amount_in], path, reserves, 0)
        }
    }

    /// Prices the whole path: seeds the sequence with `amount_in` and walks
    /// the hops, orienting each pool's raw reserves `pool_reserves[i]` and
    /// applying the pricing rule.  Every adjacent pair must be distinct and
    /// already resolved in the cache.
    pub fn calculate_amounts_out(
        &self,
        amount_in: u128,
        path: &Vec<AccountId>,
        pool_reserves: &Vec<(u128, u128)>,
    ) -> (r: Result<Vec<u128>, FlashSwapError>)
        requires
            path@.len() == pool_reserves@.len() + 1,
        ensures
            r matches Ok(v) ==> self.amounts_out_spec(amount_in, path@, pool_reserves@) == Ok::<
                Seq<u128>,
                FlashSwapError,
            >(v@) && v@.len() == path@.len() && v@[0] == amount_in,
            r matches Err(e) ==> self.amounts_out_spec(amount_in, path@, pool_reserves@) == Err::<
                Seq<u128>,
                FlashSwapError,
            >(e),
    {
        let n = path.len();
        if n < 2 {
            return Err(FlashSwapError::InvalidPath);
        }
        let mut amounts: Vec<u128> = Vec::with_capacity(n);
        amounts.push(amount_in);
        let mut i: usize = 0;
        while i < n - 1
            invariant
                2 <= n == path@.len(),
                n == pool_reserves@.len() + 1,
                i <= n - 1,
                amounts@.len() == i + 1,
                amounts@[0] == amount_in,
                self.amounts_out_spec(amount_in, path@, pool_reserves@) == self.amounts_rec(
                    amounts@,
                    path@,
                    pool_reserves@,
                    i as int,
                ),
            decreases n - i,
        {
            let hop = match self.get_reserves(
                path[i],
                path[i + 1],
                pool_reserves[i].0,
                pool_reserves[i].1,
            ) {
                Ok(t) => t,
                Err(e) => {
                    return Err(e);
                },
            };
            let out = match self.get_amount_out(amounts[i], hop.0, hop.1, hop.2) {
                Ok(v) => v,
                Err(e) => {
                    return Err(e);
                },
            };
            proof {
                assert(amounts@.last() == amounts@[i as int]);
            }
            amounts.push(out);
            i += 1;
        }
        Ok(amounts)
    }

    /// The swap instruction of interior hop `i`, assuming the pools involved
    /// are cached and the hop's tokens are distinct.
    pub open spec fn swap_step_spec(
        self,
        amounts: Seq<u128>,
        path: Seq<AccountId>,
        payee: AccountId,
        i: int,
    ) -> SwapStep {
        SwapStep {
            pair: (self.cached(path[i], path[i + 1])->0).0,
            amount_0_out: slot_amounts(path[i], path[i + 1], amounts[i + 1]).0,
            amount_1_out: slot_amounts(path[i], path[i + 1], amounts[i + 1]).1,
            to: if i + 2 < path.len() {
                (self.cached(path[i + 1], path[i + 2])->0).0
            } else {
                payee
            },
        }
    }

    /// The instructions of the interior hops from `i` on.
    pub open spec fn swap_steps_rec(
        self,
        amounts: Seq<u128>,
        path: Seq<AccountId>,
        payee: AccountId,
        i: int,
    ) -> Result<Seq<SwapStep>, FlashSwapError>
        decreases path.len() - i,
    {
        if i < 1 || i >= path.len() - 1 {
            Ok(Seq::empty())
        } else if path[i] == path[i + 1] {
            Err(FlashSwapError::IdenticalAddresses)
        } else if i + 2 < path.len() && self.cached(path[i + 1], path[i + 2]) is None {
            Err(FlashSwapError::PairNotFound)
        } else if self.cached(path[i], path[i + 1]) is None {
            Err(FlashSwapError::PairNotFound)
        } else {
            match self.swap_steps_rec(amounts, path, payee, i + 1) {
                Err(e) => Err(e),
                Ok(rest) => Ok(seq![self.swap_step_spec(amounts, path, payee, i)] + rest),
            }
        }
    }

    /// The full behaviour of `swap`: one instruction per interior hop.
    pub open spec fn swap_steps_spec(
        self,
        amounts: Seq<u128>,
        path: Seq<AccountId>,
        payee: AccountId,
    ) -> Result<Seq<SwapStep>, FlashSwapError> {
        self.swap_steps_rec(amounts, path, payee, 1)
    }

    /// A successfully priced chain has one amount per path entry, keeps the
    /// amounts already priced, and certifies every remaining hop: adjacent
    /// assets distinct and their pair resolved.
    pub proof fn lemma_amounts_rec_ok_shape(
        self,
        acc: Seq<u128>,
        path: Seq<AccountId>,
        reserves: Seq<(u128, u128)>,
        i: int,
    )
        requires
            0 <= i,
            acc.len() == i + 1,
        ensures
            self.amounts_rec(acc, path, reserves, i) matches Ok(s) ==> {
                &&& s.len() == (if i < path.len() - 1 {
                    path.len() as int
                } else {
                    acc.len() as int
                })
                &&& s.subrange(0, acc.len() as int) == acc
                &&& forall|j: int|
                    i <= j < path.len() - 1 ==> (path[j] != path[j + 1] && (
                    #[trigger] self.cached(path[j], path[j + 1])) is Some)
            },
        decreases path.len() - i,
    {
        let r = self.amounts_rec(acc, path, reserves, i);
        if i >= path.len() - 1 {
            assert(acc.subrange(0, acc.len() as int) =~= acc);
        } else {
            match self.hop_out(path[i], path[i + 1], reserves[i].0, reserves[i].1, acc.last()) {
                Err(e) => {},
                Ok(v) => {
                    self.lemma_amounts_rec_ok_shape(acc.push(v), path, reserves, i + 1);
                    if r is Ok {
                        let s = r->Ok_0;
                        assert(s.subrange(0, acc.len() as int + 1) == acc.push(v));
                        assert forall|m: int| 0 <= m < acc.len() implies s.subrange(
                            0,
                            acc.len() as int,
                        )[m] == acc[m] by {
                            assert(acc.push(v)[m] == acc[m]);
                        }
                        assert(s.subrange(0, acc.len() as int) =~= acc);
                    }
                },
            }
        }
    }

    /// When every interior hop is between distinct assets with a resolved
    /// pair, the hop instructions can all be built.
    pub proof fn lemma_swap_steps_ok(
        self,
        amounts: Seq<u128>,
        path: Seq<AccountId>,
        payee: AccountId,
        i: int,
    )
        requires
            1 <= i,
            forall|j: int|
                1 <= j < path.len() - 1 ==> (path[j] != path[j + 1] && (
                #[trigger] self.cached(path[j], path[j + 1])) is Some),
        ensures
            self.swap_steps_rec(amounts, path, payee, i) is Ok,
        decreases path.len() - i,
    {
        if i < path.len() - 1 {
            self.lemma_swap_steps_ok(amounts, path, payee, i + 1);
        }
    }

    /// Builds the swap instruction of every interior hop: hop `i` swaps
    /// `path[i]` into `path[i+1]`, emitting `amounts[i+1]` on the slot of
    /// `path[i+1]`, directed at the next hop's pool — or at `payee` for the
    /// last hop.  Every pool involved must already be cached, and adjacent
    /// path entries must be distinct.
    pub fn swap(&self, amounts: &Vec<u128>, path: &Vec<AccountId>, payee: AccountId) -> (r: Result<
        Vec<SwapStep>,
        FlashSwapError,
    >)
        requires
            amounts@.len() >= path@.len(),
        ensures
            r matches Ok(v) ==> self.swap_steps_spec(amounts@, path@, payee) == Ok::<
                Seq<SwapStep>,
                FlashSwapError,
            >(v@),
            r matches Err(e) ==> self.swap_steps_spec(amounts@, path@, payee) == Err::<
                Seq<SwapStep>,
                FlashSwapError,
            >(e),
    {
        let n = path.len();
        let mut steps: Vec<SwapStep> = Vec::new();
        if n < 3 {
            return Ok(steps);
        }
        let mut i: usize = 1;
        while i < n - 1
            invariant
                3 <= n == path@.len(),
                amounts@.len() >= n,
                1 <= i <= n - 1,
                steps@.len() == i - 1,
                self.swap_steps_spec(amounts@, path@, payee) == (match self.swap_steps_rec(
                    amounts@,
                    path@,
                    payee,
                    i as int,
                ) {
                    Ok(rest) => Ok::<Seq<SwapStep>, FlashSwapError>(steps@ + rest),
                    Err(e) => Err::<Seq<SwapStep>, FlashSwapError>(e),
                }),
            decreases n - i,
        {
            let input = path[i];
            let output = path[i + 1];
            if input == output {
                return Err(FlashSwapError::IdenticalAddresses);
            }
            let to: AccountId = if i < n - 2 {
                match self.get_pair_safe(output, path[i + 2]) {
                    Ok(p) => p,
                    Err(e) => {
                        return Err(e);
                    },
                }
            } else {
                payee
            };
            let pair = match self.get_pair_safe(input, output) {
                Ok(p) => p,
                Err(e) => {
                    return Err(e);
                },
            };
            let amount_out = amounts[i + 1];
            let step = if input < output {
                SwapStep { pair, amount_0_out: 0, amount_1_out: amount_out, to }
            } else {
                SwapStep { pair, amount_0_out: amount_out, amount_1_out: 0, to }
            };
            proof {
                assert(step == self.swap_step_spec(amounts@, path@, payee, i as int));
            }
            let ghost pre = steps@;
            steps.push(step);
            proof {
                let rest_now = self.swap_steps_rec(amounts@, path@, payee, i as int);
                let rest_next = self.swap_steps_rec(amounts@, path@, payee, i as int + 1);
                if rest_next is Ok {
                    assert(steps@ + (rest_next->Ok_0) =~= pre + (rest_now->Ok_0));
                }
            }
            i += 1;
        }
        proof {
            assert(self.swap_steps_rec(amounts@, path@, payee, i as int) == Ok::<
                Seq<SwapStep>,
                FlashSwapError,
            >(Seq::empty()));
            assert(steps@ + Seq::<SwapStep>::empty() =~= steps@);
        }
        Ok(steps)
    }
}

} // verus!
