//! Multi-account dispatch: one `OrderRouter` per account, keyed by
//! `AccountId`. Each account has its own idempotency ledger and its own
//! broker, so a `client_id` colliding across two accounts is two different
//! orders, never confused.

use std::collections::HashMap;

use vstd::prelude::*;
use vstd::std_specs::iter::IteratorSpec;

use vstd::string::StringExecFns;

use crate::strings::{decimal, push_decimal};
use crate::domain::{AccountSnapshot, Broker, BrokerOrderId, ExecEvent, OrderIntent, PortError, PortResult};
use super::router::OrderRouter;

verus! {

broadcast use vstd::std_specs::hash::group_hash_axioms;

pub type AccountId = u32;

/// Sums of equity, balance and free margin across accounts.
#[derive(Debug, Clone, Copy, PartialEq, Eq, Structural)]
pub struct AggregateSnapshot {
    pub equity: i64,
    pub balance: i64,
    pub free_margin: i64,
    pub n_accounts: usize,
}

/// Sum of `field` over `snaps`, in `i64` arithmetic that wraps on
/// overflow.
pub open spec fn wrapping_total(snaps: Seq<AccountSnapshot>, field: spec_fn(AccountSnapshot) -> i64) -> i64
    decreases snaps.len(),
{
    if snaps.len() == 0 {
        0
    } else {
        wrapping_total(snaps.drop_last(), field).wrapping_add(field(snaps.last()))
    }
}

/// The aggregate of a list of per-account snapshots.
pub open spec fn aggregate_of(snaps: Seq<AccountSnapshot>) -> AggregateSnapshot {
    AggregateSnapshot {
        equity: wrapping_total(snaps, |s: AccountSnapshot| s.equity),
        balance: wrapping_total(snaps, |s: AccountSnapshot| s.balance),
        free_margin: wrapping_total(snaps, |s: AccountSnapshot| s.free_margin),
        n_accounts: snaps.len() as usize,
    }
}

impl AggregateSnapshot {
    /// Sums equity, balance and free margin across `snaps`.
    pub fn sum_of(snaps: &[AccountSnapshot]) -> (r: AggregateSnapshot)
        ensures
            r == aggregate_of(snaps@),
    {
        let mut acc = AggregateSnapshot { equity: 0, balance: 0, free_margin: 0, n_accounts: 0 };
        let n = snaps.len();
        for i in 0..n
            invariant
                n == snaps@.len(),
                acc == aggregate_of(snaps@.take(i as int)),
        {
            let snap = snaps[i];
            acc = AggregateSnapshot {
                equity: acc.equity.wrapping_add(snap.equity),
                balance: acc.balance.wrapping_add(snap.balance),
                free_margin: acc.free_margin.wrapping_add(snap.free_margin),
                n_accounts: i + 1,
            };
            assert(snaps@.take(i + 1).drop_last() =~= snaps@.take(i as int));
        }
        assert(snaps@.take(n as int) =~= snaps@);
        acc
    }
}

/// Why an account id that is already registered cannot be added again.
pub open spec fn already_registered_text(id: AccountId) -> Seq<char> {
    "account "@ + decimal(id as nat) + " is already registered"@
}

/// Why a request naming an unregistered account is refused.
pub open spec fn unknown_account_text(id: AccountId) -> Seq<char> {
    "unknown account "@ + decimal(id as nat)
}

/// The already-registered message, the id written in decimal.
fn already_registered_message(id: AccountId) -> (r: String)
    ensures
        r@ == already_registered_text(id),
{
    let mut s = String::from_str("account ");
    push_decimal(&mut s, id);
    s.append(" is already registered");
    proof {
        reveal_strlit("account ");
        reveal_strlit(" is already registered");
    }
    s
}

/// The unknown-account message, the id written in decimal.
fn unknown_account_message(id: AccountId) -> (r: String)
    ensures
        r@ == unknown_account_text(id),
{
    let mut s = String::from_str("unknown account ");
    push_decimal(&mut s, id);
    proof {
        reveal_strlit("unknown account ");
    }
    s
}

pub struct AccountManager<B: Broker> {
    routers: HashMap<AccountId, OrderRouter<B>>,
}

impl<B: Broker> AccountManager<B> {
    /// The router of every registered account.
    pub closed spec fn accounts(self) -> Map<AccountId, OrderRouter<B>> {
        self.routers@
    }

    pub fn new() -> (r: Self)
        ensures
            r.accounts() == Map::<AccountId, OrderRouter<B>>::empty(),
    {
        AccountManager { routers: HashMap::new() }
    }

    /// Registers a new account. An existing `id` is never overwritten.
    pub fn add_account(&mut self, id: AccountId, broker: B) -> (r: PortResult<()>)
        ensures
            old(self).accounts().contains_key(id) ==> (r matches Err(PortError::Adapter(msg)) && msg@
                == already_registered_text(id)) && final(self).accounts() == old(self).accounts(),
            !old(self).accounts().contains_key(id) ==> {
                &&& r is Ok
                &&& final(self).accounts().dom() == old(self).accounts().dom().insert(id)
                &&& final(self).accounts().remove(id) == old(self).accounts()
                &&& final(self).accounts()[id].ledger() == Map::<u128, BrokerOrderId>::empty()
                &&& final(self).accounts()[id].broker_state() == broker
            },
    {
        if self.routers.contains_key(&id) {
            return Err(PortError::Adapter(already_registered_message(id)));
        }
        self.routers.insert(id, OrderRouter::new(broker));
        assert(self.routers@.remove(id) =~= old(self).routers@);
        Ok(())
    }

    pub fn remove_account(&mut self, id: AccountId) -> (r: Option<OrderRouter<B>>)
        ensures
            r == (if old(self).accounts().contains_key(id) {
                Some(old(self).accounts()[id])
            } else {
                None::<OrderRouter<B>>
            }),
            final(self).accounts() == old(self).accounts().remove(id),
    {
        self.routers.remove(&id)
    }

    /// Every registered account id, each exactly once.
    pub fn account_ids(&self) -> (r: Vec<AccountId>)
        ensures
            r@.to_set() == self.accounts().dom(),
            r@.no_duplicates(),
            r@.len() == self.accounts().len(),
    {
        let mut out: Vec<AccountId> = Vec::new();
        let keys = self.routers.keys();
        let ghost items = keys.remaining();
        for id in it: keys
            invariant
                it.seq() == items,
                out@.len() == it.index(),
                forall|i: int| 0 <= i < it.index() ==> #[trigger] out@[i] == *items[i],
        {
            out.push(*id);
        }
        assert(out@ =~= items.unref());
        out
    }

    pub fn submit(&mut self, account: AccountId, intent: &OrderIntent) -> (r: PortResult<BrokerOrderId>)
        ensures
            !old(self).accounts().contains_key(account) ==> (r matches Err(PortError::Adapter(msg)) && msg@
                == unknown_account_text(account)) && final(self).accounts() == old(self).accounts(),
            old(self).accounts().contains_key(account) ==> {
                &&& final(self).accounts().dom() == old(self).accounts().dom()
                &&& final(self).accounts().remove(account) == old(self).accounts().remove(account)
                &&& OrderRouter::submit_post(
                    old(self).accounts()[account],
                    *intent,
                    r,
                    final(self).accounts()[account],
                )
            },
    {
        match self.routers.remove(&account) {
            None => Err(PortError::Adapter(unknown_account_message(account))),
            Some(mut router) => {
                let r = router.submit(intent);
                self.routers.insert(account, router);
                assert(self.routers@.dom() =~= old(self).routers@.dom());
                assert(self.routers@.remove(account) =~= old(self).routers@.remove(account));
                r
            },
        }
    }

    pub fn modify(&mut self, account: AccountId, id: BrokerOrderId, sl: Option<i64>, tp: Option<i64>) -> (r: PortResult<()>)
        ensures
            !old(self).accounts().contains_key(account) ==> (r matches Err(PortError::Adapter(msg)) && msg@
                == unknown_account_text(account)) && final(self).accounts() == old(self).accounts(),
            old(self).accounts().contains_key(account) ==> {
                &&& final(self).accounts().dom() == old(self).accounts().dom()
                &&& final(self).accounts().remove(account) == old(self).accounts().remove(account)
                &&& final(self).accounts()[account].ledger() == old(self).accounts()[account].ledger()
                &&& old(self).accounts()[account].broker_state().modify_step(
                    id,
                    sl,
                    tp,
                    r,
                    &final(self).accounts()[account].broker_state(),
                )
            },
    {
        match self.routers.remove(&account) {
            None => Err(PortError::Adapter(unknown_account_message(account))),
            Some(mut router) => {
                let r = router.modify(id, sl, tp);
                self.routers.insert(account, router);
                assert(self.routers@.dom() =~= old(self).routers@.dom());
                assert(self.routers@.remove(account) =~= old(self).routers@.remove(account));
                r
            },
        }
    }

    pub fn close(&mut self, account: AccountId, id: BrokerOrderId, qty: Option<i64>) -> (r: PortResult<()>)
        ensures
            !old(self).accounts().contains_key(account) ==> (r matches Err(PortError::Adapter(msg)) && msg@
                == unknown_account_text(account)) && final(self).accounts() == old(self).accounts(),
            old(self).accounts().contains_key(account) ==> {
                &&& final(self).accounts().dom() == old(self).accounts().dom()
                &&& final(self).accounts().remove(account) == old(self).accounts().remove(account)
                &&& final(self).accounts()[account].ledger() == old(self).accounts()[account].ledger()
                &&& old(self).accounts()[account].broker_state().close_step(
                    id,
                    qty,
                    r,
                    &final(self).accounts()[account].broker_state(),
                )
            },
    {
        match self.routers.remove(&account) {
            None => Err(PortError::Adapter(unknown_account_message(account))),
            Some(mut router) => {
                let r = router.close(id, qty);
                self.routers.insert(account, router);
                assert(self.routers@.dom() =~= old(self).routers@.dom());
                assert(self.routers@.remove(account) =~= old(self).routers@.remove(account));
                r
            },
        }
    }

    pub fn poll_event(&mut self, account: AccountId) -> (r: Option<ExecEvent>)
        ensures
            !old(self).accounts().contains_key(account) ==> r is None && final(self).accounts() == old(
                self,
            ).accounts(),
            old(self).accounts().contains_key(account) ==> {
                &&& final(self).accounts().dom() == old(self).accounts().dom()
                &&& final(self).accounts().remove(account) == old(self).accounts().remove(account)
                &&& final(self).accounts()[account].ledger() == old(self).accounts()[account].ledger()
                &&& old(self).accounts()[account].broker_state().poll_event_step(
                    r,
                    &final(self).accounts()[account].broker_state(),
                )
            },
    {
        match self.routers.remove(&account) {
            None => None,
            Some(mut router) => {
                let r = router.poll_event();
                self.routers.insert(account, router);
                assert(self.routers@.dom() =~= old(self).routers@.dom());
                assert(self.routers@.remove(account) =~= old(self).routers@.remove(account));
                r
            },
        }
    }

    /// Drains at most one pending event per account: a caller wanting every
    /// pending event loops this until it returns an empty `Vec`.
    pub fn poll_all_events(&mut self) -> (r: Vec<(AccountId, ExecEvent)>)
        ensures
            final(self).accounts().dom() == old(self).accounts().dom(),
            forall|a: AccountId| #[trigger]
                old(self).accounts().contains_key(a) ==> polled(
                    old(self).accounts()[a],
                    final(self).accounts()[a],
                    a,
                    r@,
                ),
            forall|k: int| 0 <= k < r@.len() ==> old(self).accounts().contains_key(#[trigger] r@[k].0),
            forall|k1: int, k2: int|
                0 <= k1 < r@.len() && 0 <= k2 < r@.len() && k1 != k2 ==> #[trigger] r@[k1].0 != #[trigger] r@[k2].0,
    {
        let ids = self.account_ids();
        let mut out: Vec<(AccountId, ExecEvent)> = Vec::new();
        let ghost mut src: Seq<int> = Seq::empty();
        let n = ids.len();
        for i in 0..n
            invariant
                n == ids@.len(),
                ids@.to_set() == old(self).accounts().dom(),
                ids@.no_duplicates(),
                self.accounts().dom() == old(self).accounts().dom(),
                src.len() == out@.len(),
                forall|k: int| 0 <= k < src.len() ==> 0 <= #[trigger] src[k] < i && out@[k].0 == ids@[src[k]],
                forall|k1: int, k2: int| 0 <= k1 < k2 < src.len() ==> #[trigger] src[k1] < #[trigger] src[k2],
                forall|j: int| i <= j < n ==> #[trigger] self.accounts()[ids@[j]] == old(self).accounts()[ids@[j]],
                forall|j: int|
                    0 <= j < i ==> polled(
                        old(self).accounts()[#[trigger] ids@[j]],
                        self.accounts()[ids@[j]],
                        ids@[j],
                        out@,
                    ),
        {
            let id = ids[i];
            assert(ids@.to_set().contains(ids@[i as int]));
            let ghost out0 = out@;
            let ghost map0 = self.accounts();
            let ghost before = old(self).accounts()[id];
            assert(forall|j: int| 0 <= j < i ==> ids@[j] != id);
            match self.routers.remove(&id) {
                None => {},
                Some(mut router) => {
                    let ev = router.poll_event();
                    self.routers.insert(id, router);
                    assert(self.routers@.dom() =~= old(self).routers@.dom());
                    assert(self.routers@ == map0.insert(id, router));
                    match ev {
                        Some(e) => {
                            out.push((id, e));
                            proof {
                                src = src.push(i as int);
                                assert(out@[out@.len() - 1].0 == id);
                                assert(polled(before, self.accounts()[id], id, out@));
                            }
                        },
                        None => {
                            proof {
                                assert forall|k: int| 0 <= k < out@.len() implies #[trigger] out@[k].0 != id by {
                                    assert(src[k] < i);
                                }
                                assert(polled(before, self.accounts()[id], id, out@));
                            }
                        },
                    }
                },
            }
            proof {
                assert forall|j: int| 0 <= j < i + 1 implies polled(
                    old(self).accounts()[#[trigger] ids@[j]],
                    self.accounts()[ids@[j]],
                    ids@[j],
                    out@,
                ) by {
                    if j < i {
                        let a = ids@[j];
                        let b0 = old(self).accounts()[a];
                        let b1 = self.accounts()[a];
                        assert(b1 == map0[a]);
                        assert(polled(b0, b1, a, out0));
                        if exists|k: int|
                            0 <= k < out0.len() && #[trigger] out0[k].0 == a && b0.broker_state().poll_event_step(
                                Some(out0[k].1),
                                &b1.broker_state(),
                            ) {
                            let k = choose|k: int|
                                0 <= k < out0.len() && #[trigger] out0[k].0 == a
                                    && b0.broker_state().poll_event_step(Some(out0[k].1), &b1.broker_state());
                            assert(out@[k] == out0[k]);
                        } else {
                            assert forall|k: int| 0 <= k < out@.len() implies #[trigger] out@[k].0 != a by {
                                if k < out0.len() {
                                    assert(out@[k] == out0[k]);
                                }
                            }
                        }
                    }
                }
                assert forall|j: int| i + 1 <= j < n implies #[trigger] self.accounts()[ids@[j]] == old(
                    self,
                ).accounts()[ids@[j]] by {
                    assert(ids@[j] != id);
                }
            }
        }
        proof {
            assert forall|a: AccountId| #[trigger] old(self).accounts().contains_key(a) implies polled(
                old(self).accounts()[a],
                self.accounts()[a],
                a,
                out@,
            ) by {
                assert(ids@.to_set().contains(a));
                let j = choose|j: int| 0 <= j < ids@.len() && ids@[j] == a;
                assert(polled(old(self).accounts()[ids@[j]], self.accounts()[ids@[j]], ids@[j], out@));
            }
        }
        assert forall|k: int| 0 <= k < out@.len() implies old(self).accounts().contains_key(#[trigger] out@[k].0) by {
            assert(ids@.to_set().contains(ids@[src[k]]));
        }
        assert forall|k1: int, k2: int|
            0 <= k1 < out@.len() && 0 <= k2 < out@.len() && k1 != k2 implies #[trigger] out@[k1].0 != #[trigger] out@[k2].0 by {
            if k1 < k2 {
                assert(src[k1] < src[k2]);
            } else {
                assert(src[k2] < src[k1]);
            }
        }
        out
    }

    pub fn account_snapshot(&self, account: AccountId) -> (r: Option<AccountSnapshot>)
        ensures
            r is Some <==> self.accounts().contains_key(account),
            r matches Some(s) ==> self.accounts()[account].broker_state().account_result(s),
    {
        match self.routers.get(&account) {
            Some(router) => Some(router.broker().account()),
            None => None,
        }
    }

    /// Sums equity, balance and free margin across every registered
    /// account's own broker snapshot.
    pub fn aggregate_snapshot(&self) -> (r: AggregateSnapshot)
        ensures
            exists|ids: Seq<AccountId>, snaps: Seq<AccountSnapshot>|
                #[trigger] reported_snapshots(self.accounts(), ids, snaps) && r == aggregate_of(snaps),
    {
        let ids = self.account_ids();
        let mut snaps: Vec<AccountSnapshot> = Vec::new();
        let n = ids.len();
        for i in 0..n
            invariant
                n == ids@.len(),
                ids@.to_set() == self.accounts().dom(),
                snaps@.len() == i,
                forall|j: int|
                    0 <= j < i ==> self.accounts()[ids@[j]].broker_state().account_result(#[trigger] snaps@[j]),
        {
            assert(ids@.to_set().contains(ids@[i as int]));
            match self.routers.get(&ids[i]) {
                Some(router) => {
                    snaps.push(router.broker().account());
                },
                None => {
                    assert(false);
                },
            }
        }
        let r = AggregateSnapshot::sum_of(snaps.as_slice());
        assert(reported_snapshots(self.accounts(), ids@, snaps@));
        r
    }
}

/// `snaps` holds one snapshot per registered account, in the order of
/// `ids`, each one its account's broker may report.
pub open spec fn reported_snapshots<B: Broker>(
    accounts: Map<AccountId, OrderRouter<B>>,
    ids: Seq<AccountId>,
    snaps: Seq<AccountSnapshot>,
) -> bool {
    &&& ids.len() == snaps.len()
    &&& ids.no_duplicates()
    &&& ids.to_set() == accounts.dom()
    &&& forall|i: int| 0 <= i < ids.len() ==> accounts[ids[i]].broker_state().account_result(#[trigger] snaps[i])
}

impl<B: Broker> Default for AccountManager<B> {
    fn default() -> (r: Self)
        ensures
            r.accounts() == Map::<AccountId, OrderRouter<B>>::empty(),
    {
        Self::new()
    }
}

/// What polling the router of account `a` (from `before` to `after`) left
/// in `out`: the event it gave, or no entry for `a` when it gave none.
pub open spec fn polled<B: Broker>(
    before: OrderRouter<B>,
    after: OrderRouter<B>,
    a: AccountId,
    out: Seq<(AccountId, ExecEvent)>,
) -> bool {
    &&& after.ledger() == before.ledger()
    &&& {
        ||| exists|k: int|
            0 <= k < out.len() && #[trigger] out[k].0 == a && before.broker_state().poll_event_step(
                Some(out[k].1),
                &after.broker_state(),
            )
        ||| (forall|k: int| 0 <= k < out.len() ==> #[trigger] out[k].0 != a) && before.broker_state().poll_event_step(
            None,
            &after.broker_state(),
        )
    }
}

/// Accounts are isolated: a submit on one account leaves every other
/// account's router, ledger and broker included, exactly as it was.
pub proof fn lemma_accounts_are_isolated<B: Broker>(
    before: Map<AccountId, OrderRouter<B>>,
    after: Map<AccountId, OrderRouter<B>>,
    account: AccountId,
    other: AccountId,
)
    requires
        after.remove(account) == before.remove(account),
        other != account,
        before.contains_key(other),
    ensures
        after.contains_key(other),
        after[other] == before[other],
{
    assert(before.remove(account).contains_key(other));
    assert(after.remove(account)[other] == after[other]);
    assert(before.remove(account)[other] == before[other]);
}

} // verus!
