//! Prepaid subscriptions: creation with sequential ids and lookup.
use crate::error::Error;
use crate::safe_math::fits_i128;
use crate::types::Addr;
use std::collections::HashMap;
use vstd::prelude::*;

verus! {

broadcast use vstd::std_specs::hash::group_hash_axioms;

/// The id after which no subscription can be created.
pub const MAX_SUBSCRIPTION_ID: u32 = u32::MAX;

/// The lifecycle state of a subscription.
#[derive(Debug, Clone, Copy, PartialEq, Eq, Structural)]
pub enum SubscriptionStatus {
    Active,
    Paused,
    Cancelled,
    InsufficientBalance,
}

/// One subscription.
#[derive(Debug, Clone, Copy, PartialEq, Eq, Structural)]
pub struct Subscription {
    pub subscriber: Addr,
    pub token: Addr,
    pub merchant: Addr,
    pub amount: i128,
    pub interval_seconds: u64,
    pub last_payment_timestamp: u64,
    pub status: SubscriptionStatus,
    pub prepaid_balance: i128,
    pub usage_enabled: bool,
    pub expires_at: Option<u64>,
}

/// The subscription contract's stored state.
#[derive(Debug)]
pub struct SubscriptionVault {
    /// The admin set at initialisation.
    pub admin: Option<Addr>,
    /// The settlement token that new subscriptions use.
    pub token: Option<Addr>,
    /// The next id to hand out (absent until the first creation).
    pub next_id: Option<u32>,
    /// Every subscription, by id.
    pub subscriptions: HashMap<u32, Subscription>,
}

/// The exposure of `subscriber` in `token` over the ids below `n`, summed
/// in id order with checked additions (the prepaid balance, then the
/// amount of an active subscription); `None` once a partial sum does not
/// fit in an `i128`.
pub open spec fn exposure_upto(subs: Map<u32, Subscription>, n: nat, subscriber: Addr, token: Addr) -> Option<i128>
    decreases n,
{
    if n == 0 {
        Some(0i128)
    } else {
        let id = (n - 1) as u32;
        match exposure_upto(subs, (n - 1) as nat, subscriber, token) {
            None => None,
            Some(acc) => if subs.contains_key(id) && subs[id].subscriber == subscriber && subs[id].token == token {
                let s = subs[id];
                let a1 = acc + s.prepaid_balance;
                if !fits_i128(a1) {
                    None
                } else {
                    let a2 = if s.status == SubscriptionStatus::Active { a1 + s.amount } else { a1 };
                    if !fits_i128(a2) {
                        None
                    } else {
                        Some(a2 as i128)
                    }
                }
            } else {
                Some(acc)
            },
        }
    }
}

/// The outcome of checking a new liability of `amount` against the credit
/// limit `limit` (0: no limit) given the current exposure.
pub open spec fn credit_check(exposure: Option<i128>, amount: i128, limit: i128) -> Result<(), Error> {
    if limit == 0 {
        Ok(())
    } else {
        match exposure {
            None => Err(Error::Overflow),
            Some(e) => if e + amount > limit {
                Err(Error::CreditLimitExceeded)
            } else {
                Ok(())
            },
        }
    }
}

/// Two subscription maps that agree on every id below `n` give the same
/// exposure over those ids.
proof fn lemma_exposure_agree(a: Map<u32, Subscription>, b: Map<u32, Subscription>, n: nat, subscriber: Addr, token: Addr)
    requires
        n <= u32::MAX as nat + 1,
        forall|id: u32| (id as nat) < n ==> (#[trigger] a.contains_key(id) == b.contains_key(id)
            && (a.contains_key(id) ==> a[id] == b[id])),
    ensures
        exposure_upto(a, n, subscriber, token) == exposure_upto(b, n, subscriber, token),
    decreases n,
{
    if n > 0 {
        let id = (n - 1) as u32;
        assert(a.contains_key(id) == b.contains_key(id));
        lemma_exposure_agree(a, b, (n - 1) as nat, subscriber, token);
    }
}

/// Whether the subscription stored under `id` belongs to `subscriber` and
/// is denominated in `token`.
pub open spec fn owned_in(subs: Map<u32, Subscription>, id: u32, subscriber: Addr, token: Addr) -> bool {
    subs.contains_key(id) && subs[id].subscriber == subscriber && subs[id].token == token
}

/// Exposure is per (subscriber, token): two subscription books that hold
/// the same subscriptions of `subscriber` in `token` (whatever else they
/// hold, in other tokens or of other subscribers) give the same exposure.
pub proof fn lemma_exposure_isolated_per_token(
    a: Map<u32, Subscription>,
    b: Map<u32, Subscription>,
    n: nat,
    subscriber: Addr,
    token: Addr,
)
    requires
        forall|id: u32| (id as nat) < n ==> (#[trigger] owned_in(a, id, subscriber, token) == owned_in(b, id, subscriber, token)),
        forall|id: u32| (id as nat) < n && #[trigger] owned_in(a, id, subscriber, token) ==> a[id] == b[id],
    ensures
        exposure_upto(a, n, subscriber, token) == exposure_upto(b, n, subscriber, token),
    decreases n,
{
    if n > 0 {
        let id = (n - 1) as u32;
        assert(owned_in(a, id, subscriber, token) == owned_in(b, id, subscriber, token));
        lemma_exposure_isolated_per_token(a, b, (n - 1) as nat, subscriber, token);
    }
}

/// Each subscription of the subscriber in the token adds its prepaid
/// balance, plus its amount while it is active, to the exposure over the
/// ids before it (when the sums fit); a subscription that is not theirs
/// in that token adds nothing.
pub proof fn lemma_exposure_step(subs: Map<u32, Subscription>, id: u32, subscriber: Addr, token: Addr, before: i128)
    requires
        exposure_upto(subs, id as nat, subscriber, token) == Some(before),
    ensures
        !owned_in(subs, id, subscriber, token) ==> exposure_upto(subs, id as nat + 1, subscriber, token) == Some(before),
        owned_in(subs, id, subscriber, token) && fits_i128(before + subs[id].prepaid_balance) && fits_i128(
            before + subs[id].prepaid_balance + if subs[id].status == SubscriptionStatus::Active {
                subs[id].amount as int
            } else {
                0
            },
        ) ==> exposure_upto(subs, id as nat + 1, subscriber, token) == Some(
            (before + subs[id].prepaid_balance + if subs[id].status == SubscriptionStatus::Active {
                subs[id].amount as int
            } else {
                0
            }) as i128,
        ),
{
    assert(((id as nat + 1) - 1) as u32 == id);
}

/// A subscriber with no subscription in `token` has exposure 0 in it,
/// whatever they hold in other tokens.
pub proof fn lemma_exposure_zero_without_subscriptions(subs: Map<u32, Subscription>, n: nat, subscriber: Addr, token: Addr)
    requires
        forall|id: u32| (id as nat) < n && #[trigger] subs.contains_key(id) && subs[id].subscriber == subscriber
            ==> subs[id].token != token,
    ensures
        exposure_upto(subs, n, subscriber, token) == Some(0i128),
    decreases n,
{
    if n > 0 {
        let id = (n - 1) as u32;
        if subs.contains_key(id) && subs[id].subscriber == subscriber {
            assert(subs[id].token != token);
        }
        lemma_exposure_zero_without_subscriptions(subs, (n - 1) as nat, subscriber, token);
    }
}

/// A new subscription's expiry is refused only when it is not after the
/// creation time: with a positive amount and a non-zero interval, every
/// expiry `t > now` (and no expiry at all) passes the terms, and every
/// `t <= now` is `InvalidArgument`. Invalid amounts and intervals are
/// `InvalidArgument` whatever the expiry.
pub proof fn lemma_expiry_rule(now: u64, amount: i128, interval_seconds: u64, expires_at: Option<u64>)
    ensures
        amount > 0 && interval_seconds > 0 && (expires_at is None || expires_at.unwrap() > now)
            ==> terms_check(now, amount, interval_seconds, expires_at) == Ok::<(), Error>(()),
        expires_at is Some && expires_at.unwrap() <= now
            ==> terms_check(now, amount, interval_seconds, expires_at) == Err::<(), Error>(Error::InvalidArgument),
        amount <= 0 || interval_seconds == 0
            ==> terms_check(now, amount, interval_seconds, expires_at) == Err::<(), Error>(Error::InvalidArgument),
{
}

/// Once a partial exposure sum has overflowed, the sum over any longer
/// prefix of ids is undefined too.
proof fn lemma_exposure_stays_none(subs: Map<u32, Subscription>, m: nat, n: nat, subscriber: Addr, token: Addr)
    requires
        m <= n,
        exposure_upto(subs, m, subscriber, token) is None,
    ensures
        exposure_upto(subs, n, subscriber, token) is None,
    decreases n - m,
{
    if m < n {
        lemma_exposure_stays_none(subs, m + 1, n, subscriber, token);
    }
}

/// The outcome of validating the terms of a new subscription.
pub open spec fn terms_check(now: u64, amount: i128, interval_seconds: u64, expires_at: Option<u64>) -> Result<(), Error> {
    if amount <= 0 {
        Err(Error::InvalidArgument)
    } else if interval_seconds == 0 {
        Err(Error::InvalidArgument)
    } else if expires_at is Some && expires_at.unwrap() <= now {
        Err(Error::InvalidArgument)
    } else {
        Ok(())
    }
}

impl SubscriptionVault {
    /// How many ids were handed out so far.
    pub open spec fn count(&self) -> u32 {
        match self.next_id {
            Some(n) => n,
            None => 0,
        }
    }

    /// Every stored subscription has an id below the count, so new ids never
    /// overwrite an existing subscription.
    pub open spec fn wf(&self) -> bool {
        forall|id: u32| #[trigger] self.subscriptions@.contains_key(id) ==> id < self.count()
    }

    /// A contract with nothing stored.
    pub fn new() -> (v: Self)
        ensures
            v.admin is None,
            v.token is None,
            v.next_id is None,
            v.subscriptions@ == Map::<u32, Subscription>::empty(),
            v.wf(),
    {
        SubscriptionVault { admin: None, token: None, next_id: None, subscriptions: HashMap::new() }
    }

    /// Records the admin and the default settlement token.
    pub fn init(&mut self, admin: Addr, default_token: Addr)
        ensures
            final(self).admin == Some(admin),
            final(self).token == Some(default_token),
            final(self).next_id == old(self).next_id,
            final(self).subscriptions@ == old(self).subscriptions@,
    {
        self.admin = Some(admin);
        self.token = Some(default_token);
    }

    /// Hands out the next id, or refuses once the last id is reached.
    fn _next_id(&mut self) -> (r: Result<u32, Error>)
        ensures
            old(self).count() == MAX_SUBSCRIPTION_ID ==> r == Err::<u32, Error>(Error::SubscriptionLimitReached)
                && final(self).next_id == old(self).next_id,
            old(self).count() < MAX_SUBSCRIPTION_ID ==> r == Ok::<u32, Error>(old(self).count())
                && final(self).next_id == Some((old(self).count() + 1) as u32),
            final(self).admin == old(self).admin,
            final(self).token == old(self).token,
            final(self).subscriptions@ == old(self).subscriptions@,
    {
        let current: u32 = match self.next_id {
            Some(n) => n,
            None => 0,
        };
        if current == MAX_SUBSCRIPTION_ID {
            return Err(Error::SubscriptionLimitReached);
        }
        self.next_id = Some(current + 1);
        Ok(current)
    }

    /// The exposure of `subscriber` in `token`: over every id handed out,
    /// the prepaid balances of the subscriber's subscriptions in the token
    /// plus the amounts of the active ones; `Overflow` when a partial sum
    /// does not fit.
    pub fn compute_subscriber_exposure(&self, subscriber: Addr, token: Addr) -> (r: Result<i128, Error>)
        ensures
            r == match exposure_upto(self.subscriptions@, self.count() as nat, subscriber, token) {
                Some(e) => Ok::<i128, Error>(e),
                None => Err::<i128, Error>(Error::Overflow),
            },
    {
        let n: u32 = match self.next_id {
            Some(n) => n,
            None => 0,
        };
        let mut acc: i128 = 0;
        let mut i: u32 = 0;
        while i < n
            invariant
                n == self.count(),
                i <= n,
                exposure_upto(self.subscriptions@, i as nat, subscriber, token) == Some(acc),
            decreases n - i,
        {
            if let Some(s) = self.subscriptions.get(&i) {
                if s.subscriber == subscriber && s.token == token {
                    acc = match acc.checked_add(s.prepaid_balance) {
                        Some(v) => v,
                        None => {
                            proof { lemma_exposure_stays_none(self.subscriptions@, (i + 1) as nat, n as nat, subscriber, token); }
                            return Err(Error::Overflow);
                        },
                    };
                    if s.status == SubscriptionStatus::Active {
                        acc = match acc.checked_add(s.amount) {
                            Some(v) => v,
                            None => {
                                proof { lemma_exposure_stays_none(self.subscriptions@, (i + 1) as nat, n as nat, subscriber, token); }
                                return Err(Error::Overflow);
                            },
                        };
                    }
                }
            }
            i = i + 1;
        }
        Ok(acc)
    }

    /// Creates an active subscription in the default token, starting at
    /// `now` with an empty prepaid balance, and returns its id: the number of
    /// subscriptions created before it. `credit_limit` is the limit set for
    /// the subscriber in the default token (0: none); the new liability of
    /// `amount` must keep the subscriber's exposure within it.
    pub fn create_subscription(
        &mut self,
        now: u64,
        subscriber: Addr,
        merchant: Addr,
        amount: i128,
        interval_seconds: u64,
        usage_enabled: bool,
        expires_at: Option<u64>,
        credit_limit: i128,
    ) -> (r: Result<u32, Error>)
        ensures
            terms_check(now, amount, interval_seconds, expires_at) is Err
                ==> r == Err::<u32, Error>(terms_check(now, amount, interval_seconds, expires_at)->Err_0),
            terms_check(now, amount, interval_seconds, expires_at) is Ok && old(self).token is None
                ==> r == Err::<u32, Error>(Error::NotFound),
            terms_check(now, amount, interval_seconds, expires_at) is Ok && old(self).token is Some
                ==> {
                let c = credit_check(
                    exposure_upto(old(self).subscriptions@, old(self).count() as nat, subscriber, old(self).token.unwrap()),
                    amount,
                    credit_limit,
                );
                &&& c is Err ==> r == Err::<u32, Error>(c->Err_0)
                &&& c is Ok && old(self).count() == MAX_SUBSCRIPTION_ID
                    ==> r == Err::<u32, Error>(Error::SubscriptionLimitReached)
                &&& c is Ok && old(self).count() < MAX_SUBSCRIPTION_ID ==> {
                    let sub = Subscription {
                        subscriber,
                        token: old(self).token.unwrap(),
                        merchant,
                        amount,
                        interval_seconds,
                        last_payment_timestamp: now,
                        status: SubscriptionStatus::Active,
                        prepaid_balance: 0,
                        usage_enabled,
                        expires_at,
                    };
                    &&& r == Ok::<u32, Error>(old(self).count())
                    &&& final(self).count() == old(self).count() + 1
                    &&& final(self).subscriptions@ == old(self).subscriptions@.insert(old(self).count(), sub)
                    &&& final(self).subscriptions@[old(self).count()] == sub
                    &&& old(self).wf() ==> !old(self).subscriptions@.contains_key(old(self).count())
                }
            },
            r is Err ==> final(self).next_id == old(self).next_id && final(self).subscriptions@ == old(self).subscriptions@,
            r is Ok && credit_limit != 0 && old(self).wf() ==> {
                &&& exposure_upto(final(self).subscriptions@, final(self).count() as nat, subscriber, old(self).token.unwrap()) is Some
                &&& exposure_upto(final(self).subscriptions@, final(self).count() as nat, subscriber, old(self).token.unwrap())->0
                    <= credit_limit
            },
            old(self).wf() ==> final(self).wf(),
            final(self).admin == old(self).admin,
            final(self).token == old(self).token,
    {
        if amount <= 0 {
            return Err(Error::InvalidArgument);
        }
        if interval_seconds == 0 {
            return Err(Error::InvalidArgument);
        }
        if let Some(ts) = expires_at {
            if ts <= now {
                return Err(Error::InvalidArgument);
            }
        }
        let token = match self.token {
            Some(t) => t,
            None => return Err(Error::NotFound),
        };
        if credit_limit != 0 {
            let exposure = self.compute_subscriber_exposure(subscriber, token)?;
            let exceeded = match exposure.checked_add(amount) {
                Some(total) => total > credit_limit,
                None => true,
            };
            if exceeded {
                return Err(Error::CreditLimitExceeded);
            }
        }
        let ghost before = self.subscriptions@;
        let ghost n0 = self.count();
        let id = self._next_id()?;
        let sub = Subscription {
            subscriber,
            token,
            merchant,
            amount,
            interval_seconds,
            last_payment_timestamp: now,
            status: SubscriptionStatus::Active,
            prepaid_balance: 0,
            usage_enabled,
            expires_at,
        };
        self.subscriptions.insert(id, sub);
        proof {
            if credit_limit != 0 && forall|k: u32| #[trigger] before.contains_key(k) ==> k < n0 {
                let after = self.subscriptions@;
                assert forall|k: u32| (k as nat) < n0 as nat implies (#[trigger] before.contains_key(k) == after.contains_key(k)
                    && (before.contains_key(k) ==> before[k] == after[k])) by {}
                lemma_exposure_agree(before, after, n0 as nat, subscriber, token);
                assert(after.contains_key(n0) && after[n0] == sub);
                assert(((n0 as nat + 1) - 1) as u32 == n0);
            }
        }
        Ok(id)
    }

    /// The subscription with this id, or `NotFound`.
    pub fn get_subscription(&self, id: u32) -> (r: Result<Subscription, Error>)
        ensures
            self.subscriptions@.contains_key(id) ==> r == Ok::<Subscription, Error>(self.subscriptions@[id]),
            !self.subscriptions@.contains_key(id) ==> r == Err::<Subscription, Error>(Error::NotFound),
    {
        match self.subscriptions.get(&id) {
            Some(s) => Ok(*s),
            None => Err(Error::NotFound),
        }
    }

    /// How many subscriptions were created.
    pub fn get_subscription_count(&self) -> (n: u32)
        ensures
            n == self.count(),
    {
        match self.next_id {
            Some(n) => n,
            None => 0,
        }
    }

    /// The contract's interface version.
    pub fn version() -> (v: u32)
        ensures
            v == 0,
    {
        0
    }
}

} // verus!
