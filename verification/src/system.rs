use vstd::prelude::*;

use crate::balances::{lemma_tally_nonnegative, tally, TokenLedger};
use crate::errors::LedgerError;
use crate::registry::{
    activated_business, owner_registered, registered_business, registry_invariant,
    updated_business, valid_settings, Business, BusinessCategory, Registry,
};
use crate::txlog::{
    admits_time, earn_record, lemma_net_push, lemma_take_all, lemma_take_push, log_invariant,
    net_tokens, redeem_record, signature_fresh, TransactionLog, TransactionRecord,
};

verus! {

/// The business under `business` exists.
pub open spec fn known_business(businesses: Seq<Business>, business: u64) -> bool {
    (business as int) < businesses.len()
}

/// The business under `business` exists and accepts ledger operations.
pub open spec fn active_business(businesses: Seq<Business>, business: u64) -> bool {
    known_business(businesses, business) && businesses[business as int].is_active
}

/// Nothing observable differs between the two states: same businesses,
/// same records, same balance under every key.
pub open spec fn state_unchanged(pre: LoyaltySystem, post: LoyaltySystem) -> bool {
    &&& post.businesses() == pre.businesses()
    &&& post.records() == pre.records()
    &&& forall|c: u64, b: u64| #[trigger] post.balance_of(c, b) == pre.balance_of(c, b)
}

/// The whole loyalty-token economy: the business registry, the token
/// ledger, and the transaction log, mutated together so that every
/// successful mint or burn applies its balance delta and appends its
/// audit record as one atomic step.
pub struct LoyaltySystem {
    registry: Registry,
    ledger: TokenLedger,
    log: TransactionLog,
}

impl LoyaltySystem {
    /// The registered businesses, in registration order; a business
    /// identifier is a position in this sequence.
    pub closed spec fn businesses(self) -> Seq<Business> {
        self.registry@
    }

    /// The balance held under one (customer, business) key.
    pub closed spec fn balance_of(self, customer: u64, business: u64) -> int {
        self.ledger.balance_of(customer, business)
    }

    /// The audit records, oldest first.
    pub closed spec fn records(self) -> Seq<TransactionRecord> {
        self.log@
    }

    /// The system invariant: the three components are well formed, every
    /// balance entry and every record references a registered business,
    /// each balance equals the net of the log's records under its key
    /// (conservation), and that net is non-negative at every point of the
    /// history.
    pub closed spec fn wf(self) -> bool {
        &&& self.registry.wf()
        &&& self.ledger.wf()
        &&& self.log.wf()
        &&& forall|i: int|
            0 <= i < self.ledger@.len() ==> (((#[trigger] self.ledger@[i]).business as int)
                < self.registry@.len())
        &&& forall|i: int|
            0 <= i < self.log@.len() ==> (((#[trigger] self.log@[i]).business as int)
                < self.registry@.len())
        &&& forall|c: u64, b: u64|
            #![trigger tally(self.ledger@, c, b)]
            #![trigger net_tokens(self.log@, c, b)]
            tally(self.ledger@, c, b) == net_tokens(self.log@, c, b)
        &&& forall|k: int, c: u64, b: u64|
            0 <= k <= self.log@.len() ==> #[trigger] net_tokens(self.log@.take(k), c, b) >= 0
    }

    /// An empty system: no businesses, no balances, no records.
    pub fn initialize() -> (s: LoyaltySystem)
        ensures
            s.wf(),
            s.businesses() == Seq::<Business>::empty(),
            s.records() == Seq::<TransactionRecord>::empty(),
            forall|c: u64, b: u64| #[trigger] s.balance_of(c, b) == 0,
    {
        let s = LoyaltySystem {
            registry: Registry::new(),
            ledger: TokenLedger::new(),
            log: TransactionLog::new(),
        };
        proof {
            assert forall|k: int, c: u64, b: u64|
                0 <= k <= s.log@.len() implies #[trigger] net_tokens(s.log@.take(k), c, b)
                >= 0 by {
                assert(s.log@.take(k) =~= s.log@);
            }
        }
        s
    }

    /// Registers a new business and returns its identifier.
    ///
    /// Rejects an empty name or a zero rate as `InvalidParameter`, and an
    /// owner that already controls a business as `AlreadyRegistered`; a
    /// rejected call changes nothing.  On success the new business is
    /// appended: active, `created_at = now`, and the redemption cap
    /// defaulted to zero.  Balances and records are never touched.
    pub fn register_business(
        &mut self,
        owner: u64,
        name: String,
        category: BusinessCategory,
        tokens_per_dollar: u64,
        now: i64,
    ) -> (r: Result<u64, LedgerError>)
        requires
            old(self).wf(),
        ensures
            final(self).wf(),
            final(self).records() == old(self).records(),
            forall|c: u64, b: u64|
                #[trigger] final(self).balance_of(c, b) == old(self).balance_of(c, b),
            name@.len() == 0 || tokens_per_dollar == 0 ==> r == Err::<u64, LedgerError>(
                LedgerError::InvalidParameter,
            ) && final(self).businesses() == old(self).businesses(),
            name@.len() > 0 && tokens_per_dollar > 0 && owner_registered(
                old(self).businesses(),
                owner,
            ) ==> r == Err::<u64, LedgerError>(LedgerError::AlreadyRegistered) && final(self).businesses() == old(self).businesses(),
            name@.len() > 0 && tokens_per_dollar > 0 && !owner_registered(
                old(self).businesses(),
                owner,
            ) ==> r == Ok::<u64, LedgerError>(old(self).businesses().len() as u64) && final(self).businesses() == old(self).businesses().push(
                registered_business(owner, name, category, tokens_per_dollar, now),
            ),
    {
        self.registry.register_business(owner, name, category, tokens_per_dollar, now)
    }

    /// Applies a partial settings update on behalf of `caller`.
    ///
    /// Rejects an unknown business identifier as `InvalidParameter`, a
    /// caller other than the owner as `Unauthorized`, and an out-of-range
    /// supplied field as `InvalidParameter`; a rejected call changes
    /// nothing.  On success exactly the supplied fields are replaced;
    /// absent fields, all other businesses, balances and records are
    /// untouched.
    pub fn update_business_settings(
        &mut self,
        business: u64,
        caller: u64,
        tokens_per_dollar: Option<u64>,
        max_discount: Option<u8>,
    ) -> (r: Result<(), LedgerError>)
        requires
            old(self).wf(),
        ensures
            final(self).wf(),
            final(self).records() == old(self).records(),
            forall|c: u64, b: u64|
                #[trigger] final(self).balance_of(c, b) == old(self).balance_of(c, b),
            !known_business(old(self).businesses(), business) ==> r == Err::<(), LedgerError>(
                LedgerError::InvalidParameter,
            ) && final(self).businesses() == old(self).businesses(),
            known_business(old(self).businesses(), business) && old(self).businesses()[
                business as int].owner != caller ==> r == Err::<(), LedgerError>(
                LedgerError::Unauthorized,
            ) && final(self).businesses() == old(self).businesses(),
            known_business(old(self).businesses(), business) && old(self).businesses()[
                business as int].owner == caller && !valid_settings(tokens_per_dollar, max_discount)
                ==> r == Err::<(), LedgerError>(LedgerError::InvalidParameter) && final(self).businesses() == old(self).businesses(),
            known_business(old(self).businesses(), business) && old(self).businesses()[
                business as int].owner == caller && valid_settings(tokens_per_dollar, max_discount)
                ==> r == Ok::<(), LedgerError>(()) && final(self).businesses() == old(self).businesses().update(
                business as int,
                updated_business(
                    old(self).businesses()[business as int],
                    tokens_per_dollar,
                    max_discount,
                ),
            ),
    {
        self.registry.update_business_settings(business, caller, tokens_per_dollar, max_discount)
    }

    /// Sets the activation gate of a business on behalf of `caller`.
    /// Owner-authorized and reversible; an inactive business rejects all
    /// new ledger operations but keeps its historical records and
    /// balances.
    ///
    /// Rejects an unknown business identifier as `InvalidParameter` and a
    /// caller other than the owner as `Unauthorized`; a rejected call
    /// changes nothing.
    pub fn set_business_active(&mut self, business: u64, caller: u64, active: bool) -> (r: Result<
        (),
        LedgerError,
    >)
        requires
            old(self).wf(),
        ensures
            final(self).wf(),
            final(self).records() == old(self).records(),
            forall|c: u64, b: u64|
                #[trigger] final(self).balance_of(c, b) == old(self).balance_of(c, b),
            !known_business(old(self).businesses(), business) ==> r == Err::<(), LedgerError>(
                LedgerError::InvalidParameter,
            ) && final(self).businesses() == old(self).businesses(),
            known_business(old(self).businesses(), business) && old(self).businesses()[
                business as int].owner != caller ==> r == Err::<(), LedgerError>(
                LedgerError::Unauthorized,
            ) && final(self).businesses() == old(self).businesses(),
            known_business(old(self).businesses(), business) && old(self).businesses()[
                business as int].owner == caller ==> r == Ok::<(), LedgerError>(()) && final(self).businesses() == old(self).businesses().update(
                business as int,
                activated_business(old(self).businesses()[business as int], active),
            ),
    {
        self.registry.set_business_active(business, caller, active)
    }

    /// Mints loyalty tokens for a recorded purchase and returns how many
    /// were minted: `amount_usd * tokens_per_dollar` at the business's
    /// rate at call time, in deterministic integer arithmetic.
    ///
    /// Rejects an unknown business as `InvalidParameter`, an inactive one
    /// as `BusinessInactive`, a zero purchase amount as
    /// `InvalidParameter`, and any amount computation that would overflow
    /// as `ArithmeticOverflow`; a rejected call changes nothing.  On
    /// success the customer's balance grows by the minted amount and one
    /// `Earn` record with exactly that amount is appended to the log, as
    /// one atomic step.
    pub fn mint_loyalty_tokens(
        &mut self,
        customer: u64,
        business: u64,
        amount_usd: u64,
        now: i64,
        signature: String,
    ) -> (r: Result<u64, LedgerError>)
        requires
            old(self).wf(),
            admits_time(old(self).records(), now),
            signature_fresh(old(self).records(), signature@),
        ensures
            final(self).wf(),
            final(self).businesses() == old(self).businesses(),
            old(self).records().is_prefix_of(final(self).records()),
            !known_business(old(self).businesses(), business) ==> r == Err::<u64, LedgerError>(
                LedgerError::InvalidParameter,
            ) && state_unchanged(*old(self), *final(self)),
            known_business(old(self).businesses(), business) && !active_business(
                old(self).businesses(),
                business,
            ) ==> r == Err::<u64, LedgerError>(LedgerError::BusinessInactive) && state_unchanged(
                *old(self),
                *final(self),
            ),
            active_business(old(self).businesses(), business) && amount_usd == 0 ==> r == Err::<
                u64,
                LedgerError,
            >(LedgerError::InvalidParameter) && state_unchanged(*old(self), *final(self)),
            active_business(old(self).businesses(), business) && amount_usd > 0 && amount_usd
                * old(self).businesses()[business as int].tokens_per_dollar > u64::MAX ==> r
                == Err::<u64, LedgerError>(LedgerError::ArithmeticOverflow) && state_unchanged(
                *old(self),
                *final(self),
            ),
            active_business(old(self).businesses(), business) && amount_usd > 0 && amount_usd
                * old(self).businesses()[business as int].tokens_per_dollar <= u64::MAX && old(self).balance_of(customer, business) + amount_usd * old(self).businesses()[
                business as int].tokens_per_dollar > u64::MAX ==> r == Err::<u64, LedgerError>(
                LedgerError::ArithmeticOverflow,
            ) && state_unchanged(*old(self), *final(self)),
            active_business(old(self).businesses(), business) && amount_usd > 0 && amount_usd
                * old(self).businesses()[business as int].tokens_per_dollar <= u64::MAX && old(self).balance_of(customer, business) + amount_usd * old(self).businesses()[
                business as int].tokens_per_dollar <= u64::MAX ==> r == Ok::<u64, LedgerError>(
                (amount_usd * old(self).businesses()[business as int].tokens_per_dollar) as u64,
            ) && final(self).balance_of(customer, business) == old(self).balance_of(
                customer,
                business,
            ) + amount_usd * old(self).businesses()[business as int].tokens_per_dollar && final(self).records() == old(self).records().push(
                earn_record(
                    customer,
                    business,
                    amount_usd,
                    (amount_usd * old(self).businesses()[
                        business as int].tokens_per_dollar) as u64,
                    now,
                    signature,
                ),
            ),
            forall|c: u64, b: u64|
                !(c == customer && b == business) ==> #[trigger] final(self).balance_of(c, b)
                    == old(self).balance_of(c, b),
    {
        let rate: u64;
        let active: bool;
        match self.registry.get_business(business) {
            None => {
                return Err(LedgerError::InvalidParameter);
            },
            Some(b) => {
                rate = b.tokens_per_dollar;
                active = b.is_active;
            },
        }
        if !active {
            return Err(LedgerError::BusinessInactive);
        }
        if amount_usd == 0 {
            return Err(LedgerError::InvalidParameter);
        }
        let tokens = match amount_usd.checked_mul(rate) {
            None => {
                return Err(LedgerError::ArithmeticOverflow);
            },
            Some(t) => t,
        };
        let ghost pre_ledger = self.ledger@;
        let ghost pre_log = self.log@;
        match self.ledger.credit(customer, business, tokens) {
            Err(e) => {
                return Err(e);
            },
            Ok(()) => {},
        }
        let ghost rec = earn_record(customer, business, amount_usd, tokens, now, signature);
        self.log.record_purchase(customer, business, amount_usd, tokens, now, signature);
        proof {
            lemma_net_push(pre_log, rec, customer, business);
            lemma_tally_nonnegative(pre_ledger, customer, business);
            assert forall|c: u64, b: u64| !(c == customer && b == business) implies #[trigger] tally(
                self.ledger@,
                c,
                b,
            ) == tally(pre_ledger, c, b) by {
                assert(self.ledger.balance_of(c, b) == old(self).ledger.balance_of(c, b));
            }
            self.lemma_restore_wf(*old(self), pre_ledger, pre_log, rec, customer, business);
        }
        Ok(tokens)
    }

    /// Burns tokens for a discount and returns the discount amount
    /// granted, the face value of the burned tokens.
    ///
    /// Rejects an unknown business as `InvalidParameter`, an inactive one
    /// as `BusinessInactive`, a zero discount percentage or one above the
    /// business's cap as `InvalidParameter`, and a burn above the held
    /// balance as `InsufficientBalance`; a rejected call changes nothing.
    /// On success the customer's balance shrinks by the burned amount —
    /// the subtraction is guarded and can never wrap below zero — and one
    /// `Redeem` record with exactly that amount is appended to the log,
    /// as one atomic step.
    pub fn burn_for_discount(
        &mut self,
        customer: u64,
        business: u64,
        tokens_to_burn: u64,
        discount_percentage: u8,
        now: i64,
        signature: String,
    ) -> (r: Result<u64, LedgerError>)
        requires
            old(self).wf(),
            admits_time(old(self).records(), now),
            signature_fresh(old(self).records(), signature@),
        ensures
            final(self).wf(),
            final(self).businesses() == old(self).businesses(),
            old(self).records().is_prefix_of(final(self).records()),
            r is Ok ==> 0 < discount_percentage <= old(self).businesses()[
                business as int].max_discount,
            !known_business(old(self).businesses(), business) ==> r == Err::<u64, LedgerError>(
                LedgerError::InvalidParameter,
            ) && state_unchanged(*old(self), *final(self)),
            known_business(old(self).businesses(), business) && !active_business(
                old(self).businesses(),
                business,
            ) ==> r == Err::<u64, LedgerError>(LedgerError::BusinessInactive) && state_unchanged(
                *old(self),
                *final(self),
            ),
            active_business(old(self).businesses(), business) && (discount_percentage == 0
                || discount_percentage > old(self).businesses()[business as int].max_discount)
                ==> r == Err::<u64, LedgerError>(LedgerError::InvalidParameter) && state_unchanged(
                *old(self),
                *final(self),
            ),
            active_business(old(self).businesses(), business) && 0 < discount_percentage <= old(self).businesses()[business as int].max_discount && old(self).balance_of(
                customer,
                business,
            ) < tokens_to_burn ==> r == Err::<u64, LedgerError>(LedgerError::InsufficientBalance)
                && state_unchanged(*old(self), *final(self)),
            active_business(old(self).businesses(), business) && 0 < discount_percentage <= old(self).businesses()[business as int].max_discount && old(self).balance_of(
                customer,
                business,
            ) >= tokens_to_burn ==> r == Ok::<u64, LedgerError>(tokens_to_burn) && final(self).balance_of(customer, business) == old(self).balance_of(customer, business)
                - tokens_to_burn && final(self).records() == old(self).records().push(
                redeem_record(customer, business, tokens_to_burn, tokens_to_burn, now, signature),
            ),
            forall|c: u64, b: u64|
                !(c == customer && b == business) ==> #[trigger] final(self).balance_of(c, b)
                    == old(self).balance_of(c, b),
    {
        let cap: u8;
        let active: bool;
        match self.registry.get_business(business) {
            None => {
                return Err(LedgerError::InvalidParameter);
            },
            Some(b) => {
                cap = b.max_discount;
                active = b.is_active;
            },
        }
        if !active {
            return Err(LedgerError::BusinessInactive);
        }
        if discount_percentage == 0 || discount_percentage > cap {
            return Err(LedgerError::InvalidParameter);
        }
        let ghost pre_ledger = self.ledger@;
        let ghost pre_log = self.log@;
        match self.ledger.debit(customer, business, tokens_to_burn) {
            Err(e) => {
                return Err(e);
            },
            Ok(()) => {},
        }
        let discount_amount = tokens_to_burn;
        let ghost rec = redeem_record(
            customer,
            business,
            discount_amount,
            tokens_to_burn,
            now,
            signature,
        );
        self.log.record_redemption(customer, business, tokens_to_burn, discount_amount, now, signature);
        proof {
            lemma_net_push(pre_log, rec, customer, business);
            lemma_tally_nonnegative(pre_ledger, customer, business);
            assert forall|c: u64, b: u64| !(c == customer && b == business) implies #[trigger] tally(
                self.ledger@,
                c,
                b,
            ) == tally(pre_ledger, c, b) by {
                assert(self.ledger.balance_of(c, b) == old(self).ledger.balance_of(c, b));
            }
            self.lemma_restore_wf(*old(self), pre_ledger, pre_log, rec, customer, business);
        }
        Ok(discount_amount)
    }

    /// Re-establishes the system invariant after the one atomic mutation
    /// step shared by mint and burn: the ledger changed only under
    /// (customer, business) by the delta of `rec`, and `rec` was appended
    /// to the log.
    proof fn lemma_restore_wf(
        self,
        pre: LoyaltySystem,
        pre_ledger: Seq<crate::balances::BalanceEntry>,
        pre_log: Seq<TransactionRecord>,
        rec: TransactionRecord,
        customer: u64,
        business: u64,
    )
        requires
            pre.wf(),
            pre_ledger == pre.ledger@,
            pre_log == pre.log@,
            self.registry@ == pre.registry@,
            self.registry.wf(),
            self.ledger.wf(),
            self.log.wf(),
            self.log@ == pre_log.push(rec),
            rec.customer == customer,
            rec.business == business,
            (rec.business as int) < self.registry@.len(),
            tally(self.ledger@, customer, business) == tally(pre_ledger, customer, business)
                + net_tokens(pre_log.push(rec), customer, business) - net_tokens(
                pre_log,
                customer,
                business,
            ),
            forall|c: u64, b: u64|
                !(c == customer && b == business) ==> #[trigger] tally(self.ledger@, c, b)
                    == tally(pre_ledger, c, b),
            tally(self.ledger@, customer, business) >= 0,
            forall|i: int|
                0 <= i < self.ledger@.len() ==> ((#[trigger] self.ledger@[i]).business == business
                    || (i < pre_ledger.len() && self.ledger@[i] == pre_ledger[i])),
        ensures
            self.wf(),
    {
        assert forall|i: int| 0 <= i < self.ledger@.len() implies (((
        #[trigger] self.ledger@[i]).business as int) < self.registry@.len()) by {
            if !(self.ledger@[i].business == business) {
                assert(pre_ledger[i] == self.ledger@[i]);
                assert((pre.ledger@[i].business as int) < pre.registry@.len());
            }
        }
        assert forall|i: int| 0 <= i < self.log@.len() implies (((
        #[trigger] self.log@[i]).business as int) < self.registry@.len()) by {
            if i < pre_log.len() {
                assert(self.log@[i] == pre.log@[i]);
                assert((pre.log@[i].business as int) < pre.registry@.len());
            }
        }
        assert forall|c: u64, b: u64|
            #![trigger tally(self.ledger@, c, b)]
            #![trigger net_tokens(self.log@, c, b)]
            tally(self.ledger@, c, b) == net_tokens(self.log@, c, b) by {
            lemma_net_push(pre_log, rec, c, b);
            if !(c == customer && b == business) {
                assert(tally(self.ledger@, c, b) == tally(pre_ledger, c, b));
                assert(tally(pre.ledger@, c, b) == net_tokens(pre.log@, c, b));
            }
        }
        assert forall|k: int, c: u64, b: u64|
            0 <= k <= self.log@.len() implies #[trigger] net_tokens(self.log@.take(k), c, b)
            >= 0 by {
            if k <= pre_log.len() {
                lemma_take_push(pre_log, rec, k);
                assert(net_tokens(pre.log@.take(k), c, b) >= 0);
            } else {
                lemma_take_all(self.log@);
                lemma_net_push(pre_log, rec, c, b);
                assert(tally(self.ledger@, c, b) == net_tokens(self.log@, c, b));
                if !(c == customer && b == business) {
                    lemma_tally_nonnegative(self.ledger@, c, b);
                } else {
                    assert(net_tokens(self.log@, c, b) == tally(self.ledger@, customer, business));
                }
            }
        }
    }

    /// The business under an identifier, or `None` for an unknown one.
    pub fn get_business(&self, business: u64) -> (r: Option<&Business>)
        ensures
            known_business(self.businesses(), business) ==> (r matches Some(b) && *b
                == self.businesses()[business as int]),
            !known_business(self.businesses(), business) ==> r is None,
    {
        self.registry.get_business(business)
    }

    /// How many businesses have been registered.
    pub fn business_count(&self) -> (n: u64)
        ensures
            n == self.businesses().len(),
    {
        self.registry.business_count()
    }

    /// Reads the balance under one key; zero when no tokens were ever
    /// minted for it.
    pub fn get_balance(&self, customer: u64, business: u64) -> (r: u64)
        requires
            self.wf(),
        ensures
            r as int == self.balance_of(customer, business),
    {
        self.ledger.get_balance(customer, business)
    }

    /// How many records the log holds.
    pub fn record_count(&self) -> (n: u64)
        ensures
            n == self.records().len(),
    {
        self.log.record_count()
    }

    /// The record at one position of the history, oldest first, or `None`
    /// past the end.
    pub fn get_record(&self, index: u64) -> (r: Option<&TransactionRecord>)
        ensures
            (index as int) < self.records().len() ==> (r matches Some(rec) && *rec
                == self.records()[index as int]),
            (index as int) >= self.records().len() ==> r is None,
    {
        self.log.get_record(index)
    }
}

/// Balance non-negativity: under the system invariant every balance is
/// non-negative, and so is the running net of the audit log under every
/// key at every point of the history — no replay of the log ever drives
/// a balance below zero.
pub proof fn lemma_balances_nonnegative(s: LoyaltySystem, customer: u64, business: u64)
    requires
        s.wf(),
    ensures
        s.balance_of(customer, business) >= 0,
        forall|k: int|
            0 <= k <= s.records().len() ==> #[trigger] net_tokens(
                s.records().take(k),
                customer,
                business,
            ) >= 0,
{
    lemma_tally_nonnegative(s.ledger@, customer, business);
}

/// Append-only audit, conservation side: replaying the whole log gives
/// the ledger's balances exactly, so the records under a key mirror the
/// successful mutations on that key.
pub proof fn lemma_log_mirrors_balances(s: LoyaltySystem, customer: u64, business: u64)
    requires
        s.wf(),
    ensures
        net_tokens(s.records(), customer, business) == s.balance_of(customer, business),
{
    assert(tally(s.ledger@, customer, business) == net_tokens(s.log@, customer, business));
}

/// Idempotent rejection, spec side: a registration appends a business
/// controlled by its owner, so the owner is registered from then on — and
/// by `register_business`'s contract every further attempt by the same
/// owner fails with `AlreadyRegistered` and changes nothing.
pub proof fn lemma_owner_registered_after_push(businesses: Seq<Business>, b: Business)
    ensures
        owner_registered(businesses.push(b), b.owner),
{
    assert(businesses.push(b)[businesses.len() as int].owner == b.owner);
}

/// The component invariants the system maintains: a well-formed registry
/// with at most one business per owner, a well-formed log with distinct
/// signatures and per-business non-decreasing timestamps, and every
/// record referencing a registered business.
pub proof fn lemma_system_well_formed(s: LoyaltySystem)
    requires
        s.wf(),
    ensures
        registry_invariant(s.businesses()),
        log_invariant(s.records()),
        forall|i: int|
            0 <= i < s.records().len() ==> (((#[trigger] s.records()[i]).business as int)
                < s.businesses().len()),
{
}

} // verus!
