use vstd::prelude::*;

use crate::errors::LedgerError;

verus! {

/// One customer's token holdings at one business.
#[derive(Clone, Copy, Debug, PartialEq, Eq, Structural)]
pub struct BalanceEntry {
    pub customer: u64,
    pub business: u64,
    pub balance: u64,
}

/// The entry belongs to the given (customer, business) key.
pub open spec fn entry_matches(e: BalanceEntry, customer: u64, business: u64) -> bool {
    e.customer == customer && e.business == business
}

/// The tokens the entry sequence holds under one key: the sum of the
/// balances of the matching entries.  With unique keys this is the balance
/// of the single entry for the key, or zero when none exists.
pub open spec fn tally(entries: Seq<BalanceEntry>, customer: u64, business: u64) -> int
    decreases entries.len(),
{
    if entries.len() == 0 {
        0
    } else {
        tally(entries.drop_last(), customer, business) + if entry_matches(
            entries.last(),
            customer,
            business,
        ) {
            entries.last().balance as int
        } else {
            0
        }
    }
}

/// Ledger invariant: at most one entry per (customer, business) key.
pub open spec fn entries_unique(entries: Seq<BalanceEntry>) -> bool {
    forall|i: int, j: int|
        0 <= i < j < entries.len() ==> !((#[trigger] entries[i]).customer == (
        #[trigger] entries[j]).customer && entries[i].business == entries[j].business)
}

/// A tally is a sum of unsigned balances, so it is never negative.
pub proof fn lemma_tally_nonnegative(entries: Seq<BalanceEntry>, customer: u64, business: u64)
    ensures
        tally(entries, customer, business) >= 0,
    decreases entries.len(),
{
    if entries.len() > 0 {
        lemma_tally_nonnegative(entries.drop_last(), customer, business);
    }
}

/// Appending an entry adds its balance to the tally of its own key and
/// leaves every other key's tally unchanged.
pub proof fn lemma_tally_push(
    entries: Seq<BalanceEntry>,
    e: BalanceEntry,
    customer: u64,
    business: u64,
)
    ensures
        tally(entries.push(e), customer, business) == tally(entries, customer, business) + if
            entry_matches(e, customer, business) {
            e.balance as int
        } else {
            0
        },
{
    assert(entries.push(e).drop_last() =~= entries);
}

/// Replacing the entry at one position shifts the tally by the difference
/// of the contributions of the new and the old entry.
pub proof fn lemma_tally_update(
    entries: Seq<BalanceEntry>,
    i: int,
    e: BalanceEntry,
    customer: u64,
    business: u64,
)
    requires
        0 <= i < entries.len(),
    ensures
        tally(entries.update(i, e), customer, business) == tally(entries, customer, business) - (
        if entry_matches(entries[i], customer, business) {
            entries[i].balance as int
        } else {
            0
        }) + (if entry_matches(e, customer, business) {
            e.balance as int
        } else {
            0
        }),
    decreases entries.len(),
{
    let updated = entries.update(i, e);
    if i == entries.len() - 1 {
        assert(updated.drop_last() =~= entries.drop_last());
    } else {
        assert(updated.drop_last() =~= entries.drop_last().update(i, e));
        lemma_tally_update(entries.drop_last(), i, e, customer, business);
    }
}

/// When no entry matches the key, the tally is zero.
pub proof fn lemma_tally_no_match(entries: Seq<BalanceEntry>, customer: u64, business: u64)
    requires
        forall|i: int| 0 <= i < entries.len() ==> !entry_matches(#[trigger] entries[i], customer, business),
    ensures
        tally(entries, customer, business) == 0,
    decreases entries.len(),
{
    if entries.len() > 0 {
        lemma_tally_no_match(entries.drop_last(), customer, business);
    }
}

/// With unique keys, the tally of a key is exactly the balance of the one
/// entry that carries it.
pub proof fn lemma_tally_unique_entry(entries: Seq<BalanceEntry>, i: int)
    requires
        entries_unique(entries),
        0 <= i < entries.len(),
    ensures
        tally(entries, entries[i].customer, entries[i].business) == entries[i].balance as int,
    decreases entries.len(),
{
    let customer = entries[i].customer;
    let business = entries[i].business;
    if i == entries.len() - 1 {
        assert(forall|k: int|
            0 <= k < entries.drop_last().len() ==> !entry_matches(
                #[trigger] entries.drop_last()[k],
                customer,
                business,
            ));
        lemma_tally_no_match(entries.drop_last(), customer, business);
    } else {
        lemma_tally_unique_entry(entries.drop_last(), i);
        assert(!entry_matches(entries.last(), customer, business));
    }
}

/// The per-customer-per-business token balances.  An entry is created
/// implicitly by the first credit under its key and never removed; a zero
/// balance is an ordinary steady state.
pub struct TokenLedger {
    entries: Vec<BalanceEntry>,
}

impl View for TokenLedger {
    type V = Seq<BalanceEntry>;

    closed spec fn view(&self) -> Seq<BalanceEntry> {
        self.entries@
    }
}

impl TokenLedger {
    /// Validity of the whole ledger.
    pub open spec fn wf(self) -> bool {
        entries_unique(self@)
    }

    /// The balance held under one (customer, business) key.
    pub open spec fn balance_of(self, customer: u64, business: u64) -> int {
        tally(self@, customer, business)
    }

    /// An empty ledger.
    pub fn new() -> (r: TokenLedger)
        ensures
            r@ == Seq::<BalanceEntry>::empty(),
            r.wf(),
            forall|c: u64, b: u64| r.balance_of(c, b) == 0,
    {
        let r = TokenLedger { entries: Vec::new() };
        proof {
            assert(r@ =~= Seq::<BalanceEntry>::empty());
        }
        r
    }

    /// Reads the balance under one key; zero when no entry exists.
    pub fn get_balance(&self, customer: u64, business: u64) -> (r: u64)
        requires
            self.wf(),
        ensures
            r as int == self.balance_of(customer, business),
    {
        let n = self.entries.len();
        let mut i: usize = 0;
        #[verifier::loop_isolation(false)]
        while i < n
            invariant
                n == self.entries.len(),
                0 <= i <= n,
                forall|k: int|
                    0 <= k < i ==> !entry_matches(#[trigger] self.entries@[k], customer, business),
            decreases n - i,
        {
            if self.entries[i].customer == customer && self.entries[i].business == business {
                proof {
                    lemma_tally_unique_entry(self@, i as int);
                }
                return self.entries[i].balance;
            }
            i += 1;
        }
        proof {
            lemma_tally_no_match(self@, customer, business);
        }
        0
    }

    /// Adds `amount` tokens under one key, creating the entry on first use.
    ///
    /// Fails with `ArithmeticOverflow`, leaving the ledger unchanged, when
    /// the new balance would not fit the token type; the addition is
    /// overflow-checked, never wrapping.
    pub fn credit(&mut self, customer: u64, business: u64, amount: u64) -> (r: Result<
        (),
        LedgerError,
    >)
        requires
            old(self).wf(),
        ensures
            final(self).wf(),
            old(self).balance_of(customer, business) + amount > u64::MAX ==> r == Err::<
                (),
                LedgerError,
            >(LedgerError::ArithmeticOverflow) && final(self)@ == old(self)@,
            old(self).balance_of(customer, business) + amount <= u64::MAX ==> r == Ok::<
                (),
                LedgerError,
            >(()) && final(self).balance_of(customer, business) == old(self).balance_of(
                customer,
                business,
            ) + amount,
            forall|c: u64, b: u64|
                !(c == customer && b == business) ==> #[trigger] final(self).balance_of(c, b)
                    == old(self).balance_of(c, b),
            forall|i: int|
                0 <= i < final(self)@.len() ==> (#[trigger] final(self)@[i]).business == business
                    || (i < old(self)@.len() && final(self)@[i] == old(self)@[i]),
    {
        let n = self.entries.len();
        let mut i: usize = 0;
        #[verifier::loop_isolation(false)]
        while i < n
            invariant
                self@ == old(self)@,
                n == self.entries.len(),
                0 <= i <= n,
                forall|k: int|
                    0 <= k < i ==> !entry_matches(#[trigger] self.entries@[k], customer, business),
            decreases n - i,
        {
            if self.entries[i].customer == customer && self.entries[i].business == business {
                proof {
                    lemma_tally_unique_entry(self@, i as int);
                }
                match self.entries[i].balance.checked_add(amount) {
                    None => {
                        return Err(LedgerError::ArithmeticOverflow);
                    },
                    Some(updated) => {
                        let ghost pre = self@;
                        let e = BalanceEntry { customer, business, balance: updated };
                        self.entries[i] = e;
                        proof {
                            assert(self@ =~= pre.update(i as int, e));
                            lemma_tally_update(pre, i as int, e, customer, business);
                            assert forall|c: u64, b: u64| !(c == customer && b == business)
                                implies #[trigger] tally(self@, c, b) == tally(pre, c, b) by {
                                lemma_tally_update(pre, i as int, e, c, b);
                            }
                        }
                        return Ok(());
                    },
                }
            }
            i += 1;
        }
        proof {
            lemma_tally_no_match(self@, customer, business);
        }
        let ghost pre = self@;
        let e = BalanceEntry { customer, business, balance: amount };
        self.entries.push(e);
        proof {
            lemma_tally_push(pre, e, customer, business);
            assert forall|c: u64, b: u64| !(c == customer && b == business) implies #[trigger] tally(
                self@,
                c,
                b,
            ) == tally(pre, c, b) by {
                lemma_tally_push(pre, e, c, b);
            }
        }
        Ok(())
    }

    /// Removes `amount` tokens from under one key.
    ///
    /// Fails with `InsufficientBalance`, leaving the ledger unchanged,
    /// when the key holds fewer than `amount` tokens; the subtraction is
    /// guarded by that check and can never wrap below zero.
    pub fn debit(&mut self, customer: u64, business: u64, amount: u64) -> (r: Result<
        (),
        LedgerError,
    >)
        requires
            old(self).wf(),
        ensures
            final(self).wf(),
            old(self).balance_of(customer, business) < amount ==> r == Err::<(), LedgerError>(
                LedgerError::InsufficientBalance,
            ) && final(self)@ == old(self)@,
            old(self).balance_of(customer, business) >= amount ==> r == Ok::<(), LedgerError>(())
                && final(self).balance_of(customer, business) == old(self).balance_of(
                customer,
                business,
            ) - amount,
            forall|c: u64, b: u64|
                !(c == customer && b == business) ==> #[trigger] final(self).balance_of(c, b)
                    == old(self).balance_of(c, b),
            final(self)@.len() == old(self)@.len() || final(self)@ == old(self)@,
            forall|i: int|
                0 <= i < final(self)@.len() ==> (#[trigger] final(self)@[i]).business == business
                    || (i < old(self)@.len() && final(self)@[i] == old(self)@[i]),
    {
        let n = self.entries.len();
        let mut i: usize = 0;
        #[verifier::loop_isolation(false)]
        while i < n
            invariant
                self@ == old(self)@,
                n == self.entries.len(),
                0 <= i <= n,
                forall|k: int|
                    0 <= k < i ==> !entry_matches(#[trigger] self.entries@[k], customer, business),
            decreases n - i,
        {
            if self.entries[i].customer == customer && self.entries[i].business == business {
                proof {
                    lemma_tally_unique_entry(self@, i as int);
                }
                let held = self.entries[i].balance;
                if held < amount {
                    return Err(LedgerError::InsufficientBalance);
                }
                let ghost pre = self@;
                let e = BalanceEntry { customer, business, balance: held - amount };
                self.entries[i] = e;
                proof {
                    assert(self@ =~= pre.update(i as int, e));
                    lemma_tally_update(pre, i as int, e, customer, business);
                    assert forall|c: u64, b: u64| !(c == customer && b == business)
                        implies #[trigger] tally(self@, c, b) == tally(pre, c, b) by {
                        lemma_tally_update(pre, i as int, e, c, b);
                    }
                }
                return Ok(());
            }
            i += 1;
        }
        proof {
            lemma_tally_no_match(self@, customer, business);
        }
        if amount > 0 {
            return Err(LedgerError::InsufficientBalance);
        }
        Ok(())
    }
}

} // verus!
