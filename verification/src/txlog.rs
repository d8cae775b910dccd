use vstd::prelude::*;

verus! {

/// The closed set of record kinds: a mint is recorded as `Earn`, a burn
/// as `Redeem`.
#[derive(Clone, Copy, Debug, PartialEq, Eq, Structural)]
pub enum TransactionType {
    Earn,
    Redeem,
}

/// One immutable audit entry for a mint or burn event.
#[derive(Debug)]
pub struct TransactionRecord {
    /// Identity of the customer whose balance changed.
    pub customer: u64,
    /// Identifier of the business the balance belongs to.
    pub business: u64,
    /// Whether tokens were minted or burned.
    pub transaction_type: TransactionType,
    /// The purchase amount in minor currency units for `Earn`; the
    /// discount amount granted for `Redeem`.
    pub amount_usd: u64,
    /// Tokens minted or burned, exactly as the ledger computed them.
    pub tokens_amount: u64,
    /// Set at record creation; non-decreasing within one business's
    /// history.
    pub timestamp: i64,
    /// Opaque reference to the originating authorization event; unique
    /// per record.
    pub signature: String,
}

/// The record appended for a successful mint.
pub open spec fn earn_record(
    customer: u64,
    business: u64,
    amount_usd: u64,
    tokens_amount: u64,
    timestamp: i64,
    signature: String,
) -> TransactionRecord {
    TransactionRecord {
        customer,
        business,
        transaction_type: TransactionType::Earn,
        amount_usd,
        tokens_amount,
        timestamp,
        signature,
    }
}

/// The record appended for a successful burn.
pub open spec fn redeem_record(
    customer: u64,
    business: u64,
    discount_amount: u64,
    tokens_amount: u64,
    timestamp: i64,
    signature: String,
) -> TransactionRecord {
    TransactionRecord {
        customer,
        business,
        transaction_type: TransactionType::Redeem,
        amount_usd: discount_amount,
        tokens_amount,
        timestamp,
        signature,
    }
}

/// The record belongs to the given (customer, business) key.
pub open spec fn record_matches(r: TransactionRecord, customer: u64, business: u64) -> bool {
    r.customer == customer && r.business == business
}

/// What one record does to its key's balance: an earn adds its token
/// amount, a redeem removes it.
pub open spec fn tokens_delta(r: TransactionRecord) -> int {
    match r.transaction_type {
        TransactionType::Earn => r.tokens_amount as int,
        TransactionType::Redeem => -(r.tokens_amount as int),
    }
}

/// The net number of tokens the records leave under one key: earns minus
/// redeems, over the whole sequence.
pub open spec fn net_tokens(records: Seq<TransactionRecord>, customer: u64, business: u64) -> int
    decreases records.len(),
{
    if records.len() == 0 {
        0
    } else {
        net_tokens(records.drop_last(), customer, business) + if record_matches(
            records.last(),
            customer,
            business,
        ) {
            tokens_delta(records.last())
        } else {
            0
        }
    }
}

/// Every existing record's timestamp is at or before `t`, so a record
/// stamped `t` keeps the history ordered.
pub open spec fn admits_time(records: Seq<TransactionRecord>, t: i64) -> bool {
    forall|i: int| 0 <= i < records.len() ==> (#[trigger] records[i]).timestamp <= t
}

/// No existing record carries this signature.
pub open spec fn signature_fresh(records: Seq<TransactionRecord>, signature: Seq<char>) -> bool {
    forall|i: int| 0 <= i < records.len() ==> (#[trigger] records[i]).signature@ != signature
}

/// Log invariant: timestamps are non-decreasing within one business's
/// history, signatures are pairwise distinct, and every earn record names
/// a positive purchase amount.
pub open spec fn log_invariant(records: Seq<TransactionRecord>) -> bool {
    &&& forall|i: int, j: int|
        0 <= i < j < records.len() && (#[trigger] records[i]).business == (
        #[trigger] records[j]).business ==> records[i].timestamp <= records[j].timestamp
    &&& forall|i: int, j: int|
        0 <= i < j < records.len() ==> (#[trigger] records[i]).signature@ != (
        #[trigger] records[j]).signature@
    &&& forall|i: int|
        0 <= i < records.len() && (#[trigger] records[i]).transaction_type
            == TransactionType::Earn ==> records[i].amount_usd > 0
}

/// Appending a record adds its delta to the net of its own key and leaves
/// every other key's net unchanged.
pub proof fn lemma_net_push(
    records: Seq<TransactionRecord>,
    r: TransactionRecord,
    customer: u64,
    business: u64,
)
    ensures
        net_tokens(records.push(r), customer, business) == net_tokens(records, customer, business)
            + if record_matches(r, customer, business) {
            tokens_delta(r)
        } else {
            0
        },
{
    assert(records.push(r).drop_last() =~= records);
}

/// A prefix of the log is untouched by an append.
pub proof fn lemma_take_push(records: Seq<TransactionRecord>, r: TransactionRecord, k: int)
    requires
        0 <= k <= records.len(),
    ensures
        records.push(r).take(k) == records.take(k),
{
    assert(records.push(r).take(k) =~= records.take(k));
}

/// The whole sequence is its own take.
pub proof fn lemma_take_all(records: Seq<TransactionRecord>)
    ensures
        records.take(records.len() as int) == records,
{
    assert(records.take(records.len() as int) =~= records);
}

/// The append-only audit trail of ledger mutations.
pub struct TransactionLog {
    records: Vec<TransactionRecord>,
}

impl View for TransactionLog {
    type V = Seq<TransactionRecord>;

    closed spec fn view(&self) -> Seq<TransactionRecord> {
        self.records@
    }
}

impl TransactionLog {
    /// Validity of the whole log.
    pub open spec fn wf(self) -> bool {
        log_invariant(self@)
    }

    /// An empty log.
    pub fn new() -> (r: TransactionLog)
        ensures
            r@ == Seq::<TransactionRecord>::empty(),
            r.wf(),
    {
        let r = TransactionLog { records: Vec::new() };
        proof {
            assert(r@ =~= Seq::<TransactionRecord>::empty());
        }
        r
    }

    /// Appends the earn record of a successful mint.  Pure append: every
    /// existing record keeps its position and content.
    pub fn record_purchase(
        &mut self,
        customer: u64,
        business: u64,
        amount_usd: u64,
        tokens_amount: u64,
        timestamp: i64,
        signature: String,
    )
        requires
            old(self).wf(),
            amount_usd > 0,
            admits_time(old(self)@, timestamp),
            signature_fresh(old(self)@, signature@),
        ensures
            final(self).wf(),
            final(self)@ == old(self)@.push(
                earn_record(customer, business, amount_usd, tokens_amount, timestamp, signature),
            ),
    {
        self.records.push(
            TransactionRecord {
                customer,
                business,
                transaction_type: TransactionType::Earn,
                amount_usd,
                tokens_amount,
                timestamp,
                signature,
            },
        );
    }

    /// Appends the redeem record of a successful burn.  Pure append: every
    /// existing record keeps its position and content.
    pub fn record_redemption(
        &mut self,
        customer: u64,
        business: u64,
        tokens_used: u64,
        discount_amount: u64,
        timestamp: i64,
        signature: String,
    )
        requires
            old(self).wf(),
            admits_time(old(self)@, timestamp),
            signature_fresh(old(self)@, signature@),
        ensures
            final(self).wf(),
            final(self)@ == old(self)@.push(
                redeem_record(customer, business, discount_amount, tokens_used, timestamp, signature),
            ),
    {
        self.records.push(
            TransactionRecord {
                customer,
                business,
                transaction_type: TransactionType::Redeem,
                amount_usd: discount_amount,
                tokens_amount: tokens_used,
                timestamp,
                signature,
            },
        );
    }

    /// How many records the log holds.
    pub fn record_count(&self) -> (n: u64)
        ensures
            n == self@.len(),
    {
        self.records.len() as u64
    }

    /// The record at one position of the history, oldest first, or `None`
    /// past the end.
    pub fn get_record(&self, index: u64) -> (r: Option<&TransactionRecord>)
        ensures
            (index as int) < self@.len() ==> (r matches Some(rec) && *rec == self@[index as int]),
            (index as int) >= self@.len() ==> r is None,
    {
        if index < self.records.len() as u64 {
            Some(&self.records[index as usize])
        } else {
            None
        }
    }
}

} // verus!
