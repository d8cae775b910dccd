use vstd::prelude::*;

use crate::errors::LedgerError;

verus! {

/// The closed set of business categories; no runtime extension.
#[derive(Clone, Copy, Debug, PartialEq, Eq, Structural)]
pub enum BusinessCategory {
    Cafe,
    Barbershop,
    Fitness,
    Restaurant,
    Other,
}

/// A registered merchant entity with its reward parameters.
#[derive(Debug)]
pub struct Business {
    /// Identity of the controlling principal; never transferable.
    pub owner: u64,
    /// Non-empty display name, immutable after registration.
    pub name: String,
    /// Closed category enumeration.
    pub category: BusinessCategory,
    /// Positive earn rate: tokens minted per minor currency unit.
    pub tokens_per_dollar: u64,
    /// Redemption cap, a percentage in [0, 100].
    pub max_discount: u8,
    /// Inactive businesses reject all new ledger operations but keep
    /// their historical records.
    pub is_active: bool,
    /// Immutable creation timestamp.
    pub created_at: i64,
}

impl Business {
    /// Field-level validity of one business record.
    pub open spec fn wf(self) -> bool {
        &&& self.name@.len() > 0
        &&& self.tokens_per_dollar > 0
        &&& self.max_discount <= 100
    }
}

/// The business a successful registration appends: active, with the
/// redemption cap defaulted to zero until the owner raises it.
pub open spec fn registered_business(
    owner: u64,
    name: String,
    category: BusinessCategory,
    tokens_per_dollar: u64,
    now: i64,
) -> Business {
    Business {
        owner,
        name,
        category,
        tokens_per_dollar,
        max_discount: 0,
        is_active: true,
        created_at: now,
    }
}

/// The business after a partial settings update: a supplied field replaces
/// the old value, an absent field is left unchanged.
pub open spec fn updated_business(
    b: Business,
    tokens_per_dollar: Option<u64>,
    max_discount: Option<u8>,
) -> Business {
    Business {
        owner: b.owner,
        name: b.name,
        category: b.category,
        tokens_per_dollar: match tokens_per_dollar {
            Some(t) => t,
            None => b.tokens_per_dollar,
        },
        max_discount: match max_discount {
            Some(m) => m,
            None => b.max_discount,
        },
        is_active: b.is_active,
        created_at: b.created_at,
    }
}

/// The business with its activation gate set to `active` and every other
/// field kept.
pub open spec fn activated_business(b: Business, active: bool) -> Business {
    Business {
        owner: b.owner,
        name: b.name,
        category: b.category,
        tokens_per_dollar: b.tokens_per_dollar,
        max_discount: b.max_discount,
        is_active: active,
        created_at: b.created_at,
    }
}

/// Supplied update fields are in range: a rate must be positive, a
/// discount cap must not exceed one hundred percent.
pub open spec fn valid_settings(tokens_per_dollar: Option<u64>, max_discount: Option<u8>) -> bool {
    &&& match tokens_per_dollar {
        Some(t) => t > 0,
        None => true,
    }
    &&& match max_discount {
        Some(m) => m <= 100,
        None => true,
    }
}

/// Some business in the sequence is controlled by `owner`.
pub open spec fn owner_registered(businesses: Seq<Business>, owner: u64) -> bool {
    exists|i: int| 0 <= i < businesses.len() && businesses[i].owner == owner
}

/// Registry invariant: every record is well formed and each owner controls
/// at most one business.
pub open spec fn registry_invariant(businesses: Seq<Business>) -> bool {
    &&& forall|i: int| 0 <= i < businesses.len() ==> (#[trigger] businesses[i]).wf()
    &&& forall|i: int, j: int|
        0 <= i < j < businesses.len() ==> (#[trigger] businesses[i]).owner != (
        #[trigger] businesses[j]).owner
}

/// The registry of businesses.  A business identifier is its position in
/// the registration order.
pub struct Registry {
    businesses: Vec<Business>,
}

impl View for Registry {
    type V = Seq<Business>;

    closed spec fn view(&self) -> Seq<Business> {
        self.businesses@
    }
}

impl Registry {
    /// Validity of the whole registry.
    pub open spec fn wf(self) -> bool {
        registry_invariant(self@)
    }

    /// An empty registry.
    pub fn new() -> (r: Registry)
        ensures
            r@ == Seq::<Business>::empty(),
            r.wf(),
    {
        let r = Registry { businesses: Vec::new() };
        proof {
            assert(r@ =~= Seq::<Business>::empty());
        }
        r
    }

    /// Registers a new business for `owner` and returns its identifier.
    ///
    /// Rejects an empty name or a zero rate as `InvalidParameter`, and an
    /// owner that already controls a business as `AlreadyRegistered`; a
    /// rejected call leaves the registry unchanged.  On success the new
    /// business is appended: active, `created_at = now`, and the
    /// redemption cap defaulted to zero.
    pub fn register_business(
        &mut self,
        owner: u64,
        name: String,
        category: BusinessCategory,
        tokens_per_dollar: u64,
        now: i64,
    ) -> (r: Result<u64, LedgerError>)
        requires
            old(self).wf(),
        ensures
            final(self).wf(),
            name@.len() == 0 || tokens_per_dollar == 0 ==> r == Err::<u64, LedgerError>(
                LedgerError::InvalidParameter,
            ) && final(self)@ == old(self)@,
            name@.len() > 0 && tokens_per_dollar > 0 && owner_registered(old(self)@, owner) ==> r
                == Err::<u64, LedgerError>(LedgerError::AlreadyRegistered) && final(self)@ == old(self)@,
            name@.len() > 0 && tokens_per_dollar > 0 && !owner_registered(old(self)@, owner) ==> r
                == Ok::<u64, LedgerError>(old(self)@.len() as u64) && final(self)@ == old(self)@.push(registered_business(owner, name, category, tokens_per_dollar, now)),
    {
        if name.as_str().is_empty() || tokens_per_dollar == 0 {
            return Err(LedgerError::InvalidParameter);
        }
        let n = self.businesses.len();
        let mut i: usize = 0;
        #[verifier::loop_isolation(false)]
        while i < n
            invariant
                n == self.businesses.len(),
                0 <= i <= n,
                forall|k: int| 0 <= k < i ==> (#[trigger] self.businesses@[k]).owner != owner,
            decreases n - i,
        {
            if self.businesses[i].owner == owner {
                return Err(LedgerError::AlreadyRegistered);
            }
            i += 1;
        }
        let id = self.businesses.len() as u64;
        self.businesses.push(
            Business {
                owner,
                name,
                category,
                tokens_per_dollar,
                max_discount: 0,
                is_active: true,
                created_at: now,
            },
        );
        Ok(id)
    }

    /// Applies a partial settings update on behalf of `caller`.
    ///
    /// Rejects an unknown business identifier as `InvalidParameter`, a
    /// caller other than the owner as `Unauthorized`, and an out-of-range
    /// supplied field as `InvalidParameter`; a rejected call leaves the
    /// registry unchanged.  On success exactly the supplied fields are
    /// replaced; absent fields and all other businesses are untouched.
    pub fn update_business_settings(
        &mut self,
        business: u64,
        caller: u64,
        tokens_per_dollar: Option<u64>,
        max_discount: Option<u8>,
    ) -> (r: Result<(), LedgerError>)
        requires
            old(self).wf(),
        ensures
            final(self).wf(),
            business as int >= old(self)@.len() ==> r == Err::<(), LedgerError>(
                LedgerError::InvalidParameter,
            ) && final(self)@ == old(self)@,
            (business as int) < old(self)@.len() && old(self)@[business as int].owner != caller ==> r
                == Err::<(), LedgerError>(LedgerError::Unauthorized) && final(self)@ == old(self)@,
            (business as int) < old(self)@.len() && old(self)@[business as int].owner == caller
                && !valid_settings(tokens_per_dollar, max_discount) ==> r == Err::<(), LedgerError>(
                LedgerError::InvalidParameter,
            ) && final(self)@ == old(self)@,
            (business as int) < old(self)@.len() && old(self)@[business as int].owner == caller
                && valid_settings(tokens_per_dollar, max_discount) ==> r == Ok::<(), LedgerError>(())
                && final(self)@ == old(self)@.update(
                business as int,
                updated_business(old(self)@[business as int], tokens_per_dollar, max_discount),
            ),
    {
        if business >= self.businesses.len() as u64 {
            return Err(LedgerError::InvalidParameter);
        }
        let idx = business as usize;
        if self.businesses[idx].owner != caller {
            return Err(LedgerError::Unauthorized);
        }
        if let Some(t) = tokens_per_dollar {
            if t == 0 {
                return Err(LedgerError::InvalidParameter);
            }
        }
        if let Some(m) = max_discount {
            if m > 100 {
                return Err(LedgerError::InvalidParameter);
            }
        }
        if let Some(t) = tokens_per_dollar {
            self.businesses[idx].tokens_per_dollar = t;
        }
        if let Some(m) = max_discount {
            self.businesses[idx].max_discount = m;
        }
        proof {
            assert(self@ =~= old(self)@.update(
                business as int,
                updated_business(old(self)@[business as int], tokens_per_dollar, max_discount),
            ));
        }
        Ok(())
    }

    /// Sets the activation gate of a business on behalf of `caller`.
    /// Owner-authorized and reversible; an inactive business rejects all
    /// new ledger operations but keeps its historical records.
    ///
    /// Rejects an unknown business identifier as `InvalidParameter` and a
    /// caller other than the owner as `Unauthorized`; a rejected call
    /// leaves the registry unchanged.
    pub fn set_business_active(&mut self, business: u64, caller: u64, active: bool) -> (r: Result<
        (),
        LedgerError,
    >)
        requires
            old(self).wf(),
        ensures
            final(self).wf(),
            business as int >= old(self)@.len() ==> r == Err::<(), LedgerError>(
                LedgerError::InvalidParameter,
            ) && final(self)@ == old(self)@,
            (business as int) < old(self)@.len() && old(self)@[business as int].owner != caller
                ==> r == Err::<(), LedgerError>(LedgerError::Unauthorized) && final(self)@ == old(self)@,
            (business as int) < old(self)@.len() && old(self)@[business as int].owner == caller
                ==> r == Ok::<(), LedgerError>(()) && final(self)@ == old(self)@.update(
                business as int,
                activated_business(old(self)@[business as int], active),
            ),
    {
        if business >= self.businesses.len() as u64 {
            return Err(LedgerError::InvalidParameter);
        }
        let idx = business as usize;
        if self.businesses[idx].owner != caller {
            return Err(LedgerError::Unauthorized);
        }
        self.businesses[idx].is_active = active;
        proof {
            assert(self@ =~= old(self)@.update(
                business as int,
                activated_business(old(self)@[business as int], active),
            ));
        }
        Ok(())
    }

    /// The business under an identifier, or `None` for an unknown one.
    pub fn get_business(&self, business: u64) -> (r: Option<&Business>)
        ensures
            (business as int) < self@.len() ==> (r matches Some(b) && *b == self@[business as
                int]),
            business as int >= self@.len() ==> r is None,
    {
        if business < self.businesses.len() as u64 {
            Some(&self.businesses[business as usize])
        } else {
            None
        }
    }

    /// How many businesses have been registered.
    pub fn business_count(&self) -> (n: u64)
        ensures
            n == self@.len(),
    {
        self.businesses.len() as u64
    }
}

} // verus!
