//! The executable engine: the two stores, the validator's compute-then-commit
//! path, and the dispatcher that applies one record at a time.
use crate::api::{ApplyError, Client, ClientId, Operation, Transaction, TransactionId};
use crate::model::{
    Account, Adjustment, AdjustmentState, EngineModel, lemma_apply_preserves_inv, model_inv,
    new_account, spec_apply, spec_client, spec_insert, spec_signed_amount, spec_update,
};
use crate::store::{
    distinct_keys, has_key, kv_map, lemma_kv_map_domain, lemma_kv_map_index, lemma_kv_map_push,
    lemma_kv_map_update,
};
use vstd::prelude::*;

verus! {

/// The engine: every client's account and every accepted deposit's or
/// withdrawal's adjustment, both keyed by their identifiers. Records are
/// only ever added or overwritten in place, never removed.
pub struct Engine {
    accounts: Vec<(ClientId, Account)>,
    adjustments: Vec<(TransactionId, Adjustment)>,
}

impl View for Engine {
    type V = EngineModel;

    closed spec fn view(&self) -> EngineModel {
        EngineModel { accounts: kv_map(self.accounts@), adjustments: kv_map(self.adjustments@) }
    }
}

/// The index of the entry carrying `id`, if any.
fn find_account(v: &Vec<(ClientId, Account)>, id: ClientId) -> (r: Option<usize>)
    ensures
        match r {
            Option::Some(i) => i < v@.len() && (v@[i as int]).0 == id,
            Option::None => !has_key(v@, id),
        },
{
    let mut idx: usize = 0;
    while idx < v.len()
        invariant
            idx <= v@.len(),
            forall|j: int| 0 <= j < idx ==> (#[trigger] v@[j]).0 != id,
        decreases v@.len() - idx,
    {
        if v[idx].0 == id {
            return Some(idx);
        }
        idx += 1;
    }
    None
}

/// The index of the entry carrying `id`, if any.
fn find_adjustment(v: &Vec<(TransactionId, Adjustment)>, id: TransactionId) -> (r: Option<usize>)
    ensures
        match r {
            Option::Some(i) => i < v@.len() && (v@[i as int]).0 == id,
            Option::None => !has_key(v@, id),
        },
{
    let mut idx: usize = 0;
    while idx < v.len()
        invariant
            idx <= v@.len(),
            forall|j: int| 0 <= j < idx ==> (#[trigger] v@[j]).0 != id,
        decreases v@.len() - idx,
    {
        if v[idx].0 == id {
            return Some(idx);
        }
        idx += 1;
    }
    None
}

/// Overwrites the entry at `i`.
fn set_entry<T>(v: &mut Vec<T>, i: usize, e: T)
    requires
        i < old(v)@.len(),
    ensures
        final(v)@ == old(v)@.update(i as int, e),
{
    let slot = &mut v[i];
    *slot = e;
}

impl Engine {
    /// Well-formedness: the stores' keys are distinct, so each identifier
    /// names one record, and the abstract state satisfies the model
    /// invariants — in particular every balance is non-negative. `new`
    /// establishes this and every method preserves it.
    pub closed spec fn inv(self) -> bool {
        &&& distinct_keys(self.accounts@)
        &&& distinct_keys(self.adjustments@)
        &&& model_inv(self@)
    }

    /// An engine with no accounts and no adjustments.
    pub fn new() -> (r: Engine)
        ensures
            r.inv(),
            r@.accounts == Map::<ClientId, Account>::empty(),
            r@.adjustments == Map::<TransactionId, Adjustment>::empty(),
    {
        let r = Engine { accounts: Vec::new(), adjustments: Vec::new() };
        proof {
            assert(r@.accounts =~= Map::<ClientId, Account>::empty());
            assert(r@.adjustments =~= Map::<TransactionId, Adjustment>::empty());
        }
        r
    }

    /// Applies one input record: the committed transition of `spec_apply`,
    /// or its rejection with the engine left exactly as it was.
    pub fn apply(&mut self, transaction: Transaction) -> (r: Result<(), ApplyError>)
        requires
            old(self).inv(),
        ensures
            final(self).inv(),
            (match spec_apply(old(self)@, transaction) {
                Ok(m2) => r is Ok && final(self)@ == m2,
                Err(e) => r == Result::<(), ApplyError>::Err(e) && *final(self) == *old(self),
            }),
    {
        match transaction.operation {
            Operation::Deposit => self.insert_transaction(transaction, false),
            Operation::Withdrawal => self.insert_transaction(transaction, true),
            Operation::Dispute | Operation::Resolve | Operation::Chargeback => self
                .update_transaction(transaction),
        }
    }

    /// The reported view of every known account, one record per client,
    /// in no significant order.
    pub fn clients(&self) -> (r: Vec<Client>)
        requires
            self.inv(),
        ensures
            forall|i: int|
                0 <= i < r@.len() ==> self@.accounts.contains_key((#[trigger] r@[i]).id)
                    && r@[i] == spec_client((r@[i]).id, self@.accounts[(r@[i]).id]),
            forall|c: ClientId|
                #[trigger] self@.accounts.contains_key(c) ==> exists|i: int|
                    0 <= i < r@.len() && (#[trigger] r@[i]).id == c,
            forall|i: int, j: int| 0 <= i < j < r@.len() ==> (r@[i]).id != (r@[j]).id,
    {
        let mut out: Vec<Client> = Vec::new();
        let mut idx: usize = 0;
        while idx < self.accounts.len()
            invariant
                idx <= self.accounts@.len(),
                out@.len() == idx,
                forall|i: int|
                    0 <= i < idx ==> (#[trigger] out@[i]) == spec_client(
                        (self.accounts@[i]).0,
                        (self.accounts@[i]).1,
                    ),
            decreases self.accounts@.len() - idx,
        {
            let e = self.accounts[idx];
            let total: i128 = e.1.balance as i128 + e.1.disputing as i128;
            out.push(
                Client {
                    id: e.0,
                    balance: e.1.balance,
                    under_dispute: e.1.disputing,
                    allocated: total,
                    is_frozen: e.1.is_frozen,
                },
            );
            idx += 1;
        }
        proof {
            assert forall|i: int|
                0 <= i < out@.len() implies self@.accounts.contains_key((#[trigger] out@[i]).id)
                && out@[i] == spec_client((out@[i]).id, self@.accounts[(out@[i]).id]) by {
                lemma_kv_map_index(self.accounts@, i);
            };
            assert forall|c: ClientId| self@.accounts.contains_key(c) implies exists|i: int|
                0 <= i < out@.len() && (#[trigger] out@[i]).id == c by {
                lemma_kv_map_domain(self.accounts@, c);
                let i = choose|i: int|
                    0 <= i < self.accounts@.len() && (#[trigger] self.accounts@[i]).0 == c;
                assert((out@[i]).id == c);
            };
            assert forall|i: int, j: int|
                0 <= i < j < out@.len() implies (out@[i]).id != (out@[j]).id by {
                assert((self.accounts@[i]).0 != (self.accounts@[j]).0);
            };
        }
        out
    }

    /// The insert path for deposits and withdrawals: validate the amount,
    /// refuse a re-used identifier, run the validator against the target
    /// account and a fresh adjustment, and store both only on success.
    fn insert_transaction(&mut self, t: Transaction, negate: bool) -> (r: Result<(), ApplyError>)
        requires
            old(self).inv(),
            t.operation is Deposit || t.operation is Withdrawal,
            negate == (t.operation is Withdrawal),
        ensures
            final(self).inv(),
            (match spec_insert(old(self)@, t, negate) {
                Ok(m2) => r is Ok && final(self)@ == m2,
                Err(e) => r == Result::<(), ApplyError>::Err(e) && *final(self) == *old(self),
            }),
    {
        let a = match t.amount {
            Option::None => { return Err(ApplyError::MissingAmount) },
            Option::Some(a) => a,
        };
        if negate && a == i64::MIN {
            return Err(ApplyError::AmountOutOfRange);
        }
        let signed: i64 = if negate {
            -a
        } else {
            a
        };
        proof {
            assert(signed as int == spec_signed_amount(a, negate));
        }
        match find_adjustment(&self.adjustments, t.id) {
            Option::Some(i) => {
                proof {
                    assert((self.adjustments@[i as int]).0 == t.id);
                    assert(has_key(self.adjustments@, t.id));
                    lemma_kv_map_domain(self.adjustments@, t.id);
                }
                return Err(ApplyError::DuplicateTransactionId);
            },
            Option::None => {},
        }
        proof {
            lemma_kv_map_domain(self.adjustments@, t.id);
            assert(!old(self)@.adjustments.contains_key(t.id));
        }
        let acct_idx = find_account(&self.accounts, t.client_id);
        let acct: Account = match acct_idx {
            Option::Some(i) => self.accounts[i].1,
            Option::None => Account { is_frozen: false, balance: 0, disputing: 0 },
        };
        proof {
            lemma_kv_map_domain(self.accounts@, t.client_id);
            match acct_idx {
                Option::Some(i) => {
                    assert((self.accounts@[i as int]).0 == t.client_id);
                    assert(has_key(self.accounts@, t.client_id));
                    lemma_kv_map_index(self.accounts@, i as int);
                    assert(acct == old(self)@.accounts[t.client_id]);
                },
                Option::None => {
                    assert(acct == new_account());
                },
            }
        }
        if acct.is_frozen {
            return Err(ApplyError::FrozenAccount);
        }
        let cand_balance: i128 = acct.balance as i128 + signed as i128;
        if cand_balance < 0 || cand_balance > i64::MAX as i128 {
            return Err(ApplyError::InvariantViolation);
        }
        let new_acct = Account {
            is_frozen: false,
            balance: cand_balance as i64,
            disputing: acct.disputing,
        };
        let new_adj = Adjustment {
            account_id: t.client_id,
            amount: signed,
            state: AdjustmentState::Valid,
        };
        match acct_idx {
            Option::Some(i) => {
                set_entry(&mut self.accounts, i, (t.client_id, new_acct));
                proof {
                    lemma_kv_map_update(old(self).accounts@, i as int, t.client_id, new_acct);
                }
            },
            Option::None => {
                self.accounts.push((t.client_id, new_acct));
                proof {
                    lemma_kv_map_push(old(self).accounts@, t.client_id, new_acct);
                }
            },
        }
        self.adjustments.push((t.id, new_adj));
        proof {
            lemma_kv_map_push(old(self).adjustments@, t.id, new_adj);
            assert(self@.accounts == old(self)@.accounts.insert(t.client_id, new_acct));
            assert(self@.adjustments == old(self)@.adjustments.insert(t.id, new_adj));
            assert(spec_insert(old(self)@, t, negate) == Ok::<EngineModel, ApplyError>(self@));
            assert(spec_apply(old(self)@, t) == spec_insert(old(self)@, t, negate));
            lemma_apply_preserves_inv(old(self)@, t, self@);
        }
        Ok(())
    }

    /// The update path for the three dispute-lifecycle operations: resolve
    /// the referenced adjustment and its account, run the validator, and
    /// commit both records in place only on success.
    fn update_transaction(&mut self, t: Transaction) -> (r: Result<(), ApplyError>)
        requires
            old(self).inv(),
            t.operation is Dispute || t.operation is Resolve || t.operation is Chargeback,
        ensures
            final(self).inv(),
            (match spec_update(old(self)@, t) {
                Ok(m2) => r is Ok && final(self)@ == m2,
                Err(e) => r == Result::<(), ApplyError>::Err(e) && *final(self) == *old(self),
            }),
    {
        let adj_i = match find_adjustment(&self.adjustments, t.id) {
            Option::None => {
                proof {
                    lemma_kv_map_domain(self.adjustments@, t.id);
                }
                return Err(ApplyError::UnknownTransactionReference);
            },
            Option::Some(i) => i,
        };
        proof {
            assert((self.adjustments@[adj_i as int]).0 == t.id);
            assert(has_key(self.adjustments@, t.id));
            lemma_kv_map_domain(self.adjustments@, t.id);
            lemma_kv_map_index(self.adjustments@, adj_i as int);
        }
        let adj = self.adjustments[adj_i].1;
        proof {
            assert(adj == old(self)@.adjustments[t.id]);
        }
        if adj.account_id != t.client_id {
            return Err(ApplyError::ClientMismatch);
        }
        proof {
            // every stored adjustment's account exists, so the lookup below
            // cannot miss
            assert(old(self)@.accounts.contains_key(adj.account_id));
            lemma_kv_map_domain(self.accounts@, t.client_id);
        }
        let acct_j = match find_account(&self.accounts, t.client_id) {
            Option::None => {
                proof {
                    assert(false);
                }
                return Err(ApplyError::UnknownTransactionReference);
            },
            Option::Some(j) => j,
        };
        proof {
            assert((self.accounts@[acct_j as int]).0 == t.client_id);
            lemma_kv_map_index(self.accounts@, acct_j as int);
        }
        let acct = self.accounts[acct_j].1;
        if acct.is_frozen {
            return Err(ApplyError::FrozenAccount);
        }
        if adj.state == AdjustmentState::Invalid {
            return Err(ApplyError::InvalidAdjustmentReferenced);
        }
        let cand: (i128, i128, AdjustmentState) = match t.operation {
            Operation::Dispute => {
                if adj.state != AdjustmentState::Valid {
                    return Err(ApplyError::WrongLifecycleState);
                }
                (
                    acct.balance as i128 - adj.amount as i128,
                    acct.disputing as i128 + adj.amount as i128,
                    AdjustmentState::UnderDispute,
                )
            },
            Operation::Resolve => {
                if adj.state != AdjustmentState::UnderDispute {
                    return Err(ApplyError::WrongLifecycleState);
                }
                (
                    acct.balance as i128 + adj.amount as i128,
                    acct.disputing as i128 - adj.amount as i128,
                    AdjustmentState::Valid,
                )
            },
            Operation::Chargeback => {
                if adj.state != AdjustmentState::UnderDispute {
                    return Err(ApplyError::WrongLifecycleState);
                }
                (
                    acct.balance as i128,
                    acct.disputing as i128 - adj.amount as i128,
                    AdjustmentState::Invalid,
                )
            },
            Operation::Deposit | Operation::Withdrawal => {
                proof {
                    assert(false);
                }
                return Err(ApplyError::WrongLifecycleState);
            },
        };
        if cand.0 < 0 || cand.0 > i64::MAX as i128 {
            return Err(ApplyError::InvariantViolation);
        }
        if cand.1 < i64::MIN as i128 || cand.1 > i64::MAX as i128 {
            return Err(ApplyError::InvariantViolation);
        }
        let new_acct = Account {
            is_frozen: cand.2 == AdjustmentState::Invalid,
            balance: cand.0 as i64,
            disputing: cand.1 as i64,
        };
        let new_adj = Adjustment { account_id: adj.account_id, amount: adj.amount, state: cand.2 };
        set_entry(&mut self.accounts, acct_j, (t.client_id, new_acct));
        set_entry(&mut self.adjustments, adj_i, (t.id, new_adj));
        proof {
            lemma_kv_map_update(old(self).accounts@, acct_j as int, t.client_id, new_acct);
            lemma_kv_map_update(old(self).adjustments@, adj_i as int, t.id, new_adj);
            assert(self@.accounts == old(self)@.accounts.insert(t.client_id, new_acct));
            assert(self@.adjustments == old(self)@.adjustments.insert(t.id, new_adj));
            assert(spec_update(old(self)@, t) == Ok::<EngineModel, ApplyError>(self@));
            assert(spec_apply(old(self)@, t) == spec_update(old(self)@, t));
            lemma_apply_preserves_inv(old(self)@, t, self@);
        }
        Ok(())
    }
}

impl Default for Engine {
    /// Same as `Engine::new`.
    fn default() -> (r: Engine)
        ensures
            r.inv(),
            r@.accounts == Map::<ClientId, Account>::empty(),
            r@.adjustments == Map::<TransactionId, Adjustment>::empty(),
    {
        Engine::new()
    }
}

} // verus!
