//! The mathematical model of the engine.
//!
//! `EngineModel` abstracts the two stores as maps; `spec_apply` is the pure
//! transition function that says, for every input record, whether it commits
//! and what the stores hold afterwards. `Engine::apply` is proved to follow
//! `spec_apply` exactly, so the laws stated here about `spec_apply` carry
//! over to every run of the executable engine.
use crate::api::{ApplyError, Client, ClientId, Operation, Transaction, TransactionId};
use vstd::prelude::*;

verus! {

/// One account: the frozen flag, the available balance, and the funds held
/// pending dispute resolution. The held amount may be negative when a
/// withdrawal is under dispute.
#[derive(Clone, Copy, Debug, PartialEq, Eq, Structural)]
pub struct Account {
    pub is_frozen: bool,
    pub balance: i64,
    pub disputing: i64,
}

/// The dispute lifecycle of an adjustment. The only moves are
/// `Valid -> UnderDispute -> {Valid, Invalid}`; `Invalid` is terminal.
#[derive(Clone, Copy, Debug, PartialEq, Eq, Structural)]
pub enum AdjustmentState {
    Valid,
    UnderDispute,
    Invalid,
}

/// The committed effect of one accepted deposit or withdrawal: the owning
/// client, the signed magnitude (positive for a deposit, negative for a
/// withdrawal), and the dispute lifecycle state.
#[derive(Clone, Copy, Debug, PartialEq, Eq, Structural)]
pub struct Adjustment {
    pub account_id: ClientId,
    pub amount: i64,
    pub state: AdjustmentState,
}

/// The abstract state of the engine: each client's account, and each
/// accepted deposit's or withdrawal's adjustment, keyed by its identifier.
pub ghost struct EngineModel {
    pub accounts: Map<ClientId, Account>,
    pub adjustments: Map<TransactionId, Adjustment>,
}

/// A candidate next state for one account/adjustment pair, computed over
/// unbounded integers before any commit.
pub ghost struct Candidate {
    pub balance: int,
    pub disputing: int,
    pub state: AdjustmentState,
}

/// A freshly created, empty account.
pub open spec fn new_account() -> Account {
    Account { is_frozen: false, balance: 0, disputing: 0 }
}

/// The invariants every reachable model satisfies: balances never negative,
/// and every adjustment owned by an existing account.
pub open spec fn model_inv(m: EngineModel) -> bool {
    &&& forall|c: ClientId| m.accounts.contains_key(c) ==> (#[trigger] m.accounts[c]).balance
        >= 0
    &&& forall|t: TransactionId| m.adjustments.contains_key(t) ==> m.accounts.contains_key(
        (#[trigger] m.adjustments[t]).account_id,
    )
}

/// The bounds a committed `Currency` value must respect; they play the role
/// that finiteness plays for unbounded number representations.
pub open spec fn currency_in_range(v: int) -> bool {
    i64::MIN <= v <= i64::MAX
}

/// A candidate commits only if the balance stays non-negative and both
/// fields stay representable.
pub open spec fn candidate_ok(c: Candidate) -> bool {
    &&& 0 <= c.balance <= i64::MAX
    &&& currency_in_range(c.disputing)
}

/// The candidate next state for one operation, or the lifecycle error that
/// rules it out. Deposits and withdrawals act on a fresh `Valid` adjustment;
/// the three lifecycle operations ignore the incoming amount and use the
/// adjustment's stored one.
pub open spec fn spec_transition(acct: Account, adj: Adjustment, op: Operation) -> Result<
    Candidate,
    ApplyError,
> {
    match op {
        Operation::Deposit | Operation::Withdrawal => Ok(
            Candidate {
                balance: acct.balance + adj.amount,
                disputing: acct.disputing as int,
                state: AdjustmentState::Valid,
            },
        ),
        Operation::Dispute => if adj.state !is Valid {
            Err(ApplyError::WrongLifecycleState)
        } else {
            Ok(
                Candidate {
                    balance: acct.balance - adj.amount,
                    disputing: acct.disputing + adj.amount,
                    state: AdjustmentState::UnderDispute,
                },
            )
        },
        Operation::Resolve => if adj.state !is UnderDispute {
            Err(ApplyError::WrongLifecycleState)
        } else {
            Ok(
                Candidate {
                    balance: acct.balance + adj.amount,
                    disputing: acct.disputing - adj.amount,
                    state: AdjustmentState::Valid,
                },
            )
        },
        Operation::Chargeback => if adj.state !is UnderDispute {
            Err(ApplyError::WrongLifecycleState)
        } else {
            Ok(
                Candidate {
                    balance: acct.balance as int,
                    disputing: acct.disputing - adj.amount,
                    state: AdjustmentState::Invalid,
                },
            )
        },
    }
}

/// The validator: reject outright on a frozen account or a terminal
/// adjustment, compute the candidate, reject it if it breaks an invariant,
/// and otherwise commit all fields at once. The frozen flag is recomputed
/// from the new state, so it is set exactly when the adjustment turns
/// `Invalid` and is never cleared.
pub open spec fn spec_validate(acct: Account, adj: Adjustment, op: Operation) -> Result<
    (Account, Adjustment),
    ApplyError,
> {
    if acct.is_frozen {
        Err(ApplyError::FrozenAccount)
    } else if adj.state is Invalid {
        Err(ApplyError::InvalidAdjustmentReferenced)
    } else {
        match spec_transition(acct, adj, op) {
            Err(e) => Err(e),
            Ok(c) => if !candidate_ok(c) {
                Err(ApplyError::InvariantViolation)
            } else {
                Ok(
                    (
                        Account {
                            is_frozen: c.state is Invalid,
                            balance: c.balance as i64,
                            disputing: c.disputing as i64,
                        },
                        Adjustment { state: c.state, ..adj },
                    ),
                )
            },
        }
    }
}

/// The signed magnitude a deposit or withdrawal records: the given amount,
/// negated for a withdrawal.
pub open spec fn spec_signed_amount(amount: i64, negate: bool) -> int {
    if negate {
        -(amount as int)
    } else {
        amount as int
    }
}

/// Applying a deposit or withdrawal: validate the amount, refuse a re-used
/// identifier, then run the validator against the target account (created
/// empty on first use) and a fresh `Valid` adjustment. Only on success are
/// the account and the new adjustment stored.
pub open spec fn spec_insert(m: EngineModel, t: Transaction, negate: bool) -> Result<
    EngineModel,
    ApplyError,
> {
    match t.amount {
        Option::None => Err(ApplyError::MissingAmount),
        Option::Some(a) => {
            let signed = spec_signed_amount(a, negate);
            if !currency_in_range(signed) {
                Err(ApplyError::AmountOutOfRange)
            } else if m.adjustments.contains_key(t.id) {
                Err(ApplyError::DuplicateTransactionId)
            } else {
                let acct = if m.accounts.contains_key(t.client_id) {
                    m.accounts[t.client_id]
                } else {
                    new_account()
                };
                let adj = Adjustment {
                    account_id: t.client_id,
                    amount: signed as i64,
                    state: AdjustmentState::Valid,
                };
                match spec_validate(acct, adj, t.operation) {
                    Err(e) => Err(e),
                    Ok((acct2, adj2)) => Ok(
                        EngineModel {
                            accounts: m.accounts.insert(t.client_id, acct2),
                            adjustments: m.adjustments.insert(t.id, adj2),
                        },
                    ),
                }
            }
        },
    }
}

/// Applying a dispute, resolve or chargeback: the referenced adjustment must
/// exist and belong to the stated client, and the validator decides the
/// rest. An adjustment without a backing account cannot arise in a reachable
/// model (see `model_inv`); the guard on the account lookup only keeps this
/// function total.
pub open spec fn spec_update(m: EngineModel, t: Transaction) -> Result<
    EngineModel,
    ApplyError,
> {
    if !m.adjustments.contains_key(t.id) {
        Err(ApplyError::UnknownTransactionReference)
    } else {
        let adj = m.adjustments[t.id];
        if adj.account_id != t.client_id {
            Err(ApplyError::ClientMismatch)
        } else if !m.accounts.contains_key(adj.account_id) {
            Err(ApplyError::UnknownTransactionReference)
        } else {
            match spec_validate(m.accounts[adj.account_id], adj, t.operation) {
                Err(e) => Err(e),
                Ok((acct2, adj2)) => Ok(
                    EngineModel {
                        accounts: m.accounts.insert(adj.account_id, acct2),
                        adjustments: m.adjustments.insert(t.id, adj2),
                    },
                ),
            }
        }
    }
}

/// The reported view of one account: its identifier, the two balances, the
/// derived total, and the frozen flag.
pub open spec fn spec_client(id: ClientId, a: Account) -> Client {
    Client {
        id: id,
        balance: a.balance,
        under_dispute: a.disputing,
        allocated: (a.balance + a.disputing) as i128,
        is_frozen: a.is_frozen,
    }
}

/// What one input record does to the abstract engine state: the committed
/// next state, or the reason it is rejected with no state change.
pub open spec fn spec_apply(m: EngineModel, t: Transaction) -> Result<EngineModel, ApplyError> {
    match t.operation {
        Operation::Deposit => spec_insert(m, t, false),
        Operation::Withdrawal => spec_insert(m, t, true),
        Operation::Dispute | Operation::Resolve | Operation::Chargeback => spec_update(m, t),
    }
}

/// Law: the model invariants hold in every reachable state — every committed
/// transition preserves non-negative, representable balances and the
/// account backing every adjustment.
pub proof fn lemma_apply_preserves_inv(m: EngineModel, t: Transaction, m2: EngineModel)
    requires
        model_inv(m),
        spec_apply(m, t) == Ok::<EngineModel, ApplyError>(m2),
    ensures
        model_inv(m2),
{
}

/// Law: once an account is frozen, no transaction naming that client ever
/// commits again. Together with `Engine::apply`'s contract — a rejected
/// record changes nothing — the attempt also leaves every account and
/// adjustment exactly as it was.
pub proof fn lemma_frozen_account_rejects(m: EngineModel, t: Transaction)
    requires
        m.accounts.contains_key(t.client_id),
        m.accounts[t.client_id].is_frozen,
    ensures
        spec_apply(m, t) is Err,
{
}

/// The moves the dispute lifecycle allows in one committed transition:
/// stay put, open a dispute on a valid adjustment, or settle an open
/// dispute either way. `Invalid` is terminal.
pub open spec fn lifecycle_step(before: AdjustmentState, after: AdjustmentState) -> bool {
    ||| after == before
    ||| before is Valid && after is UnderDispute
    ||| before is UnderDispute && (after is Valid || after is Invalid)
}

/// Law: a committed transition never removes an account or an adjustment,
/// never clears a frozen flag, and moves an adjustment's state only along
/// `Valid -> UnderDispute -> {Valid, Invalid}`.
pub proof fn lemma_apply_monotone(m: EngineModel, t: Transaction, m2: EngineModel)
    requires
        spec_apply(m, t) == Ok::<EngineModel, ApplyError>(m2),
    ensures
        forall|c: ClientId| m.accounts.contains_key(c) ==> m2.accounts.contains_key(c),
        forall|c: ClientId|
            m.accounts.contains_key(c) && (#[trigger] m.accounts[c]).is_frozen
                ==> m2.accounts[c].is_frozen,
        forall|i: TransactionId| m.adjustments.contains_key(i) ==> m2.adjustments.contains_key(i),
        forall|i: TransactionId|
            m.adjustments.contains_key(i) ==> lifecycle_step(
                (#[trigger] m.adjustments[i]).state,
                m2.adjustments[i].state,
            ),
{
}

/// Law: a deposit or withdrawal that commits consumes its transaction
/// identifier for good — a second deposit or withdrawal with the same
/// identifier is rejected, whatever its client or amount.
pub proof fn lemma_duplicate_id_rejected(m: EngineModel, t1: Transaction, t2: Transaction, m2: EngineModel)
    requires
        t1.operation is Deposit || t1.operation is Withdrawal,
        t2.operation is Deposit || t2.operation is Withdrawal,
        t2.id == t1.id,
        spec_apply(m, t1) == Ok::<EngineModel, ApplyError>(m2),
    ensures
        spec_apply(m2, t2) is Err,
{
}

} // verus!
