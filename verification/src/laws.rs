//! Conservation of value over whole operation sequences.
//!
//! A single vault's balance evolves by deposits and withdrawals alone. The
//! spec functions here give the balance transition of one operation and the
//! run of a whole sequence, and the lemma at the bottom states the
//! conservation law over them. The ledger operations tie themselves to
//! `step_balance` in their own `ensures` clauses.

use vstd::prelude::*;

verus! {

/// One balance-changing operation on a single vault.
pub enum VaultOp {
    Deposit { amount: u64 },
    Withdraw { amount: u64 },
}

/// The balance after one operation: a deposit adds its amount; a withdrawal
/// subtracts its amount when it is covered and otherwise changes nothing.
pub open spec fn step_balance(b: int, op: VaultOp) -> int {
    match op {
        VaultOp::Deposit { amount } => b + amount as int,
        VaultOp::Withdraw { amount } => if amount as int <= b {
            b - amount as int
        } else {
            b
        },
    }
}

/// The balance after a whole sequence of operations runs from balance `b`.
pub open spec fn run_balance(b: int, ops: Seq<VaultOp>) -> int
    decreases ops.len(),
{
    if ops.len() == 0 {
        b
    } else {
        run_balance(step_balance(b, ops[0]), ops.drop_first())
    }
}

/// The sum of all deposited amounts in `ops`.
pub open spec fn deposits_total(ops: Seq<VaultOp>) -> int
    decreases ops.len(),
{
    if ops.len() == 0 {
        0
    } else {
        (match ops[0] {
            VaultOp::Deposit { amount } => amount as int,
            VaultOp::Withdraw { .. } => 0,
        }) + deposits_total(ops.drop_first())
    }
}

/// The sum of the amounts of the withdrawals that succeed when `ops` runs
/// from balance `b` (a withdrawal succeeds exactly when it is covered by the
/// balance at its turn).
pub open spec fn withdrawals_total(b: int, ops: Seq<VaultOp>) -> int
    decreases ops.len(),
{
    if ops.len() == 0 {
        0
    } else {
        (match ops[0] {
            VaultOp::Deposit { .. } => 0,
            VaultOp::Withdraw { amount } => if amount as int <= b {
                amount as int
            } else {
                0
            },
        }) + withdrawals_total(step_balance(b, ops[0]), ops.drop_first())
    }
}

/// No single operation drives a non-negative balance negative.
pub proof fn lemma_step_preserves_nonnegativity(b: int, op: VaultOp)
    requires
        0 <= b,
    ensures
        0 <= step_balance(b, op),
{
}

/// Conservation of value: for every sequence of deposits and withdrawals on
/// a single vault, the balance after the sequence equals the starting
/// balance plus the sum of the deposits minus the sum of the successful
/// withdrawals, and it never goes negative.
pub proof fn lemma_balance_conservation(b: int, ops: Seq<VaultOp>)
    requires
        0 <= b,
    ensures
        run_balance(b, ops) == b + deposits_total(ops) - withdrawals_total(b, ops),
        0 <= run_balance(b, ops),
    decreases ops.len(),
{
    if ops.len() == 0 {
    } else {
        let b1 = step_balance(b, ops[0]);
        lemma_step_preserves_nonnegativity(b, ops[0]);
        lemma_balance_conservation(b1, ops.drop_first());
    }
}

} // verus!
