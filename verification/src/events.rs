use vstd::prelude::*;

use crate::types::Address;

verus! {

/// Announces a new goal.
#[derive(Debug)]
pub struct GoalCreated {
    pub goal_id: u32,
    pub owner: Address,
    pub token: Address,
    pub target_amount: i128,
    pub deadline: u64,
    pub metadata_uri: Option<String>,
}

/// Announces a deposit and the goal's balance after it.
#[derive(Debug)]
pub struct Deposit {
    pub goal_id: u32,
    pub caller: Address,
    pub amount: i128,
    pub current_amount: i128,
    pub unlocked: bool,
}

/// What unlocked a goal.
#[derive(Debug, Clone, Copy, PartialEq, Eq, Structural)]
pub enum UnlockVia {
    /// The goal's deadline had passed.
    Deadline,
}

/// Announces that a goal was unlocked.
#[derive(Debug)]
pub struct Unlock {
    pub goal_id: u32,
    pub via: UnlockVia,
}

/// Announces a payout from a goal.
#[derive(Debug)]
pub struct Withdraw {
    pub goal_id: u32,
    pub owner: Address,
    pub amount: i128,
}

/// An event the contract announces, as it appears in the ledger's event log.
#[derive(Debug)]
pub enum ContractEvent {
    GoalCreated(GoalCreated),
    Deposit(Deposit),
    Unlock(Unlock),
    Withdraw(Withdraw),
}

} // verus!
