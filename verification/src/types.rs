use vstd::prelude::*;

use vstd::std_specs::cmp::PartialEqSpecImpl;

verus! {

/// An account or contract on the ledger, held as its text form (the strkey,
/// such as `G...` for an account or `C...` for a contract).
#[derive(Debug)]
pub struct Address {
    text: String,
}

impl View for Address {
    type V = Seq<char>;

    closed spec fn view(&self) -> Seq<char> {
        self.text@
    }
}

impl Address {
    /// The address whose text form is `text`.
    pub fn new(text: String) -> (a: Address)
        ensures
            a@ == text@,
    {
        Address { text }
    }

    /// The text form of this address.
    pub fn as_str(&self) -> (s: &str)
        ensures
            s@ == self@,
    {
        self.text.as_str()
    }
}

impl Clone for Address {
    fn clone(&self) -> (res: Self)
        ensures
            res == *self,
    {
        Address { text: self.text.clone() }
    }
}

impl PartialEq for Address {
    fn eq(&self, other: &Self) -> (res: bool) {
        self.text == other.text
    }
}

impl PartialEqSpecImpl for Address {
    open spec fn obeys_eq_spec() -> bool {
        true
    }

    open spec fn eq_spec(&self, other: &Self) -> bool {
        self@ == other@
    }
}

impl Eq for Address {
}

/// The full state of one savings goal.
#[derive(Debug, PartialEq, Eq)]
pub struct SavingsGoal {
    pub owner: Address,
    pub token: Address,
    pub target_amount: i128,
    pub current_amount: i128,
    pub deadline: u64,
    pub unlocked: bool,
    pub withdrawn: bool,
    pub is_group: bool,
}

impl Clone for SavingsGoal {
    fn clone(&self) -> (res: Self)
        ensures
            res == *self,
    {
        SavingsGoal {
            owner: self.owner.clone(),
            token: self.token.clone(),
            target_amount: self.target_amount,
            current_amount: self.current_amount,
            deadline: self.deadline,
            unlocked: self.unlocked,
            withdrawn: self.withdrawn,
            is_group: self.is_group,
        }
    }
}

/// What one depositor has put into one goal and not yet taken back.
#[derive(Debug)]
pub struct Contribution {
    pub depositor: Address,
    pub amount: i128,
}

impl Clone for Contribution {
    fn clone(&self) -> (res: Self)
        ensures
            res == *self,
    {
        Contribution { depositor: self.depositor.clone(), amount: self.amount }
    }
}

/// A movement of `amount` of the token `token` between `account` and the
/// contract: into the contract for a deposit, out of it for a withdrawal.
#[derive(Debug)]
pub struct Transfer {
    pub token: Address,
    pub account: Address,
    pub amount: i128,
}

/// The keys under which the contract keeps its state.
#[derive(Debug)]
pub enum DataKey {
    /// A goal, by its id.
    Goal(u32),
    /// The id that the next goal will get.
    GoalCounter,
    Treasury,
    PenaltyBps,
    /// What a depositor holds in a goal, by goal id and depositor.
    GoalContribution(u32, Address),
}

impl Clone for DataKey {
    fn clone(&self) -> (res: Self)
        ensures
            res == *self,
    {
        match self {
            DataKey::Goal(id) => DataKey::Goal(*id),
            DataKey::GoalCounter => DataKey::GoalCounter,
            DataKey::Treasury => DataKey::Treasury,
            DataKey::PenaltyBps => DataKey::PenaltyBps,
            DataKey::GoalContribution(id, who) => DataKey::GoalContribution(*id, who.clone()),
        }
    }
}

} // verus!
