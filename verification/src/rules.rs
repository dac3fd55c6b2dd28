//! What each call of the contract decides for one goal: given what storage
//! holds for the goal and the caller, the goal and the amounts to store back.
use vstd::prelude::*;

use crate::errors::Error;
use crate::events::{Deposit, GoalCreated, Unlock, UnlockVia, Withdraw};
use crate::types::{Address, SavingsGoal};

verus! {

/// The goal that `create_goal` (or `create_group_goal`, with `is_group`) makes,
/// or why it refuses: the target must be positive and the deadline in the
/// future of `now`.
pub open spec fn create_outcome(
    owner: Address,
    token: Address,
    target_amount: i128,
    deadline: u64,
    now: u64,
    is_group: bool,
) -> Result<SavingsGoal, Error> {
    if target_amount <= 0 {
        Err(Error::InvalidAmount)
    } else if deadline <= now {
        Err(Error::InvalidDeadline)
    } else {
        Ok(
            SavingsGoal {
                owner,
                token,
                target_amount,
                current_amount: 0,
                deadline,
                unlocked: false,
                withdrawn: false,
                is_group,
            },
        )
    }
}

/// The goal and the caller's new contribution after `caller` deposits `amount`
/// into the goal `stored` (`None`: no such goal), where `caller` held `held` in
/// it before; or why the deposit is refused.
pub open spec fn deposit_outcome(
    stored: Option<SavingsGoal>,
    caller: Seq<char>,
    amount: i128,
    held: i128,
) -> Result<(SavingsGoal, i128), Error> {
    if amount <= 0 {
        Err(Error::InvalidAmount)
    } else {
        match stored {
            None => Err(Error::GoalNotFound),
            Some(g) => if g.withdrawn {
                Err(Error::AlreadyWithdrawn)
            } else if !g.is_group && caller != g.owner@ {
                Err(Error::Unauthorized)
            } else if g.current_amount + amount > i128::MAX || held + amount > i128::MAX {
                Err(Error::ArithmeticOverflow)
            } else {
                let total = (g.current_amount + amount) as i128;
                Ok(
                    (
                        SavingsGoal {
                            current_amount: total,
                            unlocked: g.unlocked || total >= g.target_amount,
                            ..g
                        },
                        (held + amount) as i128,
                    ),
                )
            },
        }
    }
}

/// What checking the deadline of goal `stored` at time `now` does: `Some` of
/// the goal, now unlocked, when its deadline has come and it was still locked;
/// `None` when nothing changes.
pub open spec fn deadline_outcome(stored: Option<SavingsGoal>, now: u64) -> Result<
    Option<SavingsGoal>,
    Error,
> {
    match stored {
        None => Err(Error::GoalNotFound),
        Some(g) => if g.withdrawn {
            Err(Error::AlreadyWithdrawn)
        } else if !g.unlocked && now >= g.deadline {
            Ok(Some(SavingsGoal { unlocked: true, ..g }))
        } else {
            Ok(None)
        },
    }
}

/// What `caller` is paid from goal `stored`, where it holds `held`: the whole
/// balance for the owner of a single-owner goal, its own contribution for a
/// member of a group goal; with the goal after the payout. Or why the
/// withdrawal is refused.
pub open spec fn withdraw_outcome(stored: Option<SavingsGoal>, caller: Seq<char>, held: i128) -> Result<
    (SavingsGoal, i128),
    Error,
> {
    match stored {
        None => Err(Error::GoalNotFound),
        Some(g) => if g.withdrawn {
            Err(Error::AlreadyWithdrawn)
        } else if !g.unlocked {
            Err(Error::NotUnlocked)
        } else if g.is_group && held <= 0 {
            Err(Error::Unauthorized)
        } else if !g.is_group && caller != g.owner@ {
            Err(Error::Unauthorized)
        } else {
            let paid: i128 = if g.is_group {
                held
            } else {
                g.current_amount
            };
            let rest = g.current_amount - paid;
            if rest < i128::MIN || rest > i128::MAX {
                Err(Error::ArithmeticOverflow)
            } else {
                Ok((SavingsGoal { current_amount: rest as i128, withdrawn: rest == 0, ..g }, paid))
            }
        },
    }
}

/// Validates the parameters of a new goal and builds it (empty, locked).
pub fn new_goal(
    owner: Address,
    token: Address,
    target_amount: i128,
    deadline: u64,
    now: u64,
    is_group: bool,
) -> (res: Result<SavingsGoal, Error>)
    ensures
        res == create_outcome(owner, token, target_amount, deadline, now, is_group),
{
    if target_amount <= 0 {
        return Err(Error::InvalidAmount);
    }
    if deadline <= now {
        return Err(Error::InvalidDeadline);
    }
    Ok(
        SavingsGoal {
            owner,
            token,
            target_amount,
            current_amount: 0,
            deadline,
            unlocked: false,
            withdrawn: false,
            is_group,
        },
    )
}

/// The goal counter after a goal got id `goal_id`.
pub fn next_goal_id(goal_id: u32) -> (next: u32)
    requires
        goal_id < u32::MAX,
    ensures
        next == goal_id + 1,
{
    goal_id + 1
}

/// Applies a deposit of `amount` by `caller` to the goal `stored`.
pub fn apply_deposit(stored: Option<SavingsGoal>, caller: &Address, amount: i128, held: i128) -> (res:
    Result<(SavingsGoal, i128), Error>)
    ensures
        res == deposit_outcome(stored, caller@, amount, held),
{
    if amount <= 0 {
        return Err(Error::InvalidAmount);
    }
    let mut goal = match stored {
        Some(g) => g,
        None => return Err(Error::GoalNotFound),
    };
    if goal.withdrawn {
        return Err(Error::AlreadyWithdrawn);
    }
    if !goal.is_group && *caller != goal.owner {
        return Err(Error::Unauthorized);
    }
    goal.current_amount = match goal.current_amount.checked_add(amount) {
        Some(total) => total,
        None => return Err(Error::ArithmeticOverflow),
    };
    if goal.current_amount >= goal.target_amount {
        goal.unlocked = true;
    }
    let contribution = match held.checked_add(amount) {
        Some(c) => c,
        None => return Err(Error::ArithmeticOverflow),
    };
    Ok((goal, contribution))
}

/// Unlocks the goal `stored` if its deadline has come by `now`.
pub fn apply_check_deadline(stored: Option<SavingsGoal>, now: u64) -> (res: Result<
    Option<SavingsGoal>,
    Error,
>)
    ensures
        res == deadline_outcome(stored, now),
{
    let mut goal = match stored {
        Some(g) => g,
        None => return Err(Error::GoalNotFound),
    };
    if goal.withdrawn {
        return Err(Error::AlreadyWithdrawn);
    }
    if !goal.unlocked && now >= goal.deadline {
        goal.unlocked = true;
        return Ok(Some(goal));
    }
    Ok(None)
}

/// Pays `caller` out of the goal `stored`; `held` is what the storage holds as
/// the caller's contribution to it.
pub fn apply_withdraw(stored: Option<SavingsGoal>, caller: &Address, held: i128) -> (res: Result<
    (SavingsGoal, i128),
    Error,
>)
    ensures
        res == withdraw_outcome(stored, caller@, held),
{
    let mut goal = match stored {
        Some(g) => g,
        None => return Err(Error::GoalNotFound),
    };
    if goal.withdrawn {
        return Err(Error::AlreadyWithdrawn);
    }
    if !goal.unlocked {
        return Err(Error::NotUnlocked);
    }
    let amount = if goal.is_group {
        if held <= 0 {
            return Err(Error::Unauthorized);
        }
        held
    } else {
        if *caller != goal.owner {
            return Err(Error::Unauthorized);
        }
        goal.current_amount
    };
    goal.current_amount = match goal.current_amount.checked_sub(amount) {
        Some(rest) => rest,
        None => return Err(Error::ArithmeticOverflow),
    };
    if goal.current_amount == 0 {
        goal.withdrawn = true;
    }
    Ok((goal, amount))
}

/// The event a successful creation of goal `goal_id` as `g` announces.
pub open spec fn created_event_of(goal_id: u32, g: SavingsGoal) -> GoalCreated {
    GoalCreated {
        goal_id,
        owner: g.owner,
        token: g.token,
        target_amount: g.target_amount,
        deadline: g.deadline,
        metadata_uri: None,
    }
}

/// The event a successful deposit of `amount` by `caller` into goal
/// `goal_id`, which is `g` after it, announces.
pub open spec fn deposit_event_of(goal_id: u32, caller: Address, amount: i128, g: SavingsGoal) -> Deposit {
    Deposit {
        goal_id,
        caller,
        amount,
        current_amount: g.current_amount,
        unlocked: g.unlocked,
    }
}

/// The event a deadline check that unlocks goal `goal_id` announces.
pub open spec fn unlock_event_of(goal_id: u32) -> Unlock {
    Unlock { goal_id, via: UnlockVia::Deadline }
}

/// The event a successful withdrawal paying `amount` to `caller` from goal
/// `goal_id` announces.
pub open spec fn withdraw_event_of(goal_id: u32, caller: Address, amount: i128) -> Withdraw {
    Withdraw { goal_id, owner: caller, amount }
}

/// The event that announces goal `goal_id`, just created as `goal`.
pub fn goal_created_event(goal_id: u32, goal: &SavingsGoal) -> (e: GoalCreated)
    ensures
        e == created_event_of(goal_id, *goal),
{
    GoalCreated {
        goal_id,
        owner: goal.owner.clone(),
        token: goal.token.clone(),
        target_amount: goal.target_amount,
        deadline: goal.deadline,
        metadata_uri: None,
    }
}

/// The event that announces a deposit of `amount` by `caller` into goal
/// `goal_id`, which is `goal` after it.
pub fn deposit_event(goal_id: u32, caller: &Address, amount: i128, goal: &SavingsGoal) -> (e: Deposit)
    ensures
        e == deposit_event_of(goal_id, *caller, amount, *goal),
{
    Deposit {
        goal_id,
        caller: caller.clone(),
        amount,
        current_amount: goal.current_amount,
        unlocked: goal.unlocked,
    }
}

/// The event that announces that goal `goal_id` unlocked at its deadline.
pub fn deadline_unlock_event(goal_id: u32) -> (e: Unlock)
    ensures
        e == unlock_event_of(goal_id),
{
    Unlock { goal_id, via: UnlockVia::Deadline }
}

/// The event that announces that `caller` was paid `amount` from goal `goal_id`.
pub fn withdraw_event(goal_id: u32, caller: &Address, amount: i128) -> (e: Withdraw)
    ensures
        e == withdraw_event_of(goal_id, *caller, amount),
{
    Withdraw { goal_id, owner: caller.clone(), amount }
}

} // verus!
