//! What holds of the contract across calls.
use vstd::prelude::*;

use crate::contract::{
    check_deadline_keeps_invariant, create_keeps_invariant, deposit_keeps_invariant,
    entry_of, goal_wf, lemma_entry_index, lemma_with_held, total,
    withdraw_keeps_invariant, FundKeepState,
};
use crate::errors::Error;
use crate::events::{ContractEvent, Deposit, GoalCreated, Unlock, UnlockVia, Withdraw};
use crate::rules::{
    create_outcome, created_event_of, deadline_outcome, deposit_event_of, deposit_outcome,
    unlock_event_of, withdraw_event_of, withdraw_outcome,
};
use crate::types::{Address, Contribution, SavingsGoal, Transfer};

verus! {

/// A call into the contract, with its arguments (`now` is the ledger time).
pub enum Call {
    CreateGoal {
        owner: Address,
        token: Address,
        target_amount: i128,
        deadline: u64,
        now: u64,
        is_group: bool,
    },
    Deposit { caller: Address, goal_id: u32, amount: i128 },
    CheckDeadline { goal_id: u32, now: u64 },
    Withdraw { caller: Address, goal_id: u32 },
}

/// The state after call `c` on state `s`.
pub open spec fn step(s: FundKeepState, c: Call) -> FundKeepState {
    match c {
        Call::CreateGoal { owner, token, target_amount, deadline, now, is_group } => s.after_create(
            owner,
            token,
            target_amount,
            deadline,
            now,
            is_group,
        ).0,
        Call::Deposit { caller, goal_id, amount } => s.after_deposit(caller, goal_id, amount).0,
        Call::CheckDeadline { goal_id, now } => s.after_check_deadline(goal_id, now).0,
        Call::Withdraw { caller, goal_id } => s.after_withdraw(caller, goal_id).0,
    }
}

/// Whether call `c` on state `s` is refused with an error.
pub open spec fn refused(s: FundKeepState, c: Call) -> bool {
    match c {
        Call::CreateGoal { owner, token, target_amount, deadline, now, is_group } => s.after_create(
            owner,
            token,
            target_amount,
            deadline,
            now,
            is_group,
        ).1 is Err,
        Call::Deposit { caller, goal_id, amount } => s.after_deposit(caller, goal_id, amount).1 is Err,
        Call::CheckDeadline { goal_id, now } => s.after_check_deadline(goal_id, now).1 is Err,
        Call::Withdraw { caller, goal_id } => s.after_withdraw(caller, goal_id).1 is Err,
    }
}

/// Whether the contract can make call `c` on `s` at all: a goal can be
/// created only while the goal counter can still move on.
pub open spec fn callable(s: FundKeepState, c: Call) -> bool {
    match c {
        Call::CreateGoal { owner, token, target_amount, deadline, now, is_group } => create_outcome(
            owner,
            token,
            target_amount,
            deadline,
            now,
            is_group,
        ) is Ok ==> s.goals.len() < u32::MAX,
        _ => true,
    }
}

/// The terms a goal is created with.
pub open spec fn same_terms(a: SavingsGoal, b: SavingsGoal) -> bool {
    &&& a.owner == b.owner
    &&& a.token == b.token
    &&& a.target_amount == b.target_amount
    &&& a.deadline == b.deadline
    &&& a.is_group == b.is_group
}

/// The invariant holds of a freshly deployed contract and every call keeps
/// it: every goal has a positive target and a balance that is not negative,
/// a balance at the target means the goal is unlocked, a withdrawn goal is
/// empty, and the balance of a group goal (or of a single-owner goal not yet
/// withdrawn) is the sum of what its depositors hold, none of it negative,
/// and all of it the owner's in a single-owner goal.
pub proof fn every_call_keeps_invariant(s: FundKeepState, c: Call)
    requires
        s.wf(),
        callable(s, c),
    ensures
        FundKeepState::empty().wf(),
        step(s, c).wf(),
{
    match c {
        Call::CreateGoal { owner, token, target_amount, deadline, now, is_group } => {
            create_keeps_invariant(s, owner, token, target_amount, deadline, now, is_group);
        },
        Call::Deposit { caller, goal_id, amount } => {
            deposit_keeps_invariant(s, caller, goal_id, amount);
        },
        Call::CheckDeadline { goal_id, now } => {
            check_deadline_keeps_invariant(s, goal_id, now);
        },
        Call::Withdraw { caller, goal_id } => {
            withdraw_keeps_invariant(s, caller, goal_id);
        },
    }
}

/// A refused call changes nothing.
pub proof fn refused_call_changes_nothing(s: FundKeepState, c: Call)
    requires
        refused(s, c),
    ensures
        step(s, c) == s,
{
}

/// No goal ever disappears, and no call changes the terms a goal was created
/// with: owner, token, target, deadline and whether it is a group goal. Only
/// a successful creation adds a goal, exactly one; every other call keeps the
/// number of goals (the goal counter) as it is.
pub proof fn goals_keep_their_terms(s: FundKeepState, c: Call, i: int)
    requires
        s.wf(),
        0 <= i < s.goals.len(),
    ensures
        step(s, c).goals.len() == s.goals.len() + (if c is CreateGoal && !refused(s, c) {
            1int
        } else {
            0int
        }),
        same_terms(step(s, c).goals[i], s.goals[i]),
{
}

/// A withdrawn goal is unlocked.
pub proof fn withdrawn_goal_is_unlocked(s: FundKeepState, i: int)
    requires
        s.wf(),
        0 <= i < s.goals.len(),
        s.goals[i].withdrawn,
    ensures
        s.goals[i].unlocked,
{
    assert(goal_wf(s.goals[i], s.contributions[i]));
}

/// The event call `c` on `s` announces, if any.
pub open spec fn announcement(s: FundKeepState, c: Call) -> Option<ContractEvent> {
    match c {
        Call::CreateGoal { owner, token, target_amount, deadline, now, is_group } => match s.after_create(
            owner,
            token,
            target_amount,
            deadline,
            now,
            is_group,
        ).1 {
            Ok(id) => Some(ContractEvent::GoalCreated(created_event_of(id, step(s, c).goals[id as int]))),
            Err(_) => None,
        },
        Call::Deposit { caller, goal_id, amount } => match s.after_deposit(caller, goal_id, amount).1 {
            Ok(_) => Some(
                ContractEvent::Deposit(
                    deposit_event_of(goal_id, caller, amount, step(s, c).goals[goal_id as int]),
                ),
            ),
            Err(_) => None,
        },
        Call::CheckDeadline { goal_id, now } => if !refused(s, c) && !s.goals[goal_id as int].unlocked
            && step(s, c).goals[goal_id as int].unlocked {
            Some(ContractEvent::Unlock(unlock_event_of(goal_id)))
        } else {
            None
        },
        Call::Withdraw { caller, goal_id } => match s.after_withdraw(caller, goal_id).1 {
            Ok(t) => Some(ContractEvent::Withdraw(withdraw_event_of(goal_id, caller, t.amount))),
            Err(_) => None,
        },
    }
}

/// Every call adds at most one event to the log and keeps the earlier ones: a
/// successful creation, deposit or withdrawal announces exactly one event
/// with the goal id, the parties, the amount and (for a deposit) the new
/// balance and unlock flag; a deadline check announces an unlock exactly when
/// it unlocks the goal; a refused call announces nothing.
pub proof fn every_call_announces_its_outcome(s: FundKeepState, c: Call)
    requires
        s.wf(),
    ensures
        step(s, c).events == match announcement(s, c) {
            Some(e) => s.events.push(e),
            None => s.events,
        },
        refused(s, c) ==> announcement(s, c) is None,
        (c is CreateGoal || c is Deposit || c is Withdraw) ==> (announcement(s, c) is Some
            <==> !refused(s, c)),
{
}

/// Once unlocked, a goal stays unlocked.
pub proof fn unlock_is_permanent(s: FundKeepState, c: Call, i: int)
    requires
        s.wf(),
        0 <= i < s.goals.len(),
        s.goals[i].unlocked,
    ensures
        step(s, c).goals[i].unlocked,
{
}

/// Once withdrawn, a goal stays withdrawn.
pub proof fn withdrawn_is_permanent(s: FundKeepState, c: Call, i: int)
    requires
        s.wf(),
        0 <= i < s.goals.len(),
        s.goals[i].withdrawn,
    ensures
        step(s, c).goals[i].withdrawn,
{
}

/// A goal unlocks only by a deposit that brings its balance to the target,
/// or by a deadline check at or after its deadline.
pub proof fn unlock_needs_target_or_deadline(s: FundKeepState, c: Call, i: int)
    requires
        s.wf(),
        0 <= i < s.goals.len(),
        !s.goals[i].unlocked,
        step(s, c).goals[i].unlocked,
    ensures
        match c {
            Call::Deposit { goal_id, .. } => goal_id == i && step(s, c).goals[i].current_amount
                >= s.goals[i].target_amount,
            Call::CheckDeadline { goal_id, now } => goal_id == i && now >= s.goals[i].deadline,
            _ => false,
        },
{
}

/// There is no early withdrawal: a withdrawal goes through only from an
/// unlocked goal that has not been withdrawn.
pub proof fn no_withdrawal_while_locked(s: FundKeepState, caller: Address, goal_id: u32)
    requires
        s.after_withdraw(caller, goal_id).1 is Ok,
    ensures
        goal_id < s.goals.len(),
        s.goals[goal_id as int].unlocked,
        !s.goals[goal_id as int].withdrawn,
{
}

/// A withdrawn goal refuses every deposit of a positive amount, every
/// deadline check and every withdrawal, and none of them changes anything.
pub proof fn withdrawn_goal_refuses_calls(
    s: FundKeepState,
    goal_id: u32,
    caller: Address,
    amount: i128,
    now: u64,
)
    requires
        goal_id < s.goals.len(),
        s.goals[goal_id as int].withdrawn,
        amount > 0,
    ensures
        s.after_deposit(caller, goal_id, amount) == (s, Err::<Transfer, Error>(
            Error::AlreadyWithdrawn,
        )),
        s.after_check_deadline(goal_id, now) == (s, Err::<(), Error>(Error::AlreadyWithdrawn)),
        s.after_withdraw(caller, goal_id) == (s, Err::<Transfer, Error>(
            Error::AlreadyWithdrawn,
        )),
{
}

/// A goal gets the id that the counter shows, starts empty and locked, and
/// reads back as created; the goals before it stay as they were.
pub proof fn created_goal_reads_back(
    s: FundKeepState,
    owner: Address,
    token: Address,
    target_amount: i128,
    deadline: u64,
    now: u64,
    is_group: bool,
    who: Seq<char>,
)
    requires
        s.wf(),
        s.after_create(owner, token, target_amount, deadline, now, is_group).1 is Ok,
    ensures
        ({
            let (t, res) = s.after_create(owner, token, target_amount, deadline, now, is_group);
            let id = res->Ok_0;
            &&& id == s.goals.len()
            &&& t.goals.len() == s.goals.len() + 1
            &&& t.stored_goal(id) == Some(
                SavingsGoal {
                    owner,
                    token,
                    target_amount,
                    current_amount: 0,
                    deadline,
                    unlocked: false,
                    withdrawn: false,
                    is_group,
                },
            )
            &&& t.held_by(id, who) == 0
            &&& forall|j: u32| j < s.goals.len() ==> t.stored_goal(j) == s.stored_goal(j)
        }),
{
    let t = s.after_create(owner, token, target_amount, deadline, now, is_group).0;
    let id = s.goals.len() as u32;
    assert(t.contributions[id as int] =~= Seq::<Contribution>::empty());
}

/// Two goals created one after the other get consecutive ids.
pub proof fn consecutive_goals_get_consecutive_ids(
    s: FundKeepState,
    a_owner: Address,
    a_token: Address,
    a_target: i128,
    a_deadline: u64,
    a_now: u64,
    a_group: bool,
    b_owner: Address,
    b_token: Address,
    b_target: i128,
    b_deadline: u64,
    b_now: u64,
    b_group: bool,
)
    requires
        s.wf(),
        s.goals.len() < u32::MAX,
        s.after_create(a_owner, a_token, a_target, a_deadline, a_now, a_group).1 is Ok,
        s.after_create(a_owner, a_token, a_target, a_deadline, a_now, a_group).0.after_create(
            b_owner,
            b_token,
            b_target,
            b_deadline,
            b_now,
            b_group,
        ).1 is Ok,
    ensures
        s.after_create(a_owner, a_token, a_target, a_deadline, a_now, a_group).0.after_create(
            b_owner,
            b_token,
            b_target,
            b_deadline,
            b_now,
            b_group,
        ).1->Ok_0 == s.after_create(a_owner, a_token, a_target, a_deadline, a_now, a_group).1->Ok_0
            + 1,
{
}

/// A second deadline check at the same or a later time does what a single
/// check at that time does.
pub proof fn check_deadline_is_idempotent(s: FundKeepState, goal_id: u32, first: u64, second: u64)
    requires
        first <= second,
    ensures
        s.after_check_deadline(goal_id, first).0.after_check_deadline(goal_id, second)
            == s.after_check_deadline(goal_id, second),
{
    let t = s.after_check_deadline(goal_id, first).0;
    if goal_id < s.goals.len() {
        assert(t.goals.len() == s.goals.len());
        let u = t.after_check_deadline(goal_id, second).0;
        let v = s.after_check_deadline(goal_id, second).0;
        assert(u.goals =~= v.goals);
    }
}

/// A deposit moves exactly its amount: the caller pays `amount` of the goal's
/// token, the goal's balance and what the caller holds in it both grow by
/// `amount`, the goal unlocks in the same call when its balance reaches the
/// target, and nothing else changes.
pub proof fn deposit_moves_exactly_its_amount(
    s: FundKeepState,
    caller: Address,
    goal_id: u32,
    amount: i128,
    other: Seq<char>,
    j: u32,
)
    requires
        s.wf(),
        s.after_deposit(caller, goal_id, amount).1 is Ok,
        other != caller@,
        j != goal_id,
    ensures
        ({
            let (t, res) = s.after_deposit(caller, goal_id, amount);
            let g = s.goals[goal_id as int];
            &&& amount > 0
            &&& res->Ok_0.token == g.token
            &&& res->Ok_0.account == caller
            &&& res->Ok_0.amount == amount
            &&& t.goals[goal_id as int].current_amount == g.current_amount + amount
            &&& t.goals[goal_id as int].unlocked == (g.unlocked || g.current_amount + amount
                >= g.target_amount)
            &&& t.held_by(goal_id, caller@) == s.held_by(goal_id, caller@) + amount
            &&& t.held_by(goal_id, other) == s.held_by(goal_id, other)
            &&& t.stored_goal(j) == s.stored_goal(j)
            &&& t.held_by(j, other) == s.held_by(j, other)
        }),
{
    let entries = s.contributions[goal_id as int];
    assert(goal_wf(s.goals[goal_id as int], entries));
    let held = s.held_by(goal_id, caller@) + amount;
    lemma_with_held(entries, caller, held as i128);
}

/// A single-owner goal's balance is what its owner holds in it, as long as
/// the goal has not been withdrawn.
pub proof fn owner_holds_single_goal_balance(s: FundKeepState, goal_id: u32)
    requires
        s.wf(),
        goal_id < s.goals.len(),
        !s.goals[goal_id as int].is_group,
        !s.goals[goal_id as int].withdrawn,
    ensures
        s.held_by(goal_id, s.goals[goal_id as int].owner@) == s.goals[goal_id as int].current_amount,
{
    let g = s.goals[goal_id as int];
    let entries = s.contributions[goal_id as int];
    assert(goal_wf(g, entries));
    if entries.len() == 0 {
    } else {
        if entries.len() > 1 {
            assert(entries[0].depositor@ == g.owner@);
            assert(entries[1].depositor@ == g.owner@);
            assert(false);
        }
        assert(entries.drop_last() =~= Seq::<Contribution>::empty());
        assert(total(entries.drop_last()) == 0);
        assert(total(entries) == entries[0].amount);
        assert(entry_of(entries[0], g.owner@));
        lemma_entry_index(entries, g.owner@, 0);
    }
}

/// A withdrawal pays what is owed. From a single-owner goal its owner gets
/// the whole balance, which is what the owner deposited, and the goal is
/// withdrawn and empty. From a group goal a member gets what it holds, which
/// is more than 0, and holds nothing after; the goal's balance falls by that
/// much and does not go below 0, and the goal counts as withdrawn once empty.
/// Nobody else's holdings and no other goal change.
pub proof fn withdrawal_pays_what_is_owed(
    s: FundKeepState,
    caller: Address,
    goal_id: u32,
    other: Seq<char>,
    j: u32,
)
    requires
        s.wf(),
        s.after_withdraw(caller, goal_id).1 is Ok,
        other != caller@,
        j != goal_id,
    ensures
        ({
            let (t, res) = s.after_withdraw(caller, goal_id);
            let g = s.goals[goal_id as int];
            let h = t.goals[goal_id as int];
            &&& res->Ok_0.token == g.token
            &&& res->Ok_0.account == caller
            &&& t.held_by(goal_id, other) == s.held_by(goal_id, other)
            &&& t.stored_goal(j) == s.stored_goal(j)
            &&& t.held_by(j, other) == s.held_by(j, other)
            &&& !g.is_group ==> {
                &&& caller@ == g.owner@
                &&& res->Ok_0.amount == g.current_amount
                &&& res->Ok_0.amount == s.held_by(goal_id, caller@)
                &&& h.current_amount == 0
                &&& h.withdrawn
            }
            &&& g.is_group ==> {
                &&& res->Ok_0.amount == s.held_by(goal_id, caller@)
                &&& res->Ok_0.amount > 0
                &&& t.held_by(goal_id, caller@) == 0
                &&& h.current_amount == g.current_amount - res->Ok_0.amount
                &&& h.current_amount >= 0
                &&& h.withdrawn == (h.current_amount == 0)
            }
        }),
{
    withdraw_keeps_invariant(s, caller, goal_id);
    let g = s.goals[goal_id as int];
    let entries = s.contributions[goal_id as int];
    assert(goal_wf(g, entries));
    if !g.is_group {
        owner_holds_single_goal_balance(s, goal_id);
    } else {
        lemma_with_held(entries, caller, 0);
        let t = s.after_withdraw(caller, goal_id).0;
        assert(goal_wf(t.goals[goal_id as int], t.contributions[goal_id as int]));
    }
}

/// The state after the calls `calls`, in order, on `s`.
pub open spec fn run(s: FundKeepState, calls: Seq<Call>) -> FundKeepState
    decreases calls.len(),
{
    if calls.len() == 0 {
        s
    } else {
        step(run(s, calls.drop_last()), calls.last())
    }
}

/// Whether the contract can make each of `calls` in turn, starting from `s`.
pub open spec fn runnable(s: FundKeepState, calls: Seq<Call>) -> bool
    decreases calls.len(),
{
    calls.len() == 0 || (runnable(s, calls.drop_last()) && callable(
        run(s, calls.drop_last()),
        calls.last(),
    ))
}

/// How many of `calls`, made in turn from `s`, create a goal.
pub open spec fn creations(s: FundKeepState, calls: Seq<Call>) -> int
    decreases calls.len(),
{
    if calls.len() == 0 {
        0
    } else {
        creations(s, calls.drop_last()) + if calls.last() is CreateGoal && !refused(
            run(s, calls.drop_last()),
            calls.last(),
        ) {
            1int
        } else {
            0int
        }
    }
}

/// Whether call `c` on `s` is one that unlocks goal `i`: a deposit into it
/// that brings its balance to the target, or a check of its deadline at or
/// after the deadline.
pub open spec fn unlocks(s: FundKeepState, c: Call, i: int) -> bool {
    match c {
        Call::Deposit { goal_id, .. } => goal_id == i && !refused(s, c) && step(s, c).goals[i].current_amount
            >= s.goals[i].target_amount,
        Call::CheckDeadline { goal_id, now } => goal_id == i && !refused(s, c) && now
            >= s.goals[i].deadline,
        _ => false,
    }
}

/// Whether one of `calls`, made in turn from `s`, unlocks goal `i`.
pub open spec fn unlocked_during(s: FundKeepState, calls: Seq<Call>, i: int) -> bool {
    exists|k: int| 0 <= k < calls.len() && #[trigger] unlocks(run(s, calls.take(k)), calls[k], i)
}

/// What call `c` on `s` puts into goal `i`: the amount of a successful deposit into it.
pub open spec fn put_in(s: FundKeepState, c: Call, i: int) -> int {
    match c {
        Call::Deposit { goal_id, amount, .. } => if goal_id == i && !refused(s, c) {
            amount as int
        } else {
            0int
        },
        _ => 0int,
    }
}

/// What call `c` on `s` pays out of goal `i`: the amount of a successful withdrawal from it.
pub open spec fn taken_out(s: FundKeepState, c: Call, i: int) -> int {
    match c {
        Call::Withdraw { caller, goal_id } => if goal_id == i && !refused(s, c) {
            s.after_withdraw(caller, goal_id).1->Ok_0.amount as int
        } else {
            0int
        },
        _ => 0int,
    }
}

/// What the successful deposits among `calls`, made in turn from `s`, put into goal `i`.
pub open spec fn deposited(s: FundKeepState, calls: Seq<Call>, i: int) -> int
    decreases calls.len(),
{
    if calls.len() == 0 {
        0
    } else {
        deposited(s, calls.drop_last(), i) + put_in(run(s, calls.drop_last()), calls.last(), i)
    }
}

/// What the successful withdrawals among `calls`, made in turn from `s`, paid out of goal `i`.
pub open spec fn paid_out(s: FundKeepState, calls: Seq<Call>, i: int) -> int
    decreases calls.len(),
{
    if calls.len() == 0 {
        0
    } else {
        paid_out(s, calls.drop_last(), i) + taken_out(run(s, calls.drop_last()), calls.last(), i)
    }
}

/// Only a successful creation adds a goal, and no call removes one.
proof fn lemma_goal_count(s: FundKeepState, c: Call)
    ensures
        step(s, c).goals.len() == s.goals.len() + (if c is CreateGoal && !refused(s, c) {
            1int
        } else {
            0int
        }),
{
}

/// Over any run of calls the contract can make, the invariant holds
/// throughout, and the number of goals grows by exactly the number of
/// successful creations.
pub proof fn runs_keep_invariant(s: FundKeepState, calls: Seq<Call>)
    requires
        s.wf(),
        runnable(s, calls),
    ensures
        run(s, calls).wf(),
        run(s, calls).goals.len() == s.goals.len() + creations(s, calls),
    decreases calls.len(),
{
    if calls.len() > 0 {
        let pre = calls.drop_last();
        runs_keep_invariant(s, pre);
        every_call_keeps_invariant(run(s, pre), calls.last());
        lemma_goal_count(run(s, pre), calls.last());
    }
}

/// Goal ids count creations: on a freshly deployed contract, after any run of
/// calls, a successful creation (of either kind) returns the number of goals
/// created before it. Ids start at 0, follow each other and never repeat.
pub proof fn creation_ids_count_creations(calls: Seq<Call>, c: Call)
    requires
        runnable(FundKeepState::empty(), calls),
        c is CreateGoal,
        !refused(run(FundKeepState::empty(), calls), c),
    ensures
        match c {
            Call::CreateGoal { owner, token, target_amount, deadline, now, is_group } => run(
                FundKeepState::empty(),
                calls,
            ).after_create(owner, token, target_amount, deadline, now, is_group).1 == Ok::<
                u32,
                Error,
            >(creations(FundKeepState::empty(), calls) as u32),
            _ => true,
        },
{
    every_call_keeps_invariant(FundKeepState::empty(), c);
    runs_keep_invariant(FundKeepState::empty(), calls);
}

/// Every goal that is unlocked after a run from a freshly deployed contract
/// was unlocked by one of its calls: a deposit that reached the target, or a
/// deadline check at or after the deadline.
proof fn lemma_unlocks_recorded(calls: Seq<Call>)
    requires
        runnable(FundKeepState::empty(), calls),
    ensures
        forall|i: int|
            #![trigger run(FundKeepState::empty(), calls).goals[i]]
            0 <= i < run(FundKeepState::empty(), calls).goals.len() && run(
                FundKeepState::empty(),
                calls,
            ).goals[i].unlocked ==> unlocked_during(FundKeepState::empty(), calls, i),
    decreases calls.len(),
{
    let e = FundKeepState::empty();
    if calls.len() > 0 {
        let pre = calls.drop_last();
        let c = calls.last();
        lemma_unlocks_recorded(pre);
        every_call_keeps_invariant(e, c);
        runs_keep_invariant(e, pre);
        let s1 = run(e, pre);
        let s2 = step(s1, c);
        assert(run(e, calls) == s2);
        assert forall|i: int| 0 <= i < s2.goals.len() && s2.goals[i].unlocked implies unlocked_during(
            e,
            calls,
            i,
        ) by {
            if i < s1.goals.len() {
                if s1.goals[i].unlocked {
                    assert(unlocked_during(e, pre, i));
                    let k = choose|k: int|
                        0 <= k < pre.len() && #[trigger] unlocks(run(e, pre.take(k)), pre[k], i);
                    assert(calls.take(k) =~= pre.take(k));
                    assert(calls[k] == pre[k]);
                    assert(unlocks(run(e, calls.take(k)), calls[k], i));
                } else {
                    unlock_needs_target_or_deadline(s1, c, i);
                    let k = pre.len() as int;
                    assert(calls.take(k) =~= pre);
                    assert(unlocks(run(e, calls.take(k)), calls[k], i));
                }
            } else {
                lemma_goal_count(s1, c);
            }
        }
    }
}

/// There is no early withdrawal over any run: on a freshly deployed contract,
/// a withdrawal from a goal goes through only if an earlier call unlocked the
/// goal, by a deposit that reached its target or by a deadline check at or
/// after its deadline. There is no other route.
pub proof fn no_early_withdrawal_over_runs(calls: Seq<Call>, caller: Address, goal_id: u32)
    requires
        runnable(FundKeepState::empty(), calls),
        run(FundKeepState::empty(), calls).after_withdraw(caller, goal_id).1 is Ok,
    ensures
        unlocked_during(FundKeepState::empty(), calls, goal_id as int),
{
    lemma_unlocks_recorded(calls);
    no_withdrawal_while_locked(run(FundKeepState::empty(), calls), caller, goal_id);
}

/// Nothing is deposited into or paid out of a goal before it exists.
proof fn lemma_nothing_moves_before_creation(calls: Seq<Call>, i: int)
    requires
        i >= run(FundKeepState::empty(), calls).goals.len(),
    ensures
        deposited(FundKeepState::empty(), calls, i) == 0,
        paid_out(FundKeepState::empty(), calls, i) == 0,
    decreases calls.len(),
{
    if calls.len() > 0 {
        let pre = calls.drop_last();
        lemma_goal_count(run(FundKeepState::empty(), pre), calls.last());
        lemma_nothing_moves_before_creation(pre, i);
    }
}

/// One call moves a goal's balance by what it puts in less what it pays out.
proof fn lemma_balance_step(s: FundKeepState, c: Call, i: int)
    requires
        s.wf(),
        0 <= i < s.goals.len(),
    ensures
        step(s, c).goals[i].current_amount == s.goals[i].current_amount + put_in(s, c, i)
            - taken_out(s, c, i),
{
    if !refused(s, c) {
        match c {
            Call::Deposit { caller, goal_id, amount } => {
                assert(caller@.push('x').len() != caller@.len());
                if goal_id == i {
                    deposit_moves_exactly_its_amount(
                        s,
                        caller,
                        goal_id,
                        amount,
                        caller@.push('x'),
                        if goal_id == 0 {
                            1u32
                        } else {
                            0u32
                        },
                    );
                }
            },
            Call::Withdraw { caller, goal_id } => {
                assert(caller@.push('x').len() != caller@.len());
                if goal_id == i {
                    withdrawal_pays_what_is_owed(
                        s,
                        caller,
                        goal_id,
                        caller@.push('x'),
                        if goal_id == 0 {
                            1u32
                        } else {
                            0u32
                        },
                    );
                }
            },
            _ => {},
        }
    }
}

/// Conservation over any run from a freshly deployed contract: every goal's
/// balance is what the successful deposits put into it less what the
/// successful withdrawals paid out of it, and it never goes below 0, so no
/// goal ever pays out more than was deposited into it.
pub proof fn balances_are_deposits_less_payouts(calls: Seq<Call>)
    requires
        runnable(FundKeepState::empty(), calls),
    ensures
        forall|i: int|
            0 <= i < run(FundKeepState::empty(), calls).goals.len() ==> {
                &&& #[trigger] run(FundKeepState::empty(), calls).goals[i].current_amount == deposited(
                    FundKeepState::empty(),
                    calls,
                    i,
                ) - paid_out(FundKeepState::empty(), calls, i)
                &&& run(FundKeepState::empty(), calls).goals[i].current_amount >= 0
            },
    decreases calls.len(),
{
    let e = FundKeepState::empty();
    runs_keep_invariant(e, calls);
    if calls.len() > 0 {
        let pre = calls.drop_last();
        let c = calls.last();
        balances_are_deposits_less_payouts(pre);
        runs_keep_invariant(e, pre);
        let s1 = run(e, pre);
        let s2 = step(s1, c);
        assert(run(e, calls) == s2);
        lemma_goal_count(s1, c);
        assert forall|i: int| 0 <= i < s2.goals.len() implies #[trigger] s2.goals[i].current_amount
            == deposited(e, calls, i) - paid_out(e, calls, i) && s2.goals[i].current_amount >= 0 by {
            assert(goal_wf(s2.goals[i], s2.contributions[i]));
            if i >= s1.goals.len() {
                lemma_nothing_moves_before_creation(pre, i);
            } else {
                lemma_balance_step(s1, c, i);
            }
        }
    }
}

/// Creating a goal succeeds exactly when the target is positive and the
/// deadline lies after `now`, however far after; the new goal holds the given
/// terms, is empty and locked. Otherwise a non-positive target is refused
/// with `InvalidAmount` before the deadline is looked at.
pub proof fn creation_succeeds_for_any_valid_terms(
    owner: Address,
    token: Address,
    target_amount: i128,
    deadline: u64,
    now: u64,
    is_group: bool,
)
    ensures
        create_outcome(owner, token, target_amount, deadline, now, is_group) is Ok <==> (
        target_amount > 0 && deadline > now),
        target_amount <= 0 ==> create_outcome(owner, token, target_amount, deadline, now, is_group)
            == Err::<SavingsGoal, Error>(Error::InvalidAmount),
        target_amount > 0 && deadline <= now ==> create_outcome(
            owner,
            token,
            target_amount,
            deadline,
            now,
            is_group,
        ) == Err::<SavingsGoal, Error>(Error::InvalidDeadline),
        target_amount > 0 && deadline > now ==> ({
            let g = create_outcome(owner, token, target_amount, deadline, now, is_group)->Ok_0;
            &&& g.owner == owner
            &&& g.token == token
            &&& g.target_amount == target_amount
            &&& g.deadline == deadline
            &&& g.is_group == is_group
            &&& g.current_amount == 0
            &&& !g.unlocked
            &&& !g.withdrawn
        }),
{
}

/// A deposit succeeds whenever the amount is positive, the goal exists and
/// is not withdrawn, the caller may deposit (the owner, or anyone for a group
/// goal) and neither the balance nor the caller's holding would overflow;
/// whether the goal is already unlocked or past its target does not matter.
/// The balance and the holding then both grow by exactly the amount, the goal
/// is unlocked afterwards exactly when it was before or its new balance
/// reaches the target, and its terms stay as they were.
pub proof fn deposit_succeeds_when_allowed(
    g: SavingsGoal,
    caller: Seq<char>,
    amount: i128,
    held: i128,
)
    requires
        amount > 0,
        !g.withdrawn,
        g.is_group || caller == g.owner@,
        g.current_amount + amount <= i128::MAX,
        held + amount <= i128::MAX,
    ensures
        deposit_outcome(Some(g), caller, amount, held) is Ok,
        ({
            let (h, now_held) = deposit_outcome(Some(g), caller, amount, held)->Ok_0;
            &&& h.current_amount == g.current_amount + amount
            &&& now_held == held + amount
            &&& h.unlocked == (g.unlocked || g.current_amount + amount >= g.target_amount)
            &&& !h.withdrawn
            &&& h.owner == g.owner
            &&& h.token == g.token
            &&& h.target_amount == g.target_amount
            &&& h.deadline == g.deadline
            &&& h.is_group == g.is_group
        }),
{
}

/// A deposit is refused exactly when one of the conditions above fails: a
/// non-positive amount (`InvalidAmount`, checked first), a missing goal
/// (`GoalNotFound`), a withdrawn goal (`AlreadyWithdrawn`), a stranger to a
/// single-owner goal (`Unauthorized`), or an overflow (`ArithmeticOverflow`).
pub proof fn deposit_refusals(
    stored: Option<SavingsGoal>,
    caller: Seq<char>,
    amount: i128,
    held: i128,
)
    ensures
        amount <= 0 ==> deposit_outcome(stored, caller, amount, held) == Err::<
            (SavingsGoal, i128),
            Error,
        >(Error::InvalidAmount),
        amount > 0 && stored is None ==> deposit_outcome(stored, caller, amount, held) == Err::<
            (SavingsGoal, i128),
            Error,
        >(Error::GoalNotFound),
        amount > 0 && stored is Some && stored->0.withdrawn ==> deposit_outcome(
            stored,
            caller,
            amount,
            held,
        ) == Err::<(SavingsGoal, i128), Error>(Error::AlreadyWithdrawn),
        amount > 0 && stored is Some && !stored->0.withdrawn && !stored->0.is_group && caller
            != stored->0.owner@ ==> deposit_outcome(stored, caller, amount, held) == Err::<
            (SavingsGoal, i128),
            Error,
        >(Error::Unauthorized),
        amount > 0 && stored is Some && !stored->0.withdrawn && (stored->0.is_group || caller
            == stored->0.owner@) && (stored->0.current_amount + amount > i128::MAX || held + amount
            > i128::MAX) ==> deposit_outcome(stored, caller, amount, held) == Err::<
            (SavingsGoal, i128),
            Error,
        >(Error::ArithmeticOverflow),
{
}

/// A deadline check of a goal that is neither withdrawn nor unlocked, at or
/// after its deadline, unlocks it, whatever its balance and whatever kind of
/// goal it is, and changes nothing else. Before the deadline, or when the goal
/// is already unlocked, it changes nothing. A withdrawn goal is refused.
pub proof fn deadline_check_unlocks_at_deadline(g: SavingsGoal, now: u64)
    ensures
        !g.withdrawn && !g.unlocked && now >= g.deadline ==> deadline_outcome(Some(g), now) is Ok
            && deadline_outcome(Some(g), now)->Ok_0 is Some && ({
            let h = deadline_outcome(Some(g), now)->Ok_0->0;
            &&& h.unlocked
            &&& h.current_amount == g.current_amount
            &&& !h.withdrawn
            &&& h.owner == g.owner
            &&& h.token == g.token
            &&& h.target_amount == g.target_amount
            &&& h.deadline == g.deadline
            &&& h.is_group == g.is_group
        }),
        !g.withdrawn && (g.unlocked || now < g.deadline) ==> deadline_outcome(Some(g), now)
            == Ok::<Option<SavingsGoal>, Error>(None),
        g.withdrawn ==> deadline_outcome(Some(g), now) == Err::<Option<SavingsGoal>, Error>(
            Error::AlreadyWithdrawn,
        ),
{
}

/// From an unlocked group goal that is not withdrawn, any caller holding a
/// positive amount in it (the goal's owner included) is paid exactly that
/// amount, and the balance falls by it; the goal counts as withdrawn once its
/// balance is 0. A caller holding nothing is refused.
pub proof fn group_member_is_paid_its_share(g: SavingsGoal, caller: Seq<char>, held: i128)
    requires
        g.is_group,
        g.unlocked,
        !g.withdrawn,
        g.current_amount >= held,
    ensures
        held > 0 ==> withdraw_outcome(Some(g), caller, held) is Ok && ({
            let (h, paid) = withdraw_outcome(Some(g), caller, held)->Ok_0;
            &&& paid == held
            &&& h.current_amount == g.current_amount - held
            &&& h.withdrawn == (g.current_amount == held)
            &&& h.unlocked
            &&& h.owner == g.owner
            &&& h.token == g.token
            &&& h.target_amount == g.target_amount
            &&& h.deadline == g.deadline
            &&& h.is_group
        }),
        held <= 0 ==> withdraw_outcome(Some(g), caller, held) == Err::<(SavingsGoal, i128), Error>(
            Error::Unauthorized,
        ),
{
}

/// From an unlocked single-owner goal that is not withdrawn, its owner is paid
/// the whole balance, whatever it holds on record, and the goal is left empty
/// and withdrawn; anyone else is refused.
pub proof fn owner_is_paid_the_whole_balance(g: SavingsGoal, caller: Seq<char>, held: i128)
    requires
        !g.is_group,
        g.unlocked,
        !g.withdrawn,
    ensures
        caller == g.owner@ ==> withdraw_outcome(Some(g), caller, held) is Ok && ({
            let (h, paid) = withdraw_outcome(Some(g), caller, held)->Ok_0;
            &&& paid == g.current_amount
            &&& h.current_amount == 0
            &&& h.withdrawn
            &&& h.owner == g.owner
            &&& h.token == g.token
            &&& h.target_amount == g.target_amount
            &&& h.deadline == g.deadline
            &&& !h.is_group
        }),
        caller != g.owner@ ==> withdraw_outcome(Some(g), caller, held) == Err::<
            (SavingsGoal, i128),
            Error,
        >(Error::Unauthorized),
{
}

/// The events that successful calls announce, field by field in terms of the
/// call and the state before it: a creation names the new id and the terms;
/// a deposit names the caller, the amount, the balance before the deposit
/// plus the amount, and whether the goal is unlocked after it; a withdrawal
/// names the caller and the amount paid to it; an unlocking deadline check
/// names the goal and the deadline.
pub proof fn announced_events_describe_the_call(
    s: FundKeepState,
    caller: Address,
    goal_id: u32,
    amount: i128,
    owner: Address,
    token: Address,
    target_amount: i128,
    deadline: u64,
    now: u64,
    is_group: bool,
)
    requires
        s.wf(),
    ensures
        s.after_deposit(caller, goal_id, amount).1 is Ok ==> s.after_deposit(
            caller,
            goal_id,
            amount,
        ).0.events == s.events.push(
            ContractEvent::Deposit(
                Deposit {
                    goal_id,
                    caller,
                    amount,
                    current_amount: (s.goals[goal_id as int].current_amount + amount) as i128,
                    unlocked: s.goals[goal_id as int].unlocked || s.goals[goal_id as int].current_amount
                        + amount >= s.goals[goal_id as int].target_amount,
                },
            ),
        ),
        s.after_withdraw(caller, goal_id).1 is Ok ==> s.after_withdraw(caller, goal_id).0.events
            == s.events.push(
            ContractEvent::Withdraw(
                Withdraw {
                    goal_id,
                    owner: caller,
                    amount: s.after_withdraw(caller, goal_id).1->Ok_0.amount,
                },
            ),
        ),
        s.after_create(owner, token, target_amount, deadline, now, is_group).1 is Ok ==> s.after_create(
            owner,
            token,
            target_amount,
            deadline,
            now,
            is_group,
        ).0.events == s.events.push(
            ContractEvent::GoalCreated(
                GoalCreated {
                    goal_id: s.goals.len() as u32,
                    owner,
                    token,
                    target_amount,
                    deadline,
                    metadata_uri: None,
                },
            ),
        ),
        goal_id < s.goals.len() && !s.goals[goal_id as int].withdrawn
            && !s.goals[goal_id as int].unlocked && now >= s.goals[goal_id as int].deadline
            ==> s.after_check_deadline(goal_id, now).0.events == s.events.push(
            ContractEvent::Unlock(Unlock { goal_id, via: UnlockVia::Deadline }),
        ),
{
}

} // verus!
