//! The savings-goal contract over its whole instance storage: every goal by
//! id, the goal counter, and what each depositor holds in each goal.
use vstd::prelude::*;

use crate::errors::Error;
use crate::events::ContractEvent;
use crate::rules::{
    apply_check_deadline, apply_deposit, apply_withdraw, create_outcome, created_event_of,
    deadline_outcome, deadline_unlock_event, deposit_event, deposit_event_of, deposit_outcome,
    goal_created_event,
    new_goal, unlock_event_of, withdraw_event, withdraw_event_of, withdraw_outcome,
};
use crate::types::{Address, Contribution, SavingsGoal, Transfer};

verus! {

/// The contract's storage as a value: `goals[i]` is the goal with id `i` (so
/// the goal counter is `goals.len()`), and `contributions[i]` lists what each
/// depositor holds in goal `i`; with the events the contract has announced,
/// oldest first.
pub struct FundKeepState {
    pub goals: Seq<SavingsGoal>,
    pub contributions: Seq<Seq<Contribution>>,
    pub events: Seq<ContractEvent>,
}

/// Whether `c` is the entry of depositor `who`.
pub open spec fn entry_of(c: Contribution, who: Seq<char>) -> bool {
    c.depositor@ == who
}

/// Whether `entries` has an entry for `who`.
pub open spec fn has_entry(entries: Seq<Contribution>, who: Seq<char>) -> bool {
    exists|i: int| 0 <= i < entries.len() && #[trigger] entry_of(entries[i], who)
}

/// The position of the entry of `who` in `entries` (meaningful when there is one).
pub open spec fn entry_index(entries: Seq<Contribution>, who: Seq<char>) -> int {
    choose|i: int| 0 <= i < entries.len() && #[trigger] entry_of(entries[i], who)
}

/// What `who` holds according to `entries`: 0 when it has no entry.
pub open spec fn held_in(entries: Seq<Contribution>, who: Seq<char>) -> i128 {
    if has_entry(entries, who) {
        entries[entry_index(entries, who)].amount
    } else {
        0
    }
}

/// `entries` with what `who` holds set to `amount`.
pub open spec fn with_held(entries: Seq<Contribution>, who: Address, amount: i128) -> Seq<
    Contribution,
> {
    if has_entry(entries, who@) {
        let i = entry_index(entries, who@);
        entries.update(i, Contribution { amount, ..entries[i] })
    } else {
        entries.push(Contribution { depositor: who, amount })
    }
}

/// No depositor has two entries.
pub open spec fn distinct_depositors(entries: Seq<Contribution>) -> bool {
    forall|i: int, j: int|
        0 <= i < entries.len() && 0 <= j < entries.len() && i != j ==> entries[i].depositor@
            != entries[j].depositor@
}

/// The sum of the amounts in `entries`.
pub open spec fn total(entries: Seq<Contribution>) -> int
    decreases entries.len(),
{
    if entries.len() == 0 {
        0
    } else {
        total(entries.drop_last()) + entries.last().amount
    }
}

/// What holds of every goal `g` with entries `entries` that the contract can reach.
pub open spec fn goal_wf(g: SavingsGoal, entries: Seq<Contribution>) -> bool {
    &&& g.target_amount > 0
    &&& g.current_amount >= 0
    &&& (g.current_amount >= g.target_amount ==> g.unlocked)
    &&& (g.withdrawn ==> g.current_amount == 0)
    &&& (g.withdrawn ==> g.unlocked)
    &&& distinct_depositors(entries)
    &&& (forall|k: int| 0 <= k < entries.len() ==> #[trigger] entries[k].amount >= 0)
    &&& (!g.is_group ==> forall|k: int|
        0 <= k < entries.len() ==> #[trigger] entries[k].depositor@ == g.owner@)
    &&& (g.is_group || !g.withdrawn ==> total(entries) == g.current_amount)
}

impl FundKeepState {
    /// The state of a freshly deployed contract.
    pub open spec fn empty() -> FundKeepState {
        FundKeepState { goals: Seq::empty(), contributions: Seq::empty(), events: Seq::empty() }
    }

    /// The invariant of every state the contract can reach.
    pub open spec fn wf(self) -> bool {
        &&& self.goals.len() == self.contributions.len()
        &&& self.goals.len() <= u32::MAX
        &&& forall|i: int|
            0 <= i < self.goals.len() ==> #[trigger] goal_wf(self.goals[i], self.contributions[i])
    }

    /// What storage holds under the goal with id `goal_id`.
    pub open spec fn stored_goal(self, goal_id: u32) -> Option<SavingsGoal> {
        if goal_id < self.goals.len() {
            Some(self.goals[goal_id as int])
        } else {
            None
        }
    }

    /// What `who` holds in goal `goal_id`: 0 when storage has nothing for it.
    pub open spec fn held_by(self, goal_id: u32, who: Seq<char>) -> i128 {
        if goal_id < self.contributions.len() {
            held_in(self.contributions[goal_id as int], who)
        } else {
            0
        }
    }

    /// The state after `create_goal` (`is_group` false) or `create_group_goal`
    /// at ledger time `now`, and what the call returns: the new goal's id.
    pub open spec fn after_create(
        self,
        owner: Address,
        token: Address,
        target_amount: i128,
        deadline: u64,
        now: u64,
        is_group: bool,
    ) -> (FundKeepState, Result<u32, Error>) {
        match create_outcome(owner, token, target_amount, deadline, now, is_group) {
            Ok(g) => (
                FundKeepState {
                    goals: self.goals.push(g),
                    contributions: self.contributions.push(Seq::empty()),
                    events: self.events.push(
                        ContractEvent::GoalCreated(created_event_of(self.goals.len() as u32, g)),
                    ),
                },
                Ok(self.goals.len() as u32),
            ),
            Err(e) => (self, Err(e)),
        }
    }

    /// The state after `caller` deposits `amount` into goal `goal_id`, and
    /// the transfer from the caller to the contract that the deposit makes.
    pub open spec fn after_deposit(self, caller: Address, goal_id: u32, amount: i128) -> (
        FundKeepState,
        Result<Transfer, Error>,
    ) {
        match deposit_outcome(
            self.stored_goal(goal_id),
            caller@,
            amount,
            self.held_by(goal_id, caller@),
        ) {
            Ok((g, held)) => (
                FundKeepState {
                    goals: self.goals.update(goal_id as int, g),
                    contributions: self.contributions.update(
                        goal_id as int,
                        with_held(self.contributions[goal_id as int], caller, held),
                    ),
                    events: self.events.push(
                        ContractEvent::Deposit(deposit_event_of(goal_id, caller, amount, g)),
                    ),
                },
                Ok(Transfer { token: g.token, account: caller, amount }),
            ),
            Err(e) => (self, Err(e)),
        }
    }

    /// The state after the deadline of goal `goal_id` is checked at ledger time `now`.
    pub open spec fn after_check_deadline(self, goal_id: u32, now: u64) -> (
        FundKeepState,
        Result<(), Error>,
    ) {
        match deadline_outcome(self.stored_goal(goal_id), now) {
            Ok(Some(g)) => (
                FundKeepState {
                    goals: self.goals.update(goal_id as int, g),
                    events: self.events.push(ContractEvent::Unlock(unlock_event_of(goal_id))),
                    ..self
                },
                Ok(()),
            ),
            Ok(None) => (self, Ok(())),
            Err(e) => (self, Err(e)),
        }
    }

    /// The state after `caller` withdraws from goal `goal_id`, and the
    /// transfer from the contract to the caller that pays it.
    pub open spec fn after_withdraw(self, caller: Address, goal_id: u32) -> (
        FundKeepState,
        Result<Transfer, Error>,
    ) {
        match withdraw_outcome(self.stored_goal(goal_id), caller@, self.held_by(goal_id, caller@)) {
            Ok((g, paid)) => (
                FundKeepState {
                    goals: self.goals.update(goal_id as int, g),
                    contributions: if g.is_group {
                        self.contributions.update(
                            goal_id as int,
                            with_held(self.contributions[goal_id as int], caller, 0),
                        )
                    } else {
                        self.contributions
                    },
                    events: self.events.push(
                        ContractEvent::Withdraw(withdraw_event_of(goal_id, caller, paid)),
                    ),
                },
                Ok(Transfer { token: g.token, account: caller, amount: paid }),
            ),
            Err(e) => (self, Err(e)),
        }
    }
}

/// The sum of the amounts is unchanged by appending an entry, but for its amount.
proof fn lemma_total_push(entries: Seq<Contribution>, c: Contribution)
    ensures
        total(entries.push(c)) == total(entries) + c.amount,
{
    assert(entries.push(c).drop_last() =~= entries);
}

/// Changing the entry at `i` changes the sum by the change of its amount.
proof fn lemma_total_update(entries: Seq<Contribution>, i: int, c: Contribution)
    requires
        0 <= i < entries.len(),
    ensures
        total(entries.update(i, c)) == total(entries) - entries[i].amount + c.amount,
    decreases entries.len(),
{
    let updated = entries.update(i, c);
    if i == entries.len() - 1 {
        assert(updated.drop_last() =~= entries.drop_last());
    } else {
        lemma_total_update(entries.drop_last(), i, c);
        assert(updated.drop_last() =~= entries.drop_last().update(i, c));
    }
}

/// With distinct depositors, the entry of `who` is the one at any position that matches.
pub(crate) proof fn lemma_entry_index(entries: Seq<Contribution>, who: Seq<char>, i: int)
    requires
        distinct_depositors(entries),
        0 <= i < entries.len(),
        entry_of(entries[i], who),
    ensures
        has_entry(entries, who),
        entry_index(entries, who) == i,
        held_in(entries, who) == entries[i].amount,
{
    let j = entry_index(entries, who);
    assert(entry_of(entries[j], who));
}

/// With no negative amounts, the sum is at least any one amount, and not negative.
proof fn lemma_total_bounds(entries: Seq<Contribution>)
    requires
        forall|k: int| 0 <= k < entries.len() ==> #[trigger] entries[k].amount >= 0,
    ensures
        total(entries) >= 0,
        forall|k: int| 0 <= k < entries.len() ==> total(entries) >= #[trigger] entries[k].amount,
    decreases entries.len(),
{
    if entries.len() > 0 {
        let front = entries.drop_last();
        assert forall|k: int| 0 <= k < front.len() implies #[trigger] front[k].amount >= 0 by {
            assert(front[k] == entries[k]);
        }
        lemma_total_bounds(front);
        assert forall|k: int| 0 <= k < entries.len() implies total(entries)
            >= #[trigger] entries[k].amount by {
            if k < entries.len() - 1 {
                assert(front[k] == entries[k]);
            }
        }
    }
}

/// How setting what `who` holds changes a list of entries: the other entries
/// stay, the sum moves by the change, and no depositor gets a second entry.
pub(crate) proof fn lemma_with_held(entries: Seq<Contribution>, who: Address, amount: i128)
    requires
        distinct_depositors(entries),
    ensures
        distinct_depositors(with_held(entries, who, amount)),
        total(with_held(entries, who, amount)) == total(entries) - held_in(entries, who@) + amount,
        with_held(entries, who, amount).len() >= entries.len(),
        forall|k: int|
            0 <= k < with_held(entries, who, amount).len() ==> (k < entries.len()
                && #[trigger] with_held(entries, who, amount)[k] == entries[k]) || (entry_of(
                with_held(entries, who, amount)[k],
                who@,
            ) && with_held(entries, who, amount)[k].amount == amount),
        held_in(with_held(entries, who, amount), who@) == amount,
        forall|other: Seq<char>|
            other != who@ ==> #[trigger] held_in(with_held(entries, who, amount), other)
                == held_in(entries, other),
{
    let updated = with_held(entries, who, amount);
    if has_entry(entries, who@) {
        let i = entry_index(entries, who@);
        lemma_total_update(entries, i, Contribution { amount, ..entries[i] });
        lemma_entry_index(updated, who@, i);
        assert forall|other: Seq<char>| other != who@ implies #[trigger] held_in(updated, other)
            == held_in(entries, other) by {
            if has_entry(entries, other) {
                let j = entry_index(entries, other);
                assert(j != i);
                lemma_entry_index(updated, other, j);
            } else if has_entry(updated, other) {
                let j = entry_index(updated, other);
                assert(entry_of(entries[j], other));
            }
        }
    } else {
        lemma_total_push(entries, Contribution { depositor: who, amount });
        let n = entries.len() as int;
        assert forall|a: int, b: int|
            0 <= a < updated.len() && 0 <= b < updated.len() && a != b implies updated[a].depositor@
            != updated[b].depositor@ by {
            if a == n {
                assert(!entry_of(entries[b], who@));
            } else if b == n {
                assert(!entry_of(entries[a], who@));
            }
        }
        lemma_entry_index(updated, who@, n);
        assert forall|other: Seq<char>| other != who@ implies #[trigger] held_in(updated, other)
            == held_in(entries, other) by {
            if has_entry(entries, other) {
                let j = entry_index(entries, other);
                lemma_entry_index(updated, other, j);
            } else if has_entry(updated, other) {
                let j = entry_index(updated, other);
                assert(entry_of(entries[j], other));
            }
        }
    }
}

/// Creating a goal keeps the storage invariant.
pub proof fn create_keeps_invariant(
    s: FundKeepState,
    owner: Address,
    token: Address,
    target_amount: i128,
    deadline: u64,
    now: u64,
    is_group: bool,
)
    requires
        s.wf(),
        create_outcome(owner, token, target_amount, deadline, now, is_group) is Ok ==> s.goals.len()
            < u32::MAX,
    ensures
        s.after_create(owner, token, target_amount, deadline, now, is_group).0.wf(),
{
    let t = s.after_create(owner, token, target_amount, deadline, now, is_group).0;
    if create_outcome(owner, token, target_amount, deadline, now, is_group) is Ok {
        assert forall|i: int| 0 <= i < t.goals.len() implies #[trigger] goal_wf(
            t.goals[i],
            t.contributions[i],
        ) by {
            if i < s.goals.len() {
                assert(t.goals[i] == s.goals[i]);
                assert(t.contributions[i] == s.contributions[i]);
                assert(goal_wf(s.goals[i], s.contributions[i]));
            } else {
                assert(t.contributions[i] =~= Seq::<Contribution>::empty());
            }
        }
    }
}

/// A deposit keeps the storage invariant.
pub proof fn deposit_keeps_invariant(s: FundKeepState, caller: Address, goal_id: u32, amount: i128)
    requires
        s.wf(),
    ensures
        s.after_deposit(caller, goal_id, amount).0.wf(),
{
    let t = s.after_deposit(caller, goal_id, amount).0;
    let out = deposit_outcome(
        s.stored_goal(goal_id),
        caller@,
        amount,
        s.held_by(goal_id, caller@),
    );
    if let Ok((g, held)) = out {
        let gi = goal_id as int;
        let old_g = s.goals[gi];
        let entries = s.contributions[gi];
        assert(goal_wf(old_g, entries));
        lemma_with_held(entries, caller, held);
        let new_entries = with_held(entries, caller, held);
        if has_entry(entries, caller@) {
            let k = entry_index(entries, caller@);
            assert(entries[k].amount >= 0);
        }
        assert(s.held_by(goal_id, caller@) >= 0);
        assert forall|k: int| 0 <= k < new_entries.len() implies #[trigger] new_entries[k].amount
            >= 0 by {
            if k < entries.len() && new_entries[k] == entries[k] {
                assert(entries[k].amount >= 0);
            }
        }
        if !g.is_group {
            assert forall|k: int| 0 <= k < new_entries.len() implies #[trigger] new_entries[k].depositor@
                == g.owner@ by {
                if k < entries.len() && new_entries[k] == entries[k] {
                    assert(entries[k].depositor@ == old_g.owner@);
                }
            }
        }
        assert(goal_wf(g, new_entries));
        assert forall|i: int| 0 <= i < t.goals.len() implies #[trigger] goal_wf(
            t.goals[i],
            t.contributions[i],
        ) by {
            if i != gi {
                assert(goal_wf(s.goals[i], s.contributions[i]));
            }
        }
    }
}

/// Checking a deadline keeps the storage invariant.
pub proof fn check_deadline_keeps_invariant(s: FundKeepState, goal_id: u32, now: u64)
    requires
        s.wf(),
    ensures
        s.after_check_deadline(goal_id, now).0.wf(),
{
    let t = s.after_check_deadline(goal_id, now).0;
    assert forall|i: int| 0 <= i < t.goals.len() implies #[trigger] goal_wf(
        t.goals[i],
        t.contributions[i],
    ) by {
        assert(goal_wf(s.goals[i], s.contributions[i]));
    }
}

/// A withdrawal keeps the storage invariant.
pub proof fn withdraw_keeps_invariant(s: FundKeepState, caller: Address, goal_id: u32)
    requires
        s.wf(),
    ensures
        s.after_withdraw(caller, goal_id).0.wf(),
{
    let t = s.after_withdraw(caller, goal_id).0;
    let out = withdraw_outcome(s.stored_goal(goal_id), caller@, s.held_by(goal_id, caller@));
    if let Ok((g, paid)) = out {
        let gi = goal_id as int;
        let old_g = s.goals[gi];
        let entries = s.contributions[gi];
        assert(goal_wf(old_g, entries));
        if g.is_group {
            let held = s.held_by(goal_id, caller@);
            assert(has_entry(entries, caller@));
            let k = entry_index(entries, caller@);
            lemma_total_bounds(entries);
            assert(total(entries) >= entries[k].amount);
            lemma_with_held(entries, caller, 0);
            let new_entries = with_held(entries, caller, 0);
            assert forall|j: int| 0 <= j < new_entries.len() implies #[trigger] new_entries[j].amount
                >= 0 by {
                if j < entries.len() && new_entries[j] == entries[j] {
                    assert(entries[j].amount >= 0);
                }
            }
            assert(goal_wf(g, new_entries));
        } else {
            assert(goal_wf(g, entries));
        }
        assert forall|i: int| 0 <= i < t.goals.len() implies #[trigger] goal_wf(
            t.goals[i],
            t.contributions[i],
        ) by {
            if i != gi {
                assert(goal_wf(s.goals[i], s.contributions[i]));
            }
        }
    }
}

/// The contract's instance storage and event log, field by field.
struct Storage {
    goals: Vec<SavingsGoal>,
    contributions: Vec<Vec<Contribution>>,
    events: Vec<ContractEvent>,
}

impl View for Storage {
    type V = FundKeepState;

    closed spec fn view(&self) -> FundKeepState {
        FundKeepState {
            goals: self.goals@,
            contributions: self.contributions@.map_values(|v: Vec<Contribution>| v@),
            events: self.events@,
        }
    }
}

impl Storage {
    /// The storage of a freshly deployed contract.
    fn empty() -> (s: Storage)
        ensures
            s@ == FundKeepState::empty(),
    {
        let s = Storage { goals: Vec::new(), contributions: Vec::new(), events: Vec::new() };
        assert(s@.goals =~= Seq::<SavingsGoal>::empty());
        assert(s@.contributions =~= Seq::<Seq<Contribution>>::empty());
        assert(s@.events =~= Seq::<ContractEvent>::empty());
        s
    }

    /// The goal with id `goal_id`, if there is one.
    fn load_goal(&self, goal_id: u32) -> (res: Option<SavingsGoal>)
        ensures
            res == self@.stored_goal(goal_id),
    {
        if (goal_id as usize) < self.goals.len() {
            Some(self.goals[goal_id as usize].clone())
        } else {
            None
        }
    }

    /// Stores `goal` as the goal with id `goal_id`.
    fn save_goal(&mut self, goal_id: u32, goal: SavingsGoal)
        requires
            goal_id < old(self)@.goals.len(),
        ensures
            final(self)@ == (FundKeepState {
                goals: old(self)@.goals.update(goal_id as int, goal),
                ..old(self)@
            }),
    {
        self.goals.set(goal_id as usize, goal);
        assert(self@.goals =~= old(self)@.goals.update(goal_id as int, goal));
        assert(self@.contributions =~= old(self)@.contributions);
    }

    /// The position of the entry of `who` in `entries`, if it has one.
    fn find_entry(entries: &Vec<Contribution>, who: &Address) -> (res: Option<usize>)
        ensures
            match res {
                Some(i) => i < entries@.len() && entry_of(entries@[i as int], who@),
                None => !has_entry(entries@, who@),
            },
    {
        let mut i: usize = 0;
        while i < entries.len()
            invariant
                i <= entries@.len(),
                forall|k: int| 0 <= k < i ==> !#[trigger] entry_of(entries@[k], who@),
            decreases entries@.len() - i,
        {
            if entries[i].depositor == *who {
                return Some(i);
            }
            i = i + 1;
        }
        None
    }

    /// What `depositor` holds in goal `goal_id`: 0 when storage has nothing for it.
    fn load_contribution(&self, goal_id: u32, depositor: &Address) -> (amount: i128)
        requires
            self@.wf(),
        ensures
            amount == self@.held_by(goal_id, depositor@),
    {
        if (goal_id as usize) < self.contributions.len() {
            let entries = &self.contributions[goal_id as usize];
            assert(entries@ == self@.contributions[goal_id as int]);
            assert(goal_wf(self@.goals[goal_id as int], self@.contributions[goal_id as int]));
            match Self::find_entry(entries, depositor) {
                Some(i) => {
                    proof {
                        lemma_entry_index(entries@, depositor@, i as int);
                    }
                    entries[i].amount
                },
                None => 0,
            }
        } else {
            0
        }
    }

    /// Stores `amount` as what `depositor` holds in goal `goal_id`.
    fn save_contribution(&mut self, goal_id: u32, depositor: &Address, amount: i128)
        requires
            old(self)@.wf(),
            goal_id < old(self)@.goals.len(),
        ensures
            final(self)@ == (FundKeepState {
                contributions: old(self)@.contributions.update(
                    goal_id as int,
                    with_held(old(self)@.contributions[goal_id as int], *depositor, amount),
                ),
                ..old(self)@
            }),
    {
        let ghost entries = old(self)@.contributions[goal_id as int];
        assert(goal_wf(old(self)@.goals[goal_id as int], entries));
        let gi = goal_id as usize;
        match Self::find_entry(&self.contributions[gi], depositor) {
            Some(i) => {
                proof {
                    lemma_entry_index(entries, depositor@, i as int);
                }
                let old_depositor = self.contributions[gi][i].depositor.clone();
                self.contributions[gi].set(i, Contribution { depositor: old_depositor, amount });
            },
            None => {
                self.contributions[gi].push(Contribution { depositor: depositor.clone(), amount });
            },
        }
        assert(self@.contributions =~= old(self)@.contributions.update(
            goal_id as int,
            with_held(entries, *depositor, amount),
        ));
        assert(self@.goals =~= old(self)@.goals);
    }

    /// Appends `e` to the event log.
    fn announce(&mut self, e: ContractEvent)
        ensures
            final(self)@ == (FundKeepState { events: old(self)@.events.push(e), ..old(self)@ }),
    {
        self.events.push(e);
        assert(self@.contributions =~= old(self)@.contributions);
    }
}

/// The savings-goal contract: its instance storage and event log, and its
/// entry points. Ledger time comes in as `now`; the token movements that
/// deposits and withdrawals make come back as a `Transfer`.
pub struct FundKeepContract {
    storage: Storage,
}

impl View for FundKeepContract {
    type V = FundKeepState;

    closed spec fn view(&self) -> FundKeepState {
        self.storage@
    }
}

impl FundKeepContract {
    #[verifier::type_invariant]
    spec fn storage_is_consistent(self) -> bool {
        self.storage@.wf()
    }

    /// A freshly deployed contract: no goals, the counter at 0, no events.
    pub fn new() -> (c: FundKeepContract)
        ensures
            c@ == FundKeepState::empty(),
            c@.wf(),
    {
        FundKeepContract { storage: Storage::empty() }
    }

    /// The number of goals created so far, which is the id the next goal gets.
    pub fn goal_count(&self) -> (n: u32)
        ensures
            n == self@.goals.len(),
    {
        proof {
            use_type_invariant(self);
        }
        self.storage.goals.len() as u32
    }

    /// The events announced so far, oldest first.
    pub fn events(&self) -> (log: &Vec<ContractEvent>)
        ensures
            log@ == self@.events,
    {
        &self.storage.events
    }

    /// Creates a new single-owner goal owned by `owner`, saving `token`
    /// toward `target_amount` until `deadline`; `now` is the ledger time.
    /// Returns the new goal's id and announces its creation.
    pub fn create_goal(
        &mut self,
        owner: Address,
        token: Address,
        target_amount: i128,
        deadline: u64,
        now: u64,
    ) -> (res: Result<u32, Error>)
        requires
            create_outcome(owner, token, target_amount, deadline, now, false) is Ok ==> old(
                self,
            )@.goals.len() < u32::MAX,
        ensures
            (final(self)@, res) == old(self)@.after_create(
                owner,
                token,
                target_amount,
                deadline,
                now,
                false,
            ),
            final(self)@.wf(),
    {
        self.create_goal_internal(owner, token, target_amount, deadline, now, false)
    }

    /// Creates a new group goal, to which any address can contribute, saving
    /// `token` toward `target_amount` until `deadline`; `now` is the ledger
    /// time. Returns the new goal's id and announces its creation.
    pub fn create_group_goal(
        &mut self,
        owner: Address,
        token: Address,
        target_amount: i128,
        deadline: u64,
        now: u64,
    ) -> (res: Result<u32, Error>)
        requires
            create_outcome(owner, token, target_amount, deadline, now, true) is Ok ==> old(
                self,
            )@.goals.len() < u32::MAX,
        ensures
            (final(self)@, res) == old(self)@.after_create(
                owner,
                token,
                target_amount,
                deadline,
                now,
                true,
            ),
            final(self)@.wf(),
    {
        self.create_goal_internal(owner, token, target_amount, deadline, now, true)
    }

    fn create_goal_internal(
        &mut self,
        owner: Address,
        token: Address,
        target_amount: i128,
        deadline: u64,
        now: u64,
        is_group: bool,
    ) -> (res: Result<u32, Error>)
        requires
            create_outcome(owner, token, target_amount, deadline, now, is_group) is Ok ==> old(
                self,
            )@.goals.len() < u32::MAX,
        ensures
            (final(self)@, res) == old(self)@.after_create(
                owner,
                token,
                target_amount,
                deadline,
                now,
                is_group,
            ),
            final(self)@.wf(),
    {
        proof {
            use_type_invariant(&*self);
            create_keeps_invariant(self@, owner, token, target_amount, deadline, now, is_group);
        }
        let goal = match new_goal(owner, token, target_amount, deadline, now, is_group) {
            Ok(g) => g,
            Err(e) => return Err(e),
        };
        let goal_id = self.storage.goals.len() as u32;
        let event = goal_created_event(goal_id, &goal);
        let mut storage = Storage::empty();
        std::mem::swap(&mut self.storage, &mut storage);
        let ghost before = storage@;
        storage.goals.push(goal);
        storage.contributions.push(Vec::new());
        storage.events.push(ContractEvent::GoalCreated(event));
        assert(storage@.goals =~= before.goals.push(goal));
        assert(storage@.contributions =~= before.contributions.push(Seq::empty()));
        assert(storage@.events =~= before.events.push(ContractEvent::GoalCreated(event)));
        self.storage = storage;
        Ok(goal_id)
    }

    /// Adds `amount` from `caller` to goal `goal_id`: for a single-owner goal
    /// the caller must be its owner; for a group goal anyone may deposit. The
    /// goal unlocks in the same call once its balance reaches the target.
    /// Announces the deposit and returns the transfer from the caller to the
    /// contract that pays for it.
    pub fn deposit(&mut self, caller: Address, goal_id: u32, amount: i128) -> (res: Result<
        Transfer,
        Error,
    >)
        ensures
            (final(self)@, res) == old(self)@.after_deposit(caller, goal_id, amount),
            final(self)@.wf(),
    {
        proof {
            use_type_invariant(&*self);
            deposit_keeps_invariant(self@, caller, goal_id, amount);
        }
        let stored = self.storage.load_goal(goal_id);
        let held = self.storage.load_contribution(goal_id, &caller);
        let (goal, contribution) = match apply_deposit(stored, &caller, amount, held) {
            Ok(plan) => plan,
            Err(e) => return Err(e),
        };
        let token = goal.token.clone();
        let event = deposit_event(goal_id, &caller, amount, &goal);
        let mut storage = Storage::empty();
        std::mem::swap(&mut self.storage, &mut storage);
        storage.save_contribution(goal_id, &caller, contribution);
        storage.save_goal(goal_id, goal);
        storage.announce(ContractEvent::Deposit(event));
        self.storage = storage;
        Ok(Transfer { token, account: caller, amount })
    }

    /// Unlocks goal `goal_id` if its deadline has come by ledger time `now`,
    /// and announces it; does nothing before the deadline or when the goal is
    /// already unlocked.
    pub fn check_deadline(&mut self, goal_id: u32, now: u64) -> (res: Result<(), Error>)
        ensures
            (final(self)@, res) == old(self)@.after_check_deadline(goal_id, now),
            final(self)@.wf(),
    {
        proof {
            use_type_invariant(&*self);
            check_deadline_keeps_invariant(self@, goal_id, now);
        }
        let stored = self.storage.load_goal(goal_id);
        match apply_check_deadline(stored, now) {
            Ok(Some(goal)) => {
                let mut storage = Storage::empty();
                std::mem::swap(&mut self.storage, &mut storage);
                storage.save_goal(goal_id, goal);
                storage.announce(ContractEvent::Unlock(deadline_unlock_event(goal_id)));
                self.storage = storage;
                Ok(())
            },
            Ok(None) => Ok(()),
            Err(e) => Err(e),
        }
    }

    /// Pays `caller` out of the unlocked goal `goal_id`: the owner of a
    /// single-owner goal gets its whole balance; a member of a group goal gets
    /// what it contributed. Announces the payout and returns the transfer from
    /// the contract to the caller.
    pub fn withdraw(&mut self, caller: Address, goal_id: u32) -> (res: Result<Transfer, Error>)
        ensures
            (final(self)@, res) == old(self)@.after_withdraw(caller, goal_id),
            final(self)@.wf(),
    {
        proof {
            use_type_invariant(&*self);
            withdraw_keeps_invariant(self@, caller, goal_id);
        }
        let stored = self.storage.load_goal(goal_id);
        let held = self.storage.load_contribution(goal_id, &caller);
        let (goal, amount) = match apply_withdraw(stored, &caller, held) {
            Ok(plan) => plan,
            Err(e) => return Err(e),
        };
        let token = goal.token.clone();
        let event = withdraw_event(goal_id, &caller, amount);
        let mut storage = Storage::empty();
        std::mem::swap(&mut self.storage, &mut storage);
        if goal.is_group {
            storage.save_contribution(goal_id, &caller, 0);
        }
        storage.save_goal(goal_id, goal);
        storage.announce(ContractEvent::Withdraw(event));
        self.storage = storage;
        Ok(Transfer { token, account: caller, amount })
    }

    /// What `depositor` holds in goal `goal_id` (0 when nothing).
    pub fn get_contribution(&self, goal_id: u32, depositor: Address) -> (amount: i128)
        ensures
            amount == self@.held_by(goal_id, depositor@),
    {
        proof {
            use_type_invariant(self);
        }
        self.storage.load_contribution(goal_id, &depositor)
    }

    /// The full state of goal `goal_id`.
    pub fn get_goal(&self, goal_id: u32) -> (res: Result<SavingsGoal, Error>)
        ensures
            res == match self@.stored_goal(goal_id) {
                Some(g) => Ok(g),
                None => Err(Error::GoalNotFound),
            },
    {
        match self.storage.load_goal(goal_id) {
            Some(g) => Ok(g),
            None => Err(Error::GoalNotFound),
        }
    }
}

} // verus!
