use fundkeep::events::UnlockVia;
use fundkeep::rules::{
    apply_check_deadline, apply_deposit, apply_withdraw, deadline_unlock_event, deposit_event,
    goal_created_event, new_goal, next_goal_id, withdraw_event,
};
use fundkeep::{Address, DataKey, Error, SavingsGoal};

fn addr(text: &str) -> Address {
    Address::new(text.to_string())
}

fn goal(is_group: bool) -> SavingsGoal {
    new_goal(addr("GOWNER"), addr("CTOKEN"), 100, 2_000, 1_000, is_group).unwrap()
}

#[test]
fn new_goal_starts_empty_and_locked() {
    let g = goal(false);
    assert_eq!(g.owner, addr("GOWNER"));
    assert_eq!(g.token, addr("CTOKEN"));
    assert_eq!(g.target_amount, 100);
    assert_eq!(g.current_amount, 0);
    assert_eq!(g.deadline, 2_000);
    assert!(!g.unlocked);
    assert!(!g.withdrawn);
    assert!(!g.is_group);
    assert!(goal(true).is_group);
}

#[test]
fn new_goal_refuses_bad_terms() {
    assert_eq!(new_goal(addr("G"), addr("C"), 0, 2_000, 1_000, false), Err(Error::InvalidAmount));
    assert_eq!(new_goal(addr("G"), addr("C"), 10, 1_000, 1_000, false), Err(Error::InvalidDeadline));
    assert_eq!(new_goal(addr("G"), addr("C"), 10, 999, 1_000, true), Err(Error::InvalidDeadline));
    assert_eq!(new_goal(addr("G"), addr("C"), -3, 999, 1_000, true), Err(Error::InvalidAmount));
    assert!(new_goal(addr("G"), addr("C"), 1, 1_001, 1_000, true).is_ok());
}

#[test]
fn next_goal_id_counts_up() {
    assert_eq!(next_goal_id(0), 1);
    assert_eq!(next_goal_id(41), 42);
    assert_eq!(next_goal_id(u32::MAX - 1), u32::MAX);
}

#[test]
fn apply_deposit_adds_and_unlocks_at_target() {
    let owner = addr("GOWNER");
    let (g, held) = apply_deposit(Some(goal(false)), &owner, 60, 0).unwrap();
    assert_eq!(g.current_amount, 60);
    assert_eq!(held, 60);
    assert!(!g.unlocked);
    let (g, held) = apply_deposit(Some(g), &owner, 40, held).unwrap();
    assert_eq!(g.current_amount, 100);
    assert_eq!(held, 100);
    assert!(g.unlocked);
}

#[test]
fn apply_deposit_refusals() {
    let owner = addr("GOWNER");
    let stranger = addr("GSTRANGER");
    assert_eq!(apply_deposit(None, &owner, 0, 0), Err(Error::InvalidAmount));
    assert_eq!(apply_deposit(None, &owner, 5, 0), Err(Error::GoalNotFound));
    assert_eq!(apply_deposit(Some(goal(false)), &stranger, 5, 0), Err(Error::Unauthorized));
    assert!(apply_deposit(Some(goal(true)), &stranger, 5, 0).is_ok());
    let mut done = goal(false);
    done.withdrawn = true;
    assert_eq!(apply_deposit(Some(done), &owner, 5, 0), Err(Error::AlreadyWithdrawn));
    // Overflow of what the depositor holds is refused too.
    assert_eq!(apply_deposit(Some(goal(true)), &stranger, 5, i128::MAX - 4), Err(Error::ArithmeticOverflow));
    let mut full = goal(true);
    full.current_amount = i128::MAX;
    assert_eq!(apply_deposit(Some(full), &stranger, 1, 0), Err(Error::ArithmeticOverflow));
}

#[test]
fn apply_check_deadline_unlocks_only_from_the_deadline_on() {
    assert_eq!(apply_check_deadline(Some(goal(false)), 1_999), Ok(None));
    let unlocked = apply_check_deadline(Some(goal(false)), 2_000).unwrap().unwrap();
    assert!(unlocked.unlocked);
    assert_eq!(unlocked.current_amount, 0);
    assert_eq!(apply_check_deadline(Some(unlocked), 5_000), Ok(None));
    assert_eq!(apply_check_deadline(None, 5_000), Err(Error::GoalNotFound));
    let mut done = goal(false);
    done.withdrawn = true;
    assert_eq!(apply_check_deadline(Some(done), 5_000), Err(Error::AlreadyWithdrawn));
}

#[test]
fn apply_withdraw_pays_owner_everything() {
    let owner = addr("GOWNER");
    let mut g = goal(false);
    g.current_amount = 130;
    g.unlocked = true;
    let (after, paid) = apply_withdraw(Some(g), &owner, 0).unwrap();
    assert_eq!(paid, 130);
    assert_eq!(after.current_amount, 0);
    assert!(after.withdrawn);
}

#[test]
fn apply_withdraw_pays_member_its_share() {
    let alice = addr("GALICE");
    let mut g = goal(true);
    g.current_amount = 130;
    g.unlocked = true;
    let (after, paid) = apply_withdraw(Some(g), &alice, 30).unwrap();
    assert_eq!(paid, 30);
    assert_eq!(after.current_amount, 100);
    assert!(!after.withdrawn);
    let (last, paid) = apply_withdraw(Some(after), &alice, 100).unwrap();
    assert_eq!(paid, 100);
    assert!(last.withdrawn);
}

#[test]
fn apply_withdraw_refusals() {
    let owner = addr("GOWNER");
    let stranger = addr("GSTRANGER");
    assert_eq!(apply_withdraw(None, &owner, 0), Err(Error::GoalNotFound));
    assert_eq!(apply_withdraw(Some(goal(false)), &owner, 0), Err(Error::NotUnlocked));
    let mut open = goal(false);
    open.unlocked = true;
    assert_eq!(apply_withdraw(Some(open.clone()), &stranger, 0), Err(Error::Unauthorized));
    open.withdrawn = true;
    assert_eq!(apply_withdraw(Some(open), &owner, 0), Err(Error::AlreadyWithdrawn));
    let mut group = goal(true);
    group.unlocked = true;
    assert_eq!(apply_withdraw(Some(group.clone()), &owner, 0), Err(Error::Unauthorized));
    assert_eq!(apply_withdraw(Some(group.clone()), &owner, -1), Err(Error::Unauthorized));
    // A share larger than anything the goal could hold cannot be paid.
    group.current_amount = i128::MIN;
    assert_eq!(apply_withdraw(Some(group), &owner, 1), Err(Error::ArithmeticOverflow));
}

#[test]
fn events_carry_the_call_and_the_goal() {
    let g = goal(false);
    let created = goal_created_event(7, &g);
    assert_eq!(created.goal_id, 7);
    assert_eq!(created.owner, g.owner);
    assert_eq!(created.token, g.token);
    assert_eq!(created.target_amount, 100);
    assert_eq!(created.deadline, 2_000);
    assert_eq!(created.metadata_uri, None);

    let (after, _) = apply_deposit(Some(g), &addr("GOWNER"), 100, 0).unwrap();
    let dep = deposit_event(7, &addr("GOWNER"), 100, &after);
    assert_eq!(dep.goal_id, 7);
    assert_eq!(dep.caller, addr("GOWNER"));
    assert_eq!(dep.amount, 100);
    assert_eq!(dep.current_amount, 100);
    assert!(dep.unlocked);

    let unlock = deadline_unlock_event(3);
    assert_eq!(unlock.goal_id, 3);
    assert_eq!(unlock.via, UnlockVia::Deadline);

    let w = withdraw_event(3, &addr("GALICE"), 55);
    assert_eq!(w.goal_id, 3);
    assert_eq!(w.owner, addr("GALICE"));
    assert_eq!(w.amount, 55);
}

#[test]
fn error_codes_match_the_contract() {
    assert_eq!(Error::GoalNotFound.code(), 1);
    assert_eq!(Error::NotUnlocked.code(), 2);
    assert_eq!(Error::AlreadyWithdrawn.code(), 3);
    assert_eq!(Error::Unauthorized.code(), 4);
    assert_eq!(Error::InvalidAmount.code(), 5);
    assert_eq!(Error::InvalidDeadline.code(), 6);
    assert_eq!(Error::ArithmeticOverflow.code(), 7);
    assert_eq!(Error::InvalidToken.code(), 8);
    assert!(Error::GoalNotFound < Error::InvalidToken);
}

#[test]
fn addresses_compare_by_text() {
    let a = addr("GABC");
    assert_eq!(a.as_str(), "GABC");
    assert_eq!(a.clone(), addr("GABC"));
    assert_ne!(a, addr("GABD"));
    match DataKey::GoalContribution(4, a.clone()).clone() {
        DataKey::GoalContribution(id, who) => {
            assert_eq!(id, 4);
            assert_eq!(who, a);
        },
        _ => panic!("key changed kind"),
    }
}
