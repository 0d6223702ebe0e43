use stellar_pets::errors::Error;
use stellar_pets::goal::DepositOutcome;
use stellar_pets::savings::SavingsTracker;

#[test]
fn test_create_goal_starts_empty() {
    let mut tracker = SavingsTracker::new();
    tracker.create_goal(1, 1000, 100, "weekly".to_string());
    assert_eq!(tracker.get_balance(1), 0);
    assert!(!tracker.check_progress(1));
}

#[test]
fn test_deposit_classification() {
    let mut tracker = SavingsTracker::new();
    tracker.create_goal(1, 1000, 100, "weekly".to_string());

    assert_eq!(tracker.deposit(1, 50), DepositOutcome::Under);
    assert_eq!(tracker.deposit(1, 99), DepositOutcome::Under);
    assert_eq!(tracker.deposit(1, 100), DepositOutcome::OnTime);
    assert_eq!(tracker.deposit(1, 250), DepositOutcome::OnTime);
}

#[test]
fn test_balance_accumulates() {
    let mut tracker = SavingsTracker::new();
    tracker.create_goal(1, 1000, 100, "weekly".to_string());

    tracker.deposit(1, 50);
    tracker.deposit(1, 100);
    tracker.deposit(1, 250);
    assert_eq!(tracker.get_balance(1), 400);

    tracker.withdraw(1, 150).unwrap();
    assert_eq!(tracker.get_balance(1), 250);

    tracker.deposit(1, 30);
    // the balance is exactly deposits minus withdrawals
    assert_eq!(tracker.get_balance(1), 50 + 100 + 250 - 150 + 30);
}

#[test]
fn test_check_progress_boundary() {
    let mut tracker = SavingsTracker::new();
    tracker.create_goal(1, 1000, 100, "weekly".to_string());

    tracker.deposit(1, 999);
    assert!(!tracker.check_progress(1));
    tracker.deposit(1, 1);
    // meeting the target exactly counts as reached
    assert!(tracker.check_progress(1));
    tracker.deposit(1, 5);
    assert!(tracker.check_progress(1));
    tracker.withdraw(1, 6).unwrap();
    assert!(!tracker.check_progress(1));
}

#[test]
fn test_withdraw_insufficient() {
    let mut tracker = SavingsTracker::new();
    tracker.create_goal(1, 1000, 100, "weekly".to_string());
    tracker.deposit(1, 100);

    assert_eq!(tracker.withdraw(1, 101).unwrap_err(), Error::InsufficientBalance);
    // the refused withdrawal changed nothing
    assert_eq!(tracker.get_balance(1), 100);

    tracker.withdraw(1, 100).unwrap();
    assert_eq!(tracker.get_balance(1), 0);
}

#[test]
fn test_create_goal_overwrites() {
    let mut tracker = SavingsTracker::new();
    tracker.create_goal(1, 1000, 100, "weekly".to_string());
    tracker.deposit(1, 500);

    // re-creation is a destructive overwrite: the balance resets
    tracker.create_goal(1, 2000, 200, "monthly".to_string());
    assert_eq!(tracker.get_balance(1), 0);
    assert_eq!(tracker.deposit(1, 150), DepositOutcome::Under);
    assert_eq!(tracker.deposit(1, 200), DepositOutcome::OnTime);
}

#[test]
fn test_goals_are_per_owner() {
    let mut tracker = SavingsTracker::new();
    tracker.create_goal(1, 1000, 100, "weekly".to_string());
    tracker.create_goal(2, 500, 50, "daily".to_string());

    tracker.deposit(1, 300);
    tracker.deposit(2, 500);
    assert_eq!(tracker.get_balance(1), 300);
    assert_eq!(tracker.get_balance(2), 500);
    assert!(!tracker.check_progress(1));
    assert!(tracker.check_progress(2));
}
