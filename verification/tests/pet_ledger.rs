use stellar_pets::errors::Error;
use stellar_pets::pet::{Pet, PetType, StakingInfo};
use stellar_pets::pet_ledger::StellarPetsContract;

const DAY: u64 = 86400;

#[test]
fn test_mint_pet() {
    let mut contract = StellarPetsContract::new();
    let owner: u64 = 1;
    let name = "TestPet".to_string();

    let pet = contract.mint_pet(owner, name.clone(), PetType::Dragon, 0).unwrap();

    assert_eq!(pet.owner, owner);
    assert_eq!(pet.name, name);
    assert_eq!(pet.health, 100);
    assert_eq!(pet.happiness, 100);
}

#[test]
fn test_feed_pet() {
    let mut contract = StellarPetsContract::new();
    let owner: u64 = 1;
    let name = "TestPet".to_string();

    contract.mint_pet(owner, name, PetType::Dragon, 0).unwrap();

    let pet = contract.feed_pet(owner, 100, 0).unwrap();

    assert_eq!(pet.total_staked, 100);
    assert_eq!(pet.feeding_streak, 1);
}

#[test]
fn test_mint_initial_values() {
    let mut contract = StellarPetsContract::new();
    let pet = contract.mint_pet(5, "Spark".to_string(), PetType::Puppy, 7000).unwrap();

    assert_eq!(pet.health, 100);
    assert_eq!(pet.happiness, 100);
    assert_eq!(pet.level, 1);
    assert_eq!(pet.total_staked, 0);
    assert_eq!(pet.feeding_streak, 0);
    assert_eq!(pet.last_fed_timestamp, 7000);
    assert_eq!(pet.created_at, 7000);

    let staking = contract.get_staking_info(5).unwrap();
    assert_eq!(staking.amount, 0);
    assert_eq!(staking.last_deposit, 7000);
    assert_eq!(staking.total_deposits, 0);
}

#[test]
fn test_mint_twice_fails() {
    let mut contract = StellarPetsContract::new();
    contract.mint_pet(1, "Spark".to_string(), PetType::Dragon, 0).unwrap();

    let second = contract.mint_pet(1, "Again".to_string(), PetType::Pig, 100);
    assert_eq!(second.unwrap_err(), Error::AlreadyExists);

    // the failed mint changed nothing
    assert_eq!(contract.get_pet_count(), 1);
    let pet = contract.get_pet(1).unwrap();
    assert_eq!(pet.name, "Spark".to_string());
    assert!(matches!(pet.pet_type, PetType::Dragon));
}

#[test]
fn test_pet_count() {
    let mut contract = StellarPetsContract::new();
    assert_eq!(contract.get_pet_count(), 0);
    contract.mint_pet(1, "A".to_string(), PetType::Dragon, 0).unwrap();
    contract.mint_pet(2, "B".to_string(), PetType::Pig, 0).unwrap();
    contract.mint_pet(3, "C".to_string(), PetType::Puppy, 0).unwrap();
    assert_eq!(contract.get_pet_count(), 3);
}

#[test]
fn test_feed_updates_stats_and_staking() {
    let mut contract = StellarPetsContract::new();
    contract.mint_pet(1, "Spark".to_string(), PetType::Dragon, 0).unwrap();
    contract.feed_pet(1, 1500, 0).unwrap();
    contract.withdraw(1, 500).unwrap();

    // health 70, happiness 60 before this feed; the deltas apply exactly
    let pet = contract.feed_pet(1, 100, 1000).unwrap();
    assert_eq!(pet.health, 90);
    assert_eq!(pet.happiness, 85);
    assert_eq!(pet.total_staked, 1100);
    assert_eq!(pet.level, 2);
    assert_eq!(pet.last_fed_timestamp, 1000);

    // the staking record moves in lockstep with the pet
    let staking = contract.get_staking_info(1).unwrap();
    assert_eq!(staking.amount, pet.total_staked);
    assert_eq!(staking.last_deposit, 1000);
    assert_eq!(staking.total_deposits, 2);
}

#[test]
fn test_feed_caps_stats_at_100() {
    let mut contract = StellarPetsContract::new();
    contract.mint_pet(1, "Spark".to_string(), PetType::Dragon, 0).unwrap();
    let pet = contract.feed_pet(1, 10, 0).unwrap();
    assert_eq!(pet.health, 100);
    assert_eq!(pet.happiness, 100);
}

#[test]
fn test_feed_errors() {
    let mut contract = StellarPetsContract::new();
    assert_eq!(contract.feed_pet(9, 100, 0).unwrap_err(), Error::NotFound);

    contract.mint_pet(1, "Spark".to_string(), PetType::Dragon, 0).unwrap();
    assert_eq!(contract.feed_pet(1, 0, 0).unwrap_err(), Error::InvalidAmount);
    assert_eq!(contract.feed_pet(1, -5, 0).unwrap_err(), Error::InvalidAmount);

    // a refused feed changes nothing
    let pet = contract.get_pet(1).unwrap();
    assert_eq!(pet.total_staked, 0);
    assert_eq!(pet.feeding_streak, 0);
}

#[test]
fn test_feeding_streak_continuity() {
    let mut contract = StellarPetsContract::new();
    contract.mint_pet(1, "Spark".to_string(), PetType::Dragon, 0).unwrap();

    // feeds within 24 hours of each other extend the streak each time
    let pet = contract.feed_pet(1, 10, 0).unwrap();
    assert_eq!(pet.feeding_streak, 1);
    let pet = contract.feed_pet(1, 10, 3600).unwrap();
    assert_eq!(pet.feeding_streak, 2);
    let pet = contract.feed_pet(1, 10, 3600 + DAY).unwrap();
    assert_eq!(pet.feeding_streak, 3);

    // a gap of three days restarts the streak at exactly 1
    let pet = contract.feed_pet(1, 10, 3600 + 4 * DAY).unwrap();
    assert_eq!(pet.feeding_streak, 1);
}

#[test]
fn test_withdraw() {
    let mut contract = StellarPetsContract::new();
    contract.mint_pet(1, "Spark".to_string(), PetType::Dragon, 0).unwrap();
    contract.feed_pet(1, 1500, 0).unwrap();

    let pet = contract.withdraw(1, 500).unwrap();
    assert_eq!(pet.total_staked, 1000);
    assert_eq!(pet.health, 70);
    assert_eq!(pet.happiness, 60);
    assert_eq!(pet.feeding_streak, 0);
    assert_eq!(pet.level, 2);

    let staking = contract.get_staking_info(1).unwrap();
    assert_eq!(staking.amount, 1000);
}

#[test]
fn test_withdraw_floors_stats_at_zero() {
    let mut contract = StellarPetsContract::new();
    contract.mint_pet(1, "Spark".to_string(), PetType::Dragon, 0).unwrap();
    contract.feed_pet(1, 1000, 0).unwrap();
    contract.withdraw(1, 100).unwrap(); // health 70, happiness 60
    contract.withdraw(1, 100).unwrap(); // health 40, happiness 20
    let pet = contract.withdraw(1, 100).unwrap(); // would go below zero
    assert_eq!(pet.health, 10);
    assert_eq!(pet.happiness, 0);
    let pet = contract.withdraw(1, 100).unwrap();
    assert_eq!(pet.health, 0);
    assert_eq!(pet.happiness, 0);
}

#[test]
fn test_withdraw_insufficient_changes_nothing() {
    let mut contract = StellarPetsContract::new();
    contract.mint_pet(1, "Spark".to_string(), PetType::Dragon, 0).unwrap();
    contract.feed_pet(1, 300, 0).unwrap();
    let before: Pet = contract.get_pet(1).unwrap();
    let staking_before: StakingInfo = contract.get_staking_info(1).unwrap();

    assert_eq!(contract.withdraw(1, 301).unwrap_err(), Error::InsufficientFunds);
    assert_eq!(contract.withdraw(1, 0).unwrap_err(), Error::InsufficientFunds);
    assert_eq!(contract.withdraw(1, -7).unwrap_err(), Error::InsufficientFunds);
    assert_eq!(contract.withdraw(9, 1).unwrap_err(), Error::NotFound);

    let after = contract.get_pet(1).unwrap();
    assert_eq!(after.health, before.health);
    assert_eq!(after.happiness, before.happiness);
    assert_eq!(after.level, before.level);
    assert_eq!(after.total_staked, before.total_staked);
    assert_eq!(after.feeding_streak, before.feeding_streak);
    assert_eq!(after.last_fed_timestamp, before.last_fed_timestamp);
    assert_eq!(after.created_at, before.created_at);
    let staking_after = contract.get_staking_info(1).unwrap();
    assert_eq!(staking_after.amount, staking_before.amount);
    assert_eq!(staking_after.last_deposit, staking_before.last_deposit);
    assert_eq!(staking_after.total_deposits, staking_before.total_deposits);
}

#[test]
fn test_decay_zero_days_is_noop() {
    let mut contract = StellarPetsContract::new();
    contract.mint_pet(1, "Spark".to_string(), PetType::Dragon, 0).unwrap();
    let pet = contract.update_pet_health(1, DAY - 1).unwrap();
    assert_eq!(pet.health, 100);
    assert_eq!(pet.happiness, 100);
    assert_eq!(pet.last_fed_timestamp, 0);
    let stored = contract.get_pet(1).unwrap();
    assert_eq!(stored.health, 100);
    assert_eq!(stored.happiness, 100);
}

#[test]
fn test_decay_three_days() {
    let mut contract = StellarPetsContract::new();
    contract.mint_pet(1, "Spark".to_string(), PetType::Dragon, 0).unwrap();
    let pet = contract.update_pet_health(1, 3 * DAY).unwrap();
    assert_eq!(pet.health, 85);
    assert_eq!(pet.happiness, 91);
    // the feeding timestamp is deliberately not advanced
    assert_eq!(pet.last_fed_timestamp, 0);
}

#[test]
fn test_decay_reapplies_over_same_window() {
    let mut contract = StellarPetsContract::new();
    contract.mint_pet(1, "Spark".to_string(), PetType::Dragon, 0).unwrap();
    contract.update_pet_health(1, 3 * DAY).unwrap();
    // the timestamp did not move, so the same three days decay again
    let pet = contract.update_pet_health(1, 3 * DAY).unwrap();
    assert_eq!(pet.health, 70);
    assert_eq!(pet.happiness, 82);
}

#[test]
fn test_decay_floors_at_zero() {
    let mut contract = StellarPetsContract::new();
    contract.mint_pet(1, "Spark".to_string(), PetType::Dragon, 0).unwrap();
    let pet = contract.update_pet_health(1, 40 * DAY).unwrap();
    assert_eq!(pet.health, 0);
    assert_eq!(pet.happiness, 0);
    assert_eq!(contract.update_pet_health(9, 0).unwrap_err(), Error::NotFound);
}

#[test]
fn test_get_pet_absent() {
    let contract = StellarPetsContract::new();
    assert!(contract.get_pet(1).is_none());
    assert!(contract.get_staking_info(1).is_none());
}

#[test]
fn test_calculate_new_stat() {
    assert_eq!(StellarPetsContract::calculate_new_stat(50, 20, 100), 70);
    assert_eq!(StellarPetsContract::calculate_new_stat(90, 20, 100), 100);
    assert_eq!(StellarPetsContract::calculate_new_stat(100, 25, 100), 100);
    assert_eq!(StellarPetsContract::calculate_new_stat(10, -30, 100), 0);
    assert_eq!(StellarPetsContract::calculate_new_stat(30, -30, 100), 0);
    assert_eq!(StellarPetsContract::calculate_new_stat(60, -40, 100), 20);
}

#[test]
fn test_full_scenario() {
    let mut contract = StellarPetsContract::new();
    contract.mint_pet(1, "Spark".to_string(), PetType::Dragon, 0).unwrap();

    let pet = contract.feed_pet(1, 1500, 0).unwrap();
    assert_eq!(pet.total_staked, 1500);
    assert_eq!(pet.level, 2);
    assert_eq!(pet.health, 100);
    assert_eq!(pet.happiness, 100);
    assert_eq!(pet.feeding_streak, 1);

    let pet = contract.withdraw(1, 500).unwrap();
    assert_eq!(pet.total_staked, 1000);
    assert_eq!(pet.level, 2);
    assert_eq!(pet.health, 70);
    assert_eq!(pet.happiness, 60);
    assert_eq!(pet.feeding_streak, 0);
    assert_eq!(contract.get_staking_info(1).unwrap().amount, 1000);
}

#[test]
fn test_level_thresholds() {
    let mut contract = StellarPetsContract::new();
    contract.mint_pet(1, "Spark".to_string(), PetType::Dragon, 0).unwrap();
    let pet = contract.feed_pet(1, 999, 0).unwrap();
    assert_eq!(pet.level, 1);
    let pet = contract.feed_pet(1, 1, 0).unwrap();
    assert_eq!(pet.level, 2);
    let pet = contract.feed_pet(1, 9000, 0).unwrap();
    assert_eq!(pet.level, 11);
}
