use vstd::prelude::*;

use crate::errors::Error;
use crate::pet_ledger::StellarPetsContract;
use crate::stats::{clamp_add, level_for, sub_floor, DAY_SECONDS, MAX_TOTAL_STAKE};

verus! {

/// The kinds of pet that can be minted.
#[derive(Clone, Copy, Debug, Eq, PartialEq, Structural)]
pub enum PetType {
    Dragon,
    Pig,
    Puppy,
}

/// One owner's pet: bounded stats, a derived level, the staked total and the
/// feeding-streak bookkeeping.
#[derive(Debug)]
pub struct Pet {
    /// Identity of the owner the pet belongs to.
    pub owner: u64,
    /// Display name.
    pub name: String,
    /// Kind of pet.
    pub pet_type: PetType,
    /// Health, kept in `[0, 100]`.
    pub health: u32,
    /// Happiness, kept in `[0, 100]`.
    pub happiness: u32,
    /// Level, always `1 + total_staked / 1000`.
    pub level: u32,
    /// Total currently staked for this pet, never negative.
    pub total_staked: i128,
    /// Count of consecutive qualifying feedings.
    pub feeding_streak: u32,
    /// Time of the last feeding, in seconds.
    pub last_fed_timestamp: u64,
    /// Time the pet was minted, in seconds.
    pub created_at: u64,
}

/// Per-owner staking record, kept in lockstep with the owner's pet.
#[derive(Clone, Copy, Debug)]
pub struct StakingInfo {
    /// Currently staked amount; always equals the pet's `total_staked`.
    pub amount: i128,
    /// Time of the last deposit, in seconds.
    pub last_deposit: u64,
    /// Number of deposits made so far.
    pub total_deposits: u32,
}

/// Mathematical view of a [`Pet`].
#[verifier::ext_equal]
pub ghost struct PetV {
    pub owner: u64,
    pub name: Seq<char>,
    pub pet_type: PetType,
    pub health: int,
    pub happiness: int,
    pub level: int,
    pub total_staked: int,
    pub feeding_streak: int,
    pub last_fed_timestamp: int,
    pub created_at: int,
}

/// Mathematical view of a [`StakingInfo`].
#[verifier::ext_equal]
pub ghost struct StakingV {
    pub amount: int,
    pub last_deposit: int,
    pub total_deposits: int,
}

impl View for Pet {
    type V = PetV;

    open spec fn view(&self) -> PetV {
        PetV {
            owner: self.owner,
            name: self.name@,
            pet_type: self.pet_type,
            health: self.health as int,
            happiness: self.happiness as int,
            level: self.level as int,
            total_staked: self.total_staked as int,
            feeding_streak: self.feeding_streak as int,
            last_fed_timestamp: self.last_fed_timestamp as int,
            created_at: self.created_at as int,
        }
    }
}

impl View for StakingInfo {
    type V = StakingV;

    open spec fn view(&self) -> StakingV {
        StakingV {
            amount: self.amount as int,
            last_deposit: self.last_deposit as int,
            total_deposits: self.total_deposits as int,
        }
    }
}

impl Clone for Pet {
    fn clone(&self) -> (r: Self)
        ensures
            r == *self,
    {
        Pet {
            owner: self.owner,
            name: self.name.clone(),
            pet_type: self.pet_type,
            health: self.health,
            happiness: self.happiness,
            level: self.level,
            total_staked: self.total_staked,
            feeding_streak: self.feeding_streak,
            last_fed_timestamp: self.last_fed_timestamp,
            created_at: self.created_at,
        }
    }
}

/// Well-formedness of a pet: stats bounded, stake non-negative and small
/// enough for the level to fit its field, level derived from the stake, and
/// every field within its machine range.
pub open spec fn pet_wf(p: PetV) -> bool {
    &&& 0 <= p.health <= 100
    &&& 0 <= p.happiness <= 100
    &&& 0 <= p.total_staked <= MAX_TOTAL_STAKE
    &&& p.level == level_for(p.total_staked)
    &&& 0 <= p.feeding_streak <= u32::MAX
    &&& 0 <= p.last_fed_timestamp <= u64::MAX
    &&& 0 <= p.created_at <= u64::MAX
}

/// Well-formedness of a staking record.
pub open spec fn staking_wf(s: StakingV) -> bool {
    &&& 0 <= s.amount <= MAX_TOTAL_STAKE
    &&& 0 <= s.last_deposit <= u64::MAX
    &&& 0 <= s.total_deposits <= u32::MAX
}

/// The pet a mint creates: full health and happiness, level 1, nothing
/// staked, no streak, both timestamps set to the mint time.
pub open spec fn initial_pet(owner: u64, name: Seq<char>, pet_type: PetType, now: int) -> PetV {
    PetV {
        owner,
        name,
        pet_type,
        health: 100,
        happiness: 100,
        level: 1,
        total_staked: 0,
        feeding_streak: 0,
        last_fed_timestamp: now,
        created_at: now,
    }
}

/// The staking record a mint creates alongside the pet.
pub open spec fn initial_staking(now: int) -> StakingV {
    StakingV { amount: 0, last_deposit: now, total_deposits: 0 }
}

/// Whole days elapsed between `last_fed` and `now`.
pub open spec fn elapsed_days(last_fed: int, now: int) -> int {
    (now - last_fed) / (DAY_SECONDS as int)
}

/// Effect of one feeding on a pet: health +20 and happiness +25 (capped at
/// 100), the amount added to the stake, the level re-derived, the streak
/// extended when at most one whole day has elapsed since the last feeding
/// and otherwise restarted at 1, and the feeding time recorded.
pub open spec fn fed_pet(p: PetV, amount: int, now: int) -> PetV {
    PetV {
        health: clamp_add(p.health, 20, 100),
        happiness: clamp_add(p.happiness, 25, 100),
        level: level_for(p.total_staked + amount),
        total_staked: p.total_staked + amount,
        feeding_streak: if elapsed_days(p.last_fed_timestamp, now) <= 1 {
            p.feeding_streak + 1
        } else {
            1
        },
        last_fed_timestamp: now,
        ..p
    }
}

/// Effect of one feeding on the staking record: the amount added, the
/// deposit time recorded, the deposit count incremented.
pub open spec fn fed_staking(s: StakingV, amount: int, now: int) -> StakingV {
    StakingV { amount: s.amount + amount, last_deposit: now, total_deposits: s.total_deposits + 1 }
}

/// Effect of one withdrawal on a pet: health -30 and happiness -40 (floored
/// at 0), the streak reset, the amount removed from the stake and the level
/// re-derived.
pub open spec fn withdrawn_pet(p: PetV, amount: int) -> PetV {
    PetV {
        health: clamp_add(p.health, -30, 100),
        happiness: clamp_add(p.happiness, -40, 100),
        level: level_for(p.total_staked - amount),
        total_staked: p.total_staked - amount,
        feeding_streak: 0,
        ..p
    }
}

/// Effect of one withdrawal on the staking record: only the amount changes.
pub open spec fn withdrawn_staking(s: StakingV, amount: int) -> StakingV {
    StakingV { amount: s.amount - amount, ..s }
}

/// Effect of a decay pass at time `now`: health loses 5 and happiness 3 per
/// whole elapsed day since the last feeding, floored at 0. The feeding
/// timestamp is deliberately left alone, so a later pass over the same
/// unfed window applies the same loss again.
pub open spec fn decayed_pet(p: PetV, now: int) -> PetV {
    let days = elapsed_days(p.last_fed_timestamp, now);
    PetV {
        health: sub_floor(p.health, 5 * days),
        happiness: sub_floor(p.happiness, 3 * days),
        ..p
    }
}

impl Pet {
    /// The records a mint creates for `owner` at time `now`: a pet with
    /// full health and happiness, level 1 and nothing staked, and the
    /// paired zero-balance staking record.
    pub fn mint(owner: u64, name: String, pet_type: PetType, now: u64) -> (records: (
        Pet,
        StakingInfo,
    ))
        ensures
            records.0@ == initial_pet(owner, name@, pet_type, now as int),
            records.1@ == initial_staking(now as int),
            pet_wf(records.0@),
            staking_wf(records.1@),
    {
        let pet = Pet {
            owner,
            name,
            pet_type,
            health: 100,
            happiness: 100,
            level: 1,
            total_staked: 0,
            feeding_streak: 0,
            last_fed_timestamp: now,
            created_at: now,
        };
        let staking = StakingInfo { amount: 0, last_deposit: now, total_deposits: 0 };
        proof {
            assert(pet@ =~= initial_pet(owner, pet.name@, pet_type, now as int));
            assert(staking@ =~= initial_staking(now as int));
        }
        (pet, staking)
    }

    /// One feeding applied to this pet and its staking record: stats up
    /// (clamped at 100), streak maintained or restarted, stake and staking
    /// balance grown in lockstep, level re-derived, feeding time recorded.
    /// Fails with `InvalidAmount` exactly when the amount is not positive.
    pub fn apply_feed(&self, staking: &StakingInfo, amount: i128, now: u64) -> (result: Result<
        (Pet, StakingInfo),
        Error,
    >)
        requires
            pet_wf(self@),
            staking_wf(staking@),
            staking@.amount == self@.total_staked,
            amount > 0 ==> {
                &&& self@.last_fed_timestamp <= now as int
                &&& self@.total_staked + amount <= MAX_TOTAL_STAKE
                &&& self@.feeding_streak < u32::MAX
                &&& staking@.total_deposits < u32::MAX
            },
        ensures
            match result {
                Ok(r) => {
                    &&& amount > 0
                    &&& r.0@ == fed_pet(self@, amount as int, now as int)
                    &&& r.1@ == fed_staking(staking@, amount as int, now as int)
                    &&& pet_wf(r.0@)
                    &&& staking_wf(r.1@)
                    &&& r.1@.amount == r.0@.total_staked
                },
                Err(e) => e == Error::InvalidAmount && amount <= 0,
            },
    {
        if amount <= 0 {
            return Err(Error::InvalidAmount);
        }
        let mut pet = self.clone();
        let time_since_last_feed = now - pet.last_fed_timestamp;
        let days_since_last_feed = time_since_last_feed / DAY_SECONDS;
        if days_since_last_feed <= 1 {
            pet.feeding_streak = pet.feeding_streak + 1;
        } else {
            pet.feeding_streak = 1;
        }
        pet.health = StellarPetsContract::calculate_new_stat(pet.health, 20, 100);
        pet.happiness = StellarPetsContract::calculate_new_stat(pet.happiness, 25, 100);
        pet.total_staked = pet.total_staked + amount;
        pet.last_fed_timestamp = now;
        let level_base: u64 = (pet.total_staked as u64) / 1000;
        pet.level = 1 + (level_base as u32);
        let new_staking = StakingInfo {
            amount: staking.amount + amount,
            last_deposit: now,
            total_deposits: staking.total_deposits + 1,
        };
        proof {
            assert(pet@ =~= fed_pet(self@, amount as int, now as int));
            assert(new_staking@ =~= fed_staking(staking@, amount as int, now as int));
        }
        Ok((pet, new_staking))
    }

    /// One withdrawal applied to this pet and its staking record: health
    /// -30 and happiness -40 (floored at 0), streak reset, stake and
    /// staking balance shrunk in lockstep, level re-derived. Fails with
    /// `InsufficientFunds` unless `0 < amount <= staked balance`.
    pub fn apply_withdraw(&self, staking: &StakingInfo, amount: i128) -> (result: Result<
        (Pet, StakingInfo),
        Error,
    >)
        requires
            pet_wf(self@),
            staking_wf(staking@),
            staking@.amount == self@.total_staked,
        ensures
            match result {
                Ok(r) => {
                    &&& 0 < amount <= staking@.amount
                    &&& r.0@ == withdrawn_pet(self@, amount as int)
                    &&& r.1@ == withdrawn_staking(staking@, amount as int)
                    &&& pet_wf(r.0@)
                    &&& staking_wf(r.1@)
                    &&& r.1@.amount == r.0@.total_staked
                },
                Err(e) => e == Error::InsufficientFunds && !(0 < amount <= staking@.amount),
            },
    {
        if amount <= 0 || amount > staking.amount {
            return Err(Error::InsufficientFunds);
        }
        let mut pet = self.clone();
        pet.health = StellarPetsContract::calculate_new_stat(pet.health, -30, 100);
        pet.happiness = StellarPetsContract::calculate_new_stat(pet.happiness, -40, 100);
        pet.feeding_streak = 0;
        pet.total_staked = pet.total_staked - amount;
        let level_base: u64 = (pet.total_staked as u64) / 1000;
        pet.level = 1 + (level_base as u32);
        let new_staking = StakingInfo { amount: staking.amount - amount, ..*staking };
        proof {
            assert(pet@ =~= withdrawn_pet(self@, amount as int));
            assert(new_staking@ =~= withdrawn_staking(staking@, amount as int));
        }
        Ok((pet, new_staking))
    }

    /// One decay pass applied to this pet at time `now`: health loses 5
    /// and happiness 3 per whole day elapsed since the last feeding,
    /// floored at 0. The second component tells whether anything changed
    /// and hence whether the record needs to be written back; with no
    /// whole day elapsed the pet comes back untouched.
    pub fn apply_decay(&self, now: u64) -> (result: (Pet, bool))
        requires
            pet_wf(self@),
            self@.last_fed_timestamp <= now as int,
        ensures
            result.0@ == decayed_pet(self@, now as int),
            pet_wf(result.0@),
            result.1 == (elapsed_days(self@.last_fed_timestamp, now as int) > 0),
            !result.1 ==> result.0@ == self@,
    {
        let mut pet = self.clone();
        let time_since_last_feed = now - pet.last_fed_timestamp;
        let days_passed = time_since_last_feed / DAY_SECONDS;
        if days_passed > 0 {
            let health_decay: u128 = 5 * (days_passed as u128);
            let happiness_decay: u128 = 3 * (days_passed as u128);
            pet.health = if (pet.health as u128) > health_decay {
                pet.health - (health_decay as u32)
            } else {
                0
            };
            pet.happiness = if (pet.happiness as u128) > happiness_decay {
                pet.happiness - (happiness_decay as u32)
            } else {
                0
            };
            proof {
                assert(pet@ =~= decayed_pet(self@, now as int));
            }
            (pet, true)
        } else {
            proof {
                assert(pet@ =~= decayed_pet(self@, now as int));
            }
            (pet, false)
        }
    }
}

/// Streak continuity: a feeding that comes at most one whole day after the
/// pet was last fed extends the streak by one, and a second feeding at most
/// one whole day after the first extends it by one again.
pub proof fn lemma_streak_continuity(p: PetV, a1: int, t1: int, a2: int, t2: int)
    requires
        elapsed_days(p.last_fed_timestamp, t1) <= 1,
        elapsed_days(t1, t2) <= 1,
    ensures
        fed_pet(p, a1, t1).feeding_streak == p.feeding_streak + 1,
        fed_pet(fed_pet(p, a1, t1), a2, t2).feeding_streak == p.feeding_streak + 2,
{
}

/// Streak reset: a feeding that comes two or more whole days after the pet
/// was last fed starts a new streak at exactly 1.
pub proof fn lemma_streak_reset(p: PetV, amount: int, now: int)
    requires
        elapsed_days(p.last_fed_timestamp, now) >= 2,
    ensures
        fed_pet(p, amount, now).feeding_streak == 1,
{
}

/// A decay pass over a window in which no whole day has elapsed changes
/// nothing.
pub proof fn lemma_decay_zero_days(p: PetV, now: int)
    requires
        pet_wf(p),
        elapsed_days(p.last_fed_timestamp, now) == 0,
    ensures
        decayed_pet(p, now) == p,
{
    assert(decayed_pet(p, now) =~= p);
}

} // verus!
