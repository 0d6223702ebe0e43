use vstd::prelude::*;

use std::collections::HashMap;

use crate::errors::Error;
use crate::pet::{
    decayed_pet, elapsed_days, fed_pet, fed_staking, initial_pet, initial_staking, pet_wf,
    staking_wf, withdrawn_pet, withdrawn_staking, Pet, PetType, PetV, StakingInfo, StakingV,
};
use crate::stats::{clamp_add, MAX_TOTAL_STAKE};

verus! {

broadcast use vstd::std_specs::hash::group_hash_axioms;

/// Mathematical view of the pet ledger: both record maps and the global
/// mint counter.
#[verifier::ext_equal]
pub ghost struct PetLedgerV {
    pub pets: Map<u64, PetV>,
    pub staking: Map<u64, StakingV>,
    pub pet_count: int,
}

/// View of a stored pet map.
pub open spec fn pets_view(m: Map<u64, Pet>) -> Map<u64, PetV> {
    Map::new(|o: u64| m.contains_key(o), |o: u64| m[o]@)
}

/// View of a stored staking map.
pub open spec fn staking_view(m: Map<u64, StakingInfo>) -> Map<u64, StakingV> {
    Map::new(|o: u64| m.contains_key(o), |o: u64| m[o]@)
}

/// Ledger-wide invariant: every owner with a pet has a staking record and
/// no other owner does; every pet is well formed and keyed by its owner;
/// and the staking balance always equals the pet's staked total.
pub open spec fn ledger_wf(m: PetLedgerV) -> bool {
    &&& m.pets.dom() == m.staking.dom()
    &&& 0 <= m.pet_count <= u32::MAX
    &&& forall|o: u64| #[trigger]
        m.pets.dom().contains(o) ==> pet_wf(m.pets[o]) && m.pets[o].owner == o
            && m.staking[o].amount == m.pets[o].total_staked
    &&& forall|o: u64| #[trigger] m.staking.dom().contains(o) ==> staking_wf(m.staking[o])
}

/// What a mint does to the ledger: refused with `AlreadyExists` when the
/// owner already holds a pet, otherwise both records are created, the
/// counter is incremented and the new pet is returned.
pub open spec fn mint_spec(
    m: PetLedgerV,
    owner: u64,
    name: Seq<char>,
    pet_type: PetType,
    now: int,
) -> (PetLedgerV, Result<PetV, Error>) {
    if m.pets.dom().contains(owner) {
        (m, Err(Error::AlreadyExists))
    } else {
        (
            PetLedgerV {
                pets: m.pets.insert(owner, initial_pet(owner, name, pet_type, now)),
                staking: m.staking.insert(owner, initial_staking(now)),
                pet_count: m.pet_count + 1,
            },
            Ok(initial_pet(owner, name, pet_type, now)),
        )
    }
}

proof fn lemma_pets_view_insert(m: Map<u64, Pet>, owner: u64, pet: Pet)
    ensures
        pets_view(m.insert(owner, pet)) =~= pets_view(m).insert(owner, pet@),
{
}

proof fn lemma_staking_view_insert(m: Map<u64, StakingInfo>, owner: u64, s: StakingInfo)
    ensures
        staking_view(m.insert(owner, s)) =~= staking_view(m).insert(owner, s@),
{
}

proof fn lemma_pets_view_dom(m: Map<u64, Pet>)
    ensures
        pets_view(m).dom() =~= m.dom(),
{
}

proof fn lemma_staking_view_dom(m: Map<u64, StakingInfo>)
    ensures
        staking_view(m).dom() =~= m.dom(),
{
}

/// The pet ledger: pets and staking records keyed by owner identity, plus
/// the count of pets minted so far. Records are never deleted.
pub struct StellarPetsContract {
    pets: HashMap<u64, Pet>,
    staking: HashMap<u64, StakingInfo>,
    pet_count: u32,
}

impl View for StellarPetsContract {
    type V = PetLedgerV;

    closed spec fn view(&self) -> PetLedgerV {
        PetLedgerV {
            pets: pets_view(self.pets@),
            staking: staking_view(self.staking@),
            pet_count: self.pet_count as int,
        }
    }
}

impl StellarPetsContract {
    /// The ledger invariant, as seen through the view.
    pub open spec fn wf(&self) -> bool {
        ledger_wf(self@)
    }

    /// An empty ledger: no records, counter at zero.
    pub fn new() -> (c: Self)
        ensures
            c.wf(),
            c@.pets == Map::<u64, PetV>::empty(),
            c@.staking == Map::<u64, StakingV>::empty(),
            c@.pet_count == 0,
    {
        let c = StellarPetsContract {
            pets: HashMap::new(),
            staking: HashMap::new(),
            pet_count: 0,
        };
        proof {
            assert(pets_view(c.pets@) =~= Map::<u64, PetV>::empty());
            assert(staking_view(c.staking@) =~= Map::<u64, StakingV>::empty());
            assert(c@.pets.dom() =~= c@.staking.dom());
        }
        c
    }

    /// Bounded stat update: `current + change`, clamped into `[0, max]`.
    pub fn calculate_new_stat(current: u32, change: i32, max: u32) -> (new_stat: u32)
        requires
            current as int <= i32::MAX as int,
            max as int <= i32::MAX as int,
            current as int + change as int <= i32::MAX as int,
        ensures
            new_stat as int == clamp_add(current as int, change as int, max as int),
    {
        let new_value = current as i32 + change;
        if new_value < 0 {
            0
        } else if new_value > max as i32 {
            max
        } else {
            new_value as u32
        }
    }

    /// Mint a pet for `owner` at time `now`, together with its zero-balance
    /// staking record. Fails with `AlreadyExists`, changing nothing, when
    /// the owner already holds a pet. Authentication of the caller as
    /// `owner` is the host's task and happens before this is called.
    pub fn mint_pet(&mut self, owner: u64, name: String, pet_type: PetType, now: u64) -> (result:
        Result<Pet, Error>)
        requires
            old(self).wf(),
            old(self)@.pet_count < u32::MAX,
        ensures
            final(self).wf(),
            final(self)@ == mint_spec(old(self)@, owner, name@, pet_type, now as int).0,
            match result {
                Ok(pet) => mint_spec(old(self)@, owner, name@, pet_type, now as int).1 == Ok::<
                    PetV,
                    Error,
                >(pet@) && !old(self)@.pets.dom().contains(owner),
                Err(e) => mint_spec(old(self)@, owner, name@, pet_type, now as int).1 == Err::<
                    PetV,
                    Error,
                >(e) && old(self)@.pets.dom().contains(owner),
            },
    {
        proof {
            lemma_pets_view_dom(self.pets@);
            lemma_staking_view_dom(self.staking@);
        }
        if self.pets.contains_key(&owner) {
            return Err(Error::AlreadyExists);
        }
        let (pet, staking) = Pet::mint(owner, name, pet_type, now);
        let snapshot = pet.clone();
        let ghost old_pets = self.pets@;
        let ghost old_staking = self.staking@;
        let ghost gpet = pet;
        self.pets.insert(owner, pet);
        self.staking.insert(owner, staking);
        self.pet_count = self.pet_count + 1;
        proof {
            lemma_pets_view_insert(old_pets, owner, gpet);
            lemma_staking_view_insert(old_staking, owner, staking);
            assert(self@.pets.dom() =~= self@.staking.dom());
        }
        Ok(snapshot)
    }

    /// Feed the pet of `owner` by staking `amount` at time `now`: stats go
    /// up (clamped), the streak is maintained or restarted, the stake and
    /// the staking record grow in lockstep and the level is re-derived.
    /// Fails with `NotFound` when the owner has no pet and with
    /// `InvalidAmount` when the amount is not positive, changing nothing in
    /// either case.
    pub fn feed_pet(&mut self, owner: u64, amount: i128, now: u64) -> (result: Result<Pet, Error>)
        requires
            old(self).wf(),
            old(self)@.pets.dom().contains(owner) && amount > 0 ==> {
                &&& old(self)@.pets[owner].last_fed_timestamp <= now as int
                &&& old(self)@.pets[owner].total_staked + amount <= MAX_TOTAL_STAKE
                &&& old(self)@.pets[owner].feeding_streak < u32::MAX
                &&& old(self)@.staking[owner].total_deposits < u32::MAX
            },
        ensures
            final(self).wf(),
            final(self)@.pet_count == old(self)@.pet_count,
            match result {
                Ok(pet) => {
                    &&& old(self)@.pets.dom().contains(owner)
                    &&& amount > 0
                    &&& pet@ == fed_pet(old(self)@.pets[owner], amount as int, now as int)
                    &&& final(self)@.pets == old(self)@.pets.insert(owner, pet@)
                    &&& final(self)@.staking == old(self)@.staking.insert(
                        owner,
                        fed_staking(old(self)@.staking[owner], amount as int, now as int),
                    )
                },
                Err(e) => {
                    &&& final(self)@ == old(self)@
                    &&& (e == Error::NotFound <==> !old(self)@.pets.dom().contains(owner))
                    &&& (e == Error::InvalidAmount <==> old(self)@.pets.dom().contains(owner)
                        && amount <= 0)
                    &&& (e == Error::NotFound || e == Error::InvalidAmount)
                },
            },
    {
        proof {
            lemma_pets_view_dom(self.pets@);
            lemma_staking_view_dom(self.staking@);
        }
        let pet = match self.pets.get(&owner) {
            Some(p) => p.clone(),
            None => {
                return Err(Error::NotFound);
            },
        };
        let staking_old = match self.staking.get(&owner) {
            Some(s) => *s,
            None => {
                proof {
                    assert(self.staking@.contains_key(owner));
                }
                StakingInfo { amount: 0, last_deposit: now, total_deposits: 0 }
            },
        };
        let (new_pet, new_staking) = match pet.apply_feed(&staking_old, amount, now) {
            Ok(r) => r,
            Err(e) => {
                return Err(e);
            },
        };
        let snapshot = new_pet.clone();
        let ghost old_pets = self.pets@;
        let ghost old_staking = self.staking@;
        let ghost gpet = new_pet;
        self.pets.insert(owner, new_pet);
        self.staking.insert(owner, new_staking);
        proof {
            lemma_pets_view_insert(old_pets, owner, gpet);
            lemma_staking_view_insert(old_staking, owner, new_staking);
            assert(self@.pets.dom() =~= self@.staking.dom());
        }
        Ok(snapshot)
    }

    /// Withdraw `amount` from the stake of `owner`'s pet: health and
    /// happiness take their penalties (floored at 0), the streak resets,
    /// and stake and staking record shrink in lockstep. Fails with
    /// `NotFound` when the owner has no pet and with `InsufficientFunds`
    /// unless `0 < amount <= staked balance`, changing nothing in either
    /// case.
    pub fn withdraw(&mut self, owner: u64, amount: i128) -> (result: Result<Pet, Error>)
        requires
            old(self).wf(),
        ensures
            final(self).wf(),
            final(self)@.pet_count == old(self)@.pet_count,
            match result {
                Ok(pet) => {
                    &&& old(self)@.pets.dom().contains(owner)
                    &&& 0 < amount <= old(self)@.staking[owner].amount
                    &&& pet@ == withdrawn_pet(old(self)@.pets[owner], amount as int)
                    &&& final(self)@.pets == old(self)@.pets.insert(owner, pet@)
                    &&& final(self)@.staking == old(self)@.staking.insert(
                        owner,
                        withdrawn_staking(old(self)@.staking[owner], amount as int),
                    )
                },
                Err(e) => {
                    &&& final(self)@ == old(self)@
                    &&& (e == Error::NotFound <==> !old(self)@.pets.dom().contains(owner))
                    &&& (e == Error::InsufficientFunds <==> old(self)@.pets.dom().contains(owner)
                        && !(0 < amount <= old(self)@.staking[owner].amount))
                    &&& (e == Error::NotFound || e == Error::InsufficientFunds)
                },
            },
    {
        proof {
            lemma_pets_view_dom(self.pets@);
            lemma_staking_view_dom(self.staking@);
        }
        let pet = match self.pets.get(&owner) {
            Some(p) => p.clone(),
            None => {
                return Err(Error::NotFound);
            },
        };
        let staking_old = match self.staking.get(&owner) {
            Some(s) => *s,
            None => {
                proof {
                    assert(self.staking@.contains_key(owner));
                }
                return Err(Error::NotFound);
            },
        };
        let (new_pet, new_staking) = match pet.apply_withdraw(&staking_old, amount) {
            Ok(r) => r,
            Err(e) => {
                return Err(e);
            },
        };
        let snapshot = new_pet.clone();
        let ghost old_pets = self.pets@;
        let ghost old_staking = self.staking@;
        let ghost gpet = new_pet;
        self.pets.insert(owner, new_pet);
        self.staking.insert(owner, new_staking);
        proof {
            lemma_pets_view_insert(old_pets, owner, gpet);
            lemma_staking_view_insert(old_staking, owner, new_staking);
            assert(self@.pets.dom() =~= self@.staking.dom());
        }
        Ok(snapshot)
    }

    /// Apply time decay to the pet of `owner` at time `now`: health loses 5
    /// and happiness 3 per whole day elapsed since the last feeding,
    /// floored at 0. With no whole day elapsed this is a no-op and nothing
    /// is written. The feeding timestamp is deliberately not advanced, so a
    /// later pass over the same unfed window applies the same loss again.
    /// Callable by anyone; fails only with `NotFound`.
    pub fn update_pet_health(&mut self, owner: u64, now: u64) -> (result: Result<Pet, Error>)
        requires
            old(self).wf(),
            old(self)@.pets.dom().contains(owner) ==> old(self)@.pets[owner].last_fed_timestamp
                <= now as int,
        ensures
            final(self).wf(),
            final(self)@.staking == old(self)@.staking,
            final(self)@.pet_count == old(self)@.pet_count,
            match result {
                Ok(pet) => {
                    &&& old(self)@.pets.dom().contains(owner)
                    &&& pet@ == decayed_pet(old(self)@.pets[owner], now as int)
                    &&& final(self)@.pets == old(self)@.pets.insert(owner, pet@)
                    &&& (elapsed_days(old(self)@.pets[owner].last_fed_timestamp, now as int) == 0
                        ==> final(self)@ == old(self)@ && pet@ == old(self)@.pets[owner])
                },
                Err(e) => {
                    &&& e == Error::NotFound
                    &&& !old(self)@.pets.dom().contains(owner)
                    &&& final(self)@ == old(self)@
                },
            },
    {
        proof {
            lemma_pets_view_dom(self.pets@);
            lemma_staking_view_dom(self.staking@);
        }
        let pet = match self.pets.get(&owner) {
            Some(p) => p.clone(),
            None => {
                return Err(Error::NotFound);
            },
        };
        let (new_pet, changed) = pet.apply_decay(now);
        if changed {
            let snapshot = new_pet.clone();
            let ghost old_pets = self.pets@;
            let ghost gpet = new_pet;
            self.pets.insert(owner, new_pet);
            proof {
                lemma_pets_view_insert(old_pets, owner, gpet);
                assert(self@.pets.dom() =~= self@.staking.dom());
            }
            Ok(snapshot)
        } else {
            proof {
                assert(self@.pets =~= old(self)@.pets.insert(owner, new_pet@));
            }
            Ok(new_pet)
        }
    }

    /// The pet of `owner`, if any.
    pub fn get_pet(&self, owner: u64) -> (result: Option<Pet>)
        ensures
            match result {
                Some(pet) => self@.pets.dom().contains(owner) && pet@ == self@.pets[owner],
                None => !self@.pets.dom().contains(owner),
            },
    {
        proof {
            lemma_pets_view_dom(self.pets@);
        }
        match self.pets.get(&owner) {
            Some(p) => Some(p.clone()),
            None => None,
        }
    }

    /// The staking record of `owner`, if any.
    pub fn get_staking_info(&self, owner: u64) -> (result: Option<StakingInfo>)
        ensures
            match result {
                Some(s) => self@.staking.dom().contains(owner) && s@ == self@.staking[owner],
                None => !self@.staking.dom().contains(owner),
            },
    {
        proof {
            lemma_staking_view_dom(self.staking@);
        }
        match self.staking.get(&owner) {
            Some(s) => Some(*s),
            None => None,
        }
    }

    /// How many pets have been minted over the ledger's lifetime.
    pub fn get_pet_count(&self) -> (count: u32)
        ensures
            count as int == self@.pet_count,
    {
        self.pet_count
    }
}

/// Minting is exclusive: a first mint for an owner without a pet succeeds
/// with exactly the specified initial record, and a second mint for the
/// same owner is refused with `AlreadyExists` and leaves the ledger
/// unchanged.
pub proof fn lemma_mint_is_exclusive(
    m: PetLedgerV,
    owner: u64,
    n1: Seq<char>,
    n2: Seq<char>,
    k1: PetType,
    k2: PetType,
    t1: int,
    t2: int,
)
    requires
        !m.pets.dom().contains(owner),
    ensures
        mint_spec(m, owner, n1, k1, t1).1 == Ok::<PetV, Error>(initial_pet(owner, n1, k1, t1)),
        mint_spec(mint_spec(m, owner, n1, k1, t1).0, owner, n2, k2, t2).1 == Err::<PetV, Error>(
            Error::AlreadyExists,
        ),
        mint_spec(mint_spec(m, owner, n1, k1, t1).0, owner, n2, k2, t2).0 == mint_spec(
            m,
            owner,
            n1,
            k1,
            t1,
        ).0,
{
    assert(mint_spec(m, owner, n1, k1, t1).0.pets.dom().contains(owner));
}

} // verus!
