//! A scoring engine for a greed-style dice game.
//!
//! A throw of six-sided dice is scored by repeatedly matching the thrown
//! faces against a fixed catalog of scoring rules: at each step the
//! satisfied rule with the highest reward is applied, its matched dice are
//! removed, and the loop repeats until no rule matches.

use vstd::prelude::*;

pub mod reward_calculator;
pub mod rules;

use crate::reward_calculator::Calculator;

verus! {

/// A coin amount awarded by the scoring rules.
pub type Coins = u32;

/// One of the six faces a die can show.
#[derive(Copy, Clone, PartialEq, Eq, Structural, Debug)]
pub enum Dice {
    One,
    Two,
    Three,
    Four,
    Five,
    Six,
}

/// A multiset of thrown dice: how often each face came up.
#[derive(Copy, Clone, PartialEq, Eq, Structural, Debug)]
pub struct Dices {
    pub ones: usize,
    pub twos: usize,
    pub threes: usize,
    pub fours: usize,
    pub fives: usize,
    pub sixes: usize,
}

/// How often `face` occurs in the sequence `s`.
pub open spec fn count_in(s: Seq<Dice>, face: Dice) -> nat
    decreases s.len(),
{
    if s.len() == 0 {
        0
    } else {
        count_in(s.drop_last(), face) + if s.last() == face {
            1nat
        } else {
            0nat
        }
    }
}

/// No face occurs more often than the sequence is long.
pub proof fn lemma_count_in_le_len(s: Seq<Dice>, face: Dice)
    ensures
        count_in(s, face) <= s.len(),
    decreases s.len(),
{
    if s.len() > 0 {
        lemma_count_in_le_len(s.drop_last(), face);
    }
}

impl Dices {
    /// The stored count for `face`, zero when the face is absent.
    pub open spec fn count(self, face: Dice) -> nat {
        match face {
            Dice::One => self.ones as nat,
            Dice::Two => self.twos as nat,
            Dice::Three => self.threes as nat,
            Dice::Four => self.fours as nat,
            Dice::Five => self.fives as nat,
            Dice::Six => self.sixes as nat,
        }
    }

    /// The total number of dice in the multiset.
    pub open spec fn total(self) -> nat {
        self.ones as nat + self.twos as nat + self.threes as nat + self.fours as nat
            + self.fives as nat + self.sixes as nat
    }

    /// The empty multiset.
    pub open spec fn empty_spec() -> Dices {
        Dices { ones: 0, twos: 0, threes: 0, fours: 0, fives: 0, sixes: 0 }
    }

    /// The multiset with every die of `face` removed.
    pub open spec fn remove_all(self, face: Dice) -> Dices {
        Dices {
            ones: if face == Dice::One { 0 } else { self.ones },
            twos: if face == Dice::Two { 0 } else { self.twos },
            threes: if face == Dice::Three { 0 } else { self.threes },
            fours: if face == Dice::Four { 0 } else { self.fours },
            fives: if face == Dice::Five { 0 } else { self.fives },
            sixes: if face == Dice::Six { 0 } else { self.sixes },
        }
    }

    /// How many of the six faces occur exactly once.
    pub open spec fn single_faces(self) -> int {
        (if self.ones == 1 { 1int } else { 0int }) + (if self.twos == 1 { 1int } else { 0int })
            + (if self.threes == 1 { 1int } else { 0int })
            + (if self.fours == 1 { 1int } else { 0int })
            + (if self.fives == 1 { 1int } else { 0int })
            + (if self.sixes == 1 { 1int } else { 0int })
    }

    /// Builds the multiset of a throw by counting each face of `faces`.
    pub fn from_faces(faces: &Vec<Dice>) -> (dices: Dices)
        ensures
            forall|f: Dice| dices.count(f) == count_in(faces@, f),
    {
        let mut dices = Dices { ones: 0, twos: 0, threes: 0, fours: 0, fives: 0, sixes: 0 };
        let mut i: usize = 0;
        while i < faces.len()
            invariant
                i <= faces.len(),
                forall|f: Dice| dices.count(f) == count_in(faces@.take(i as int), f),
            decreases faces.len() - i,
        {
            let ghost prev = dices;
            let face = faces[i];
            proof {
                lemma_count_in_le_len(faces@.take(i as int), face);
                assert(dices.count(face) == count_in(faces@.take(i as int), face));
            }
            match face {
                Dice::One => dices.ones = dices.ones + 1,
                Dice::Two => dices.twos = dices.twos + 1,
                Dice::Three => dices.threes = dices.threes + 1,
                Dice::Four => dices.fours = dices.fours + 1,
                Dice::Five => dices.fives = dices.fives + 1,
                Dice::Six => dices.sixes = dices.sixes + 1,
            }
            proof {
                assert(faces@.take(i as int + 1).drop_last() =~= faces@.take(i as int));
                assert(faces@.take(i as int + 1).last() == faces@[i as int]);
                assert forall|f: Dice| dices.count(f) == count_in(faces@.take(i as int + 1), f) by {
                    assert(prev.count(f) == count_in(faces@.take(i as int), f));
                }
            }
            i = i + 1;
        }
        proof {
            assert(faces@.take(faces@.len() as int) =~= faces@);
        }
        dices
    }

    /// The stored count for `face`, or 0 if it is absent. No side effects.
    pub fn occurrence(&self, face: Dice) -> (n: usize)
        ensures
            n == self.count(face),
    {
        match face {
            Dice::One => self.ones,
            Dice::Two => self.twos,
            Dice::Three => self.threes,
            Dice::Four => self.fours,
            Dice::Five => self.fives,
            Dice::Six => self.sixes,
        }
    }

    /// Removes every die of `face` and returns the count that was removed.
    pub fn take_all(&mut self, face: Dice) -> (n: usize)
        ensures
            n == old(self).count(face),
            *final(self) == old(self).remove_all(face),
    {
        match face {
            Dice::One => {
                let n = self.ones;
                self.ones = 0;
                n
            },
            Dice::Two => {
                let n = self.twos;
                self.twos = 0;
                n
            },
            Dice::Three => {
                let n = self.threes;
                self.threes = 0;
                n
            },
            Dice::Four => {
                let n = self.fours;
                self.fours = 0;
                n
            },
            Dice::Five => {
                let n = self.fives;
                self.fives = 0;
                n
            },
            Dice::Six => {
                let n = self.sixes;
                self.sixes = 0;
                n
            },
        }
    }
}

impl Default for Dices {
    /// The empty multiset: no face has come up.
    fn default() -> (dices: Self)
        ensures
            dices == Dices::empty_spec(),
    {
        Dices { ones: 0, twos: 0, threes: 0, fours: 0, fives: 0, sixes: 0 }
    }
}

/// Removing all dice of one face takes exactly that face's count out of the total.
pub proof fn lemma_remove_all_total(dices: Dices, face: Dice)
    ensures
        dices.remove_all(face).total() + dices.count(face) == dices.total(),
{
}

/// One throw of dice, bound to the fixed rule catalog.
pub struct Throw {
    pub dices: Dices,
}

impl Throw {
    /// A throw showing the given multiset of faces.
    pub fn new(dices: Dices) -> (t: Throw)
        ensures
            t.dices == dices,
    {
        Throw { dices }
    }

    /// The coin reward of this throw under the fixed rule catalog. The
    /// throw must be small enough for the reward to fit the coin type.
    pub fn reward(&self) -> (r: Coins)
        requires
            self.dices.total() <= 4_000_000,
        ensures
            r == reward_calculator::calc_from(reward_calculator::catalog_spec(), self.dices),
    {
        proof {
            reward_calculator::lemma_catalog_reward_bound(self.dices);
        }
        reward_calculator::calculator().calculate(self.dices)
    }
}

} // verus!
