//! The scoring rules: which dice a rule matches, what it awards, and what
//! it consumes.

use vstd::prelude::*;

use crate::Coins;
use crate::Dice;
use crate::Dices;

verus! {

/// A scoring rule. Every rule can be tested against a multiset of dice,
/// asked for the reward it would award, and asked to consume the dice it
/// matches.
#[derive(Copy, Clone, PartialEq, Eq, Structural, Debug)]
pub enum Rule {
    /// Satisfied when at least three dice show `face`; awards `value` for
    /// each die of that face beyond the first two and consumes them all.
    ThreeOrMore { face: Dice, value: Coins },
    /// Satisfied when one or two dice show `face`; awards `value` per die
    /// of that face and consumes them all.
    TwoOrLess { face: Dice, value: Coins },
    /// Satisfied when exactly five distinct faces each occur once; awards
    /// the flat bonus `value` and consumes the whole throw.
    NoMoreThanOne { value: Coins },
}

/// The reward per extra die of the Three-Or-More rule for each face.
pub open spec fn three_or_more_value(face: Dice) -> Coins {
    match face {
        Dice::One => 1000,
        Dice::Two => 200,
        Dice::Three => 300,
        Dice::Four => 400,
        Dice::Five => 500,
        Dice::Six => 600,
    }
}

/// The reward per die of the Two-Or-Less rule for each face. Only One and
/// Five award anything; the rule is only ever instantiated for those two.
pub open spec fn two_or_less_value(face: Dice) -> Coins {
    match face {
        Dice::One => 100,
        Dice::Five => 50,
        _ => 0,
    }
}

impl Rule {
    /// Whether the rule matches the given multiset.
    pub open spec fn satisfied_spec(self, dices: Dices) -> bool {
        match self {
            Rule::ThreeOrMore { face, value } => dices.count(face) >= 3,
            Rule::TwoOrLess { face, value } => 1 <= dices.count(face) <= 2,
            Rule::NoMoreThanOne { value } => dices.single_faces() == 5,
        }
    }

    /// The reward the rule would award on the given multiset. Defined for
    /// every multiset, whether or not the rule is satisfied.
    pub open spec fn reward_spec(self, dices: Dices) -> nat {
        match self {
            Rule::ThreeOrMore { face, value } => if dices.count(face) >= 2 {
                ((dices.count(face) - 2) * value) as nat
            } else {
                0
            },
            Rule::TwoOrLess { face, value } => dices.count(face) * (value as nat),
            Rule::NoMoreThanOne { value } => value as nat,
        }
    }

    /// The multiset left after the rule has consumed the dice it matches.
    pub open spec fn consume_spec(self, dices: Dices) -> Dices {
        match self {
            Rule::ThreeOrMore { face, value } => dices.remove_all(face),
            Rule::TwoOrLess { face, value } => dices.remove_all(face),
            Rule::NoMoreThanOne { value } => Dices::empty_spec(),
        }
    }

    /// Pure satisfaction test, no side effects.
    pub fn is_satisfied(&self, dices: &Dices) -> (r: bool)
        ensures
            r == self.satisfied_spec(*dices),
    {
        match self {
            Rule::ThreeOrMore { face, value: _ } => dices.occurrence(*face) >= 3,
            Rule::TwoOrLess { face, value: _ } => {
                let n = dices.occurrence(*face);
                n > 0 && n <= 2
            },
            Rule::NoMoreThanOne { value: _ } => {
                let mut singles: usize = 0;
                if dices.occurrence(Dice::One) == 1 {
                    singles = singles + 1;
                }
                if dices.occurrence(Dice::Two) == 1 {
                    singles = singles + 1;
                }
                if dices.occurrence(Dice::Three) == 1 {
                    singles = singles + 1;
                }
                if dices.occurrence(Dice::Four) == 1 {
                    singles = singles + 1;
                }
                if dices.occurrence(Dice::Five) == 1 {
                    singles = singles + 1;
                }
                if dices.occurrence(Dice::Six) == 1 {
                    singles = singles + 1;
                }
                singles == 5
            },
        }
    }

    /// The reward the rule awards on `dices`. Callable whether or not the
    /// rule is satisfied.
    pub fn reward(&self, dices: &Dices) -> (r: Coins)
        requires
            self.reward_spec(*dices) <= u32::MAX,
        ensures
            r == self.reward_spec(*dices),
    {
        match self {
            Rule::ThreeOrMore { face, value } => {
                let n = dices.occurrence(*face);
                if n < 2 {
                    0
                } else if *value == 0 {
                    proof {
                        assert((dices.count(*face) - 2) * (*value as int) == 0)
                            by (nonlinear_arith)
                            requires
                                *value == 0,
                        ;
                    }
                    0
                } else {
                    proof {
                        assert(n - 2 <= (n - 2) * (*value as int)) by (nonlinear_arith)
                            requires
                                n >= 2,
                                *value >= 1,
                        ;
                    }
                    (n - 2) as u32 * *value
                }
            },
            Rule::TwoOrLess { face, value } => {
                let n = dices.occurrence(*face);
                if *value == 0 {
                    proof {
                        assert(dices.count(*face) * (*value as nat) == 0) by (nonlinear_arith)
                            requires
                                *value == 0,
                        ;
                    }
                    0
                } else {
                    proof {
                        assert(n <= n * (*value as int)) by (nonlinear_arith)
                            requires
                                *value >= 1,
                        ;
                    }
                    n as u32 * *value
                }
            },
            Rule::NoMoreThanOne { value } => *value,
        }
    }

    /// Removes the dice the rule matches. Safe to call even when the rule
    /// is not satisfied: taking an absent face removes nothing.
    pub fn consume(&self, dices: Dices) -> (r: Dices)
        ensures
            r == self.consume_spec(dices),
    {
        let mut dices = dices;
        match self {
            Rule::ThreeOrMore { face, value: _ } => {
                dices.take_all(*face);
                dices
            },
            Rule::TwoOrLess { face, value: _ } => {
                dices.take_all(*face);
                dices
            },
            Rule::NoMoreThanOne { value: _ } => Dices::default(),
        }
    }

    /// Applies the rule: `(0, dices)` unchanged when the rule is not
    /// satisfied, otherwise the reward together with the consumed multiset.
    pub fn apply(&self, dices: Dices) -> (r: (Coins, Dices))
        requires
            self.satisfied_spec(dices) ==> self.reward_spec(dices) <= u32::MAX,
        ensures
            self.satisfied_spec(dices) ==> r.0 == self.reward_spec(dices) && r.1
                == self.consume_spec(dices),
            !self.satisfied_spec(dices) ==> r.0 == 0 && r.1 == dices,
    {
        if !self.is_satisfied(&dices) {
            return (0, dices);
        }
        let reward = self.reward(&dices);
        (reward, self.consume(dices))
    }
}

/// A satisfied Three-Or-More rule over `face`.
pub fn three_or_more(face: &Dice) -> (r: Rule)
    ensures
        (r == Rule::ThreeOrMore { face: *face, value: three_or_more_value(*face) }),
{
    let value = match face {
        Dice::One => 1000,
        Dice::Two => 200,
        Dice::Three => 300,
        Dice::Four => 400,
        Dice::Five => 500,
        Dice::Six => 600,
    };
    Rule::ThreeOrMore { face: *face, value }
}

/// A Two-Or-Less rule over `face`, with the fixed per-die reward table.
pub fn two_or_less(face: &Dice) -> (r: Rule)
    ensures
        (r == Rule::TwoOrLess { face: *face, value: two_or_less_value(*face) }),
{
    let value = match face {
        Dice::One => 100,
        Dice::Five => 50,
        _ => 0,
    };
    Rule::TwoOrLess { face: *face, value }
}

/// A No-More-Than-One rule with the flat bonus `value`.
pub fn no_more_than_one(value: Coins) -> (r: Rule)
    ensures
        (r == Rule::NoMoreThanOne { value }),
{
    Rule::NoMoreThanOne { value }
}

/// Law: consuming a satisfied rule strictly reduces the number of dice in
/// the multiset, so a loop that keeps applying satisfied rules terminates.
pub proof fn lemma_consume_decreases_total(rule: Rule, dices: Dices)
    requires
        rule.satisfied_spec(dices),
    ensures
        rule.consume_spec(dices).total() < dices.total(),
{
    match rule {
        Rule::ThreeOrMore { face, value } => {
            crate::lemma_remove_all_total(dices, face);
        },
        Rule::TwoOrLess { face, value } => {
            crate::lemma_remove_all_total(dices, face);
        },
        Rule::NoMoreThanOne { value } => {
        },
    }
}

} // verus!
