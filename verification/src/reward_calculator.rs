//! The greedy reward loop: among all satisfied rules pick the one with the
//! highest reward (the last such rule in catalog order on a tie), apply it,
//! and repeat until no rule is satisfied.

use vstd::prelude::*;

use crate::Coins;
use crate::Dice;
use crate::Dices;
use crate::rules::Rule;
use crate::rules::lemma_consume_decreases_total;
use crate::rules::no_more_than_one;
use crate::rules::three_or_more;
use crate::rules::two_or_less;

verus! {

/// Whether at least one rule of `rules` is satisfied on `dices`.
pub open spec fn satisfied_somewhere(rules: Seq<Rule>, dices: Dices) -> bool {
    exists|i: int| 0 <= i < rules.len() && (#[trigger] rules[i].satisfied_spec(dices))
}

/// The index of the selected rule among the first `n` of `rules`: the
/// satisfied rule with the highest reward on `dices`, the later one on a
/// tie; `None` when none of the first `n` rules is satisfied.
pub open spec fn best_rule_upto(rules: Seq<Rule>, dices: Dices, n: int) -> Option<int>
    decreases n,
{
    if n <= 0 {
        None
    } else {
        let prev = best_rule_upto(rules, dices, n - 1);
        if rules[n - 1].satisfied_spec(dices) {
            match prev {
                None => Some(n - 1),
                Some(j) => if rules[n - 1].reward_spec(dices) >= rules[j].reward_spec(dices) {
                    Some(n - 1)
                } else {
                    Some(j)
                },
            }
        } else {
            prev
        }
    }
}

/// The rule the greedy loop selects on `dices`, as an index into `rules`.
pub open spec fn best_rule(rules: Seq<Rule>, dices: Dices) -> Option<int> {
    best_rule_upto(rules, dices, rules.len() as int)
}

/// What the selection yields: `None` exactly when no rule is satisfied;
/// otherwise a satisfied rule of maximal reward, and the last such rule.
pub proof fn lemma_best_rule_upto(rules: Seq<Rule>, dices: Dices, n: int)
    requires
        0 <= n <= rules.len(),
    ensures
        match best_rule_upto(rules, dices, n) {
            None => forall|i: int| 0 <= i < n ==> !(#[trigger] rules[i].satisfied_spec(dices)),
            Some(j) => {
                &&& 0 <= j < n
                &&& rules[j].satisfied_spec(dices)
                &&& forall|i: int|
                    0 <= i < n && (#[trigger] rules[i].satisfied_spec(dices))
                        ==> rules[i].reward_spec(dices) <= rules[j].reward_spec(dices)
                &&& forall|i: int|
                    j < i < n && (#[trigger] rules[i].satisfied_spec(dices))
                        ==> rules[i].reward_spec(dices) < rules[j].reward_spec(dices)
            },
        },
    decreases n,
{
    if n > 0 {
        lemma_best_rule_upto(rules, dices, n - 1);
    }
}

/// The total reward of running the greedy loop to completion on `dices`.
pub open spec fn calc_from(rules: Seq<Rule>, dices: Dices) -> nat
    decreases dices.total(),
    via calc_from_decreases
{
    match best_rule(rules, dices) {
        None => 0,
        Some(j) => rules[j].reward_spec(dices) + calc_from(rules, rules[j].consume_spec(dices)),
    }
}

#[via_fn]
proof fn calc_from_decreases(rules: Seq<Rule>, dices: Dices) {
    match best_rule(rules, dices) {
        None => {},
        Some(j) => {
            lemma_best_rule_upto(rules, dices, rules.len() as int);
            lemma_consume_decreases_total(rules[j], dices);
        },
    }
}

/// The multiset left once the greedy loop has run to completion on `dices`.
pub open spec fn exhaust(rules: Seq<Rule>, dices: Dices) -> Dices
    decreases dices.total(),
    via exhaust_decreases
{
    match best_rule(rules, dices) {
        None => dices,
        Some(j) => exhaust(rules, rules[j].consume_spec(dices)),
    }
}

#[via_fn]
proof fn exhaust_decreases(rules: Seq<Rule>, dices: Dices) {
    match best_rule(rules, dices) {
        None => {},
        Some(j) => {
            lemma_best_rule_upto(rules, dices, rules.len() as int);
            lemma_consume_decreases_total(rules[j], dices);
        },
    }
}

/// Law: the greedy loop runs itself out. Once it has completed, no rule of
/// the catalog is satisfied against the remaining multiset.
pub proof fn lemma_exhaustion(rules: Seq<Rule>, dices: Dices)
    ensures
        !satisfied_somewhere(rules, exhaust(rules, dices)),
    decreases dices.total(),
{
    lemma_best_rule_upto(rules, dices, rules.len() as int);
    match best_rule(rules, dices) {
        None => {},
        Some(j) => {
            lemma_consume_decreases_total(rules[j], dices);
            lemma_exhaustion(rules, rules[j].consume_spec(dices));
        },
    }
}

/// Law: the greedy evaluation is defined for every multiset (its recursion
/// terminates) and the reward is never negative.
pub proof fn lemma_reward_nonnegative(rules: Seq<Rule>, dices: Dices)
    ensures
        calc_from(rules, dices) >= 0,
{
}

/// Any satisfied rule's reward is at most the loop's total reward, since
/// the loop applies a rule of maximal reward first.
pub proof fn lemma_satisfied_reward_le_calc(rules: Seq<Rule>, dices: Dices, i: int)
    requires
        0 <= i < rules.len(),
        rules[i].satisfied_spec(dices),
    ensures
        rules[i].reward_spec(dices) <= calc_from(rules, dices),
{
    lemma_best_rule_upto(rules, dices, rules.len() as int);
}

/// A computer of the coin reward of a throw of dice.
pub trait Calculator {
    /// The reward this calculator assigns to a multiset of dice.
    spec fn calc_spec(&self, dices: Dices) -> nat;

    /// Computes the reward. The reward must fit the coin type.
    fn calculate(&self, dices: Dices) -> (r: Coins)
        requires
            self.calc_spec(dices) <= u32::MAX,
        ensures
            r == self.calc_spec(dices),
    ;
}

/// Scores a throw by the greedy loop over an ordered catalog of rules.
pub struct RewardCalculator {
    rules: Vec<Rule>,
}

impl View for RewardCalculator {
    type V = Seq<Rule>;

    /// The catalog, in the order that breaks ties.
    closed spec fn view(&self) -> Seq<Rule> {
        self.rules@
    }
}

impl RewardCalculator {
    /// A calculator over the given ordered rule catalog.
    pub fn new(rules: Vec<Rule>) -> (c: Self)
        ensures
            c@ == rules@,
    {
        RewardCalculator { rules }
    }

    /// The satisfied rule with the highest reward on `dices`, the last one
    /// in catalog order on a tie; `None` when no rule is satisfied.
    pub fn most_rewarded_rule(&self, dices: &Dices) -> (r: Option<Rule>)
        requires
            forall|i: int|
                0 <= i < self@.len() && (#[trigger] self@[i].satisfied_spec(*dices))
                    ==> self@[i].reward_spec(*dices) <= u32::MAX,
        ensures
            match best_rule(self@, *dices) {
                None => r is None,
                Some(j) => r == Some(self@[j]),
            },
    {
        let mut best: Option<Rule> = None;
        let mut best_reward: Coins = 0;
        let mut i: usize = 0;
        while i < self.rules.len()
            invariant
                i <= self.rules.len(),
                forall|k: int|
                    0 <= k < self@.len() && (#[trigger] self@[k].satisfied_spec(*dices))
                        ==> self@[k].reward_spec(*dices) <= u32::MAX,
                match best_rule_upto(self@, *dices, i as int) {
                    None => best is None,
                    Some(j) => best == Some(self@[j]) && best_reward == self@[j].reward_spec(
                        *dices,
                    ),
                },
            decreases self.rules.len() - i,
        {
            proof {
                lemma_best_rule_upto(self@, *dices, i as int);
            }
            let rule = self.rules[i];
            if rule.is_satisfied(dices) {
                let reward = rule.reward(dices);
                match best {
                    None => {
                        best = Some(rule);
                        best_reward = reward;
                    },
                    Some(_) => {
                        if reward >= best_reward {
                            best = Some(rule);
                            best_reward = reward;
                        }
                    },
                }
            }
            i = i + 1;
        }
        best
    }
}

impl Calculator for RewardCalculator {
    /// The reward of the greedy loop over this calculator's catalog.
    open spec fn calc_spec(&self, dices: Dices) -> nat {
        calc_from(self@, dices)
    }

    fn calculate(&self, dices: Dices) -> (r: Coins) {
        let mut dices = dices;
        let mut amount: Coins = 0;
        let ghost full_reward: nat = calc_from(self@, dices);
        loop
            invariant
                amount + calc_from(self@, dices) == full_reward,
                full_reward <= u32::MAX,
            ensures
                amount + calc_from(self@, dices) == full_reward,
                best_rule(self@, dices) is None,
            decreases dices.total(),
        {
            proof {
                assert forall|i: int|
                    0 <= i < self@.len() && (#[trigger] self@[i].satisfied_spec(dices))
                        implies self@[i].reward_spec(dices) <= u32::MAX by {
                    lemma_satisfied_reward_le_calc(self@, dices, i);
                };
            }
            let selected = self.most_rewarded_rule(&dices);
            match selected {
                None => {
                    break;
                },
                Some(rule) => {
                    proof {
                        lemma_best_rule_upto(self@, dices, self@.len() as int);
                        lemma_consume_decreases_total(rule, dices);
                        lemma_satisfied_reward_le_calc(
                            self@,
                            dices,
                            best_rule(self@, dices)->Some_0,
                        );
                    }
                    let (reward, rest) = rule.apply(dices);
                    amount = amount + reward;
                    dices = rest;
                },
            }
        }
        amount
    }
}

/// Whether the rule's reward parameters stay within a budget of 1000 coins
/// per die the rule consumes. Every rule of the fixed catalog does.
pub open spec fn bounded_rule(rule: Rule) -> bool {
    match rule {
        Rule::ThreeOrMore { face, value } => value <= 1000,
        Rule::TwoOrLess { face, value } => value <= 100,
        Rule::NoMoreThanOne { value } => value <= 5000,
    }
}

/// A satisfied bounded rule awards at most 1000 coins per die it consumes.
proof fn lemma_bounded_rule_reward(rule: Rule, dices: Dices)
    requires
        bounded_rule(rule),
        rule.satisfied_spec(dices),
    ensures
        rule.reward_spec(dices) <= 1000 * (dices.total() - rule.consume_spec(dices).total()),
{
    match rule {
        Rule::ThreeOrMore { face, value } => {
            crate::lemma_remove_all_total(dices, face);
            let n = dices.count(face) as int;
            assert((n - 2) * (value as int) <= 1000 * n) by (nonlinear_arith)
                requires
                    n >= 3,
                    0 <= value <= 1000,
            ;
        },
        Rule::TwoOrLess { face, value } => {
            crate::lemma_remove_all_total(dices, face);
            let n = dices.count(face) as int;
            assert(n * (value as int) <= 1000 * n) by (nonlinear_arith)
                requires
                    1 <= n,
                    0 <= value <= 100,
            ;
        },
        Rule::NoMoreThanOne { value } => {
        },
    }
}

/// With a bounded catalog, the whole greedy loop awards at most 1000 coins
/// per thrown die: each application stays within the budget for the dice it
/// removes, and applications consume disjoint dice.
pub proof fn lemma_bounded_catalog_reward(rules: Seq<Rule>, dices: Dices)
    requires
        forall|i: int| 0 <= i < rules.len() ==> bounded_rule(#[trigger] rules[i]),
    ensures
        calc_from(rules, dices) <= 1000 * dices.total(),
    decreases dices.total(),
{
    match best_rule(rules, dices) {
        None => {},
        Some(j) => {
            lemma_best_rule_upto(rules, dices, rules.len() as int);
            lemma_consume_decreases_total(rules[j], dices);
            lemma_bounded_rule_reward(rules[j], dices);
            lemma_bounded_catalog_reward(rules, rules[j].consume_spec(dices));
        },
    }
}

/// The fixed catalog awards at most 1000 coins per thrown die.
pub proof fn lemma_catalog_reward_bound(dices: Dices)
    ensures
        calc_from(catalog_spec(), dices) <= 1000 * dices.total(),
{
    assert forall|i: int| 0 <= i < catalog_spec().len() implies bounded_rule(
        #[trigger] catalog_spec()[i],
    ) by {};
    lemma_bounded_catalog_reward(catalog_spec(), dices);
}

/// The fixed catalog: one Three-Or-More rule per face in face order, the
/// Two-Or-Less rules for One and Five, then the straight bonus of 200.
pub open spec fn catalog_spec() -> Seq<Rule> {
    seq![
        Rule::ThreeOrMore { face: Dice::One, value: 1000 },
        Rule::ThreeOrMore { face: Dice::Two, value: 200 },
        Rule::ThreeOrMore { face: Dice::Three, value: 300 },
        Rule::ThreeOrMore { face: Dice::Four, value: 400 },
        Rule::ThreeOrMore { face: Dice::Five, value: 500 },
        Rule::ThreeOrMore { face: Dice::Six, value: 600 },
        Rule::TwoOrLess { face: Dice::One, value: 100 },
        Rule::TwoOrLess { face: Dice::Five, value: 50 },
        Rule::NoMoreThanOne { value: 200 },
    ]
}

/// The calculator over the fixed catalog of scoring rules.
pub fn calculator() -> (c: RewardCalculator)
    ensures
        c@ == catalog_spec(),
{
    let mut rules: Vec<Rule> = Vec::new();
    rules.push(three_or_more(&Dice::One));
    rules.push(three_or_more(&Dice::Two));
    rules.push(three_or_more(&Dice::Three));
    rules.push(three_or_more(&Dice::Four));
    rules.push(three_or_more(&Dice::Five));
    rules.push(three_or_more(&Dice::Six));
    rules.push(two_or_less(&Dice::One));
    rules.push(two_or_less(&Dice::Five));
    rules.push(no_more_than_one(200));
    proof {
        assert(rules@ =~= catalog_spec());
    }
    RewardCalculator::new(rules)
}

} // verus!
