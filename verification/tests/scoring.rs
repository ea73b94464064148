use greed::reward_calculator::Calculator;
use greed::reward_calculator::calculator;
use greed::rules::Rule;
use greed::rules::no_more_than_one;
use greed::rules::three_or_more;
use greed::rules::two_or_less;
use greed::Dice;
use greed::Dices;
use greed::Throw;

fn faces(s: &str) -> Vec<Dice> {
    s.chars()
        .map(|c| match c {
            '1' => Dice::One,
            '2' => Dice::Two,
            '3' => Dice::Three,
            '4' => Dice::Four,
            '5' => Dice::Five,
            '6' => Dice::Six,
            _ => panic!("invalid dice"),
        })
        .collect()
}

fn dices(s: &str) -> Dices {
    Dices::from_faces(&faces(s))
}

fn reward_of(s: &str) -> u32 {
    Throw::new(dices(s)).reward()
}

fn total(d: &Dices) -> usize {
    [Dice::One, Dice::Two, Dice::Three, Dice::Four, Dice::Five, Dice::Six]
        .iter()
        .map(|f| d.occurrence(*f))
        .sum()
}

fn catalog() -> Vec<Rule> {
    let mut rules = vec![
        three_or_more(&Dice::One),
        three_or_more(&Dice::Two),
        three_or_more(&Dice::Three),
        three_or_more(&Dice::Four),
        three_or_more(&Dice::Five),
        three_or_more(&Dice::Six),
        two_or_less(&Dice::One),
        two_or_less(&Dice::Five),
    ];
    rules.push(no_more_than_one(200));
    rules
}

#[test]
fn throw_should_reward() {
    let cases: &[(&str, u32)] = &[
        ("62233", 0),
        ("62663", 600),
        ("66626", 1200),
        ("66666", 1800),
        ("63555", 500),
        ("55455", 1000),
        ("55555", 1500),
        ("64442", 400),
        ("44644", 800),
        ("44444", 1200),
        ("33342", 300),
        ("33433", 600),
        ("33333", 900),
        ("33222", 200),
        ("32222", 400),
        ("22222", 600),
        ("11661", 1000),
        ("31111", 2000),
        ("11111", 3000),
        ("11446", 200),
        ("31446", 100),
        ("22554", 100),
        ("35446", 50),
        ("14445", 550),
        ("11222", 400),
        ("12345", 200),
        ("23456", 200),
        ("23416", 200),
    ];
    for (s, expected) in cases {
        assert_eq!(*expected, reward_of(s));
    }
}

#[test]
fn empty_throw_rewards_nothing() {
    assert_eq!(0, reward_of(""));
}

#[test]
fn single_scoring_dice_reward() {
    assert_eq!(100, reward_of("1"));
    assert_eq!(50, reward_of("5"));
    assert_eq!(150, reward_of("15"));
    assert_eq!(0, reward_of("2"));
    assert_eq!(200, reward_of("11"));
    assert_eq!(100, reward_of("55"));
}

#[test]
fn three_or_more_alone_reward() {
    assert_eq!(1000, reward_of("111"));
    assert_eq!(600, reward_of("666"));
    assert_eq!(1500, reward_of("444555666"));
}

#[test]
fn tied_rules_still_sum_to_the_same_reward() {
    // Four threes and three sixes both award 600; whichever is consumed
    // first, both end up applied.
    assert_eq!(1200, reward_of("3333666"));
}

#[test]
fn calculate_matches_throw_reward() {
    for s in ["62663", "11446", "23456", ""] {
        assert_eq!(reward_of(s), calculator().calculate(dices(s)));
    }
}

#[test]
fn most_rewarded_rule_picks_maximum() {
    let calc = calculator();
    assert_eq!(None, calc.most_rewarded_rule(&dices("")));
    assert_eq!(None, calc.most_rewarded_rule(&dices("2244")));
    assert_eq!(
        Some(Rule::ThreeOrMore { face: Dice::Six, value: 600 }),
        calc.most_rewarded_rule(&dices("66626"))
    );
    // One die of One (100) beats two dice of Five (2 x 50 = 100) only by
    // the tie-break: the later rule in the catalog wins.
    assert_eq!(
        Some(Rule::TwoOrLess { face: Dice::Five, value: 50 }),
        calc.most_rewarded_rule(&dices("155"))
    );
}

#[test]
fn greedy_loop_consumes_and_exhausts() {
    for s in ["62663", "11446", "23456", "3333666", "55555"] {
        let calc = calculator();
        let mut d = dices(s);
        let mut amount: u32 = 0;
        while let Some(rule) = calc.most_rewarded_rule(&d) {
            let before = total(&d);
            let (reward, rest) = rule.apply(d);
            amount += reward;
            d = rest;
            // Each iteration strictly reduces the number of dice left.
            assert!(total(&d) < before);
        }
        // At exhaustion no rule of the catalog is satisfied any more.
        for rule in catalog() {
            assert!(!rule.is_satisfied(&d));
        }
        assert_eq!(reward_of(s), amount);
    }
}
