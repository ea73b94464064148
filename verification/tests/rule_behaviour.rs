use greed::rules::Rule;
use greed::rules::no_more_than_one;
use greed::rules::three_or_more;
use greed::rules::two_or_less;
use greed::Dice;
use greed::Dices;

fn faces(s: &str) -> Vec<Dice> {
    s.chars()
        .map(|c| match c {
            '1' => Dice::One,
            '2' => Dice::Two,
            '3' => Dice::Three,
            '4' => Dice::Four,
            '5' => Dice::Five,
            '6' => Dice::Six,
            _ => panic!("invalid dice"),
        })
        .collect()
}

fn dices(s: &str) -> Dices {
    Dices::from_faces(&faces(s))
}

#[test]
fn dice_5_test_two_or_less() {
    let cases: &[(&str, u32, &str)] =
        &[("22554", 100, "224"), ("35446", 50, "3446"), ("32446", 0, "32446")];
    for (throw, reward, remain) in cases {
        assert_eq!(
            (*reward, dices(remain)),
            two_or_less(&Dice::Five).apply(dices(throw))
        );
    }
}

#[test]
fn five_different_dices() {
    let cases: &[(&str, u32, &str)] = &[
        ("23456", 200, ""),
        ("12345", 200, ""),
        ("62154", 200, ""),
        ("66154", 0, "66154"),
        ("6154", 0, "6154"),
    ];
    for (throw, reward, remain) in cases {
        assert_eq!(
            (*reward, dices(remain)),
            no_more_than_one(200).apply(dices(throw))
        );
    }
}

#[test]
fn rule_constructors_carry_the_reward_table() {
    assert_eq!(Rule::ThreeOrMore { face: Dice::One, value: 1000 }, three_or_more(&Dice::One));
    assert_eq!(Rule::ThreeOrMore { face: Dice::Two, value: 200 }, three_or_more(&Dice::Two));
    assert_eq!(Rule::ThreeOrMore { face: Dice::Three, value: 300 }, three_or_more(&Dice::Three));
    assert_eq!(Rule::ThreeOrMore { face: Dice::Four, value: 400 }, three_or_more(&Dice::Four));
    assert_eq!(Rule::ThreeOrMore { face: Dice::Five, value: 500 }, three_or_more(&Dice::Five));
    assert_eq!(Rule::ThreeOrMore { face: Dice::Six, value: 600 }, three_or_more(&Dice::Six));
    assert_eq!(Rule::TwoOrLess { face: Dice::One, value: 100 }, two_or_less(&Dice::One));
    assert_eq!(Rule::TwoOrLess { face: Dice::Five, value: 50 }, two_or_less(&Dice::Five));
    assert_eq!(Rule::NoMoreThanOne { value: 200 }, no_more_than_one(200));
}

#[test]
fn three_or_more_rewards_dice_beyond_two() {
    let rule = three_or_more(&Dice::Six);
    assert!(!rule.is_satisfied(&dices("66")));
    assert!(rule.is_satisfied(&dices("666")));
    assert_eq!(600, rule.reward(&dices("666")));
    assert_eq!(1200, rule.reward(&dices("6666")));
    assert_eq!((600, dices("12")), rule.apply(dices("66612")));
}

#[test]
fn two_or_less_needs_one_or_two_dice() {
    let rule = two_or_less(&Dice::One);
    assert!(!rule.is_satisfied(&dices("234")));
    assert!(rule.is_satisfied(&dices("123")));
    assert!(rule.is_satisfied(&dices("1123")));
    assert!(!rule.is_satisfied(&dices("11123")));
    assert_eq!((200, dices("23")), rule.apply(dices("1123")));
}

#[test]
fn no_more_than_one_clears_the_whole_throw() {
    let rule = no_more_than_one(200);
    let (reward, rest) = rule.apply(dices("23462"));
    assert_eq!(0, reward);
    assert_eq!(dices("23462"), rest);
    // Five single faces beside a repeated one still satisfy the rule, and
    // consuming clears every die, the repeated face included.
    let (reward, rest) = rule.apply(dices("1234566"));
    assert_eq!(200, reward);
    assert_eq!(dices(""), rest);
}

#[test]
fn occurrence_counts_each_face() {
    let d = dices("62663");
    assert_eq!(3, d.occurrence(Dice::Six));
    assert_eq!(1, d.occurrence(Dice::Two));
    assert_eq!(1, d.occurrence(Dice::Three));
    assert_eq!(0, d.occurrence(Dice::One));
}

#[test]
fn take_all_removes_a_face_and_returns_its_count() {
    let mut d = dices("62663");
    assert_eq!(3, d.take_all(Dice::Six));
    assert_eq!(0, d.occurrence(Dice::Six));
    assert_eq!(dices("23"), d);
    assert_eq!(0, d.take_all(Dice::One));
    assert_eq!(dices("23"), d);
}

#[test]
fn default_dices_are_empty() {
    let d = Dices::default();
    assert_eq!(dices(""), d);
    assert_eq!(0, d.occurrence(Dice::One));
}
