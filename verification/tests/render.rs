use dice_roller::decimal::{is_decimal_digit, push_decimal};
use dice_roller::parse::ParseError;
use dice_roller::roll::{Mode, Rolls};
use dice_roller::{critical, normal, roll_text};

fn entries_and_sum(text: &str) -> (Vec<usize>, usize) {
    let (entries, sum) = text.split_once(" = ").unwrap();
    let entries = entries.split(" + ").map(|entry| entry.parse().unwrap()).collect();
    (entries, sum.parse().unwrap())
}

#[test]
fn render_joins_entries_and_sum() {
    assert_eq!(Rolls(vec![3, 5, 1]).render(), "3 + 5 + 1 = 9");
    assert_eq!(Rolls(vec![24, 6, 1, 3, 2]).render(), "24 + 6 + 1 + 3 + 2 = 36");
    assert_eq!(Rolls(vec![100, 100]).render(), "100 + 100 = 200");
}

#[test]
fn render_of_one_entry_has_no_plus() {
    assert_eq!(Rolls(vec![7]).render(), "7 = 7");
    assert_eq!(Rolls(vec![0]).render(), "0 = 0");
}

#[test]
fn render_of_no_entry_is_the_sum_alone() {
    assert_eq!(Rolls(vec![]).render(), " = 0");
}

#[test]
fn render_gives_the_true_sum_of_large_entries() {
    let text = Rolls(vec![usize::MAX, usize::MAX]).render();
    let expected = format!("{} + {} = {}", usize::MAX, usize::MAX, 2 * (usize::MAX as u128));
    assert_eq!(text, expected);
}

#[test]
fn push_decimal_writes_base_ten_at_the_end() {
    let mut out = String::new();
    push_decimal(&mut out, 0);
    assert_eq!(out, "0");
    push_decimal(&mut out, 9);
    assert_eq!(out, "09");
    push_decimal(&mut out, 10);
    assert_eq!(out, "0910");
    let mut out = String::from("n = ");
    push_decimal(&mut out, 25500);
    assert_eq!(out, "n = 25500");
    let mut out = String::new();
    push_decimal(&mut out, u128::MAX);
    assert_eq!(out, "340282366920938463463374607431768211455");
    for n in [1u128, 7, 42, 99, 100, 101, 1000, 65535, 1234567890] {
        let mut out = String::new();
        push_decimal(&mut out, n);
        assert_eq!(out, n.to_string());
    }
}

#[test]
fn decimal_digits_are_0_to_9() {
    for c in '0'..='9' {
        assert!(is_decimal_digit(c));
    }
    for c in ['/', ':', 'd', ' ', 'a', '\u{664}', '\u{ff16}', '\u{b2}'] {
        assert!(!is_decimal_digit(c));
    }
}

#[test]
fn normal_writes_a_roll_of_the_command() {
    for _ in 0..200 {
        let text = normal(String::from("4d6")).unwrap();
        let (entries, sum) = entries_and_sum(&text);
        assert_eq!(entries.len(), 4);
        assert!(entries.iter().all(|face| 1 <= *face && *face <= 6));
        assert_eq!(entries.iter().sum::<usize>(), sum);
        assert_eq!(Rolls(entries).render(), text);
    }
}

#[test]
fn critical_writes_a_critical_roll_of_the_command() {
    for _ in 0..200 {
        let text = critical(String::from("4d6")).unwrap();
        let (entries, sum) = entries_and_sum(&text);
        assert_eq!(entries.len(), 5);
        assert_eq!(entries[0], 24);
        assert!(entries[1..].iter().all(|face| 1 <= *face && *face <= 6));
        assert_eq!(entries.iter().sum::<usize>(), sum);
        assert!(24 < sum && sum <= 48);
        assert_eq!(Rolls(entries).render(), text);
    }
}

#[test]
fn normal_of_one_die_has_no_plus() {
    let text = normal(String::from("1d4")).unwrap();
    let (face, sum) = text.split_once(" = ").unwrap();
    assert_eq!(face, sum);
    assert!(["1", "2", "3", "4"].contains(&face));
}

#[test]
fn normal_and_critical_refuse_what_the_reader_refuses() {
    let refused = [
        ("abcefg", ParseError::UnableToParse),
        ("010d12", ParseError::UnableToParse),
        ("", ParseError::UnableToParse),
        ("256d12", ParseError::InvalidDiceNumber),
        ("4d23", ParseError::InvalidDiceSize),
    ];
    for (text, reason) in refused {
        assert_eq!(normal(String::from(text)), Err(reason));
        assert_eq!(critical(String::from(text)), Err(reason));
    }
}

#[test]
fn roll_text_rolls_in_the_mode_asked_for() {
    for _ in 0..200 {
        let (entries, sum) = entries_and_sum(&roll_text("3d8", Mode::Normal).unwrap());
        assert_eq!(entries.len(), 3);
        assert!(entries.iter().all(|face| 1 <= *face && *face <= 8));
        assert_eq!(entries.iter().sum::<usize>(), sum);
        let (entries, sum) = entries_and_sum(&roll_text("3d8", Mode::Critical).unwrap());
        assert_eq!(entries.len(), 4);
        assert_eq!(entries[0], 24);
        assert!(entries[1..].iter().all(|face| 1 <= *face && *face <= 8));
        assert_eq!(entries.iter().sum::<usize>(), sum);
    }
    assert_eq!(roll_text("3d7", Mode::Normal), Err(ParseError::InvalidDiceSize));
    assert_eq!(roll_text("3d7", Mode::Critical), Err(ParseError::InvalidDiceSize));
    assert_eq!(roll_text("300d8", Mode::Normal), Err(ParseError::InvalidDiceNumber));
    assert_eq!(roll_text("d8", Mode::Critical), Err(ParseError::UnableToParse));
}
