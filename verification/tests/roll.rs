use dice_roller::parse::{Count, DiceSize, RollCmd};
use dice_roller::roll::{max_damage, roll, roll_crit, roll_normal, Mode, Rolls};

#[test]
fn normal_rolls_are_nonzero() {
    let cmd = RollCmd {
        num: Count::new(4).unwrap(),
        size: DiceSize::D6
    };
    for _ in 0..100 {
        let rolls = roll_normal(&cmd);
        let sum: usize = rolls.0.iter().sum();
        assert!(sum > 0);
    }
}

#[test]
fn critical_rolls_are_nonzero() {
    let cmd = RollCmd {
        num: Count::new(4).unwrap(),
        size: DiceSize::D6
    };
    for _ in 0..100 {
        let rolls = roll_crit(&cmd);
        let sum: usize = rolls.0.iter().sum();
        assert!(sum > 0);
    }
}

#[test]
fn critical_rolls_higher_than_normal_rolls() {
    let cmd = RollCmd {
        num: Count::new(4).unwrap(),
        size: DiceSize::D6
    };
    for _ in 0..100 {
        let normal_rolls = roll_normal(&cmd);
        let crit_rolls = roll_crit(&cmd);
        let normal_sum: usize = normal_rolls.0.iter().sum();
        let crit_sum: usize = crit_rolls.0.iter().sum();
        assert!(crit_sum > normal_sum);
    }
}

#[test]
fn critical_rolls_higher_than_max_damage() {
    let cmd = RollCmd {
        num: Count::new(4).unwrap(),
        size: DiceSize::D6
    };
    for _ in 0..100 {
        let rolls = roll_crit(&cmd);
        let sum: usize = rolls.0.iter().sum();
        assert!(sum > 24);
    }
}

#[test]
fn no_normal_rolls_higher_than_dice_value() {
    let cmd = RollCmd {
        num: Count::new(4).unwrap(),
        size: DiceSize::D6
    };
    let mut dice = Vec::new();
    for _ in 0..100 {
        let rolls = roll_normal(&cmd);
        dice.extend_from_slice(rolls.0.as_slice());
    }
    assert!(*dice.iter().max().unwrap() <= 6)
}

#[test]
fn critical_rolls_less_than_2x_full_damage() {
    let cmd = RollCmd {
        num: Count::new(4).unwrap(),
        size: DiceSize::D6
    };
    let mut random_rolls = Vec::new();
    for _ in 0..100 {
        let rolls = roll_crit(&cmd);
        let sum: usize = rolls.0.iter().sum();
        random_rolls.push(sum);
    }
    assert!(*random_rolls.iter().max().unwrap() <= 48)
}

fn every_command() -> Vec<RollCmd> {
    let sizes = [
        DiceSize::D4,
        DiceSize::D6,
        DiceSize::D8,
        DiceSize::D10,
        DiceSize::D12,
        DiceSize::D20,
        DiceSize::D100,
    ];
    let mut commands = Vec::new();
    for n in 1..=255u8 {
        for size in sizes {
            commands.push(RollCmd { num: Count::new(n).unwrap(), size });
        }
    }
    commands
}

#[test]
fn normal_4d6_a_thousand_times() {
    let cmd = RollCmd { num: Count::new(4).unwrap(), size: DiceSize::D6 };
    for _ in 0..1000 {
        let rolls = roll_normal(&cmd);
        assert_eq!(rolls.0.len(), 4);
        for face in rolls.0 {
            assert!(1 <= face && face <= 6);
        }
    }
}

#[test]
fn critical_4d6_a_thousand_times() {
    let cmd = RollCmd { num: Count::new(4).unwrap(), size: DiceSize::D6 };
    for _ in 0..1000 {
        let rolls = roll_crit(&cmd);
        assert_eq!(rolls.0.len(), 5);
        assert_eq!(rolls.0[0], 24);
        for face in &rolls.0[1..] {
            assert!(1 <= *face && *face <= 6);
        }
    }
}

#[test]
fn every_command_rolls_within_its_faces() {
    for cmd in every_command() {
        let count = usize::from(cmd.num.get());
        let faces = usize::from(cmd.size);
        let rolls = roll_normal(&cmd);
        assert_eq!(rolls.0.len(), count);
        assert!(rolls.0.iter().all(|face| 1 <= *face && *face <= faces));
    }
}

#[test]
fn every_command_rolls_critical_with_its_bonus_first() {
    for cmd in every_command() {
        let count = usize::from(cmd.num.get());
        let faces = usize::from(cmd.size);
        let rolls = roll_crit(&cmd);
        assert_eq!(rolls.0.len(), count + 1);
        assert_eq!(rolls.0[0], count * faces);
        assert!(rolls.0[1..].iter().all(|face| 1 <= *face && *face <= faces));
        let sum: usize = rolls.0.iter().sum();
        assert!(count * faces < sum && sum <= 2 * count * faces);
    }
}

#[test]
fn max_damage_is_count_times_faces() {
    let four_d6 = RollCmd { num: Count::new(4).unwrap(), size: DiceSize::D6 };
    assert_eq!(max_damage(&four_d6), 24);
    let one_d4 = RollCmd { num: Count::new(1).unwrap(), size: DiceSize::D4 };
    assert_eq!(max_damage(&one_d4), 4);
    let most = RollCmd { num: Count::new(255).unwrap(), size: DiceSize::D100 };
    assert_eq!(max_damage(&most), 25500);
}

#[test]
fn draws_are_neither_the_lowest_nor_the_highest_face_throughout() {
    let cmd = RollCmd { num: Count::new(255).unwrap(), size: DiceSize::D100 };
    let mut drawn = Vec::new();
    for _ in 0..20 {
        drawn.extend(roll_normal(&cmd).0);
        drawn.extend(roll_crit(&cmd).0.into_iter().skip(1));
    }
    assert!(drawn.iter().any(|face| *face != 1));
    assert!(drawn.iter().any(|face| *face != 100));
    assert!(drawn.iter().any(|face| *face != drawn[0]));
}

#[test]
fn every_face_of_a_d4_comes_up() {
    let cmd = RollCmd { num: Count::new(255).unwrap(), size: DiceSize::D4 };
    let mut seen = [false; 5];
    for _ in 0..20 {
        for face in roll_normal(&cmd).0 {
            seen[face] = true;
        }
    }
    assert_eq!(seen, [false, true, true, true, true]);
}

#[test]
fn rolls_sum_their_entries() {
    assert_eq!(Rolls(vec![]).sum(), 0);
    assert_eq!(Rolls(vec![7]).sum(), 7);
    assert_eq!(Rolls(vec![3, 5, 1]).sum(), 9);
    assert_eq!(Rolls(vec![usize::MAX, usize::MAX, 2]).sum(), 2 * (usize::MAX as u128) + 2);
}

#[test]
fn roll_in_normal_mode_a_thousand_times() {
    let cmd = RollCmd { num: Count::new(4).unwrap(), size: DiceSize::D6 };
    for _ in 0..1000 {
        let rolls = roll(&cmd, Mode::Normal);
        assert_eq!(rolls.0.len(), 4);
        assert!(rolls.0.iter().all(|face| 1 <= *face && *face <= 6));
    }
}

#[test]
fn roll_in_critical_mode_a_thousand_times() {
    let cmd = RollCmd { num: Count::new(4).unwrap(), size: DiceSize::D6 };
    for _ in 0..1000 {
        let rolls = roll(&cmd, Mode::Critical);
        assert_eq!(rolls.0.len(), 5);
        assert_eq!(rolls.0[0], 24);
        assert!(rolls.0[1..].iter().all(|face| 1 <= *face && *face <= 6));
    }
}

#[test]
fn one_die_rolls_one_entry() {
    let cmd = RollCmd { num: Count::new(1).unwrap(), size: DiceSize::D4 };
    for _ in 0..100 {
        let normal = roll_normal(&cmd);
        assert_eq!(normal.0.len(), 1);
        assert!(1 <= normal.0[0] && normal.0[0] <= 4);
        let critical = roll_crit(&cmd);
        assert_eq!(critical.0.len(), 2);
        assert_eq!(critical.0[0], 4);
        assert!(1 <= critical.0[1] && critical.0[1] <= 4);
    }
}

#[test]
fn most_dice_roll_within_25500_and_51000() {
    let cmd = RollCmd { num: Count::new(255).unwrap(), size: DiceSize::D100 };
    let normal = roll_normal(&cmd);
    assert_eq!(normal.0.len(), 255);
    assert!(255 <= normal.sum() && normal.sum() <= 25500);
    let critical = roll_crit(&cmd);
    assert_eq!(critical.0.len(), 256);
    assert_eq!(critical.0[0], 25500);
    assert!(25500 < critical.sum() && critical.sum() <= 51000);
    assert!(critical.sum() > normal.sum());
}
