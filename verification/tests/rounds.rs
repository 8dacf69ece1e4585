use farkle::keep_dice;
use farkle::parse_bank_input;
use farkle::parse_keep_selection;
use farkle::roll_dice;
use farkle::round_step;
use farkle::BankCommand;
use farkle::KeepCommand;
use farkle::RoundState;
use farkle::RoundStep;

#[test]
fn new_round_starts_with_a_full_pool() {
    let state = RoundState::new();
    assert_eq!(state.score, 0);
    assert_eq!(state.pool, 6);
}

#[test]
fn scoring_turn_accumulates_and_shrinks_the_pool() {
    let state = RoundState::new();
    match round_step(state, 300, 2) {
        RoundStep::Continue(next) => {
            assert_eq!(next.score, 300);
            assert_eq!(next.pool, 4);
            assert_eq!(next.bank(), 300);
        }
        RoundStep::Busted(_) => panic!("a scoring turn must not bust"),
    }
}

#[test]
fn hot_dice_refill_the_pool() {
    // Keeping the whole pool with a positive score grants six dice again.
    let state = RoundState::new();
    let next = match round_step(state, 1500, 6) {
        RoundStep::Continue(next) => next,
        RoundStep::Busted(_) => panic!("a scoring turn must not bust"),
    };
    assert_eq!(next.pool, 6);
    assert_eq!(next.score, 1500);

    // The same holds deeper in a round, from a smaller pool.
    let smaller = match round_step(next, 100, 4) {
        RoundStep::Continue(s) => s,
        RoundStep::Busted(_) => panic!("a scoring turn must not bust"),
    };
    assert_eq!(smaller.pool, 2);
    let hot = match round_step(smaller, 100, 2) {
        RoundStep::Continue(s) => s,
        RoundStep::Busted(_) => panic!("a scoring turn must not bust"),
    };
    assert_eq!(hot.pool, 6);
}

#[test]
fn busting_forfeits_all_accumulated_score() {
    let state = RoundState::new();
    let rich = match round_step(state, 2500, 6) {
        RoundStep::Continue(next) => next,
        RoundStep::Busted(_) => panic!("a scoring turn must not bust"),
    };
    assert_eq!(rich.score, 2500);
    // A zero-scoring turn busts and pays nothing, despite the 2500.
    match round_step(rich, 0, 3) {
        RoundStep::Busted(payout) => assert_eq!(payout, 0),
        RoundStep::Continue(_) => panic!("a zero score must bust"),
    }
    // Keeping no dice busts too.
    match round_step(rich, 500, 0) {
        RoundStep::Busted(payout) => assert_eq!(payout, 0),
        RoundStep::Continue(_) => panic!("an empty keep must bust"),
    }
}

#[test]
fn banking_returns_the_accumulated_sum() {
    let state = RoundState::new();
    let mut current = state;
    for (score, kept) in [(300i16, 2usize), (150, 2), (50, 1)] {
        current = match round_step(current, score, kept) {
            RoundStep::Continue(next) => next,
            RoundStep::Busted(_) => panic!("a scoring turn must not bust"),
        };
    }
    assert_eq!(current.bank(), 500);
}

#[test]
fn rolled_dice_fill_the_pool_with_valid_faces() {
    for num in 0..=6i8 {
        let dice = roll_dice(num);
        assert_eq!(dice.len(), num as usize);
        for die in dice {
            assert!((1..=6).contains(&die));
        }
    }
}

#[test]
fn rolls_are_not_constant() {
    // Six hundred dice showing fewer than six distinct faces is beyond
    // unlucky; a stuck random source would show exactly one.
    let mut seen = [false; 6];
    for _ in 0..100 {
        for die in roll_dice(6) {
            seen[(die - 1) as usize] = true;
        }
    }
    assert!(seen.iter().all(|&s| s));
}

#[test]
fn keep_dice_filters_by_position() {
    let dice: Vec<i16> = vec![3, 1, 4, 1, 5, 2];
    let keep = vec![true, false, true, false, true, false];
    assert_eq!(keep_dice(&dice, &keep), vec![3, 4, 5]);
    let none = vec![false; 6];
    assert_eq!(keep_dice(&dice, &none), Vec::<i16>::new());
    let all = vec![true; 6];
    assert_eq!(keep_dice(&dice, &all), dice);
}

#[test]
fn keep_selection_builds_a_mask() {
    let input: Vec<char> = "135".chars().collect();
    match parse_keep_selection(&input, 6) {
        KeepCommand::Selection(keep) => {
            assert_eq!(keep, vec![true, false, true, false, true, false]);
        }
        _ => panic!("a valid selection was refused"),
    }
    // Digits beyond the pool select nothing.
    let input: Vec<char> = "25".chars().collect();
    match parse_keep_selection(&input, 4) {
        KeepCommand::Selection(keep) => {
            assert_eq!(keep, vec![false, true, false, false]);
        }
        _ => panic!("a valid selection was refused"),
    }
    // An empty selection is legal.
    let input: Vec<char> = Vec::new();
    match parse_keep_selection(&input, 6) {
        KeepCommand::Selection(keep) => assert_eq!(keep, vec![false; 6]),
        _ => panic!("an empty selection is legal"),
    }
}

#[test]
fn keep_selection_rejects_bad_lines() {
    let repeated: Vec<char> = "113".chars().collect();
    assert!(matches!(
        parse_keep_selection(&repeated, 6),
        KeepCommand::Invalid
    ));
    let stray: Vec<char> = "1a3".chars().collect();
    assert!(matches!(
        parse_keep_selection(&stray, 6),
        KeepCommand::Invalid
    ));
    let seven: Vec<char> = "7".chars().collect();
    assert!(matches!(
        parse_keep_selection(&seven, 6),
        KeepCommand::Invalid
    ));
}

#[test]
fn keep_selection_reports_quit() {
    let input: Vec<char> = "q".chars().collect();
    assert!(matches!(parse_keep_selection(&input, 6), KeepCommand::Quit));
}

#[test]
fn bank_input_reads_the_answer() {
    let yes: Vec<char> = "y".chars().collect();
    assert!(matches!(parse_bank_input(&yes), BankCommand::Bank(true)));
    let no: Vec<char> = "n".chars().collect();
    assert!(matches!(parse_bank_input(&no), BankCommand::Bank(false)));
    let blank: Vec<char> = Vec::new();
    assert!(matches!(parse_bank_input(&blank), BankCommand::Bank(false)));
    let quit: Vec<char> = "q".chars().collect();
    assert!(matches!(parse_bank_input(&quit), BankCommand::Quit));
    // As in the console shell, a `y` wins over a `q` on the same line.
    let both: Vec<char> = "qy".chars().collect();
    assert!(matches!(parse_bank_input(&both), BankCommand::Bank(true)));
}
