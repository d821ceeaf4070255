use rust_tours::guess::Outcome;
use rust_tours::numeral::ParseError;
use rust_tours::resolver::{
    banner, feedback, prompt, GuessResolver, InputReadFailure, State, Step, HIGHEST, LOWEST,
};

fn lines(raw: &[&str]) -> Vec<String> {
    raw.iter().map(|line| line.to_string()).collect()
}

fn session(target: u32) -> GuessResolver {
    GuessResolver::with_target(target).unwrap()
}

/// Finds a fresh session's target by guessing every number in turn.
fn target_of(mut resolver: GuessResolver) -> u32 {
    let mut guess: u32 = 0;
    while guess <= 1000 {
        if resolver.submit(&guess.to_string()) == Some(Step::Judged(Outcome::Equal)) {
            return guess;
        }
        guess += 1;
    }
    panic!("no guess up to 1000 hit the target");
}

#[test]
fn the_range_is_one_to_a_hundred() {
    assert_eq!(LOWEST, 1);
    assert_eq!(HIGHEST, 100);
}

#[test]
fn with_target_takes_targets_in_range_only() {
    assert!(GuessResolver::with_target(0).is_none());
    assert!(GuessResolver::with_target(101).is_none());
    assert!(GuessResolver::with_target(u32::MAX).is_none());
    let mut target: u32 = 1;
    while target <= 100 {
        let made = GuessResolver::with_target(target).unwrap();
        assert_eq!(made.state(), State::AwaitingInput);
        assert_eq!(target_of(made), target);
        target += 1;
    }
}

#[test]
fn a_guess_below_is_too_small() {
    let mut resolver = session(50);
    assert_eq!(resolver.submit("25\n"), Some(Step::Judged(Outcome::Less)));
    assert_eq!(resolver.state(), State::AwaitingInput);
}

#[test]
fn a_guess_above_is_too_big() {
    let mut resolver = session(50);
    assert_eq!(resolver.submit("75\n"), Some(Step::Judged(Outcome::Greater)));
    assert_eq!(resolver.state(), State::AwaitingInput);
}

#[test]
fn a_guess_at_the_target_ends_the_session() {
    let mut resolver = session(50);
    assert_eq!(resolver.submit("50\n"), Some(Step::Judged(Outcome::Equal)));
    assert_eq!(resolver.state(), State::Terminal);
}

#[test]
fn a_line_without_a_guess_is_rejected_and_nothing_changes() {
    for raw in ["abc", "", "12.5", "-1"] {
        let mut resolver = session(50);
        assert_eq!(resolver.submit(raw), Some(Step::Rejected(ParseError::Malformed)));
        assert_eq!(resolver.state(), State::AwaitingInput);
        assert_eq!(target_of(resolver), 50);
    }
}

#[test]
fn a_guess_too_large_for_32_bits_is_rejected() {
    let mut resolver = session(50);
    assert_eq!(resolver.submit("4294967296"), Some(Step::Rejected(ParseError::OutOfRange)));
    assert_eq!(resolver.state(), State::AwaitingInput);
    assert_eq!(resolver.submit("4294967295"), Some(Step::Judged(Outcome::Greater)));
    assert_eq!(resolver.submit("0"), Some(Step::Judged(Outcome::Less)));
}

#[test]
fn repeated_rejections_leave_the_target_and_the_state_alone() {
    let mut resolver = session(7);
    let mut round: u32 = 0;
    while round < 50 {
        assert_eq!(resolver.submit("abc\n"), Some(Step::Rejected(ParseError::Malformed)));
        assert_eq!(feedback(Step::Rejected(ParseError::Malformed)), None);
        assert_eq!(resolver.state(), State::AwaitingInput);
        round += 1;
    }
    assert_eq!(resolver.submit("6\n"), Some(Step::Judged(Outcome::Less)));
    assert_eq!(resolver.submit("8\n"), Some(Step::Judged(Outcome::Greater)));
    assert_eq!(resolver.submit("7\n"), Some(Step::Judged(Outcome::Equal)));
}

#[test]
fn a_session_that_is_over_takes_no_more_lines() {
    let mut resolver = session(50);
    assert_eq!(resolver.submit("50"), Some(Step::Judged(Outcome::Equal)));
    assert_eq!(resolver.submit("50"), None);
    assert_eq!(resolver.submit("abc"), None);
    assert_eq!(resolver.submit("1"), None);
    assert_eq!(resolver.state(), State::Terminal);
}

#[test]
fn scenario_target_fifty() {
    let mut resolver = session(50);
    let report = resolver.run_session(&lines(&["abc", "25", "75", "50"]));
    assert_eq!(
        report.steps,
        vec![
            Step::Rejected(ParseError::Malformed),
            Step::Judged(Outcome::Less),
            Step::Judged(Outcome::Greater),
            Step::Judged(Outcome::Equal),
        ]
    );
    assert_eq!(report.end, Ok(()));
    assert_eq!(resolver.state(), State::Terminal);
    let judged: usize = report.steps.iter().filter(|s| matches!(s, Step::Judged(_))).count();
    assert_eq!(judged, 3);
    let said: Vec<Option<&str>> = report.steps.iter().map(|s| feedback(*s)).collect();
    assert_eq!(said, vec![None, Some("Too small!"), Some("Too big!"), Some("You win!")]);
}

#[test]
fn scenario_target_one() {
    let mut resolver = session(1);
    let report = resolver.run_session(&lines(&["1"]));
    assert_eq!(report.steps, vec![Step::Judged(Outcome::Equal)]);
    assert_eq!(report.end, Ok(()));
    assert_eq!(resolver.state(), State::Terminal);
    let hints: usize = report
        .steps
        .iter()
        .filter(|s| matches!(s, Step::Judged(Outcome::Less) | Step::Judged(Outcome::Greater)))
        .count();
    assert_eq!(hints, 0);
}

#[test]
fn the_session_ends_at_the_first_hit_and_not_before() {
    let mut resolver = session(42);
    let script = lines(&["1", "x", "100", "41", "43", "42\n", "42", "7", "abc"]);
    let mut taken: usize = 0;
    while taken < 5 {
        let mut prefix = session(42);
        let report = prefix.run_session(&script[..taken].to_vec());
        assert_eq!(prefix.state(), State::AwaitingInput);
        assert_eq!(report.steps.len(), taken);
        assert_eq!(report.end, Err(InputReadFailure));
        taken += 1;
    }
    let report = resolver.run_session(&script);
    assert_eq!(report.steps.len(), 6);
    assert_eq!(report.steps[5], Step::Judged(Outcome::Equal));
    assert!(report.steps[..5].iter().all(|s| *s != Step::Judged(Outcome::Equal)));
    assert_eq!(report.end, Ok(()));
    assert_eq!(resolver.state(), State::Terminal);
}

#[test]
fn input_that_runs_out_fails_the_session() {
    let mut resolver = session(50);
    let report = resolver.run_session(&lines(&["10", "nope", "90"]));
    assert_eq!(
        report.steps,
        vec![
            Step::Judged(Outcome::Less),
            Step::Rejected(ParseError::Malformed),
            Step::Judged(Outcome::Greater),
        ]
    );
    assert_eq!(report.end, Err(InputReadFailure));
    assert_eq!(resolver.state(), State::AwaitingInput);
    let mut fresh = session(50);
    let nothing = fresh.run_session(&Vec::new());
    assert!(nothing.steps.is_empty());
    assert_eq!(nothing.end, Err(InputReadFailure));
}

#[test]
fn a_session_that_is_over_runs_over_nothing() {
    let mut resolver = session(9);
    assert_eq!(resolver.submit("9"), Some(Step::Judged(Outcome::Equal)));
    let report = resolver.run_session(&lines(&["1", "2", "9"]));
    assert!(report.steps.is_empty());
    assert_eq!(report.end, Ok(()));
}

#[test]
fn sessions_do_not_share_their_targets() {
    let mut first = session(10);
    let mut second = session(20);
    assert_eq!(first.submit("10"), Some(Step::Judged(Outcome::Equal)));
    assert_eq!(second.submit("10"), Some(Step::Judged(Outcome::Less)));
    assert_eq!(second.state(), State::AwaitingInput);
    assert_eq!(second.submit("20"), Some(Step::Judged(Outcome::Equal)));
}

#[test]
fn initialize_draws_a_target_in_range() {
    let mut round: u32 = 0;
    while round < 300 {
        let resolver = GuessResolver::initialize();
        assert_eq!(resolver.state(), State::AwaitingInput);
        let target: u32 = target_of(resolver);
        assert!(1 <= target && target <= 100, "{}", target);
        round += 1;
    }
}

#[test]
fn initialize_draws_more_than_one_target() {
    let first: u32 = target_of(GuessResolver::initialize());
    let mut differing: u32 = 0;
    let mut round: u32 = 0;
    while round < 300 {
        if target_of(GuessResolver::initialize()) != first {
            differing += 1;
        }
        round += 1;
    }
    assert!(differing > 0);
}

#[test]
fn the_words_of_a_session() {
    assert_eq!(banner(), "Guess the number!");
    assert_eq!(prompt(), "please input your guess.");
    assert_eq!(feedback(Step::Judged(Outcome::Less)), Some("Too small!"));
    assert_eq!(feedback(Step::Judged(Outcome::Greater)), Some("Too big!"));
    assert_eq!(feedback(Step::Judged(Outcome::Equal)), Some("You win!"));
    assert_eq!(feedback(Step::Rejected(ParseError::Malformed)), None);
    assert_eq!(feedback(Step::Rejected(ParseError::OutOfRange)), None);
}

#[test]
fn every_target_can_be_hit_by_writing_it() {
    let mut target: u32 = 1;
    while target <= 100 {
        let mut resolver = session(target);
        assert_eq!(resolver.submit(&target.to_string()), Some(Step::Judged(Outcome::Equal)));
        assert_eq!(resolver.state(), State::Terminal);
        target += 1;
    }
}
