use guessing_game::game::GuessApp;

#[test]
fn reset_starts_a_fresh_game() {
    let mut g = GuessApp::new();
    g.reset(10);
    assert!(1 <= g.secret() && g.secret() <= 10);
    assert_eq!(g.max_range(), 10);
    assert_eq!(g.attempts(), 0);
    assert!(!g.won());
    assert_eq!(g.input_text().as_str(), "");
    assert_eq!(g.message().as_str(), "Guess a number between 1 and 10.");
}

#[test]
fn new_game_defaults_to_range_100() {
    let g = GuessApp::new();
    assert_eq!(g.max_range(), 100);
    assert!(1 <= g.secret() && g.secret() <= 100);
    assert_eq!(g.attempts(), 0);
    assert!(!g.won());
    assert_eq!(g.message().as_str(), "Guess a number between 1 and 100.");
}

#[test]
fn default_matches_new() {
    let g = GuessApp::default();
    assert_eq!(g.max_range(), 100);
    assert_eq!(g.attempts(), 0);
    assert!(!g.won());
}

#[test]
fn reset_clamps_small_ranges_to_two() {
    let mut g = GuessApp::new();
    g.reset(0);
    assert_eq!(g.max_range(), 2);
    assert_eq!(g.message().as_str(), "Guess a number between 1 and 2.");
    g.reset(1);
    assert_eq!(g.max_range(), 2);
    g.reset(2);
    assert_eq!(g.max_range(), 2);
    assert!(1 <= g.secret() && g.secret() <= 2);
}

#[test]
fn secret_stays_in_range_over_many_games() {
    let mut g = GuessApp::new();
    for max in 2..200u32 {
        g.reset(max);
        assert!(1 <= g.secret() && g.secret() <= max);
    }
}

#[test]
fn non_numeric_input_is_rejected_without_an_attempt() {
    let mut g = GuessApp::new();
    g.reset_with_secret(10, 7);
    for raw in ["abc", "", "12.5", "--3", "+3", "-3", " ", "7a", "a7", "1 2"] {
        g.submit_guess(raw.to_string());
        assert_eq!(g.attempts(), 0, "input {:?} must not count", raw);
        assert!(!g.won());
        assert_eq!(g.message().as_str(), "Please enter a valid whole number.");
    }
}

#[test]
fn overflowing_number_is_a_parse_failure() {
    let mut g = GuessApp::new();
    g.reset_with_secret(10, 7);
    g.submit_guess("4294967296".to_string());
    assert_eq!(g.attempts(), 0);
    assert_eq!(g.message().as_str(), "Please enter a valid whole number.");
}

#[test]
fn out_of_range_number_is_rejected_without_an_attempt() {
    let mut g = GuessApp::new();
    g.reset_with_secret(10, 7);
    g.submit_guess("0".to_string());
    assert_eq!(g.attempts(), 0);
    assert!(!g.won());
    assert_eq!(g.message().as_str(), "Please enter a number between 1 and 10.");
    g.submit_guess("11".to_string());
    assert_eq!(g.attempts(), 0);
    assert!(!g.won());
    assert_eq!(g.message().as_str(), "Please enter a number between 1 and 10.");
}

#[test]
fn rejected_guess_keeps_the_input_text() {
    let mut g = GuessApp::new();
    g.reset_with_secret(10, 7);
    g.submit_guess("11".to_string());
    assert_eq!(g.input_text().as_str(), "11");
    g.submit_guess("abc".to_string());
    assert_eq!(g.input_text().as_str(), "abc");
}

#[test]
fn whitespace_around_a_guess_is_trimmed() {
    let mut g = GuessApp::new();
    g.reset_with_secret(10, 7);
    g.submit_guess(" 3 \n".to_string());
    assert_eq!(g.attempts(), 1);
    assert_eq!(g.message().as_str(), "Too low! Try higher.");
}

#[test]
fn leading_zeros_read_as_the_same_number() {
    let mut g = GuessApp::new();
    g.reset_with_secret(10, 7);
    g.submit_guess("007".to_string());
    assert_eq!(g.attempts(), 1);
    assert!(g.won());
    assert_eq!(g.message().as_str(), "Correct! You guessed it in 1 tries.");
}

#[test]
fn full_game_scenario() {
    let mut g = GuessApp::new();
    g.reset_with_secret(10, 7);
    assert_eq!(g.secret(), 7);

    g.submit_guess("3".to_string());
    assert_eq!(g.message().as_str(), "Too low! Try higher.");
    assert_eq!(g.attempts(), 1);
    assert!(!g.won());

    g.submit_guess("9".to_string());
    assert_eq!(g.message().as_str(), "Too high! Try lower.");
    assert_eq!(g.attempts(), 2);
    assert!(!g.won());

    g.submit_guess("7".to_string());
    assert!(g.message().contains("3 tries"));
    assert_eq!(g.message().as_str(), "Correct! You guessed it in 3 tries.");
    assert_eq!(g.attempts(), 3);
    assert!(g.won());

    g.submit_guess("5".to_string());
    assert_eq!(g.attempts(), 3);
    assert!(g.won());
    assert_eq!(g.message().as_str(), "Correct! You guessed it in 3 tries.");
    assert_eq!(g.input_text().as_str(), "7");
}

#[test]
fn won_game_ignores_submissions_until_reset() {
    let mut g = GuessApp::new();
    g.reset_with_secret(5, 2);
    g.submit_guess("2".to_string());
    assert!(g.won());
    let message_before = g.message().clone();
    for raw in ["1", "abc", "99", "2"] {
        g.submit_guess(raw.to_string());
        assert!(g.won());
        assert_eq!(g.attempts(), 1);
        assert_eq!(g.message(), &message_before);
        assert_eq!(g.input_text().as_str(), "2");
    }
    g.reset(5);
    assert!(!g.won());
    assert_eq!(g.attempts(), 0);
}

#[test]
fn set_input_then_check_guess_matches_submit() {
    let mut g = GuessApp::new();
    g.reset_with_secret(10, 7);
    g.set_input("8".to_string());
    assert_eq!(g.input_text().as_str(), "8");
    g.check_guess();
    assert_eq!(g.attempts(), 1);
    assert_eq!(g.message().as_str(), "Too high! Try lower.");
}

#[test]
fn guessing_the_whole_range_always_wins() {
    let mut g = GuessApp::new();
    g.reset(20);
    let mut wins = 0;
    for v in 1..=20u32 {
        if !g.won() {
            g.submit_guess(v.to_string());
        }
        if g.won() {
            wins += 1;
        }
    }
    assert!(wins >= 1);
    assert!(g.won());
}

#[test]
fn huge_range_uses_full_u32_bounds() {
    let mut g = GuessApp::new();
    g.reset_with_secret(u32::MAX, 5);
    g.submit_guess("4294967295".to_string());
    assert_eq!(g.attempts(), 1);
    assert_eq!(g.message().as_str(), "Too high! Try lower.");
    g.submit_guess("5".to_string());
    assert!(g.won());
    assert_eq!(g.message().as_str(), "Correct! You guessed it in 2 tries.");
}

#[test]
fn attempt_count_appears_in_the_winning_message() {
    let mut g = GuessApp::new();
    g.reset_with_secret(100, 42);
    for wrong in ["1", "2", "3", "4", "5", "6", "7", "8", "9", "10", "11"] {
        g.submit_guess(wrong.to_string());
    }
    assert_eq!(g.attempts(), 11);
    g.submit_guess("42".to_string());
    assert_eq!(g.message().as_str(), "Correct! You guessed it in 12 tries.");
}
