use guessing_game::game::{compare_guess, GuessLoop, Phase, Reply, SECRET_MAX, SECRET_MIN};
use guessing_game::parse::{parse_guess, read_guess};

fn lines(items: &[&str]) -> Vec<String> {
    items.iter().map(|s| s.to_string()).collect()
}

#[test]
fn guess_above_secret_is_too_big() {
    let mut g = GuessLoop::new(42);
    assert_eq!(g.submit("50\n"), Reply::TooBig);
    assert_eq!(g.phase(), Phase::Prompting);
    assert!(!g.is_won());
}

#[test]
fn guess_below_secret_is_too_small() {
    let mut g = GuessLoop::new(42);
    assert_eq!(g.submit("10\n"), Reply::TooSmall);
    assert_eq!(g.phase(), Phase::Prompting);
}

#[test]
fn non_numeric_line_is_ignored_then_guess_wins() {
    let mut g = GuessLoop::new(42);
    let replies = g.play_lines(&lines(&["abc\n", "42\n"]));
    assert_eq!(replies, vec![Reply::Quiet, Reply::Victory]);
    assert_eq!(g.phase(), Phase::Won);
    assert!(g.is_won());
}

#[test]
fn smallest_secret_won_on_first_guess() {
    let mut g = GuessLoop::new(1);
    let replies = g.play_lines(&lines(&["1"]));
    assert_eq!(replies, vec![Reply::Victory]);
    assert!(g.is_won());
}

#[test]
fn no_input_never_wins() {
    let mut g = GuessLoop::new(42);
    let replies = g.play_lines(&Vec::new());
    assert!(replies.is_empty());
    assert_eq!(g.phase(), Phase::Prompting);
}

#[test]
fn every_secret_and_guess_gets_the_right_hint() {
    for s in SECRET_MIN..=SECRET_MAX {
        for guess in 0..=255u8 {
            let mut g = GuessLoop::new(s);
            let r = g.submit(&format!("{}\n", guess));
            if guess == s {
                assert_eq!(r, Reply::Victory);
                assert!(g.is_won());
            } else if guess < s {
                assert_eq!(r, Reply::TooSmall);
                assert_eq!(g.phase(), Phase::Prompting);
            } else {
                assert_eq!(r, Reply::TooBig);
                assert_eq!(g.phase(), Phase::Prompting);
            }
            assert_eq!(g.secret(), s);
        }
    }
}

#[test]
fn bad_lines_keep_prompting() {
    let mut g = GuessLoop::new(7);
    let bad = lines(&["abc", "", "256", "-1", "1000", "7.0", "+", "seven"]);
    let replies = g.play_lines(&bad);
    assert_eq!(replies, vec![Reply::Quiet; bad.len()]);
    assert_eq!(g.phase(), Phase::Prompting);
}

#[test]
fn first_guess_after_bad_lines_decides() {
    let mut g = GuessLoop::new(7);
    let replies = g.play_lines(&lines(&["x", "300", " 7 ", "8"]));
    assert_eq!(replies, vec![Reply::Quiet, Reply::Quiet, Reply::Victory]);
    assert!(g.is_won());
}

#[test]
fn wrong_guesses_keep_secret() {
    let mut g = GuessLoop::new(42);
    let replies = g.play_lines(&lines(&["1", "99", "abc", "41", "43"]));
    assert_eq!(
        replies,
        vec![Reply::TooSmall, Reply::TooBig, Reply::Quiet, Reply::TooSmall, Reply::TooBig]
    );
    assert_eq!(g.secret(), 42);
    assert_eq!(g.phase(), Phase::Prompting);
}

#[test]
fn step_by_step_transitions() {
    let mut g = GuessLoop::new(42);
    g.accept_line("  42\r\n");
    assert_eq!(g.phase(), Phase::Parsing);
    assert_eq!(g.advance(), Reply::Quiet);
    assert_eq!(g.phase(), Phase::Comparing);
    assert_eq!(g.advance(), Reply::Victory);
    assert_eq!(g.phase(), Phase::Won);

    let mut h = GuessLoop::new(42);
    h.accept_line("nope");
    assert_eq!(h.advance(), Reply::Quiet);
    assert_eq!(h.phase(), Phase::Prompting);
}

#[test]
fn started_game_has_secret_in_range() {
    for _ in 0..200 {
        let g = GuessLoop::start();
        assert!(g.secret() >= 1 && g.secret() <= 100);
        assert_eq!(g.phase(), Phase::Prompting);
    }
}

#[test]
fn compare_guess_three_ways() {
    assert_eq!(compare_guess(3, 5), Reply::TooSmall);
    assert_eq!(compare_guess(5, 5), Reply::Victory);
    assert_eq!(compare_guess(255, 100), Reply::TooBig);
}

#[test]
fn parse_guess_reads_u8_decimal() {
    assert_eq!(parse_guess("0"), Some(0));
    assert_eq!(parse_guess("255"), Some(255));
    assert_eq!(parse_guess("007"), Some(7));
    assert_eq!(parse_guess("+12"), Some(12));
    assert_eq!(parse_guess("256"), None);
    assert_eq!(parse_guess("99999999999"), None);
    assert_eq!(parse_guess(""), None);
    assert_eq!(parse_guess("+"), None);
    assert_eq!(parse_guess("-1"), None);
    assert_eq!(parse_guess("1a"), None);
    assert_eq!(parse_guess(" 1"), None);
    assert_eq!(parse_guess("\u{665}"), None);
}

#[test]
fn parse_guess_agrees_with_std() {
    for t in ["0", "1", "42", "255", "256", "+5", "++5", "-0", "", "12x", "0000000000009"] {
        assert_eq!(parse_guess(t), t.parse::<u8>().ok(), "{:?}", t);
    }
}

#[test]
fn read_guess_trims_white_space() {
    assert_eq!(read_guess("  42 \n"), Some(42));
    assert_eq!(read_guess("\t7\r\n"), Some(7));
    assert_eq!(read_guess("\u{3000}9\u{3000}"), Some(9));
    assert_eq!(read_guess("4 2"), None);
    assert_eq!(read_guess("\n"), None);
}
