use string_evolver::candidate::{Candidate, FitnessView, Focus, Visibility};
use string_evolver::error::SimulationError;
use string_evolver::genetics::score;
use string_evolver::text::{chars_of, decimal_string, string_of};

const GREEN: &str = "\x1B[38;5;10m";
const RED: &str = "\x1B[38;5;9m";
const PLAIN: &str = "\x1B[39m";

fn shown(text: &str) -> Candidate {
    let mut candidate = Candidate::default(text);
    candidate.set_visibility(Visibility::Visible);
    candidate
}

#[test]
fn default_candidate_is_unscored_and_hidden() {
    let candidate = Candidate::default("hey");
    assert_eq!(candidate.text(), "hey");
    assert_eq!(candidate.fitness(), -1);
    assert_eq!(candidate.display_str("hey").unwrap(), "     ");
}

#[test]
fn new_candidate_starts_like_a_default_one() {
    let candidate =
        Candidate::new("hey", Focus::On, Visibility::Visible, FitnessView::On);
    assert_eq!(candidate.text(), "hey");
    assert_eq!(candidate.fitness(), -1);
    assert_eq!(candidate.display_str("hey").unwrap(), Candidate::default("hey").display_str("hey").unwrap());
}

#[test]
fn from_symbols_owns_the_genome() {
    let candidate = Candidate::from_symbols(vec!['a', ' ', 'z']);
    assert_eq!(candidate.text(), "a z");
    assert_eq!(candidate.symbols(), &vec!['a', ' ', 'z']);
    assert_eq!(candidate.fitness(), -1);
}

#[test]
fn toggle_focus_flips_the_marker() {
    let mut candidate = shown("hey");
    assert_eq!(candidate.display_str("hey").unwrap(), "  hey");
    candidate.toggle_focus();
    assert_eq!(candidate.display_str("hey").unwrap(), "\u{27a4} hey");
    candidate.toggle_focus();
    assert_eq!(candidate.display_str("hey").unwrap(), "  hey");
}

#[test]
fn toggle_visibility_blanks_and_draws() {
    let mut candidate = Candidate::default("hello");
    assert_eq!(candidate.display_str("hello").unwrap(), "       ");
    candidate.toggle_visibility();
    assert_eq!(candidate.display_str("hello").unwrap(), "  hello");
    candidate.toggle_visibility();
    assert_eq!(candidate.display_str("hello").unwrap(), "       ");
}

#[test]
fn hidden_candidate_in_focus_keeps_its_marker() {
    let mut candidate = Candidate::default("ab");
    candidate.set_focus(Focus::On);
    assert_eq!(candidate.display_str("ab").unwrap(), "\u{27a4}   ");
}

#[test]
fn blank_is_as_wide_as_the_genome() {
    let candidate = Candidate::default("abcd");
    assert_eq!(candidate.display_str("wxyz").unwrap(), "      ");
    assert_eq!(Candidate::default("").display_str("").unwrap(), "  ");
}

#[test]
fn display_against_a_target_of_another_length_is_a_length_mismatch() {
    let mut candidate = Candidate::default("abcd");
    assert_eq!(candidate.display_str("xy"), Err(SimulationError::LengthMismatch));
    assert_eq!(candidate.display_str("vwxyz"), Err(SimulationError::LengthMismatch));
    candidate.set_visibility(Visibility::Visible);
    assert_eq!(candidate.display_str(""), Err(SimulationError::LengthMismatch));
    candidate.set_fitness("abcx").unwrap();
    candidate.set_fitness_view(FitnessView::On);
    assert_eq!(candidate.display_str("abc"), Err(SimulationError::LengthMismatch));
    assert!(candidate.display_str("abcx").is_ok());
}

#[test]
fn set_flags_are_idempotent() {
    let mut candidate = Candidate::default("hey");
    candidate.set_visibility(Visibility::Visible);
    candidate.set_visibility(Visibility::Visible);
    candidate.set_focus(Focus::On);
    candidate.set_focus(Focus::On);
    assert_eq!(candidate.display_str("hey").unwrap(), "\u{27a4} hey");
    candidate.set_focus(Focus::Off);
    candidate.set_visibility(Visibility::Invisible);
    assert_eq!(candidate.display_str("hey").unwrap(), "     ");
}

#[test]
fn set_fitness_counts_matching_positions() {
    let mut candidate = Candidate::default("hey");
    candidate.set_fitness("hex").unwrap();
    assert_eq!(candidate.fitness(), 2);
    candidate.set_fitness("hey").unwrap();
    assert_eq!(candidate.fitness(), 3);
    candidate.set_fitness("abc").unwrap();
    assert_eq!(candidate.fitness(), 0);
    candidate.set_fitness("yeh").unwrap();
    assert_eq!(candidate.fitness(), 1);
}

#[test]
fn set_fitness_leaves_text_and_flags_alone() {
    let mut candidate = shown("hey");
    candidate.set_focus(Focus::On);
    candidate.set_fitness("hex").unwrap();
    assert_eq!(candidate.text(), "hey");
    assert_eq!(candidate.display_str("hex").unwrap(), "\u{27a4} hey");
}

#[test]
fn fitness_against_a_target_of_another_length_is_a_length_mismatch() {
    let mut long = Candidate::default("heyyy");
    assert_eq!(long.set_fitness("hey"), Err(SimulationError::LengthMismatch));
    assert_eq!(long.fitness(), -1);
    let mut short = Candidate::default("he");
    assert_eq!(short.set_fitness("hey"), Err(SimulationError::LengthMismatch));
    assert_eq!(short.fitness(), -1);
    let mut empty = Candidate::default("");
    assert_eq!(empty.set_fitness("hey"), Err(SimulationError::LengthMismatch));
    assert_eq!(empty.fitness(), -1);
    assert_eq!(empty.set_fitness(""), Ok(()));
    assert_eq!(empty.fitness(), 0);
}

#[test]
fn refused_scoring_leaves_the_candidate_as_it_was() {
    let mut candidate = shown("hey");
    candidate.set_focus(Focus::On);
    candidate.set_fitness("hex").unwrap();
    candidate.set_fitness_view(FitnessView::On);
    let before = candidate.display_str("hex").unwrap();
    assert_eq!(candidate.set_fitness("he"), Err(SimulationError::LengthMismatch));
    assert_eq!(candidate.fitness(), 2);
    assert_eq!(candidate.text(), "hey");
    assert_eq!(candidate.focus(), Focus::On);
    assert_eq!(candidate.visibility(), Visibility::Visible);
    assert_eq!(candidate.fitness_view(), FitnessView::On);
    assert_eq!(candidate.display_str("hex").unwrap(), before);
}

#[test]
fn target_scores_its_own_length() {
    for text in ["", "a", "hey", "hello world"] {
        let mut candidate = Candidate::default(text);
        candidate.set_fitness(text).unwrap();
        assert_eq!(candidate.fitness() as usize, text.chars().count());
    }
}

#[test]
fn unscored_candidate_is_never_coloured() {
    let mut candidate = shown("hey");
    candidate.set_fitness_view(FitnessView::On);
    assert_eq!(candidate.display_str("hey").unwrap(), "  hey");
}

#[test]
fn scored_candidate_is_plain_until_the_view_is_on() {
    let mut candidate = shown("hey");
    candidate.set_fitness("hex").unwrap();
    assert_eq!(candidate.display_str("hex").unwrap(), "  hey");
    candidate.toggle_fitness_view();
    assert_ne!(candidate.display_str("hex").unwrap(), "  hey");
    candidate.toggle_fitness_view();
    assert_eq!(candidate.display_str("hex").unwrap(), "  hey");
}

#[test]
fn coloured_display_marks_every_symbol() {
    let mut candidate = shown("hey");
    candidate.set_fitness("hex").unwrap();
    candidate.set_fitness_view(FitnessView::On);
    let expected = format!("  {}h{}e{}y{}", GREEN, GREEN, RED, PLAIN);
    assert_eq!(candidate.display_str("hex").unwrap(), expected);
}

#[test]
fn coloured_display_in_focus() {
    let mut candidate = shown("ab");
    candidate.set_fitness("bb").unwrap();
    candidate.set_fitness_view(FitnessView::On);
    candidate.toggle_focus();
    let expected = format!("\u{27a4} {}a{}b{}", RED, GREEN, PLAIN);
    assert_eq!(candidate.display_str("bb").unwrap(), expected);
}

#[test]
fn coloured_display_follows_the_target_it_is_shown_against() {
    let mut candidate = shown("hey");
    candidate.set_fitness("hey").unwrap();
    candidate.set_fitness_view(FitnessView::On);
    let expected = format!("  {}h{}e{}y{}", GREEN, GREEN, GREEN, PLAIN);
    assert_eq!(candidate.display_str("hey").unwrap(), expected);
    let expected = format!("  {}h{}e{}y{}", RED, GREEN, RED, PLAIN);
    assert_eq!(candidate.display_str("yeh").unwrap(), expected);
}

#[test]
fn clone_copies_everything() {
    let mut candidate = shown("hey");
    candidate.set_fitness("hex").unwrap();
    candidate.set_fitness_view(FitnessView::On);
    candidate.set_focus(Focus::On);
    let copy = candidate.clone();
    assert_eq!(copy.text(), "hey");
    assert_eq!(copy.fitness(), 2);
    assert_eq!(copy.display_str("hex").unwrap(), candidate.display_str("hex").unwrap());
}

#[test]
fn score_lies_between_zero_and_the_length() {
    let target = chars_of("hello world");
    for genome in ["hello world", "xxxxxxxxxxx", "hellx wxrld", "dlrow olleh"] {
        let count = score(&chars_of(genome), &target).unwrap();
        assert!(count <= target.len());
    }
    assert_eq!(score(&target, &target).unwrap(), target.len());
    assert_eq!(score(&chars_of("xxxxxxxxxxx"), &target).unwrap(), 0);
    assert_eq!(score(&chars_of("hellx wxrld"), &target).unwrap(), 9);
    assert_eq!(score(&chars_of("dlrow olleh"), &target).unwrap(), 1);
}

#[test]
fn score_of_empty_sequences_is_zero() {
    assert_eq!(score(&Vec::new(), &Vec::new()), Ok(0));
}

#[test]
fn score_against_a_target_of_another_length_is_a_length_mismatch() {
    assert_eq!(score(&Vec::new(), &chars_of("abc")), Err(SimulationError::LengthMismatch));
    assert_eq!(score(&chars_of("abcd"), &chars_of("abc")), Err(SimulationError::LengthMismatch));
    assert_eq!(score(&chars_of("ab"), &chars_of("abc")), Err(SimulationError::LengthMismatch));
    assert_eq!(score(&chars_of("abd"), &chars_of("abc")), Ok(2));
}

#[test]
fn chars_and_strings_round_trip() {
    assert_eq!(chars_of("a \u{27a4}z"), vec!['a', ' ', '\u{27a4}', 'z']);
    assert_eq!(string_of(&vec!['h', 'e', 'y']), "hey");
    assert_eq!(string_of(&chars_of("hello world")), "hello world");
    assert_eq!(chars_of(""), Vec::<char>::new());
}

#[test]
fn decimal_strings() {
    assert_eq!(decimal_string(0), "0");
    assert_eq!(decimal_string(7), "7");
    assert_eq!(decimal_string(10), "10");
    assert_eq!(decimal_string(1234567890), "1234567890");
    assert_eq!(decimal_string(usize::MAX), usize::MAX.to_string());
}

#[test]
fn flags_of_a_default_candidate() {
    let candidate = Candidate::default("hey");
    assert_eq!(candidate.focus(), Focus::Off);
    assert_eq!(candidate.visibility(), Visibility::Invisible);
    assert_eq!(candidate.fitness_view(), FitnessView::Off);
    assert!(!candidate.reveals_fitness());
}

#[test]
fn flags_follow_toggles_and_sets() {
    let mut candidate = Candidate::default("hey");
    candidate.toggle_focus();
    assert_eq!(candidate.focus(), Focus::On);
    candidate.toggle_visibility();
    assert_eq!(candidate.visibility(), Visibility::Visible);
    candidate.toggle_fitness_view();
    assert_eq!(candidate.fitness_view(), FitnessView::On);
    candidate.set_focus(Focus::Off);
    candidate.set_visibility(Visibility::Invisible);
    candidate.set_fitness_view(FitnessView::Off);
    assert_eq!(candidate.focus(), Focus::Off);
    assert_eq!(candidate.visibility(), Visibility::Invisible);
    assert_eq!(candidate.fitness_view(), FitnessView::Off);
    assert_eq!(candidate.text(), "hey");
    assert_eq!(candidate.fitness(), -1);
}

#[test]
fn fitness_is_revealed_only_once_scored() {
    let mut candidate = Candidate::default("hey");
    candidate.set_fitness_view(FitnessView::On);
    assert!(!candidate.reveals_fitness());
    candidate.set_fitness("abc").unwrap();
    assert_eq!(candidate.fitness(), 0);
    assert!(candidate.reveals_fitness());
    candidate.set_fitness_view(FitnessView::Off);
    assert!(!candidate.reveals_fitness());
}
