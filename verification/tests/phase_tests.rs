use string_evolver::candidate::{Candidate, FitnessView, Focus, Visibility};
use string_evolver::random::RandomSource;
use string_evolver::script::Event;
use string_evolver::state::{SimulationError, State};

const CLEAR: &str = "\x1B[2J";
const LETTERS: &str = "abcdefghijklmnopqrstuvwxyz ";

fn genomes(texts: &[&str]) -> Vec<String> {
    texts.iter().map(|text| text.to_string()).collect()
}

fn state_of(target: &str, texts: &[&str], keep: usize, columns: usize) -> State {
    State::with_genomes(target, LETTERS, &genomes(texts), keep, columns, 0).unwrap()
}

fn texts_of(state: &State) -> Vec<String> {
    state.population().iter().map(|candidate| candidate.text()).collect()
}

fn fitness_of(state: &State) -> Vec<i32> {
    state.population().iter().map(|candidate| candidate.fitness()).collect()
}

fn frames_of(events: &Vec<Event>) -> Vec<String> {
    let mut frames = Vec::new();
    for event in events {
        if let Event::Show(text) = event {
            frames.push(text.clone());
        }
    }
    frames
}

fn is_well_paced(events: &Vec<Event>) -> bool {
    if events.len() < 4 || events.len() % 2 != 0 {
        return false;
    }
    if events[0] != Event::Show(CLEAR.to_string()) {
        return false;
    }
    if events[events.len() - 1] != Event::Rest {
        return false;
    }
    let mut i = 1;
    while i + 1 < events.len() {
        if !matches!(events[i], Event::Show(_)) || events[i + 1] != Event::Beat {
            return false;
        }
        i += 2;
    }
    true
}

#[test]
fn new_state_has_no_population() {
    let state = State::new("hey", LETTERS, 60, 8, 5, 200_000).unwrap();
    assert_eq!(state.target(), "hey");
    assert_eq!(state.population_size(), 60);
    assert_eq!(state.num_fit_to_keep(), 8);
    assert_eq!(state.num_columns(), 5);
    assert_eq!(state.mutation_rate(), 200_000);
    assert_eq!(state.alphabet().len(), 27);
    assert!(state.population().is_empty());
    assert_eq!(state.width(), 55);
}

#[test]
fn empty_target_is_a_configuration_error() {
    assert_eq!(
        State::new("", LETTERS, 60, 8, 5, 200_000).err(),
        Some(SimulationError::Configuration)
    );
}

#[test]
fn empty_alphabet_is_a_configuration_error() {
    assert_eq!(
        State::new("hey", "", 60, 8, 5, 200_000).err(),
        Some(SimulationError::Configuration)
    );
}

#[test]
fn no_survivors_is_a_configuration_error() {
    assert_eq!(
        State::new("hey", LETTERS, 60, 0, 5, 200_000).err(),
        Some(SimulationError::Configuration)
    );
}

#[test]
fn as_many_survivors_as_candidates_is_a_configuration_error() {
    assert_eq!(
        State::new("hey", LETTERS, 8, 8, 5, 200_000).err(),
        Some(SimulationError::Configuration)
    );
    assert_eq!(
        State::new("hey", LETTERS, 8, 9, 5, 200_000).err(),
        Some(SimulationError::Configuration)
    );
    assert!(State::new("hey", LETTERS, 9, 8, 5, 200_000).is_ok());
}

#[test]
fn no_columns_is_a_configuration_error() {
    assert_eq!(
        State::new("hey", LETTERS, 60, 8, 0, 200_000).err(),
        Some(SimulationError::Configuration)
    );
}

#[test]
fn rate_beyond_certainty_is_a_configuration_error() {
    assert_eq!(
        State::new("hey", LETTERS, 60, 8, 5, 1_000_001).err(),
        Some(SimulationError::Configuration)
    );
    assert!(State::new("hey", LETTERS, 60, 8, 5, 1_000_000).is_ok());
    assert!(State::new("hey", LETTERS, 60, 8, 5, 0).is_ok());
}

#[test]
fn grid_too_wide_to_measure_is_a_configuration_error() {
    assert_eq!(
        State::new("hey", LETTERS, 60, 8, usize::MAX, 0).err(),
        Some(SimulationError::Configuration)
    );
}

#[test]
fn columns_need_not_divide_the_population() {
    assert!(State::new("hey", LETTERS, 7, 2, 3, 0).is_ok());
}

#[test]
fn genome_of_another_length_is_a_length_mismatch() {
    let made = State::with_genomes("hey", LETTERS, &genomes(&["abc", "ab", "xyz"]), 1, 1, 0);
    assert_eq!(made.err(), Some(SimulationError::LengthMismatch));
    let made = State::with_genomes("hey", LETTERS, &genomes(&["abc", "abcd"]), 1, 1, 0);
    assert_eq!(made.err(), Some(SimulationError::LengthMismatch));
}

#[test]
fn bad_parameters_come_before_a_length_mismatch() {
    let made = State::with_genomes("hey", LETTERS, &genomes(&["abc", "ab"]), 2, 1, 0);
    assert_eq!(made.err(), Some(SimulationError::Configuration));
}

#[test]
fn given_genomes_become_fresh_candidates() {
    let state = state_of("hey", &["abc", "hex", "hey"], 1, 1);
    assert_eq!(state.population_size(), 3);
    assert_eq!(texts_of(&state), vec!["abc", "hex", "hey"]);
    assert_eq!(fitness_of(&state), vec![-1, -1, -1]);
    for candidate in state.population() {
        assert_eq!(candidate.display_str("hey").unwrap(), "     ");
    }
    assert_eq!(state.candidate(1).text(), "hex");
}

#[test]
fn seeding_fills_the_population_from_the_alphabet() {
    let mut state = State::new("hello", "xyz", 12, 3, 4, 0).unwrap();
    let mut source = RandomSource::seeded(1);
    state.seed_population(&mut source);
    assert_eq!(state.population().len(), 12);
    for candidate in state.population() {
        assert_eq!(candidate.fitness(), -1);
        assert_eq!(candidate.symbols().len(), 5);
        assert!(candidate.symbols().iter().all(|symbol| "xyz".contains(*symbol)));
        assert_eq!(candidate.display_str("hello").unwrap(), "       ");
    }
}

#[test]
fn seeding_twice_changes_nothing() {
    let mut state = State::new("hello", LETTERS, 12, 3, 4, 0).unwrap();
    let mut source = RandomSource::seeded(2);
    state.seed_population(&mut source);
    let before = texts_of(&state);
    state.seed_population(&mut source);
    assert_eq!(texts_of(&state), before);
}

#[test]
fn seeding_a_given_population_changes_nothing() {
    let mut state = state_of("hey", &["abc", "hex", "hey"], 1, 1);
    let mut source = RandomSource::seeded(3);
    state.seed_population(&mut source);
    assert_eq!(texts_of(&state), vec!["abc", "hex", "hey"]);
}

#[test]
fn unveiling_draws_everyone() {
    let mut state = state_of("ab", &["aa", "ab", "ba", "bb"], 2, 2);
    let events = state.reveal_population();
    assert!(is_well_paced(&events));
    assert_eq!(events.len(), 12);
    for candidate in state.population() {
        assert_eq!(candidate.display_str("ab").unwrap().chars().count(), 4);
        assert!(!candidate.display_str("ab").unwrap().starts_with('\u{27a4}'));
        assert_ne!(candidate.display_str("ab").unwrap(), "    ");
    }
    assert_eq!(texts_of(&state), vec!["aa", "ab", "ba", "bb"]);
    assert_eq!(fitness_of(&state), vec![-1, -1, -1, -1]);
}

#[test]
fn unveiling_shows_one_more_candidate_in_each_frame() {
    let mut state = state_of("ab", &["aa", "ab", "ba", "bb"], 2, 2);
    let events = state.reveal_population();
    let frames = frames_of(&events);
    assert_eq!(frames.len(), 6);
    assert_eq!(frames[0], CLEAR);
    let head = "\n\n\x1B[1m\x1B[38;5;14mSeeding the population\x1B[39m\x1B[0m\n\n";
    assert_eq!(
        frames[1],
        format!("{}   \u{27a4} aa                \n                       \n\n", head)
    );
    assert_eq!(
        frames[2],
        format!("{}     aa                \n   \u{27a4} ab                \n\n", head)
    );
    assert_eq!(
        frames[3],
        format!("{}     aa      \u{27a4} ba      \n     ab                \n\n", head)
    );
    assert_eq!(
        frames[4],
        format!("{}     aa        ba      \n     ab      \u{27a4} bb      \n\n", head)
    );
    assert_eq!(
        frames[5],
        format!("{}     aa        ba      \n     ab        bb      \n\n", head)
    );
    assert_eq!(frames[5], state.frame("Seeding the population"));
}

#[test]
fn evaluation_scores_everyone() {
    let mut state = state_of("hey", &["abc", "hex", "hey", "yeh"], 2, 2);
    state.reveal_population();
    let events = state.compute_fitness();
    assert!(is_well_paced(&events));
    assert_eq!(frames_of(&events).len(), 6);
    assert_eq!(fitness_of(&state), vec![0, 2, 3, 1]);
    assert_eq!(texts_of(&state), vec!["abc", "hex", "hey", "yeh"]);
}

#[test]
fn evaluation_colours_what_it_scores() {
    let mut state = state_of("ab", &["ab", "bb"], 1, 1);
    state.reveal_population();
    let events = state.compute_fitness();
    let frames = frames_of(&events);
    let head = "\n\n\x1B[1m\x1B[38;5;14mComputing fitness\x1B[39m\x1B[0m\n\n";
    let green = "\x1B[38;5;10m";
    let red = "\x1B[38;5;9m";
    let plain = "\x1B[39m";
    let first = format!("{}a{}b{}", green, green, plain);
    let second = format!("{}b{}b{}", red, green, plain);
    assert_eq!(frames.len(), 4);
    assert_eq!(
        frames[1],
        format!("{}   \u{27a4} {}      \n     bb      \n\n", head, first)
    );
    assert_eq!(
        frames[2],
        format!("{}     {}      \n   \u{27a4} {}      \n\n", head, first, second)
    );
    assert_eq!(
        frames[3],
        format!("{}     {}      \n     {}      \n\n", head, first, second)
    );
}

#[test]
fn evaluation_passes_over_the_scored() {
    let mut state = state_of("hey", &["abc", "hex", "hey"], 1, 1);
    state.compute_fitness();
    let events = state.compute_fitness();
    assert!(is_well_paced(&events));
    assert_eq!(frames_of(&events).len(), 2);
    assert_eq!(fitness_of(&state), vec![0, 2, 3]);
}

#[test]
fn ranking_puts_the_fittest_first() {
    let mut state = state_of("hey", &["abc", "hex", "hey", "yeh"], 2, 2);
    state.compute_fitness();
    let events = state.order_by_fitness();
    assert!(is_well_paced(&events));
    assert_eq!(fitness_of(&state), vec![3, 2, 1, 0]);
    assert_eq!(texts_of(&state), vec!["hey", "hex", "yeh", "abc"]);
}

#[test]
fn ranking_sorts_what_one_pass_over_even_pairs_would_leave() {
    let mut state = state_of("hey", &["hey", "yeh", "hex", "abc"], 2, 2);
    state.compute_fitness();
    assert_eq!(fitness_of(&state), vec![3, 1, 2, 0]);
    state.order_by_fitness();
    assert_eq!(fitness_of(&state), vec![3, 2, 1, 0]);
}

#[test]
fn ranking_keeps_every_candidate() {
    let texts = [
        "aaaa", "heya", "hey ", "xxxx", "hexx", "h   ", "yyyy", "hey!", "zzzz", "he  ", "hez!",
    ];
    let mut state = state_of("hey!", &texts, 3, 3);
    state.compute_fitness();
    let events = state.order_by_fitness();
    assert!(is_well_paced(&events));
    let fitness = fitness_of(&state);
    for i in 0..fitness.len() - 1 {
        assert!(fitness[i] >= fitness[i + 1]);
    }
    let mut before: Vec<String> = texts.iter().map(|text| text.to_string()).collect();
    let mut after = texts_of(&state);
    before.sort();
    after.sort();
    assert_eq!(before, after);
    for candidate in state.population() {
        let mut again = Candidate::default(&candidate.text());
        again.set_fitness("hey!").unwrap();
        assert_eq!(candidate.fitness(), again.fitness());
    }
}

#[test]
fn ranking_of_a_ranked_population_shows_it_once() {
    let mut state = state_of("hey", &["hey", "hex", "yeh", "abc"], 2, 2);
    state.reveal_population();
    state.compute_fitness();
    let events = state.order_by_fitness();
    let frames = frames_of(&events);
    assert_eq!(frames.len(), 2);
    assert_eq!(frames[1], state.frame("Sorting by fitness"));
    assert_eq!(texts_of(&state), vec!["hey", "hex", "yeh", "abc"]);
}

#[test]
fn ranking_ends_on_the_ranked_population() {
    let mut state = state_of("hey", &["abc", "yeh", "hex", "hey", "hhh", "eee"], 2, 3);
    state.reveal_population();
    state.compute_fitness();
    let events = state.order_by_fitness();
    let frames = frames_of(&events);
    assert!(frames.len() >= 3);
    assert_eq!(frames[frames.len() - 1], state.frame("Sorting by fitness"));
}

#[test]
fn ranking_orders_the_unscored_last() {
    let mut state = state_of("hey", &["abc", "hey"], 1, 1);
    state.order_by_fitness();
    assert_eq!(fitness_of(&state), vec![-1, -1]);
    assert_eq!(texts_of(&state), vec!["abc", "hey"]);
}

#[test]
fn culling_blanks_all_but_the_survivors() {
    let mut state = state_of("hey", &["hey", "hex", "yeh", "abc", "xyz"], 2, 1);
    state.reveal_population();
    state.compute_fitness();
    let events = state.remove_unfit();
    assert!(is_well_paced(&events));
    assert_eq!(frames_of(&events).len(), 5);
    assert_eq!(texts_of(&state), vec!["hey", "hex", "yeh", "abc", "xyz"]);
    assert_eq!(fitness_of(&state), vec![3, 2, 1, 0, 0]);
    let population = state.population();
    assert_ne!(population[0].display_str("hey").unwrap(), "     ");
    assert_ne!(population[1].display_str("hey").unwrap(), "     ");
    assert_eq!(population[2].display_str("hey").unwrap(), "     ");
    assert_eq!(population[3].display_str("hey").unwrap(), "     ");
    assert_eq!(population[4].display_str("hey").unwrap(), "     ");
}

#[test]
fn culling_goes_from_the_last_candidate_down() {
    let mut state = state_of("ab", &["ab", "aa", "bb", "ba"], 2, 1);
    state.reveal_population();
    let events = state.remove_unfit();
    let frames = frames_of(&events);
    let head = "\n\n\x1B[1m\x1B[38;5;14mRemoving unfit candidates\x1B[39m\x1B[0m\n\n";
    assert_eq!(frames.len(), 4);
    assert_eq!(
        frames[1],
        format!(
            "{}     ab      \n     aa      \n     bb      \n   \u{27a4} ba      \n\n",
            head
        )
    );
    assert_eq!(
        frames[2],
        format!(
            "{}     ab      \n     aa      \n   \u{27a4} bb      \n             \n\n",
            head
        )
    );
    assert_eq!(
        frames[3],
        format!(
            "{}     ab      \n     aa      \n             \n             \n\n",
            head
        )
    );
}

#[test]
fn breeding_keeps_the_survivors_and_replaces_the_rest() {
    let mut state =
        State::with_genomes("hey", LETTERS, &genomes(&["hex", "yey", "aaa", "bbb", "ccc"]), 2, 1, 200_000)
            .unwrap();
    state.reveal_population();
    state.compute_fitness();
    state.remove_unfit();
    let survivors: Vec<String> =
        state.population()[..2].iter().map(|c| c.display_str("hey").unwrap()).collect();
    let mut source = RandomSource::seeded(4);
    let events = state.breed_new(&mut source).unwrap();
    assert!(is_well_paced(&events));
    assert_eq!(frames_of(&events).len(), 2 + 2 * 3);
    let population = state.population();
    assert_eq!(population.len(), 5);
    assert_eq!(population[0].text(), "hex");
    assert_eq!(population[1].text(), "yey");
    assert_eq!(population[0].fitness(), 2);
    assert_eq!(population[1].fitness(), 2);
    assert_eq!(population[0].display_str("hey").unwrap(), survivors[0]);
    assert_eq!(population[1].display_str("hey").unwrap(), survivors[1]);
    for child in &population[2..] {
        assert_eq!(child.fitness(), -1);
        assert_eq!(child.symbols().len(), 3);
        assert_eq!(child.display_str("hey").unwrap(), format!("  {}", child.text()));
    }
}

#[test]
fn breeding_without_mutation_recombines_two_different_survivors() {
    let first = "a".repeat(64);
    let second = "b".repeat(64);
    let filler = "c".repeat(64);
    let texts = [first.as_str(), second.as_str(), filler.as_str(), filler.as_str()];
    let target = "a".repeat(64);
    for seed in 0..10u64 {
        let mut state = state_of(&target, &texts, 2, 1);
        let mut source = RandomSource::seeded(seed);
        state.breed_new(&mut source).unwrap();
        for child in &state.population()[2..] {
            let symbols = child.symbols();
            assert!(symbols.iter().all(|symbol| *symbol == 'a' || *symbol == 'b'));
            assert!(symbols.contains(&'a'));
            assert!(symbols.contains(&'b'));
        }
    }
}

#[test]
fn breeding_with_one_survivor_is_an_invalid_sample_size() {
    let mut state = state_of("hey", &["hey", "hex", "abc"], 1, 1);
    state.compute_fitness();
    let mut source = RandomSource::seeded(5);
    assert_eq!(
        state.breed_new(&mut source).err(),
        Some(SimulationError::InvalidSampleSize)
    );
    assert_eq!(texts_of(&state), vec!["hey", "hex", "abc"]);
    assert_eq!(fitness_of(&state), vec![3, 2, 0]);
}

#[test]
fn render_adds_a_frame_and_a_beat() {
    let state = state_of("ab", &["aa", "ab"], 1, 1);
    let mut events = vec![Event::Rest];
    state.render("x", &mut events);
    assert_eq!(
        events,
        vec![Event::Rest, Event::Show(state.frame("x")), Event::Beat]
    );
}

#[test]
fn listing_of_a_state_goes_row_by_row() {
    let mut state = state_of("ab", &["aa", "ab", "ba", "bb"], 2, 2);
    state.reveal_population();
    let text = state.listing("x");
    assert!(text.ends_with("     aa        ab      \n     ba        bb      \n\n"));
    let mut hidden = Candidate::default("aa");
    hidden.set_visibility(Visibility::Invisible);
    assert_eq!(hidden.display_str("ab").unwrap(), "    ");
}

#[test]
fn phases_leave_nobody_in_focus() {
    let mut state =
        State::with_genomes("hey", LETTERS, &genomes(&["hex", "yey", "aaa", "bbb", "ccc"]), 2, 2, 200_000)
            .unwrap();
    let mut source = RandomSource::seeded(8);
    state.reveal_population();
    assert!(state.population().iter().all(|c| c.focus() == Focus::Off));
    assert!(state.population().iter().all(|c| c.visibility() == Visibility::Visible));
    state.compute_fitness();
    assert!(state.population().iter().all(|c| c.focus() == Focus::Off));
    assert!(state.population().iter().all(|c| c.fitness_view() == FitnessView::On));
    assert!(state.population().iter().all(|c| c.reveals_fitness()));
    state.order_by_fitness();
    assert!(state.population().iter().all(|c| c.focus() == Focus::Off));
    state.remove_unfit();
    assert!(state.population().iter().all(|c| c.focus() == Focus::Off));
    assert!(state.population()[..2].iter().all(|c| c.visibility() == Visibility::Visible));
    assert!(state.population()[2..].iter().all(|c| c.visibility() == Visibility::Invisible));
    state.breed_new(&mut source).unwrap();
    assert!(state.population().iter().all(|c| c.focus() == Focus::Off));
    assert!(state.population().iter().all(|c| c.visibility() == Visibility::Visible));
    assert!(state.population()[2..].iter().all(|c| c.fitness_view() == FitnessView::Off));
    assert!(state.population()[2..].iter().all(|c| !c.reveals_fitness()));
}

#[test]
fn breeding_shows_parents_and_child_in_focus() {
    let mut state = state_of("ab", &["ab", "bb", "aa"], 2, 1);
    state.reveal_population();
    state.remove_unfit();
    let mut source = RandomSource::seeded(12);
    let events = state.breed_new(&mut source).unwrap();
    let frames = frames_of(&events);
    assert_eq!(frames.len(), 4);
    let head = "\n\n\x1B[1m\x1B[38;5;14mCreating new candidates\x1B[39m\x1B[0m\n\n";
    assert_eq!(
        frames[1],
        format!(
            "{}   \u{27a4} ab      \n   \u{27a4} bb      \n   \u{27a4}         \n\n",
            head
        )
    );
    let child = state.candidate(2).text();
    assert_eq!(
        frames[2],
        format!(
            "{}   \u{27a4} ab      \n   \u{27a4} bb      \n   \u{27a4} {}      \n\n",
            head, child
        )
    );
    assert_eq!(
        frames[3],
        format!(
            "{}     ab      \n     bb      \n     {}      \n\n",
            head, child
        )
    );
}

#[test]
fn ranking_shows_an_exchange_at_the_front() {
    let mut state = state_of("hey", &["abc", "hey"], 1, 1);
    state.reveal_population();
    state.compute_fitness();
    let events = state.order_by_fitness();
    let frames = frames_of(&events);
    assert_eq!(frames.len(), 3);
    assert_eq!(frames[1], frames[2]);
    assert_eq!(frames[2], state.frame("Sorting by fitness"));
    assert_eq!(texts_of(&state), vec!["hey", "abc"]);
}

#[test]
fn ranking_passes_over_an_exchange_between_shown_places() {
    let mut state = state_of("hey", &["hey", "abc", "yeh"], 1, 1);
    state.reveal_population();
    state.compute_fitness();
    assert_eq!(fitness_of(&state), vec![3, 0, 1]);
    let events = state.order_by_fitness();
    assert_eq!(frames_of(&events).len(), 2);
    assert_eq!(texts_of(&state), vec!["hey", "yeh", "abc"]);
}

#[test]
fn ranking_shows_exchanges_at_every_fifth_place() {
    let texts = ["hey", "hex", "hez", "hhh", "eee", "abc", "yey"];
    let mut state = state_of("hey", &texts, 2, 1);
    state.reveal_population();
    state.compute_fitness();
    assert_eq!(fitness_of(&state), vec![3, 2, 2, 1, 1, 0, 2]);
    let events = state.order_by_fitness();
    let frames = frames_of(&events);
    assert_eq!(fitness_of(&state), vec![3, 2, 2, 2, 1, 1, 0]);
    assert_eq!(frames.len(), 3);
    let head = "\n\n\x1B[1m\x1B[38;5;14mSorting by fitness\x1B[39m\x1B[0m\n\n";
    let cell = |text: &str, target: &str| {
        let mut out = String::from("     ");
        for (symbol, wanted) in text.chars().zip(target.chars()) {
            out.push_str(if symbol == wanted { "\x1B[38;5;10m" } else { "\x1B[38;5;9m" });
            out.push(symbol);
        }
        out.push_str("\x1B[39m      \n");
        out
    };
    let mut expected = String::from(head);
    for text in ["hey", "hex", "hez", "hhh", "eee", "yey", "abc"] {
        expected.push_str(&cell(text, "hey"));
    }
    expected.push('\n');
    assert_eq!(frames[1], expected);
}

#[test]
fn ranking_leaves_a_ranked_population_in_its_order() {
    let texts = ["hey", "hex", "hez", "heq", "abc", "xyz"];
    let mut state = state_of("hey", &texts, 2, 2);
    state.reveal_population();
    state.compute_fitness();
    assert_eq!(fitness_of(&state), vec![3, 2, 2, 2, 0, 0]);
    let before = state.frame("Sorting by fitness");
    let events = state.order_by_fitness();
    assert_eq!(texts_of(&state), texts.to_vec());
    assert_eq!(
        events,
        vec![
            Event::Show(CLEAR.to_string()),
            Event::Show(before),
            Event::Beat,
            Event::Rest,
        ]
    );
}

#[test]
fn ranking_twice_changes_nothing_more() {
    let mut state = state_of("hey", &["abc", "yeh", "hex", "hey", "hhh", "eee"], 2, 3);
    state.compute_fitness();
    state.order_by_fitness();
    let ranked = texts_of(&state);
    let events = state.order_by_fitness();
    assert_eq!(texts_of(&state), ranked);
    assert_eq!(frames_of(&events).len(), 2);
}
