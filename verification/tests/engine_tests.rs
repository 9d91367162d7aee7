use deck_shuffle::Coordinator;
use deck_shuffle::Deck;
use deck_shuffle::engine::run_to_match;
use deck_shuffle::engine::throughput;
use deck_shuffle::engine::REPORT_INTERVAL;

#[test]
fn trivial_decks_match_on_the_first_trial() {
    assert_eq!(run_to_match(0, rand::thread_rng(), 10), Some(1));
    assert_eq!(run_to_match(1, rand::thread_rng(), 10), Some(1));
}

#[test]
fn a_short_deck_matches_within_a_statistical_bound() {
    // A 3-card deck matches with chance 1/6 per trial, so 100000 trials
    // all failing has vanishing probability.
    let trials = run_to_match(3, rand::thread_rng(), 100_000);
    assert!(trials.is_some());
    assert!(trials.unwrap() >= 1);
}

#[test]
fn an_exhausted_budget_reports_no_match() {
    // A 52-card deck will not come back in order within two trials.
    assert_eq!(run_to_match(52, rand::thread_rng(), 2), None);
}

#[test]
fn coordinator_counts_every_observation_and_spots_the_match() {
    let mut coordinator = Coordinator::new(Deck::deal(3));
    assert_eq!(coordinator.reference(), &Deck::deal(3));
    assert_eq!(coordinator.shuffle_count(), 0);
    coordinator.start();
    let wrong = Deck::deal(2);
    assert!(!coordinator.observe(&wrong));
    assert_eq!(coordinator.shuffle_count(), 1);
    assert!(!coordinator.report_due());
    let right = Deck::deal(3);
    assert!(coordinator.observe(&right));
    assert_eq!(coordinator.shuffle_count(), 2);
    coordinator.terminate();
}

#[test]
fn throughput_guards_a_zero_elapsed_time() {
    assert_eq!(throughput(100, 0), 100);
    assert_eq!(throughput(100, 4), 25);
    assert_eq!(throughput(0, 0), 0);
}

#[test]
fn reports_fall_every_ten_million_trials() {
    assert_eq!(REPORT_INTERVAL, 10_000_000);
}
