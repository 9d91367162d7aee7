use vstd::prelude::*;
use crate::deck::Card;
use crate::deck::Deck;
use crate::deck::canonical_prefix;
use crate::deck::clamped;
use crate::shuffle::Shuffler;
use crate::shuffle::lemma_short_same_multiset;

verus! {

/// How many trials lie between two progress reports.
pub const REPORT_INTERVAL: u128 = 10_000_000;

/// The life of a run: workers not yet started, consuming trials, a match
/// found, and every worker told to stop.
#[derive(Debug, PartialEq, Eq, Structural, Copy, Clone)]
pub enum Phase {
    Initializing,
    Running,
    Matched,
    Terminated,
}

/// Trials per elapsed second; while no whole second has elapsed yet, the
/// raw trial count stands in for the rate.
pub open spec fn rate_of(shuffles: u128, elapsed_secs: u128) -> u128 {
    if elapsed_secs == 0 {
        shuffles
    } else {
        shuffles / elapsed_secs
    }
}

/// Trials per elapsed second, guarded against a sub-second elapsed time.
pub fn throughput(shuffles: u128, elapsed_secs: u128) -> (r: u128)
    ensures
        r == rate_of(shuffles, elapsed_secs),
{
    if elapsed_secs == 0 {
        shuffles
    } else {
        shuffles / elapsed_secs
    }
}

/// The single consumer of produced permutations: it holds the reference
/// deck, counts every permutation it sees, and decides when a run is over.
pub struct Coordinator {
    reference: Deck,
    shuffles: u128,
    phase: Phase,
}

impl Coordinator {
    /// The cards of the reference deck, in order.
    pub closed spec fn reference_view(&self) -> Seq<Card> {
        self.reference@
    }

    /// How many permutations have been consumed so far.
    pub closed spec fn trial_count(&self) -> u128 {
        self.shuffles
    }

    /// Where the coordinator stands in its life.
    pub closed spec fn phase_of(&self) -> Phase {
        self.phase
    }

    /// A fresh coordinator around a reference deck, before any worker runs.
    pub fn new(reference: Deck) -> (c: Coordinator)
        ensures
            c.reference_view() == reference@,
            c.trial_count() == 0,
            c.phase_of() == Phase::Initializing,
    {
        Coordinator { reference, shuffles: 0, phase: Phase::Initializing }
    }

    /// Workers are in place: begin consuming.
    pub fn start(&mut self)
        requires
            old(self).phase_of() == Phase::Initializing,
        ensures
            final(self).phase_of() == Phase::Running,
            final(self).reference_view() == old(self).reference_view(),
            final(self).trial_count() == old(self).trial_count(),
    {
        self.phase = Phase::Running;
    }

    /// Consume one produced permutation: count it, and report whether it
    /// matches the reference exactly. The count never decreases, and grows
    /// by one until it would overflow, where it stays put.
    pub fn observe(&mut self, candidate: &Deck) -> (matched: bool)
        requires
            old(self).phase_of() == Phase::Running,
        ensures
            matched == (candidate@ == old(self).reference_view()),
            final(self).reference_view() == old(self).reference_view(),
            final(self).trial_count() == if old(self).trial_count() < u128::MAX {
                old(self).trial_count() + 1
            } else {
                old(self).trial_count() as int
            },
            final(self).phase_of() == if matched {
                Phase::Matched
            } else {
                Phase::Running
            },
    {
        if self.shuffles < u128::MAX {
            self.shuffles = self.shuffles + 1;
        }
        let matched = self.reference.eq(candidate);
        if matched {
            self.phase = Phase::Matched;
        }
        matched
    }

    /// Whether the current trial count falls on a reporting boundary.
    pub fn report_due(&self) -> (due: bool)
        ensures
            due == (self.trial_count() % REPORT_INTERVAL == 0),
    {
        self.shuffles % REPORT_INTERVAL == 0
    }

    /// The match is found and the workers have been told: the run is over.
    pub fn terminate(&mut self)
        requires
            old(self).phase_of() == Phase::Matched,
        ensures
            final(self).phase_of() == Phase::Terminated,
            final(self).reference_view() == old(self).reference_view(),
            final(self).trial_count() == old(self).trial_count(),
    {
        self.phase = Phase::Terminated;
    }

    /// How many permutations have been consumed so far.
    pub fn shuffle_count(&self) -> (n: u128)
        ensures
            n == self.trial_count(),
    {
        self.shuffles
    }

    /// The reference deck.
    pub fn reference(&self) -> (d: &Deck)
        ensures
            d@ == self.reference_view(),
    {
        &self.reference
    }
}

/// The single-threaded variant: deal the reference deck, then shuffle a
/// working copy until it comes back in the reference order, or until the
/// trial budget runs out, and say how many trials the match took. A deck
/// of at most one card matches on the very first trial.
pub fn run_to_match(deck_size: usize, rng: rand::rngs::ThreadRng, max_trials: u64) -> (r: Option<
    u128,
>)
    ensures
        r is Some ==> 1 <= r->0 <= max_trials,
        clamped(deck_size as int) <= 1 && max_trials >= 1 ==> r == Some(1u128),
{
    let reference = Deck::deal(deck_size);
    let working = reference.clone();
    let mut shuffler = Shuffler::new(working, rng);
    let mut coordinator = Coordinator::new(reference);
    coordinator.start();
    let mut remaining: u64 = max_trials;
    while remaining > 0
        invariant
            remaining <= max_trials,
            coordinator.phase_of() == Phase::Running,
            coordinator.reference_view() == canonical_prefix(deck_size as int),
            coordinator.trial_count() == max_trials - remaining,
            shuffler.shuffled_view().len() == clamped(deck_size as int),
            shuffler.shuffled_view().to_multiset() == canonical_prefix(
                deck_size as int,
            ).to_multiset(),
            clamped(deck_size as int) <= 1 ==> remaining == max_trials,
        decreases remaining,
    {
        shuffler.shuffle();
        let matched = coordinator.observe(shuffler.shuffled());
        if matched {
            return Some(coordinator.shuffle_count());
        }
        proof {
            if clamped(deck_size as int) <= 1 {
                lemma_short_same_multiset(
                    shuffler.shuffled_view(),
                    canonical_prefix(deck_size as int),
                );
                assert(false);
            }
        }
        remaining = remaining - 1;
    }
    None
}

} // verus!
