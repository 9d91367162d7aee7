use deck_shuffle::Deck;
use deck_shuffle::Shuffler;

#[test]
fn displays_self() {
    let shuffler = Shuffler::new(Deck::deal(3), rand::thread_rng());
    assert_eq!(
        shuffler.to_text(),
        "cards:    [CA, C2, C3]\n\
             shuffled: [CA, C2, C3]\n"
    );
}

#[test]
fn shuffles_the_deck() {
    let mut shuffler = Shuffler::new(Deck::deal(52), rand::thread_rng());
    assert_eq!(shuffler.shuffled(), shuffler.original());
    shuffler.shuffle(); // The odds of this matching are astronomical.
    assert_ne!(shuffler.shuffled(), shuffler.original());
}

#[test]
fn shuffling_keeps_exactly_the_same_cards() {
    let mut shuffler = Shuffler::new(Deck::deal(10), rand::thread_rng());
    shuffler.shuffle();
    let original = shuffler.original();
    let shuffled = shuffler.shuffled();
    assert_eq!(shuffled.len(), 10);
    for i in 0..10 {
        let card = original.card(i);
        let mut found = 0;
        for j in 0..10 {
            if shuffled.card(j) == card {
                found += 1;
            }
        }
        assert_eq!(found, 1);
    }
}

#[test]
fn shuffling_a_tiny_deck_changes_nothing() {
    let mut shuffler = Shuffler::new(Deck::deal(1), rand::thread_rng());
    shuffler.shuffle();
    assert_eq!(shuffler.shuffled(), &Deck::deal(1));
    let mut empty = Shuffler::new(Deck::deal(0), rand::thread_rng());
    empty.shuffle();
    assert_eq!(empty.shuffled(), &Deck::deal(0));
}
