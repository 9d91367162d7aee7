use deck_shuffle::Deck;

#[test]
fn decks_are_equal() {
    assert_eq!(Deck::deal(12), Deck::deal(12));
    assert_ne!(Deck::deal(13), Deck::deal(12));
}

#[test]
fn decks_can_be_displayed() {
    assert_eq!(Deck::deal(4).to_text(), "[CA, C2, C3, C4]")
}

#[test]
fn deals_have_the_requested_length() {
    for n in 0..=52 {
        assert_eq!(Deck::deal(n).len(), n);
    }
}

#[test]
fn deals_are_clamped_to_a_full_deck() {
    assert_eq!(Deck::deal(53).len(), 52);
    assert_eq!(Deck::deal(1000).len(), 52);
    assert_eq!(Deck::deal(53), Deck::deal(52));
}

#[test]
fn deals_hold_no_duplicates() {
    let deck = Deck::deal(52);
    for i in 0..52 {
        for j in (i + 1)..52 {
            assert_ne!(deck.card(i), deck.card(j));
        }
    }
}

#[test]
fn deals_are_prefixes_of_the_full_deck() {
    let full = Deck::deal(52);
    let part = Deck::deal(13);
    assert_eq!(part.len(), 13);
    for i in 0..13 {
        assert_eq!(part.card(i), full.card(i));
    }
}

#[test]
fn an_empty_deck_displays_as_bare_brackets() {
    assert_eq!(Deck::deal(0).to_text(), "[]");
}

#[test]
fn a_clone_equals_its_source() {
    let deck = Deck::deal(20);
    assert_eq!(deck.clone(), deck);
}
