use vstd::prelude::*;
use vstd::string::StringExecFns;

verus! {

/// One of the four suits of a standard deck, in canonical order.
#[derive(Debug, PartialEq, Eq, Structural, Copy, Clone)]
pub enum Suit {
    Club,
    Spade,
    Heart,
    Diamond,
}

/// One of the thirteen faces of a suit, in canonical order (ace low).
#[derive(Debug, PartialEq, Eq, Structural, Copy, Clone)]
pub enum Face {
    Ace,
    Two,
    Three,
    Four,
    Five,
    Six,
    Seven,
    Eight,
    Nine,
    Ten,
    Jack,
    Queen,
    King,
}

/// A single card, identified by its suit and face.
#[derive(Debug, PartialEq, Eq, Structural, Copy, Clone)]
pub struct Card {
    pub suit: Suit,
    pub face: Face,
}

/// The suit at position `i` of the canonical suit order.
pub open spec fn suit_at(i: int) -> Suit {
    if i == 0 {
        Suit::Club
    } else if i == 1 {
        Suit::Spade
    } else if i == 2 {
        Suit::Heart
    } else {
        Suit::Diamond
    }
}

/// The face at position `i` of the canonical face order.
pub open spec fn face_at(i: int) -> Face {
    if i == 0 {
        Face::Ace
    } else if i == 1 {
        Face::Two
    } else if i == 2 {
        Face::Three
    } else if i == 3 {
        Face::Four
    } else if i == 4 {
        Face::Five
    } else if i == 5 {
        Face::Six
    } else if i == 6 {
        Face::Seven
    } else if i == 7 {
        Face::Eight
    } else if i == 8 {
        Face::Nine
    } else if i == 9 {
        Face::Ten
    } else if i == 10 {
        Face::Jack
    } else if i == 11 {
        Face::Queen
    } else {
        Face::King
    }
}

/// The card at position `i` of the canonical 52-card ordering:
/// suit-major, face-minor, ace low.
pub open spec fn card_at(i: int) -> Card {
    Card { suit: suit_at(i / 13), face: face_at(i % 13) }
}

/// A requested deck size, clamped to the 52 cards that exist.
pub open spec fn clamped(n: int) -> int {
    if n > 52 {
        52
    } else if n < 0 {
        0
    } else {
        n
    }
}

/// The first `n` cards (clamped) of the canonical ordering.
pub open spec fn canonical_prefix(n: int) -> Seq<Card> {
    Seq::new(clamped(n) as nat, |i: int| card_at(i))
}

/// Distinct positions of the canonical ordering hold distinct cards.
pub proof fn lemma_canonical_distinct(i: int, j: int)
    requires
        0 <= i < 52,
        0 <= j < 52,
        i != j,
    ensures
        card_at(i) != card_at(j),
{
    assert(i == 13 * (i / 13) + i % 13) by (nonlinear_arith);
    assert(j == 13 * (j / 13) + j % 13) by (nonlinear_arith);
}

/// A dealt deck never holds the same card twice: distinct positions of a
/// canonical prefix hold distinct cards.
pub proof fn lemma_deal_distinct(n: int)
    ensures
        forall|i: int, j: int|
            0 <= i < j < canonical_prefix(n).len() ==> canonical_prefix(n)[i]
                != canonical_prefix(n)[j],
{
    assert forall|i: int, j: int| 0 <= i < j < canonical_prefix(n).len() implies canonical_prefix(
        n,
    )[i] != canonical_prefix(n)[j] by {
        lemma_canonical_distinct(i, j);
    }
}

/// A dealt deck is a prefix of the full 52-card canonical ordering.
pub proof fn lemma_deal_prefix_of_full(n: int)
    requires
        n >= 0,
    ensures
        canonical_prefix(n) == canonical_prefix(52).take(clamped(n)),
{
    assert(canonical_prefix(n) =~= canonical_prefix(52).take(clamped(n)));
}

/// Dealing is deterministic: for sizes within the deck, two deals hold the
/// same cards exactly when the sizes agree.
pub proof fn lemma_deal_deterministic(k: int, j: int)
    requires
        0 <= k <= 52,
        0 <= j <= 52,
    ensures
        (canonical_prefix(k) == canonical_prefix(j)) <==> k == j,
{
    if k == j {
        assert(canonical_prefix(k) =~= canonical_prefix(j));
    } else {
        assert(canonical_prefix(k).len() != canonical_prefix(j).len());
    }
}

fn suit_from(i: usize) -> (s: Suit)
    requires
        i < 4,
    ensures
        s == suit_at(i as int),
{
    if i == 0 {
        Suit::Club
    } else if i == 1 {
        Suit::Spade
    } else if i == 2 {
        Suit::Heart
    } else {
        Suit::Diamond
    }
}

fn face_from(i: usize) -> (f: Face)
    requires
        i < 13,
    ensures
        f == face_at(i as int),
{
    if i == 0 {
        Face::Ace
    } else if i == 1 {
        Face::Two
    } else if i == 2 {
        Face::Three
    } else if i == 3 {
        Face::Four
    } else if i == 4 {
        Face::Five
    } else if i == 5 {
        Face::Six
    } else if i == 6 {
        Face::Seven
    } else if i == 7 {
        Face::Eight
    } else if i == 8 {
        Face::Nine
    } else if i == 9 {
        Face::Ten
    } else if i == 10 {
        Face::Jack
    } else if i == 11 {
        Face::Queen
    } else {
        Face::King
    }
}

fn card_from(i: usize) -> (c: Card)
    requires
        i < 52,
    ensures
        c == card_at(i as int),
{
    Card { suit: suit_from(i / 13), face: face_from(i % 13) }
}

/// The one-character code that names a suit.
pub open spec fn suit_char(s: Suit) -> char {
    match s {
        Suit::Club => 'C',
        Suit::Spade => 'S',
        Suit::Heart => 'H',
        Suit::Diamond => 'D',
    }
}

/// The one-character code that names a face.
pub open spec fn face_char(f: Face) -> char {
    match f {
        Face::Ace => 'A',
        Face::Two => '2',
        Face::Three => '3',
        Face::Four => '4',
        Face::Five => '5',
        Face::Six => '6',
        Face::Seven => '7',
        Face::Eight => '8',
        Face::Nine => '9',
        Face::Ten => 'T',
        Face::Jack => 'J',
        Face::Queen => 'Q',
        Face::King => 'K',
    }
}

/// The two-character code of a card: suit code, then face code.
pub open spec fn card_chars(c: Card) -> Seq<char> {
    seq![suit_char(c.suit), face_char(c.face)]
}

/// The codes of a run of cards, separated by comma and space.
pub open spec fn cards_chars(s: Seq<Card>) -> Seq<char>
    decreases s.len(),
{
    if s.len() == 0 {
        Seq::empty()
    } else if s.len() == 1 {
        card_chars(s[0])
    } else {
        cards_chars(s.drop_last()) + seq![',', ' '] + card_chars(s.last())
    }
}

/// The text of a whole deck: its cards' codes, bracketed.
pub open spec fn deck_chars(s: Seq<Card>) -> Seq<char> {
    seq!['['] + cards_chars(s) + seq![']']
}

fn suit_str(s: Suit) -> (r: &'static str)
    ensures
        r@ == seq![suit_char(s)],
{
    match s {
        Suit::Club => {
            proof {
                reveal_strlit("C");
                assert("C"@ =~= seq!['C']);
            }
            "C"
        },
        Suit::Spade => {
            proof {
                reveal_strlit("S");
                assert("S"@ =~= seq!['S']);
            }
            "S"
        },
        Suit::Heart => {
            proof {
                reveal_strlit("H");
                assert("H"@ =~= seq!['H']);
            }
            "H"
        },
        Suit::Diamond => {
            proof {
                reveal_strlit("D");
                assert("D"@ =~= seq!['D']);
            }
            "D"
        },
    }
}

fn face_str(f: Face) -> (r: &'static str)
    ensures
        r@ == seq![face_char(f)],
{
    match f {
        Face::Ace => {
            proof {
                reveal_strlit("A");
                assert("A"@ =~= seq!['A']);
            }
            "A"
        },
        Face::Two => {
            proof {
                reveal_strlit("2");
                assert("2"@ =~= seq!['2']);
            }
            "2"
        },
        Face::Three => {
            proof {
                reveal_strlit("3");
                assert("3"@ =~= seq!['3']);
            }
            "3"
        },
        Face::Four => {
            proof {
                reveal_strlit("4");
                assert("4"@ =~= seq!['4']);
            }
            "4"
        },
        Face::Five => {
            proof {
                reveal_strlit("5");
                assert("5"@ =~= seq!['5']);
            }
            "5"
        },
        Face::Six => {
            proof {
                reveal_strlit("6");
                assert("6"@ =~= seq!['6']);
            }
            "6"
        },
        Face::Seven => {
            proof {
                reveal_strlit("7");
                assert("7"@ =~= seq!['7']);
            }
            "7"
        },
        Face::Eight => {
            proof {
                reveal_strlit("8");
                assert("8"@ =~= seq!['8']);
            }
            "8"
        },
        Face::Nine => {
            proof {
                reveal_strlit("9");
                assert("9"@ =~= seq!['9']);
            }
            "9"
        },
        Face::Ten => {
            proof {
                reveal_strlit("T");
                assert("T"@ =~= seq!['T']);
            }
            "T"
        },
        Face::Jack => {
            proof {
                reveal_strlit("J");
                assert("J"@ =~= seq!['J']);
            }
            "J"
        },
        Face::Queen => {
            proof {
                reveal_strlit("Q");
                assert("Q"@ =~= seq!['Q']);
            }
            "Q"
        },
        Face::King => {
            proof {
                reveal_strlit("K");
                assert("K"@ =~= seq!['K']);
            }
            "K"
        },
    }
}

/// An ordered deck of cards, at most 52 of them.
#[derive(Debug)]
pub struct Deck {
    cards: Vec<Card>,
}

impl View for Deck {
    type V = Seq<Card>;

    closed spec fn view(&self) -> Seq<Card> {
        self.cards@
    }
}

impl Deck {
    /// Every deck is well formed: at most 52 cards, none of them twice.
    pub open spec fn wf(&self) -> bool {
        self@.len() <= 52 && self@.no_duplicates()
    }

    /// Deal a deck holding the first `num_cards` cards of the canonical
    /// ordering; a request for more than 52 is clamped to the full deck.
    pub fn deal(num_cards: usize) -> (deck: Deck)
        ensures
            deck@ == canonical_prefix(num_cards as int),
            deck@.len() == clamped(num_cards as int),
            deck.wf(),
    {
        let n = if num_cards > 52 { 52 } else { num_cards };
        let mut cards: Vec<Card> = Vec::new();
        let mut i: usize = 0;
        while i < n
            invariant
                i <= n <= 52,
                cards@.len() == i,
                forall|k: int| 0 <= k < i ==> cards@[k] == card_at(k),
            decreases n - i,
        {
            cards.push(card_from(i));
            i += 1;
        }
        proof {
            assert(cards@ =~= canonical_prefix(num_cards as int));
            lemma_deal_distinct(num_cards as int);
        }
        Deck { cards }
    }

    /// How many cards the deck holds.
    pub fn len(&self) -> (n: usize)
        ensures
            n == self@.len(),
    {
        self.cards.len()
    }

    /// The card at position `i`.
    pub fn card(&self, i: usize) -> (c: Card)
        requires
            i < self@.len(),
        ensures
            c == self@[i as int],
    {
        self.cards[i]
    }

    /// Render the deck as text: the cards' two-character codes, separated
    /// by comma and space, inside square brackets.
    pub fn to_text(&self) -> (r: String)
        ensures
            r@ == deck_chars(self@),
    {
        let ghost s = self.cards@;
        let mut out = String::new();
        proof {
            reveal_strlit("[");
            assert("["@ =~= seq!['[']);
        }
        out.append("[");
        proof {
            assert(out@ =~= seq!['['] + cards_chars(s.take(0)));
        }
        let mut i: usize = 0;
        while i < self.cards.len()
            invariant
                i <= s.len(),
                s == self.cards@,
                out@ == seq!['['] + cards_chars(s.take(i as int)),
            decreases s.len() - i,
        {
            if i > 0 {
                proof {
                    reveal_strlit(", ");
                    assert(", "@ =~= seq![',', ' ']);
                }
                out.append(", ");
            }
            let c = self.cards[i];
            out.append(suit_str(c.suit));
            out.append(face_str(c.face));
            proof {
                assert(s.take(i + 1).drop_last() =~= s.take(i as int));
                assert(s.take(i + 1).last() == s[i as int]);
                assert(out@ =~= seq!['['] + cards_chars(s.take(i + 1)));
            }
            i += 1;
        }
        proof {
            assert(s.take(s.len() as int) =~= s);
            reveal_strlit("]");
            assert("]"@ =~= seq![']']);
        }
        out.append("]");
        proof {
            assert(out@ =~= deck_chars(self@));
        }
        out
    }

    /// Exchange the cards at positions `i` and `j`.
    pub fn swap_cards(&mut self, i: usize, j: usize)
        requires
            i < old(self)@.len(),
            j < old(self)@.len(),
        ensures
            final(self)@ == old(self)@.update(i as int, old(self)@[j as int]).update(
                j as int,
                old(self)@[i as int],
            ),
    {
        let a = self.cards[i];
        let b = self.cards[j];
        vstd::pervasive::VecAdditionalExecFns::set(&mut self.cards, i, b);
        vstd::pervasive::VecAdditionalExecFns::set(&mut self.cards, j, a);
    }
}

impl Clone for Deck {
    /// A clone holds the same cards in the same order.
    fn clone(&self) -> (other: Deck)
        ensures
            other@ == self@,
    {
        let mut cards: Vec<Card> = Vec::new();
        let mut i: usize = 0;
        while i < self.cards.len()
            invariant
                i <= self.cards@.len(),
                cards@.len() == i,
                forall|k: int| 0 <= k < i ==> cards@[k] == self.cards@[k],
            decreases self.cards@.len() - i,
        {
            cards.push(self.cards[i]);
            i += 1;
        }
        proof {
            assert(cards@ =~= self.cards@);
        }
        Deck { cards }
    }
}

impl PartialEq for Deck {
    /// Two decks are equal when they hold the same cards in the same order.
    fn eq(&self, other: &Deck) -> (r: bool) {
        if self.cards.len() != other.cards.len() {
            return false;
        }
        let mut i: usize = 0;
        while i < self.cards.len()
            invariant
                i <= self.cards@.len(),
                self.cards@.len() == other.cards@.len(),
                forall|k: int| 0 <= k < i ==> self.cards@[k] == other.cards@[k],
            decreases self.cards@.len() - i,
        {
            if self.cards[i] != other.cards[i] {
                return false;
            }
            i += 1;
        }
        proof {
            assert(self.cards@ =~= other.cards@);
        }
        true
    }
}

impl vstd::std_specs::cmp::PartialEqSpecImpl for Deck {
    open spec fn obeys_eq_spec() -> bool {
        true
    }

    open spec fn eq_spec(&self, other: &Deck) -> bool {
        self@ == other@
    }
}

impl Eq for Deck {

}

} // verus!
