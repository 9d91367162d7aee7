use vstd::prelude::*;
use vstd::string::StringExecFns;
use crate::deck::Card;
use crate::deck::Deck;
use crate::deck::deck_chars;

verus! {

/// Relies on rand::rngs::ThreadRng being an ordinary owned value: the type
/// is declared so that a shuffler can hold its own randomness source; its
/// inside stays opaque.
#[verifier::external_type_specification]
#[verifier::external_body]
pub struct ExThreadRng(rand::rngs::ThreadRng);

/// Relies on rand::Rng::gen_range over the range `0..bound`: the
/// documentation promises a value inside the range, and a panic only on an
/// empty range, which the precondition rules out. The value drawn is
/// random, so nothing more is promised of it.
#[verifier::external_body]
fn pick_index(rng: &mut rand::rngs::ThreadRng, bound: usize) -> (r: usize)
    requires
        bound >= 1,
    ensures
        r < bound,
{
    rand::Rng::gen_range(rng, 0..bound)
}

/// Exchanging two positions of a sequence keeps its multiset of elements.
pub proof fn lemma_swap_keeps_multiset(s: Seq<Card>, i: int, j: int)
    requires
        0 <= i < s.len(),
        0 <= j < s.len(),
    ensures
        s.update(i, s[j]).update(j, s[i]).to_multiset() == s.to_multiset(),
{
    broadcast use vstd::seq_lib::group_to_multiset_ensures;

    if i == j {
        assert(s.update(i, s[j]).update(j, s[i]) =~= s);
    } else {
        let t = s.update(i, s[j]);
        assert(s.contains(s[i]));
        assert(s.contains(s[j]));
        assert(t[j] == s[j]);
        assert(t.update(j, s[i]).to_multiset() =~= s.to_multiset());
    }
}

/// A sequence with the same multiset as a duplicate-free one is itself
/// duplicate-free: no shuffle can put a duplicate card into a deck.
pub proof fn lemma_permutation_keeps_distinct(a: Seq<Card>, b: Seq<Card>)
    requires
        a.to_multiset() == b.to_multiset(),
        a.no_duplicates(),
    ensures
        b.no_duplicates(),
{
    a.lemma_multiset_has_no_duplicates();
    b.lemma_multiset_has_no_duplicates_conv();
}

/// Two sequences of at most one element with the same multiset are equal.
pub proof fn lemma_short_same_multiset(a: Seq<Card>, b: Seq<Card>)
    requires
        a.to_multiset() == b.to_multiset(),
        a.len() <= 1,
    ensures
        a == b,
{
    broadcast use vstd::seq_lib::group_to_multiset_ensures;

    assert(a.len() == a.to_multiset().len());
    assert(b.len() == b.to_multiset().len());
    if a.len() == 0 {
        assert(a =~= b);
    } else {
        assert(a.contains(a[0]));
        assert(a.to_multiset().count(a[0]) > 0);
        assert(b.to_multiset().count(a[0]) > 0);
        assert(b.contains(a[0]));
        let k = choose|k: int| 0 <= k < b.len() && b[k] == a[0];
        assert(b[0] == a[0]);
        assert(a =~= b);
    }
}

/// Produces random reorderings of a working copy of a deck, keeping the
/// original ordering untouched for comparison.
pub struct Shuffler {
    original: Deck,
    shuffled: Deck,
    rng: rand::rngs::ThreadRng,
}

impl Shuffler {
    /// The cards of the untouched original deck, in order.
    pub closed spec fn original_view(&self) -> Seq<Card> {
        self.original@
    }

    /// The cards of the working copy, in their current order.
    pub closed spec fn shuffled_view(&self) -> Seq<Card> {
        self.shuffled@
    }

    /// The working copy always holds exactly the cards of the original.
    pub open spec fn wf(&self) -> bool {
        self.shuffled_view().to_multiset() == self.original_view().to_multiset()
    }

    /// Start from a deck: the working copy begins in the original order.
    pub fn new(deck: Deck, rng: rand::rngs::ThreadRng) -> (s: Shuffler)
        ensures
            s.original_view() == deck@,
            s.shuffled_view() == deck@,
            s.wf(),
    {
        Shuffler { shuffled: deck.clone(), original: deck, rng }
    }

    /// The untouched original deck.
    pub fn original(&self) -> (d: &Deck)
        ensures
            d@ == self.original_view(),
    {
        &self.original
    }

    /// The current working copy.
    pub fn shuffled(&self) -> (d: &Deck)
        ensures
            d@ == self.shuffled_view(),
    {
        &self.shuffled
    }

    /// Reorder the working copy in place with a Fisher-Yates shuffle: walk
    /// the positions from the last down to the second, exchanging each with
    /// a randomly drawn position no later than itself. The working copy
    /// keeps exactly the cards it had; the original deck is untouched.
    pub fn shuffle(&mut self)
        ensures
            final(self).original_view() == old(self).original_view(),
            final(self).shuffled_view().len() == old(self).shuffled_view().len(),
            final(self).shuffled_view().to_multiset() == old(
                self,
            ).shuffled_view().to_multiset(),
            old(self).wf() ==> final(self).wf(),
            old(self).shuffled_view().len() <= 1 ==> final(self).shuffled_view() == old(
                self,
            ).shuffled_view(),
    {
        let n = self.shuffled.len();
        if n <= 1 {
            return;
        }
        let mut i: usize = n - 1;
        while i >= 1
            invariant
                1 <= n,
                i < n,
                self.shuffled@.len() == n,
                self.original@ == old(self).original@,
                self.shuffled@.to_multiset() == old(self).shuffled@.to_multiset(),
            decreases i,
        {
            let j = pick_index(&mut self.rng, i + 1);
            let ghost before = self.shuffled@;
            self.shuffled.swap_cards(i, j);
            proof {
                lemma_swap_keeps_multiset(before, i as int, j as int);
            }
            i -= 1;
        }
    }

    /// Render the original and the working copy, one per line.
    pub fn to_text(&self) -> (r: String)
        ensures
            r@ == "cards:    "@ + deck_chars(self.original_view()) + "\n"@ + "shuffled: "@
                + deck_chars(self.shuffled_view()) + "\n"@,
    {
        let mut out = String::new();
        out.append("cards:    ");
        let first = self.original.to_text();
        out.append(first.as_str());
        out.append("\n");
        out.append("shuffled: ");
        let second = self.shuffled.to_text();
        out.append(second.as_str());
        out.append("\n");
        proof {
            assert(out@ =~= "cards:    "@ + deck_chars(self.original_view()) + "\n"@
                + "shuffled: "@ + deck_chars(self.shuffled_view()) + "\n"@);
        }
        out
    }
}

} // verus!
