//! Piles of cards. The draw pile, the discard pile and every hand are piles:
//! ordered sequences of cards whose front, index 0, is the top.

use crate::card::color::Color;
use crate::card::face::Face;
use crate::card::Card;
use crate::full_deck::{
    fresh_deck, number_face, numbers, repeated, run, standard_deck, suit_color, suits, wild_pair,
};
use crate::shuffle::{shuffle, shuffled};
use vstd::multiset::Multiset;
use vstd::prelude::*;
use vstd::seq_lib::{lemma_multiset_commutative, to_multiset_remove};

verus! {

/// Whether the pile `s` holds a card that is the same card as `card`.
pub open spec fn holds(s: Seq<Card>, card: Card) -> bool {
    exists|i: int| 0 <= i < s.len() && (#[trigger] s[i]).same_card(card)
}

/// The position, counted from the front, of the first card of `s` that is
/// the same card as `card`; the length of `s` where there is none.
pub open spec fn position(s: Seq<Card>, card: Card) -> int
    decreases s.len(),
{
    if s.len() == 0 {
        0
    } else if s[0].same_card(card) {
        0
    } else {
        1 + position(s.drop_first(), card)
    }
}

/// The pile `s` without the first of its cards that is the same card as
/// `card`; `s` itself where it holds none.
pub open spec fn without(s: Seq<Card>, card: Card) -> Seq<Card> {
    if position(s, card) < s.len() {
        s.remove(position(s, card))
    } else {
        s
    }
}

/// The cards of `s` in canonical form: wild cards under the color red.
pub open spec fn canon_seq(s: Seq<Card>) -> Seq<Card> {
    Seq::new(s.len(), |i: int| s[i].canon())
}

/// What a pile holds, whatever the order: its cards in canonical form, each
/// as often as it occurs.
pub open spec fn cards_of(s: Seq<Card>) -> Multiset<Card> {
    canon_seq(s).to_multiset()
}

/// `position` gives the first match: it lies within the pile exactly when the
/// pile holds the card, the card there is the same card, and no card before
/// it is.
pub proof fn lemma_position(s: Seq<Card>, card: Card)
    ensures
        0 <= position(s, card) <= s.len(),
        position(s, card) < s.len() <==> holds(s, card),
        position(s, card) < s.len() ==> s[position(s, card)].same_card(card),
        forall|j: int| 0 <= j < position(s, card) ==> !(#[trigger] s[j]).same_card(card),
    decreases s.len(),
{
    if s.len() > 0 && !s[0].same_card(card) {
        let t = s.drop_first();
        lemma_position(t, card);
        assert forall|j: int| 0 <= j < position(s, card) implies !(#[trigger] s[j]).same_card(
            card,
        ) by {
            if j > 0 {
                assert(s[j] == t[j - 1]);
            }
        }
        if holds(s, card) {
            let i = choose|i: int| 0 <= i < s.len() && (#[trigger] s[i]).same_card(card);
            assert(t[i - 1] == s[i]);
        }
        if position(t, card) < t.len() {
            assert(s[position(t, card) + 1] == t[position(t, card)]);
        }
    }
}

/// What two piles put together hold is what the one holds and what the
/// other holds.
pub proof fn lemma_cards_of_concat(a: Seq<Card>, b: Seq<Card>)
    ensures
        cards_of(a + b) == cards_of(a).add(cards_of(b)),
{
    assert(canon_seq(a + b) =~= canon_seq(a) + canon_seq(b));
    lemma_multiset_commutative(canon_seq(a), canon_seq(b));
}

/// A pile holds what it holds without the card at `i`, and that card.
pub proof fn lemma_cards_of_remove(s: Seq<Card>, i: int)
    requires
        0 <= i < s.len(),
    ensures
        cards_of(s) == cards_of(s.remove(i)).insert(s[i].canon()),
{
    broadcast use vstd::multiset::group_multiset_axioms;

    assert(canon_seq(s.remove(i)) =~= canon_seq(s).remove(i));
    to_multiset_remove(canon_seq(s), i);
    canon_seq(s).to_multiset_ensures();
    assert(canon_seq(s).to_multiset().count(canon_seq(s)[i]) > 0);
    assert(cards_of(s) =~= cards_of(s.remove(i)).insert(s[i].canon()));
}

/// A pile with a card put on its front holds that card and what it held.
pub proof fn lemma_cards_of_push_front(s: Seq<Card>, card: Card)
    ensures
        cards_of(seq![card] + s) == cards_of(s).insert(card.canon()),
{
    lemma_cards_of_remove(seq![card] + s, 0);
    assert((seq![card] + s).remove(0) =~= s);
}

/// A pile that holds a card holds what it holds without the first match of
/// that card, and the card.
pub proof fn lemma_cards_of_without(s: Seq<Card>, card: Card)
    requires
        holds(s, card),
    ensures
        cards_of(s) == cards_of(without(s, card)).insert(card.canon()),
{
    lemma_position(s, card);
    lemma_cards_of_remove(s, position(s, card));
}

/// A pile of one card holds that card.
pub proof fn lemma_cards_of_one(card: Card)
    ensures
        cards_of(seq![card]) == Multiset::<Card>::empty().insert(card.canon()),
{
    lemma_cards_of_push_front(Seq::empty(), card);
    assert(seq![card] + Seq::<Card>::empty() =~= seq![card]);
    lemma_cards_of_none();
}

/// An empty pile holds nothing.
pub proof fn lemma_cards_of_none()
    ensures
        cards_of(Seq::<Card>::empty()) == Multiset::<Card>::empty(),
{
    let none = canon_seq(Seq::<Card>::empty());
    none.to_multiset_ensures();
    vstd::multiset::lemma_multiset_empty_len(none.to_multiset());
}

/// Two piles that are reorderings of each other hold the same.
pub proof fn lemma_cards_of_permutation(a: Seq<Card>, b: Seq<Card>)
    requires
        a.to_multiset() == b.to_multiset(),
    ensures
        cards_of(a) == cards_of(b),
    decreases a.len(),
{
    broadcast use vstd::multiset::group_multiset_axioms;

    a.to_multiset_ensures();
    b.to_multiset_ensures();
    if a.len() == 0 {
        assert(a =~= b);
    } else {
        let x = a.last();
        assert(a.contains(x));
        assert(b.to_multiset().count(x) > 0);
        assert(b.contains(x));
        let j = choose|j: int| 0 <= j < b.len() && b[j] == x;
        let a1 = a.remove(a.len() - 1);
        let b1 = b.remove(j);
        to_multiset_remove(a, a.len() - 1);
        to_multiset_remove(b, j);
        lemma_cards_of_permutation(a1, b1);
        lemma_cards_of_remove(a, a.len() - 1);
        lemma_cards_of_remove(b, j);
    }
}

/// A pile of cards.
pub struct Deck {
    cards: Vec<Card>,
}

impl View for Deck {
    type V = Seq<Card>;

    /// The pile's cards from the front to the back.
    closed spec fn view(&self) -> Seq<Card> {
        self.cards@
    }
}

impl Deck {
    /// A pile that holds `cards`, the first of them at the front.
    pub fn new(cards: Vec<Card>) -> (r: Deck)
        ensures
            r@ == cards@,
    {
        Deck { cards }
    }

    /// Reorders the pile, with a seed taken from the system clock.
    pub fn shuffle(&mut self)
        ensures
            exists|seed: u32| final(self)@ == #[trigger] shuffled(old(self)@, seed),
    {
        shuffle(self.cards.as_mut_slice());
        assert(old(self)@ == old(self).cards@);
    }

    /// Takes the card at the back of the pile; `None`, and the pile as it
    /// was, where the pile is empty.
    pub fn draw(&mut self) -> (r: Option<Card>)
        ensures
            old(self)@.len() == 0 ==> r is None && final(self)@ == old(self)@,
            old(self)@.len() > 0 ==> r == Some(old(self)@.last()),
            old(self)@.len() > 0 ==> final(self)@ == old(self)@.drop_last(),
    {
        if self.cards.is_empty() {
            return None;
        }
        let last = self.cards.len() - 1;
        Some(self.cards.remove(last))
    }

    /// The card at the front of the pile, which stays where it is; `None`
    /// where the pile is empty.
    pub fn peek_top_card(&self) -> (r: Option<&Card>)
        ensures
            self@.len() == 0 ==> r is None,
            self@.len() > 0 ==> r == Some(&self@[0]),
    {
        if self.cards.is_empty() {
            return None;
        }
        Some(&self.cards[0])
    }

    /// Takes the card at the front off the pile.
    pub fn remove_top(&mut self) -> (r: Card)
        requires
            old(self)@.len() > 0,
        ensures
            r == old(self)@[0],
            final(self)@ == old(self)@.drop_first(),
    {
        self.cards.remove(0)
    }

    /// Moves every card of `other` to the back of this pile, in order.
    pub fn reclaim(&mut self, other: &mut Deck)
        ensures
            final(self)@ == old(self)@ + old(other)@,
            final(other)@ == Seq::<Card>::empty(),
    {
        self.cards.append(&mut other.cards);
    }

    /// Whether the pile holds a card that is the same card as `rhs`.
    pub fn has_card(&self, rhs: Card) -> (r: bool)
        ensures
            r == holds(self@, rhs),
    {
        let mut i: usize = 0;
        while i < self.cards.len()
            invariant
                i <= self.cards@.len(),
                forall|j: int| 0 <= j < i ==> !(#[trigger] self.cards@[j]).same_card(rhs),
            decreases self.cards@.len() - i,
        {
            if self.cards[i] == rhs {
                return true;
            }
            i += 1;
        }
        false
    }

    /// Puts `card` at the front of the pile.
    pub fn push_front(&mut self, card: Card)
        ensures
            final(self)@ == seq![card] + old(self)@,
    {
        self.cards.insert(0, card);
    }

    /// Takes out the first card, counted from the front, that is the same
    /// card as `card`; leaves the pile as it is where it holds none.
    pub fn remove_first_match(&mut self, card: Card)
        ensures
            final(self)@ == without(old(self)@, card),
    {
        let mut i: usize = 0;
        while i < self.cards.len()
            invariant
                i <= self.cards@.len(),
                self.cards@ == old(self).cards@,
                forall|j: int| 0 <= j < i ==> !(#[trigger] self.cards@[j]).same_card(card),
            decreases self.cards@.len() - i,
        {
            if self.cards[i] == card {
                proof {
                    lemma_position(self.cards@, card);
                }
                self.cards.remove(i);
                return ;
            }
            i += 1;
        }
        proof {
            lemma_position(self.cards@, card);
        }
    }
}

impl Default for Deck {
    /// A full deck, shuffled.
    fn default() -> (r: Deck)
        ensures
            exists|seed: u32| r@ == #[trigger] fresh_deck(seed),
    {
        let mut cards: Vec<Card> = Vec::with_capacity(108);
        let colors = [Color::Red, Color::Green, Color::Blue, Color::Yellow];
        let faces = [
            Face::One,
            Face::Two,
            Face::Three,
            Face::Four,
            Face::Five,
            Face::Six,
            Face::Seven,
            Face::Eight,
            Face::Nine,
        ];
        let mut c: usize = 0;
        while c < 4
            invariant
                c <= 4,
                cards@ == suits(c as nat),
                forall|k: int| 0 <= k < 4 ==> colors[k] == suit_color(k),
                forall|k: int| 0 <= k < 9 ==> faces[k] == number_face(k + 1),
            decreases 4 - c,
        {
            let color = colors[c];
            cards.push(Card::new(color, Face::Zero));
            let mut twice: usize = 0;
            while twice < 2
                invariant
                    twice <= 2,
                    c < 4,
                    color == suit_color(c as int),
                    cards@ == suits(c as nat) + seq![Card { color, face: Face::Zero }] + repeated(
                        run(color),
                        twice as nat,
                    ),
                    forall|k: int| 0 <= k < 9 ==> faces[k] == number_face(k + 1),
                decreases 2 - twice,
            {
                let ghost before = cards@;
                cards.push(Card::new(color, Face::DrawTwo));
                cards.push(Card::new(color, Face::Reverse));
                cards.push(Card::new(color, Face::Skip));
                let mut n: usize = 0;
                while n < 9
                    invariant
                        n <= 9,
                        cards@ == before + seq![
                            Card { color, face: Face::DrawTwo },
                            Card { color, face: Face::Reverse },
                            Card { color, face: Face::Skip },
                        ] + numbers(color, n as nat),
                        forall|k: int| 0 <= k < 9 ==> faces[k] == number_face(k + 1),
                    decreases 9 - n,
                {
                    cards.push(Card::new(color, faces[n]));
                    n += 1;
                }
                assert(cards@ == before + run(color));
                twice += 1;
            }
            c += 1;
        }
        let mut w: usize = 0;
        while w < 4
            invariant
                w <= 4,
                cards@ == suits(4) + repeated(wild_pair(), w as nat),
            decreases 4 - w,
        {
            cards.push(Card::new(Color::Red, Face::DrawFour));
            cards.push(Card::new(Color::Red, Face::ColorCard));
            w += 1;
        }
        let mut deck = Deck::new(cards);
        assert(deck@ == standard_deck());
        deck.shuffle();
        proof {
            let seed = choose|seed: u32| deck@ == #[trigger] shuffled(standard_deck(), seed);
            assert(deck@ == fresh_deck(seed));
        }
        deck
    }
}

impl core::ops::Deref for Deck {
    type Target = Vec<Card>;

    /// The cards of the pile, from the front to the back.
    fn deref(&self) -> (r: &Vec<Card>)
        ensures
            r@ == self@,
    {
        &self.cards
    }
}

impl From<Vec<Card>> for Deck {
    /// A pile that holds `cards`, the first of them at the front.
    fn from(cards: Vec<Card>) -> (r: Deck)
        ensures
            r@ == cards@,
    {
        Deck::new(cards)
    }
}

impl vstd::std_specs::convert::FromSpecImpl<Vec<Card>> for Deck {
    open spec fn obeys_from_spec() -> bool {
        false
    }

    open spec fn from_spec(cards: Vec<Card>) -> Deck {
        arbitrary()
    }
}

impl core::ops::AddAssign<Card> for Deck {
    /// Puts `rhs` at the front of the pile.
    fn add_assign(&mut self, rhs: Card)
        ensures
            final(self)@ == seq![rhs] + old(self)@,
    {
        self.push_front(rhs);
    }
}

impl core::ops::SubAssign<Card> for Deck {
    /// Takes the first card that is the same card as `rhs` out of the pile.
    fn sub_assign(&mut self, rhs: Card)
        ensures
            final(self)@ == without(old(self)@, rhs),
    {
        self.remove_first_match(rhs);
    }
}

} // verus!
