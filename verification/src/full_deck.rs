//! The full deck: the 108 cards that a game is played with.

use crate::card::color::Color;
use crate::card::face::Face;
use crate::card::Card;
use crate::deck::{
    cards_of, lemma_cards_of_concat, lemma_cards_of_none, lemma_cards_of_one,
    lemma_cards_of_permutation,
};
use crate::shuffle::{lemma_shuffled_permutes, shuffled};
use vstd::prelude::*;

verus! {

/// The color of the suit with index `k`, in the order in which a deck is
/// built.
pub open spec fn suit_color(k: int) -> Color {
    if k == 0 {
        Color::Red
    } else if k == 1 {
        Color::Green
    } else if k == 2 {
        Color::Blue
    } else {
        Color::Yellow
    }
}

/// The face of the number card `n`, for `n` from one to nine.
pub open spec fn number_face(n: int) -> Face {
    if n == 1 {
        Face::One
    } else if n == 2 {
        Face::Two
    } else if n == 3 {
        Face::Three
    } else if n == 4 {
        Face::Four
    } else if n == 5 {
        Face::Five
    } else if n == 6 {
        Face::Six
    } else if n == 7 {
        Face::Seven
    } else if n == 8 {
        Face::Eight
    } else {
        Face::Nine
    }
}

/// The first `n` number cards of a color, from one upwards.
pub open spec fn numbers(color: Color, n: nat) -> Seq<Card> {
    Seq::new(n, |k: int| Card { color, face: number_face(k + 1) })
}

/// The twelve cards that a suit holds twice: draw two, reverse, skip, and
/// the numbers one to nine.
pub open spec fn run(color: Color) -> Seq<Card> {
    seq![
        Card { color, face: Face::DrawTwo },
        Card { color, face: Face::Reverse },
        Card { color, face: Face::Skip },
    ] + numbers(color, 9)
}

/// `s` laid out `n` times, one copy after the other.
pub open spec fn repeated(s: Seq<Card>, n: nat) -> Seq<Card>
    decreases n,
{
    if n == 0 {
        Seq::empty()
    } else {
        repeated(s, (n - 1) as nat) + s
    }
}

/// The twenty-five cards of a color: one zero and two runs.
pub open spec fn suit(color: Color) -> Seq<Card> {
    seq![Card { color, face: Face::Zero }] + repeated(run(color), 2)
}

/// The first `n` suits.
pub open spec fn suits(n: nat) -> Seq<Card>
    decreases n,
{
    if n == 0 {
        Seq::empty()
    } else {
        suits((n - 1) as nat) + suit(suit_color(n - 1))
    }
}

/// The two wild cards, a draw four and a color change, kept under the color
/// red.
pub open spec fn wild_pair() -> Seq<Card> {
    seq![
        Card { color: Color::Red, face: Face::DrawFour },
        Card { color: Color::Red, face: Face::ColorCard },
    ]
}

/// The full deck as it is built, before it is shuffled: the four suits, then
/// four pairs of wild cards.
pub open spec fn standard_deck() -> Seq<Card> {
    suits(4) + repeated(wild_pair(), 4)
}

/// How often the full deck holds `card`: each wild card four times, kept
/// under the color red; of each color one zero, and two of every other
/// face.
pub open spec fn copies(card: Card) -> nat {
    if card.face.is_wild() {
        if card.color == Color::Red {
            4
        } else {
            0
        }
    } else if card.face == Face::Zero {
        1
    } else {
        2
    }
}

/// The number that a number face shows; zero for every other face.
spec fn rank(face: Face) -> int {
    match face {
        Face::One => 1,
        Face::Two => 2,
        Face::Three => 3,
        Face::Four => 4,
        Face::Five => 5,
        Face::Six => 6,
        Face::Seven => 7,
        Face::Eight => 8,
        Face::Nine => 9,
        _ => 0,
    }
}

/// The index of a color's suit in the order in which a deck is built.
spec fn suit_index(color: Color) -> int {
    match color {
        Color::Red => 0,
        Color::Green => 1,
        Color::Blue => 2,
        Color::Yellow => 3,
    }
}

/// The full deck in the order into which seed `seed` shuffles it.
pub open spec fn fresh_deck(seed: u32) -> Seq<Card> {
    shuffled(standard_deck(), seed)
}

/// A fresh deck is the standard deck reordered: 108 cards, each as often as
/// the standard deck has it.
pub proof fn lemma_fresh_deck(seed: u32)
    ensures
        fresh_deck(seed).len() == 108,
        fresh_deck(seed).to_multiset() == standard_deck().to_multiset(),
{
    lemma_shuffled_permutes(standard_deck(), seed);
    lemma_standard_deck_len();
}

/// The standard deck has 108 cards.
pub proof fn lemma_standard_deck_len()
    ensures
        standard_deck().len() == 108,
{
    reveal_with_fuel(suits, 5);
    reveal_with_fuel(repeated, 5);
}

/// A fresh deck holds what the standard deck holds.
pub proof fn lemma_cards_of_fresh_deck(seed: u32)
    ensures
        cards_of(fresh_deck(seed)) == cards_of(standard_deck()),
{
    lemma_fresh_deck(seed);
    lemma_cards_of_permutation(fresh_deck(seed), standard_deck());
}

/// A pile with a card put on its back holds that card and what it held.
proof fn lemma_cards_of_push(s: Seq<Card>, card: Card)
    ensures
        cards_of(s.push(card)) == cards_of(s).insert(card.canon()),
{
    broadcast use vstd::multiset::group_multiset_axioms;

    assert(s.push(card) =~= s + seq![card]);
    lemma_cards_of_concat(s, seq![card]);
    lemma_cards_of_one(card);
    assert(cards_of(s.push(card)) =~= cards_of(s).insert(card.canon()));
}

/// The first `n` number cards of a color hold each of them once.
proof fn lemma_numbers_count(color: Color, n: nat, card: Card)
    requires
        n <= 9,
    ensures
        cards_of(numbers(color, n)).count(card) == (if card.color == color && 1 <= rank(card.face)
            <= n {
            1nat
        } else {
            0nat
        }),
    decreases n,
{
    broadcast use vstd::multiset::group_multiset_axioms;

    if n == 0 {
        assert(numbers(color, 0) =~= Seq::<Card>::empty());
        lemma_cards_of_none();
    } else {
        let before = numbers(color, (n - 1) as nat);
        let last = Card { color, face: number_face(n as int) };
        assert(numbers(color, n) =~= before.push(last));
        lemma_cards_of_push(before, last);
        lemma_numbers_count(color, (n - 1) as nat, card);
    }
}

/// A run holds each of its twelve cards once.
proof fn lemma_run_count(color: Color, card: Card)
    ensures
        cards_of(run(color)).count(card) == (if card.color == color && !card.face.is_wild()
            && card.face != Face::Zero {
            1nat
        } else {
            0nat
        }),
{
    broadcast use vstd::multiset::group_multiset_axioms;

    let draw_two = Card { color, face: Face::DrawTwo };
    let reverse = Card { color, face: Face::Reverse };
    let skip = Card { color, face: Face::Skip };
    let actions = seq![draw_two, reverse, skip];
    assert(actions =~= Seq::<Card>::empty().push(draw_two).push(reverse).push(skip));
    lemma_cards_of_none();
    lemma_cards_of_push(Seq::<Card>::empty(), draw_two);
    lemma_cards_of_push(Seq::<Card>::empty().push(draw_two), reverse);
    lemma_cards_of_push(Seq::<Card>::empty().push(draw_two).push(reverse), skip);
    lemma_numbers_count(color, 9, card);
    lemma_cards_of_concat(actions, numbers(color, 9));
}

/// Copies of a pile hold each card as often as the pile does, times the
/// number of copies.
proof fn lemma_repeated_count(s: Seq<Card>, n: nat, card: Card)
    ensures
        cards_of(repeated(s, n)).count(card) == n * cards_of(s).count(card),
    decreases n,
{
    broadcast use vstd::multiset::group_multiset_axioms;

    if n == 0 {
        lemma_cards_of_none();
    } else {
        lemma_repeated_count(s, (n - 1) as nat, card);
        lemma_cards_of_concat(repeated(s, (n - 1) as nat), s);
        assert(n * cards_of(s).count(card) == (n - 1) * cards_of(s).count(card) + cards_of(
            s,
        ).count(card)) by (nonlinear_arith);
    }
}

/// A suit holds its zero once and each card of its run twice.
proof fn lemma_suit_count(color: Color, card: Card)
    ensures
        cards_of(suit(color)).count(card) == (if card.color == color && !card.face.is_wild() {
            copies(card)
        } else {
            0nat
        }),
{
    broadcast use vstd::multiset::group_multiset_axioms;

    let zero = Card { color, face: Face::Zero };
    lemma_cards_of_one(zero);
    lemma_run_count(color, card);
    lemma_repeated_count(run(color), 2, card);
    lemma_cards_of_concat(seq![zero], repeated(run(color), 2));
}

/// The first `n` suits hold the cards of their colors and no others.
proof fn lemma_suits_count(n: nat, card: Card)
    requires
        n <= 4,
    ensures
        cards_of(suits(n)).count(card) == (if suit_index(card.color) < n && !card.face.is_wild() {
            copies(card)
        } else {
            0nat
        }),
    decreases n,
{
    broadcast use vstd::multiset::group_multiset_axioms;

    if n == 0 {
        lemma_cards_of_none();
    } else {
        lemma_suits_count((n - 1) as nat, card);
        lemma_suit_count(suit_color(n - 1), card);
        lemma_cards_of_concat(suits((n - 1) as nat), suit(suit_color(n - 1)));
    }
}

/// The pair of wild cards holds each of the two red wild cards once.
proof fn lemma_wild_pair_count(card: Card)
    ensures
        cards_of(wild_pair()).count(card) == (if card.face.is_wild() && card.color == Color::Red {
            1nat
        } else {
            0nat
        }),
{
    broadcast use vstd::multiset::group_multiset_axioms;

    let draw_four = Card { color: Color::Red, face: Face::DrawFour };
    let change = Card { color: Color::Red, face: Face::ColorCard };
    assert(wild_pair() =~= Seq::<Card>::empty().push(draw_four).push(change));
    lemma_cards_of_none();
    lemma_cards_of_push(Seq::<Card>::empty(), draw_four);
    lemma_cards_of_push(Seq::<Card>::empty().push(draw_four), change);
}

/// The composition of the full deck: it holds every card as often as
/// `copies` says, 108 cards in all.
pub proof fn lemma_standard_deck_composition(card: Card)
    ensures
        cards_of(standard_deck()).count(card) == copies(card),
        cards_of(standard_deck()).len() == 108,
{
    broadcast use vstd::multiset::group_multiset_axioms;

    lemma_suits_count(4, card);
    lemma_wild_pair_count(card);
    lemma_repeated_count(wild_pair(), 4, card);
    lemma_cards_of_concat(suits(4), repeated(wild_pair(), 4));
    lemma_standard_deck_len();
    crate::deck::canon_seq(standard_deck()).to_multiset_ensures();
}

} // verus!
