//! Players: a name and a hand of cards.

use crate::card::Card;
use crate::deck::Deck;
use vstd::prelude::*;

verus! {

/// What a player is: a name and the cards in hand, the front of the hand
/// first.
pub struct PlayerView {
    pub name: Seq<char>,
    pub hand: Seq<Card>,
}

/// One of the players of a game.
pub struct Player {
    name: String,
    hand: Deck,
}

impl View for Player {
    type V = PlayerView;

    closed spec fn view(&self) -> PlayerView {
        PlayerView { name: self.name@, hand: self.hand@ }
    }
}

impl Player {
    /// A player called `name` with an empty hand.
    pub fn new(name: &str) -> (r: Player)
        ensures
            r@ == (PlayerView { name: name@, hand: Seq::empty() }),
    {
        let hand: Vec<Card> = Vec::with_capacity(25);
        Player { name: name.to_owned(), hand: Deck::new(hand) }
    }

    /// Puts `card` at the front of the player's hand.
    pub fn add_card(&mut self, card: Card)
        ensures
            final(self)@ == (PlayerView { name: old(self)@.name, hand: seq![card] + old(self)@.hand }),
    {
        self.hand.push_front(card);
    }

    /// The player's name.
    pub fn name(&self) -> (r: &str)
        ensures
            r@ == self@.name,
    {
        self.name.as_str()
    }

    /// The player's hand.
    pub fn get_hand(&self) -> (r: &Deck)
        ensures
            r@ == self@.hand,
    {
        &self.hand
    }

    /// The player's hand, to be changed in place: what the caller leaves in
    /// it is the player's hand afterwards.
    pub fn get_hand_mut(&mut self) -> (r: &mut Deck)
        ensures
            r@ == old(self)@.hand,
            final(self)@ == (PlayerView { name: old(self)@.name, hand: final(r)@ }),
    {
        &mut self.hand
    }
}

impl<'a> From<&'a str> for Player {
    /// A player called `name` with an empty hand.
    fn from(name: &'a str) -> (r: Player)
        ensures
            r@ == (PlayerView { name: name@, hand: Seq::empty() }),
    {
        Player::new(name)
    }
}

impl<'a> vstd::std_specs::convert::FromSpecImpl<&'a str> for Player {
    open spec fn obeys_from_spec() -> bool {
        false
    }

    open spec fn from_spec(name: &'a str) -> Player {
        arbitrary()
    }
}

} // verus!
