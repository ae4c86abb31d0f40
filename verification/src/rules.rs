//! The rules of the game as mathematics: what a game is at any moment, and
//! what each move makes of it.

use crate::card::color::Color;
use crate::card::face::Face;
use crate::card::Card;
use crate::deck::{cards_of, holds, without};
use crate::direction::GameDirection;
use crate::full_deck::{fresh_deck, standard_deck};
use crate::player::PlayerView;
use crate::uno::TurnResult;
use vstd::multiset::Multiset;
use vstd::prelude::*;

verus! {

/// What the hands of `players` hold, all together.
pub open spec fn hands_cards(players: Seq<PlayerView>) -> Multiset<Card>
    decreases players.len(),
{
    if players.len() == 0 {
        Multiset::empty()
    } else {
        hands_cards(players.drop_last()).add(cards_of(players.last().hand))
    }
}

/// A game at one moment.
///
/// The back of `draw` is the next card to be dealt; the front of `discard`
/// is the card that was played last. `current` is the index in `players` of
/// the player whose turn it is, and `turn` counts the turns from one.
#[verifier::ext_equal]
pub struct GameView {
    pub draw: Seq<Card>,
    pub discard: Seq<Card>,
    pub players: Seq<PlayerView>,
    pub direction: GameDirection,
    pub turn: nat,
    pub current: nat,
}

impl GameView {
    /// A game has two to eight players, and it is the turn of one of them.
    pub open spec fn wf(self) -> bool {
        2 <= self.players.len() <= 8 && self.current < self.players.len()
    }

    /// What the game holds: the cards of the two piles and of every hand,
    /// wild cards counted whatever their color.
    pub open spec fn cards(self) -> Multiset<Card> {
        cards_of(self.draw).add(cards_of(self.discard)).add(hands_cards(self.players))
    }

    /// Whether the game holds exactly the cards of one full deck.
    pub open spec fn conserved(self) -> bool {
        self.cards() == cards_of(standard_deck())
    }

    /// The hand of player `i`.
    pub open spec fn hand(self, i: int) -> Seq<Card> {
        self.players[i].hand
    }

    /// The game with `hand` as the hand of player `i`.
    pub open spec fn with_hand(self, i: int, hand: Seq<Card>) -> GameView {
        GameView {
            players: self.players.update(i, PlayerView { name: self.players[i].name, hand }),
            ..self
        }
    }

    /// The card that a play has to follow: the front of the discard pile, or
    /// a red color-change card while that pile is empty.
    pub open spec fn top(self) -> Card {
        if self.discard.len() > 0 {
            self.discard[0]
        } else {
            Card { color: Color::Red, face: Face::ColorCard }
        }
    }

    /// The player after the current one in the direction of play, round the
    /// table.
    pub open spec fn next_player(self) -> nat {
        ((self.current + self.direction.delta()) % (self.players.len() as int)) as nat
    }

    /// The game one turn on: the counter goes up by one and the turn passes
    /// to the next player.
    pub open spec fn advance(self) -> GameView {
        GameView { turn: self.turn + 1, current: self.next_player(), ..self }
    }

    /// The game with the direction of play reversed.
    pub open spec fn turned_round(self) -> GameView {
        GameView { direction: self.direction.reversed(), ..self }
    }

    /// How many cards can be drawn before a fresh deck is needed: those of
    /// the draw pile and those under the top of the discard pile.
    pub open spec fn reserve(self) -> nat {
        if self.discard.len() > 0 {
            (self.draw.len() + self.discard.len() - 1) as nat
        } else {
            self.draw.len()
        }
    }

    /// The pile that the next card is drawn from: the draw pile; where that
    /// is empty, the discard pile without its top; where that is empty too,
    /// the fresh deck of seed `seed`.
    pub open spec fn stock(self, seed: u32) -> Seq<Card> {
        if self.draw.len() > 0 {
            self.draw
        } else if self.discard.len() > 1 {
            self.discard.drop_first()
        } else {
            fresh_deck(seed)
        }
    }

    /// The card that the next draw yields.
    pub open spec fn drawn(self, seed: u32) -> Card {
        self.stock(seed).last()
    }

    /// The game after one draw: the stock without its back is the draw
    /// pile, and a discard pile that was drawn on keeps its top alone.
    pub open spec fn after_draw(self, seed: u32) -> GameView {
        GameView {
            draw: self.stock(seed).drop_last(),
            discard: if self.draw.len() > 0 {
                self.discard
            } else {
                seq![self.discard[0]]
            },
            ..self
        }
    }

    /// The game after player `i` has drawn one card, which goes to the front
    /// of the hand.
    pub open spec fn deal_to(self, i: int, seed: u32) -> GameView {
        self.after_draw(seed).with_hand(i, seq![self.drawn(seed)] + self.hand(i))
    }

    /// The game after player `i` has drawn `k` cards, one after the other.
    pub open spec fn deal_many(self, i: int, k: nat, seed: u32) -> GameView
        decreases k,
    {
        if k == 0 {
            self
        } else {
            self.deal_many(i, (k - 1) as nat, seed).deal_to(i, seed)
        }
    }

    /// What the engine answers when the current player plays `card`.
    pub open spec fn verdict(self, card: Card) -> TurnResult {
        let hand = self.hand(self.current as int);
        if !holds(hand, card) {
            TurnResult::NotHoldingCard(card)
        } else if !card.playable_on(self.top()) {
            TurnResult::InvalidMove(self.top(), card)
        } else if without(hand, card).len() == 0 {
            TurnResult::GameOver
        } else {
            TurnResult::Success(card)
        }
    }

    /// The game with `card` moved from the current player's hand to the
    /// front of the discard pile. The hand loses the first card that is the
    /// same card; the discard pile gets `card` as it was played.
    pub open spec fn laid(self, card: Card) -> GameView {
        let me = self.current as int;
        GameView { discard: seq![card] + self.discard, ..self }.with_hand(
            me,
            without(self.hand(me), card),
        )
    }

    /// Whether a play of `card` goes on and makes the next player draw more
    /// cards than the two piles can give, so that a fresh deck comes in.
    pub open spec fn overdraws(self, card: Card) -> bool {
        self.verdict(card) is Success && GameView::penalty(card.face) > self.draw.len()
            + self.discard.len()
    }

    /// How many cards the player after the one who played `face` has to
    /// draw.
    pub open spec fn penalty(face: Face) -> nat {
        match face {
            Face::DrawTwo => 2,
            Face::DrawFour => 4,
            _ => 0,
        }
    }

    /// By how many turns a play of `face` that goes on moves a game of
    /// `players` players forward.
    pub open spec fn advances(face: Face, players: nat) -> nat {
        match face {
            Face::DrawTwo | Face::DrawFour | Face::Skip => 2,
            Face::Reverse => if players < 3 {
                2
            } else {
                1
            },
            _ => 1,
        }
    }

    /// The game after the effect of a card of face `face` that has just been
    /// laid, and the advance of the turn that ends the play.
    pub open spec fn effect(self, face: Face, seed: u32) -> GameView {
        match face {
            Face::DrawTwo | Face::DrawFour => {
                let s = self.advance();
                s.deal_many(s.current as int, GameView::penalty(face), seed).advance()
            },
            Face::Reverse => if self.players.len() < 3 {
                self.turned_round().advance().advance()
            } else {
                self.turned_round().advance()
            },
            Face::Skip => self.advance().advance(),
            _ => self.advance(),
        }
    }

    /// The game after the current player has played `card`: unchanged where
    /// the play is rejected; with the card laid where that ends the game;
    /// else with the card laid, its effect applied and the turn passed on.
    pub open spec fn after_play(self, card: Card, seed: u32) -> GameView {
        match self.verdict(card) {
            TurnResult::NotHoldingCard(_) => self,
            TurnResult::InvalidMove(_, _) => self,
            TurnResult::GameOver => self.laid(card),
            TurnResult::Success(_) => self.laid(card).effect(card.face, seed),
        }
    }

    /// The cards dealt to player `i` of `n` from `deck` in `rounds` rounds,
    /// the last one dealt first: in each round every player in turn gets the
    /// card at the back of the deck.
    pub open spec fn dealt_hand(deck: Seq<Card>, n: int, i: int, rounds: nat) -> Seq<Card> {
        Seq::new(rounds, |k: int| deck[107 - i - (rounds - 1 - k) * n])
    }

    /// The game at its start: seven cards dealt to each of `players` from
    /// the back of `deck`, one more turned up as the discard pile, the first
    /// player to move clockwise on turn one.
    pub open spec fn dealt(deck: Seq<Card>, players: Seq<PlayerView>) -> GameView {
        let n = players.len() as int;
        GameView {
            draw: deck.take(107 - 7 * n),
            discard: seq![deck[107 - 7 * n]],
            players: Seq::new(
                players.len(),
                |i: int|
                    PlayerView {
                        name: players[i].name,
                        hand: GameView::dealt_hand(deck, n, i, 7) + players[i].hand,
                    },
            ),
            direction: GameDirection::Clockwise,
            turn: 1,
            current: 0,
        }
    }
}

} // verus!
