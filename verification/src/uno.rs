//! The turn engine: the players, the two piles, and whose turn it is.

use crate::card::color::Color;
use crate::card::face::Face;
use crate::card::Card;
use crate::deck::{cards_of, Deck};
use crate::direction::GameDirection;
use crate::full_deck::{fresh_deck, lemma_cards_of_fresh_deck, lemma_fresh_deck, standard_deck};
use crate::laws::{
    lemma_after_draw_cards, lemma_deal_many_within_reserve, lemma_dealt_cards,
    lemma_dealt_conserves, lemma_play_cards, lemma_turn_count,
};
use crate::player::{Player, PlayerView};
use crate::rules::{hands_cards, GameView};
use core::ops::Add;
use vstd::prelude::*;

verus! {

/// What a play came to.
#[derive(Debug)]
pub enum TurnResult {
    /// The card was played and the turn has passed on.
    Success(Card),
    /// The card may not follow the top of the discard pile: the top, then
    /// the card.
    InvalidMove(Card, Card),
    /// The current player does not hold the card.
    NotHoldingCard(Card),
    /// The card was the player's last: the game is over.
    GameOver,
}

/// What each of `players` is, in order.
pub open spec fn views(players: Seq<Player>) -> Seq<PlayerView> {
    Seq::new(players.len(), |i: int| players[i]@)
}

/// A game in progress.
pub struct Uno {
    draw_deck: Deck,
    discard: Deck,
    direction: GameDirection,
    current_turn: usize,
    players: Vec<Player>,
    current_player: usize,
}

impl View for Uno {
    type V = GameView;

    closed spec fn view(&self) -> GameView {
        GameView {
            draw: self.draw_deck@,
            discard: self.discard@,
            players: views(self.players@),
            direction: self.direction,
            turn: self.current_turn as nat,
            current: self.current_player as nat,
        }
    }
}

impl Uno {
    /// Whether the game is well formed: two to eight players, one of them
    /// the current player.
    pub open spec fn wf(&self) -> bool {
        self@.wf()
    }

    /// The draw pile.
    pub fn deck(&self) -> (r: &Deck)
        ensures
            r@ == self@.draw,
    {
        &self.draw_deck
    }

    /// The discard pile.
    pub fn discard(&self) -> (r: &Deck)
        ensures
            r@ == self@.discard,
    {
        &self.discard
    }

    /// The direction of play.
    pub fn direction(&self) -> (r: GameDirection)
        ensures
            r == self@.direction,
    {
        self.direction
    }

    /// The players in their order round the table.
    pub fn players(&self) -> (r: &[Player])
        ensures
            views(r@) == self@.players,
    {
        self.players.as_slice()
    }

    /// The number of the current turn.
    pub fn current_turn(&self) -> (r: usize)
        ensures
            r == self@.turn,
    {
        self.current_turn
    }

    /// The player whose turn it is, to be changed in place: what the caller
    /// leaves there is that player afterwards, and nothing else changes.
    pub fn current_player(&mut self) -> (r: &mut Player)
        requires
            old(self).wf(),
        ensures
            r@ == old(self)@.players[old(self)@.current as int],
            final(self)@ == (GameView {
                players: old(self)@.players.update(old(self)@.current as int, final(r)@),
                ..old(self)@
            }),
    {
        &mut self.players[self.current_player]
    }

    /// Starts a game: a fresh deck is shuffled, each player is dealt seven
    /// cards, one card a round, and one more card is turned up as the
    /// discard pile. The first player moves first, clockwise, on turn one.
    pub fn create_game(players: Vec<Player>) -> (r: Uno)
        requires
            2 <= players.len() <= 8,
        ensures
            r.wf(),
            exists|seed: u32| r@ == #[trigger] GameView::dealt(fresh_deck(seed), views(players@)),
            r@.cards() == cards_of(standard_deck()).add(hands_cards(views(players@))),
            (forall|i: int| 0 <= i < players.len() ==> (#[trigger] players[i])@.hand.len() == 0)
                ==> r@.conserved(),
    {
        let ghost seats = views(players@);
        proof {
            if forall|i: int| 0 <= i < players.len() ==> (#[trigger] players[i])@.hand.len() == 0 {
                assert forall|i: int| 0 <= i < seats.len() implies (#[trigger] seats[i]).hand.len()
                    == 0 by {
                    assert(seats[i] == players[i]@);
                }
                assert forall|seed: u32|
                    (#[trigger] GameView::dealt(fresh_deck(seed), seats)).conserved() by {
                    lemma_dealt_conserves(seed, seats);
                }
            }
        }
        let n = players.len();
        let mut uno = Uno {
            draw_deck: Deck::default(),
            discard: Deck::new(Vec::with_capacity(108)),
            direction: GameDirection::Clockwise,
            current_turn: 1,
            players,
            current_player: 0,
        };
        let ghost seed = choose|seed: u32| uno.draw_deck@ == #[trigger] fresh_deck(seed);
        let ghost deck = fresh_deck(seed);
        proof {
            lemma_fresh_deck(seed);
        }
        let mut round: usize = 0;
        while round < 7
            invariant
                round <= 7,
                2 <= n <= 8,
                n == uno.players@.len(),
                n == seats.len(),
                deck.len() == 108,
                uno.draw_deck@ == deck.take(108 - round * n),
                uno.discard@.len() == 0,
                uno.direction == GameDirection::Clockwise,
                uno.current_turn == 1,
                uno.current_player == 0,
                forall|j: int|
                    0 <= j < n ==> (#[trigger] uno.players@[j])@ == (PlayerView {
                        name: seats[j].name,
                        hand: GameView::dealt_hand(deck, n as int, j, round as nat) + seats[j].hand,
                    }),
            decreases 7 - round,
        {
            let mut i: usize = 0;
            while i < n
                invariant
                    round < 7,
                    i <= n,
                    2 <= n <= 8,
                    n == uno.players@.len(),
                    n == seats.len(),
                    deck.len() == 108,
                    uno.draw_deck@ == deck.take(108 - round * n - i),
                    uno.discard@.len() == 0,
                    uno.direction == GameDirection::Clockwise,
                    uno.current_turn == 1,
                    uno.current_player == 0,
                    forall|j: int|
                        0 <= j < n ==> (#[trigger] uno.players@[j])@ == (PlayerView {
                            name: seats[j].name,
                            hand: GameView::dealt_hand(
                                deck,
                                n as int,
                                j,
                                if j < i {
                                    (round + 1) as nat
                                } else {
                                    round as nat
                                },
                            ) + seats[j].hand,
                        }),
                decreases n - i,
            {
                assert(round * n <= 48) by (nonlinear_arith)
                    requires
                        round <= 6,
                        n <= 8,
                ;
                let ghost seated = uno.players@;
                let card = uno.draw_card();
                assert forall|j: int| 0 <= j < n implies (#[trigger] uno.players@[j])@
                    == seated[j]@ by {
                    assert(views(uno.players@)[j] == views(seated)[j]);
                }
                uno.players[i].add_card(card);
                proof {
                    let short = GameView::dealt_hand(deck, n as int, i as int, round as nat);
                    let long = GameView::dealt_hand(deck, n as int, i as int, (round + 1) as nat);
                    assert(seq![card] + (short + seats[i as int].hand) =~= long + seats[i as int].hand);
                }
                i += 1;
            }
            assert((round + 1) * n == round * n + n) by (nonlinear_arith);
            round += 1;
        }
        let ghost seated = uno.players@;
        let top = uno.draw_card();
        assert forall|j: int| 0 <= j < n implies (#[trigger] uno.players@[j])@ == seated[j]@ by {
            assert(views(uno.players@)[j] == views(seated)[j]);
        }
        uno.discard.push_front(top);
        assert(uno@ == GameView::dealt(fresh_deck(seed), seats));
        proof {
            lemma_dealt_cards(fresh_deck(seed), seats);
            lemma_cards_of_fresh_deck(seed);
        }
        uno
    }

    /// Passes the turn on: the counter goes up by one, and the player next
    /// in the direction of play becomes the current player.
    fn do_turn_increase(&mut self) -> (r: usize)
        requires
            old(self).wf(),
            old(self)@.turn < usize::MAX,
        ensures
            final(self)@ == old(self)@.advance(),
            final(self).wf(),
            r == final(self)@.current,
    {
        self.current_turn += 1;
        let moved = (self.current_player as isize).add(self.direction);
        self.current_player = if moved < 0 {
            self.players.len() - 1
        } else {
            moved as usize
        };
        self.current_player %= self.players.len();
        proof {
            let n = self.players@.len() as int;
            assert((-1int) % n == n - 1 && (n - 1) % n == n - 1) by (nonlinear_arith)
                requires
                    n >= 2,
            ;
        }
        self.current_player
    }

    /// Makes player `player` draw `amount` cards, each to the front of the
    /// hand.
    fn deal_cards(&mut self, player: usize, amount: usize)
        requires
            old(self).wf(),
            player < old(self)@.players.len(),
            amount <= 4,
            old(self)@.discard.len() > 0,
        ensures
            final(self).wf(),
            final(self)@.current == old(self)@.current,
            final(self)@.turn == old(self)@.turn,
            exists|seed: u32|
                final(self)@ == #[trigger] old(self)@.deal_many(player as int, amount as nat, seed),
    {
        let ghost start = self@;
        let ghost mut seed: u32 = 0;
        let ghost mut dry = false;
        let mut done: usize = 0;
        while done < amount
            invariant
                done <= amount <= 4,
                player < self.players@.len(),
                self.wf(),
                self@.current == start.current,
                self@.turn == start.turn,
                self@ == start.deal_many(player as int, done as nat, seed),
                self@.discard.len() > 0,
                !dry ==> done <= start.reserve(),
                dry ==> self@.draw.len() + done >= 108,
            decreases amount - done,
        {
            let ghost before = self@;
            let card = self.draw_card();
            assert(self@.players == before.players);
            self.players[player].add_card(card);
            proof {
                let s = choose|s: u32|
                    card == #[trigger] before.drawn(s) && self.draw_deck@ == before.after_draw(
                        s,
                    ).draw && self.discard@ == before.after_draw(s).discard;
                assert(self@ == before.deal_to(player as int, s));
                if !dry {
                    lemma_deal_many_within_reserve(start, player as int, done as nat, seed, s);
                }
                if before.reserve() == 0 {
                    lemma_fresh_deck(s);
                    seed = s;
                    dry = true;
                }
            }
            done += 1;
        }
    }

    /// The current player plays `card`.
    ///
    /// The play is rejected, and nothing changes, where the player does not
    /// hold the card or the card may not follow the top of the discard pile.
    /// Else the card goes from the hand to the front of the discard pile. If
    /// that empties the hand the game is over, and nothing else happens.
    /// Else the card takes effect and the turn passes on.
    pub fn play_card(&mut self, card: Card) -> (result: TurnResult)
        requires
            old(self).wf(),
            old(self)@.turn + 2 <= usize::MAX,
        ensures
            final(self).wf(),
            result == old(self)@.verdict(card),
            exists|seed: u32| final(self)@ == #[trigger] old(self)@.after_play(card, seed),
            result is NotHoldingCard || result is InvalidMove ==> final(self)@ == old(self)@,
            result is GameOver ==> final(self)@ == old(self)@.laid(card),
            result is Success ==> final(self)@.turn == old(self)@.turn + GameView::advances(
                card.face,
                old(self)@.players.len(),
            ),
            final(self)@.cards() == (if old(self)@.overdraws(card) {
                old(self)@.cards().add(cards_of(standard_deck()))
            } else {
                old(self)@.cards()
            }),
    {
        proof {
            assert forall|seed: u32| true implies {
                let after = #[trigger] old(self)@.after_play(card, seed);
                &&& after.cards() == (if old(self)@.overdraws(card) {
                    old(self)@.cards().add(cards_of(standard_deck()))
                } else {
                    old(self)@.cards()
                })
                &&& old(self)@.verdict(card) is Success ==> after.turn == old(self)@.turn
                    + GameView::advances(card.face, old(self)@.players.len())
            } by {
                lemma_play_cards(old(self)@, card, seed);
                lemma_turn_count(old(self)@, card, seed);
            }
        }
        let top_discard = match self.discard.peek_top_card() {
            Some(top) => *top,
            None => Card::new(Color::Red, Face::ColorCard),
        };
        if !self.players[self.current_player].get_hand().has_card(card) {
            assert(self@ == old(self)@.after_play(card, 0));
            return TurnResult::NotHoldingCard(card);
        }
        if !card.can_play_on(top_discard) {
            assert(self@ == old(self)@.after_play(card, 0));
            return TurnResult::InvalidMove(top_discard, card);
        }
        self.players[self.current_player].get_hand_mut().remove_first_match(card);
        self.discard.push_front(card);
        assert(self@ == old(self)@.laid(card));

        if self.players[self.current_player].get_hand().is_empty() {
            assert(self@ == old(self)@.after_play(card, 0));
            return TurnResult::GameOver;
        }
        let ghost laid = self@;
        let ghost mut seed: u32 = 0;
        match card.face {
            Face::DrawFour | Face::DrawTwo => {
                let amount: usize = match card.face {
                    Face::DrawFour => 4,
                    _ => 2,
                };
                self.do_turn_increase();
                let ghost passed = self@;
                self.deal_cards(self.current_player, amount);
                proof {
                    seed = choose|seed: u32|
                        self@ == #[trigger] passed.deal_many(
                            passed.current as int,
                            amount as nat,
                            seed,
                        );
                }
            },
            Face::Reverse => {
                self.direction = self.direction.reverse();
                if self.players.len() < 3 {
                    self.do_turn_increase();
                }
            },
            Face::Skip => {
                self.do_turn_increase();
            },
            _ => {},
        }
        self.do_turn_increase();
        assert(self@ == old(self)@.after_play(card, seed));
        TurnResult::Success(card)
    }

    /// Draws a card: from the back of the draw pile; where that is empty,
    /// after the discard pile but for its top has become the draw pile;
    /// where there is nothing under that top, after a fresh deck has.
    pub fn draw_card(&mut self) -> (card: Card)
        requires
            old(self)@.draw.len() + old(self)@.discard.len() > 0,
        ensures
            exists|seed: u32|
                card == #[trigger] old(self)@.drawn(seed) && final(self)@ == old(self)@.after_draw(
                    seed,
                ),
            old(self)@.draw.len() == 0 ==> final(self)@.discard == seq![old(self)@.discard[0]],
            final(self)@.cards().insert(card.canon()) == (if old(self)@.reserve() > 0 {
                old(self)@.cards()
            } else {
                old(self)@.cards().add(cards_of(standard_deck()))
            }),
        decreases (if old(self)@.draw.len() == 0 { 1int } else { 0int }),
    {
        match self.draw_deck.draw() {
            Some(card) => {
                assert(card == old(self)@.drawn(0) && self@ == old(self)@.after_draw(0));
                proof {
                    lemma_after_draw_cards(old(self)@, 0);
                }
                card
            },
            None => {
                let top = self.discard.remove_top();
                let ghost mut seed: u32 = 0;
                if !self.discard.is_empty() {
                    self.draw_deck.reclaim(&mut self.discard);
                } else {
                    let mut fresh = Deck::default();
                    proof {
                        seed = choose|seed: u32| fresh@ == #[trigger] fresh_deck(seed);
                        lemma_fresh_deck(seed);
                    }
                    self.draw_deck.reclaim(&mut fresh);
                }
                self.discard.push_front(top);
                assert(self@.draw == old(self)@.stock(seed));
                let card = self.draw_card();
                assert(card == old(self)@.drawn(seed) && self@ == old(self)@.after_draw(seed));
                proof {
                    lemma_after_draw_cards(old(self)@, seed);
                }
                card
            },
        }
    }
}

} // verus!
