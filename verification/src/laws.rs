//! What holds of the rules: no card is created or lost, a rejected play
//! changes nothing, and the turn counter and the turn move as the faces say.

use crate::card::face::Face;
use crate::card::Card;
use crate::deck::{
    cards_of, holds, lemma_cards_of_concat, lemma_cards_of_none, lemma_cards_of_one,
    lemma_cards_of_push_front, lemma_cards_of_remove, lemma_cards_of_without, without,
};
use crate::full_deck::{fresh_deck, lemma_cards_of_fresh_deck, lemma_fresh_deck, standard_deck};
use crate::player::PlayerView;
use crate::rules::{hands_cards, GameView};
use vstd::multiset::Multiset;
use vstd::prelude::*;

verus! {

// The course of the turn.

/// The turn stays with one of the players when it passes on.
pub proof fn lemma_advance_in_range(g: GameView)
    requires
        g.players.len() > 0,
    ensures
        g.advance().current < g.players.len(),
        g.advance().wf() == (2 <= g.players.len() <= 8),
{
}

/// Two advances pass the turn to the player two places on in the direction
/// of play, round the table.
pub proof fn lemma_advance_twice(g: GameView)
    requires
        g.wf(),
    ensures
        g.advance().advance().turn == g.turn + 2,
        g.advance().advance().current == (g.current + 2 * g.direction.delta()) % (
        g.players.len() as int),
{
    let n = g.players.len() as int;
    let c = g.current as int;
    let d = g.direction.delta();
    assert(((c + d) % n + d) % n == (c + 2 * d) % n) by (nonlinear_arith)
        requires
            2 <= n <= 8,
            0 <= c < n,
            d == 1 || d == -1,
    ;
}

/// Drawing touches the piles and the hand of the player who draws, and
/// nothing else: the turn, the direction and the other players stay.
pub proof fn lemma_deal_many_frame(g: GameView, i: int, k: nat, seed: u32)
    requires
        0 <= i < g.players.len(),
    ensures
        g.deal_many(i, k, seed).turn == g.turn,
        g.deal_many(i, k, seed).current == g.current,
        g.deal_many(i, k, seed).direction == g.direction,
        g.deal_many(i, k, seed).players.len() == g.players.len(),
        g.deal_many(i, k, seed).hand(i).len() == g.hand(i).len() + k,
        forall|j: int|
            0 <= j < g.players.len() && j != i ==> #[trigger] g.deal_many(i, k, seed).players[j]
                == g.players[j],
    decreases k,
{
    if k > 0 {
        lemma_deal_many_frame(g, i, (k - 1) as nat, seed);
    }
}

/// A play that is rejected leaves the game as it was: the hands, the piles,
/// the current player, the direction and the turn counter.
pub proof fn lemma_rejection_changes_nothing(g: GameView, card: Card, seed: u32)
    ensures
        g.verdict(card) is NotHoldingCard || g.verdict(card) is InvalidMove ==> g.after_play(
            card,
            seed,
        ) == g,
{
}

/// A play that goes on moves the turn counter forward by the number of
/// advances of its face, which is at least one: two for a skip and for the
/// two draw cards, two for a reverse between two players, one otherwise. A
/// play that is rejected or that ends the game leaves the counter alone.
pub proof fn lemma_turn_count(g: GameView, card: Card, seed: u32)
    requires
        g.wf(),
    ensures
        GameView::advances(card.face, g.players.len()) >= 1,
        g.verdict(card) is Success ==> g.after_play(card, seed).turn == g.turn
            + GameView::advances(card.face, g.players.len()),
        !(g.verdict(card) is Success) ==> g.after_play(card, seed).turn == g.turn,
{
    if g.verdict(card) is Success {
        let passed = g.laid(card).advance();
        lemma_deal_many_frame(passed, passed.current as int, GameView::penalty(card.face), seed);
    }
}

/// Where the turn goes: after a play that goes on, the direction is turned
/// round if the card is a reverse and is as before if not, and the turn is
/// with the player as many places on in that direction, round the table, as
/// the face has advances.
pub proof fn lemma_turn_passes(g: GameView, card: Card, seed: u32)
    requires
        g.wf(),
        g.verdict(card) is Success,
    ensures
        g.after_play(card, seed).direction == (if card.face == Face::Reverse {
            g.direction.reversed()
        } else {
            g.direction
        }),
        g.after_play(card, seed).current == (g.current + GameView::advances(
            card.face,
            g.players.len(),
        ) * g.after_play(card, seed).direction.delta()) % (g.players.len() as int),
{
    let laid = g.laid(card);
    let passed = laid.advance();
    lemma_deal_many_frame(passed, passed.current as int, GameView::penalty(card.face), seed);
    lemma_advance_twice(laid);
    lemma_advance_twice(laid.turned_round());
    let drawn = passed.deal_many(passed.current as int, GameView::penalty(card.face), seed);
    assert(drawn.advance().current == passed.advance().current);
    let k = GameView::advances(card.face, g.players.len());
    let d = g.after_play(card, seed).direction.delta();
    assert(k * d == (if k == 1 {
        d
    } else {
        2 * d
    })) by (nonlinear_arith)
        requires
            k == 1 || k == 2,
    ;
}

/// A play leaves a well-formed game well formed.
pub proof fn lemma_play_keeps_wf(g: GameView, card: Card, seed: u32)
    requires
        g.wf(),
    ensures
        g.after_play(card, seed).wf(),
{
    if g.verdict(card) is Success {
        let passed = g.laid(card).advance();
        lemma_deal_many_frame(passed, passed.current as int, GameView::penalty(card.face), seed);
        lemma_advance_in_range(passed.deal_many(
            passed.current as int,
            GameView::penalty(card.face),
            seed,
        ));
    }
}

// Draws and the fresh deck.

/// While the reserve lasts no fresh deck is drawn on: the cards that a
/// player draws, and the piles they leave, are the same whatever the seed,
/// and each card drawn makes the reserve one smaller.
pub proof fn lemma_deal_many_within_reserve(g: GameView, i: int, k: nat, s1: u32, s2: u32)
    requires
        k <= g.reserve(),
    ensures
        g.deal_many(i, k, s1) == g.deal_many(i, k, s2),
        g.deal_many(i, k, s1).reserve() == g.reserve() - k,
    decreases k,
{
    if k > 0 {
        lemma_deal_many_within_reserve(g, i, (k - 1) as nat, s1, s2);
        let m = g.deal_many(i, (k - 1) as nat, s1);
        assert(m.stock(s1) == m.stock(s2));
        assert(m.deal_to(i, s1) == m.deal_to(i, s2));
    }
}

// Conservation of the cards.

/// Two sums of multisets that are equal count every card alike.
proof fn lemma_equal_sums(a: Multiset<Card>, b: Multiset<Card>, c: Multiset<Card>, d: Multiset<Card>)
    requires
        a.add(b) == c.add(d),
    ensures
        forall|v: Card| #![trigger a.count(v)] a.count(v) + b.count(v) == c.count(v) + d.count(v),
{
    broadcast use vstd::multiset::group_multiset_axioms;

    assert forall|v: Card| #![trigger a.count(v)]
        a.count(v) + b.count(v) == c.count(v) + d.count(v) by {
        let left = a.add(b);
        let right = c.add(d);
        assert(left.count(v) == a.count(v) + b.count(v));
        assert(right.count(v) == c.count(v) + d.count(v));
        assert(left == right);
    }
}

/// Replacing one player moves the cards of that hand out and those of the
/// new hand in.
pub proof fn lemma_hands_cards_update(players: Seq<PlayerView>, i: int, p: PlayerView)
    requires
        0 <= i < players.len(),
    ensures
        hands_cards(players.update(i, p)).add(cards_of(players[i].hand)) == hands_cards(
            players,
        ).add(cards_of(p.hand)),
    decreases players.len(),
{
    broadcast use vstd::multiset::group_multiset_axioms;

    let updated = players.update(i, p);
    if i == players.len() - 1 {
        assert(updated.drop_last() =~= players.drop_last());
    } else {
        assert(updated.drop_last() =~= players.drop_last().update(i, p));
        lemma_hands_cards_update(players.drop_last(), i, p);
        lemma_equal_sums(
            hands_cards(players.drop_last().update(i, p)),
            cards_of(players[i].hand),
            hands_cards(players.drop_last()),
            cards_of(p.hand),
        );
    }
    assert(hands_cards(updated).add(cards_of(players[i].hand)) =~= hands_cards(players).add(
        cards_of(p.hand),
    ));
}

/// Giving a player another hand moves the cards of the old hand out of the
/// game and those of the new hand in.
pub proof fn lemma_with_hand_cards(g: GameView, i: int, hand: Seq<Card>)
    requires
        0 <= i < g.players.len(),
    ensures
        g.with_hand(i, hand).cards().add(cards_of(g.hand(i))) == g.cards().add(cards_of(hand)),
{
    broadcast use vstd::multiset::group_multiset_axioms;

    let p = PlayerView { name: g.players[i].name, hand };
    lemma_hands_cards_update(g.players, i, p);
    lemma_equal_sums(
        hands_cards(g.players.update(i, p)),
        cards_of(g.players[i].hand),
        hands_cards(g.players),
        cards_of(hand),
    );
    assert(g.with_hand(i, hand).cards().add(cards_of(g.hand(i))) =~= g.cards().add(
        cards_of(hand),
    ));
}

/// Players with empty hands hold nothing.
pub proof fn lemma_empty_hands(players: Seq<PlayerView>)
    requires
        forall|i: int| 0 <= i < players.len() ==> (#[trigger] players[i]).hand.len() == 0,
    ensures
        hands_cards(players) == Multiset::<Card>::empty(),
    decreases players.len(),
{
    broadcast use vstd::multiset::group_multiset_axioms;

    if players.len() > 0 {
        lemma_empty_hands(players.drop_last());
        lemma_cards_of_none();
        assert(players.last().hand =~= Seq::<Card>::empty());
        assert(hands_cards(players) =~= Multiset::<Card>::empty());
    }
}

/// A draw takes the card drawn out of the game and nothing else; where the
/// reserve is empty, the cards of a full deck come in first.
pub proof fn lemma_after_draw_cards(g: GameView, seed: u32)
    requires
        g.draw.len() + g.discard.len() > 0,
    ensures
        g.after_draw(seed).cards().insert(g.drawn(seed).canon()) == (if g.reserve() > 0 {
            g.cards()
        } else {
            g.cards().add(cards_of(standard_deck()))
        }),
{
    broadcast use vstd::multiset::group_multiset_axioms;

    let stock = g.stock(seed);
    lemma_fresh_deck(seed);
    lemma_cards_of_fresh_deck(seed);
    lemma_cards_of_remove(stock, stock.len() - 1);
    assert(stock.remove(stock.len() - 1) =~= stock.drop_last());
    if g.draw.len() == 0 {
        lemma_cards_of_none();
        assert(g.draw =~= Seq::<Card>::empty());
        lemma_cards_of_one(g.discard[0]);
        lemma_cards_of_remove(g.discard, 0);
        assert(g.discard.remove(0) =~= g.discard.drop_first());
        if g.discard.len() == 1 {
            assert(g.discard.drop_first() =~= Seq::<Card>::empty());
        }
    }
    assert(g.after_draw(seed).cards().insert(g.drawn(seed).canon()) =~= (if g.reserve() > 0 {
        g.cards()
    } else {
        g.cards().add(cards_of(standard_deck()))
    }));
}

/// A card drawn into a hand stays in the game: the game holds what it held,
/// and the cards of a full deck besides where the reserve was empty.
pub proof fn lemma_deal_to_cards(g: GameView, i: int, seed: u32)
    requires
        0 <= i < g.players.len(),
        g.draw.len() + g.discard.len() > 0,
    ensures
        g.deal_to(i, seed).cards() == (if g.reserve() > 0 {
            g.cards()
        } else {
            g.cards().add(cards_of(standard_deck()))
        }),
{
    broadcast use vstd::multiset::group_multiset_axioms;

    let card = g.drawn(seed);
    let after = g.after_draw(seed);
    lemma_after_draw_cards(g, seed);
    lemma_with_hand_cards(after, i, seq![card] + g.hand(i));
    lemma_equal_sums(
        after.with_hand(i, seq![card] + g.hand(i)).cards(),
        cards_of(after.hand(i)),
        after.cards(),
        cards_of(seq![card] + g.hand(i)),
    );
    lemma_cards_of_push_front(g.hand(i), card);
    assert(g.deal_to(i, seed).cards() =~= after.cards().insert(card.canon()));
}

/// Cards drawn into a hand stay in the game. A game with a card on the
/// discard pile holds after `k` draws, at most 108 of them, what it held,
/// and the cards of one full deck besides where `k` is more than the
/// reserve.
pub proof fn lemma_deal_many_cards(g: GameView, i: int, k: nat, seed: u32)
    requires
        0 <= i < g.players.len(),
        g.discard.len() > 0,
        k <= 108,
    ensures
        g.deal_many(i, k, seed).players.len() == g.players.len(),
        g.deal_many(i, k, seed).discard.len() > 0,
        g.deal_many(i, k, seed).reserve() == (if k <= g.reserve() {
            g.reserve() - k
        } else {
            g.reserve() + 108 - k
        }),
        g.deal_many(i, k, seed).cards() == (if k <= g.reserve() {
            g.cards()
        } else {
            g.cards().add(cards_of(standard_deck()))
        }),
    decreases k,
{
    if k > 0 {
        let m = g.deal_many(i, (k - 1) as nat, seed);
        lemma_deal_many_cards(g, i, (k - 1) as nat, seed);
        lemma_deal_to_cards(m, i, seed);
        lemma_fresh_deck(seed);
    }
}

/// A card laid from the hand onto the discard pile stays in the game.
pub proof fn lemma_laid_cards(g: GameView, card: Card)
    requires
        g.current < g.players.len(),
        holds(g.hand(g.current as int), card),
    ensures
        g.laid(card).cards() == g.cards(),
{
    broadcast use vstd::multiset::group_multiset_axioms;

    let me = g.current as int;
    let on_pile = GameView { discard: seq![card] + g.discard, ..g };
    lemma_cards_of_push_front(g.discard, card);
    lemma_cards_of_without(g.hand(me), card);
    lemma_with_hand_cards(on_pile, me, without(g.hand(me), card));
    lemma_equal_sums(
        on_pile.with_hand(me, without(g.hand(me), card)).cards(),
        cards_of(on_pile.hand(me)),
        on_pile.cards(),
        cards_of(without(g.hand(me), card)),
    );
    assert(g.laid(card).cards() =~= g.cards());
}

/// No play creates or destroys a card, but for the one case in which a
/// fresh deck comes in: after any play a well-formed game holds what it held
/// before, and the cards of one full deck besides where the play overdraws.
pub proof fn lemma_play_cards(g: GameView, card: Card, seed: u32)
    requires
        g.wf(),
    ensures
        g.after_play(card, seed).cards() == (if g.overdraws(card) {
            g.cards().add(cards_of(standard_deck()))
        } else {
            g.cards()
        }),
{
    let verdict = g.verdict(card);
    if verdict is GameOver || verdict is Success {
        lemma_laid_cards(g, card);
        if verdict is Success {
            let passed = g.laid(card).advance();
            lemma_deal_many_cards(passed, passed.current as int, GameView::penalty(card.face), seed);
        }
    }
}

/// Conservation over a play: a well-formed game that holds one full deck
/// holds one full deck after any play that does not overdraw.
pub proof fn lemma_play_conserves(g: GameView, card: Card, seed: u32)
    requires
        g.wf(),
        g.conserved(),
        !g.overdraws(card),
    ensures
        g.after_play(card, seed).conserved(),
{
    lemma_play_cards(g, card, seed);
}

/// Conservation over a draw: a game that holds one full deck holds one full
/// deck after one of its players has drawn a card, while the reserve lasts.
pub proof fn lemma_draw_conserves(g: GameView, i: int, seed: u32)
    requires
        0 <= i < g.players.len(),
        g.conserved(),
        g.reserve() > 0,
    ensures
        g.deal_to(i, seed).conserved(),
{
    lemma_deal_to_cards(g, i, seed);
}

// The start of a game.

/// The sizes at the start of a game: every player has seven cards more than
/// before, the discard pile has one card, and the draw pile has the rest of
/// the 108.
pub proof fn lemma_dealt_sizes(deck: Seq<Card>, players: Seq<PlayerView>)
    requires
        deck.len() == 108,
        2 <= players.len() <= 8,
    ensures
        GameView::dealt(deck, players).wf(),
        GameView::dealt(deck, players).players.len() == players.len(),
        GameView::dealt(deck, players).discard.len() == 1,
        GameView::dealt(deck, players).draw.len() == 108 - 7 * players.len() - 1,
        forall|i: int|
            0 <= i < players.len() ==> (#[trigger] GameView::dealt(deck, players).hand(i)).len()
                == 7 + players[i].hand.len(),
{
}

/// What the first `m` of `n` players have been dealt from `deck` in
/// `rounds` rounds, all together.
spec fn dealt_cards(deck: Seq<Card>, n: int, m: nat, rounds: nat) -> Multiset<Card>
    decreases m,
{
    if m == 0 {
        Multiset::empty()
    } else {
        dealt_cards(deck, n, (m - 1) as nat, rounds).add(
            cards_of(GameView::dealt_hand(deck, n, m - 1, rounds)),
        )
    }
}

/// Before the first round nobody has been dealt anything.
proof fn lemma_no_rounds(deck: Seq<Card>, n: int, m: nat)
    ensures
        dealt_cards(deck, n, m, 0) == Multiset::<Card>::empty(),
    decreases m,
{
    broadcast use vstd::multiset::group_multiset_axioms;

    if m > 0 {
        lemma_no_rounds(deck, n, (m - 1) as nat);
        assert(GameView::dealt_hand(deck, n, m - 1, 0) =~= Seq::<Card>::empty());
        lemma_cards_of_none();
        assert(dealt_cards(deck, n, m, 0) =~= Multiset::<Card>::empty());
    }
}

/// One more round gives the first `m` players the `m` cards that lie at the
/// back of what the rounds before have left of the deck.
proof fn lemma_dealt_round(deck: Seq<Card>, n: int, m: nat, rounds: nat)
    requires
        deck.len() == 108,
        m <= n,
        rounds * n + n <= 108,
    ensures
        dealt_cards(deck, n, m, rounds + 1) == dealt_cards(deck, n, m, rounds).add(
            cards_of(deck.subrange(108 - rounds * n - m, 108 - rounds * n)),
        ),
    decreases m,
{
    broadcast use vstd::multiset::group_multiset_axioms;

    let back = 108 - rounds * n;
    if m == 0 {
        assert(deck.subrange(back, back) =~= Seq::<Card>::empty());
        lemma_cards_of_none();
        assert(dealt_cards(deck, n, m, rounds + 1) =~= dealt_cards(deck, n, m, rounds).add(
            cards_of(deck.subrange(back - m, back)),
        ));
    } else {
        let i = m - 1;
        lemma_dealt_round(deck, n, i as nat, rounds);
        let card = deck[back - 1 - i];
        let short = GameView::dealt_hand(deck, n, i, rounds);
        let long = GameView::dealt_hand(deck, n, i, rounds + 1);
        assert(long =~= seq![card] + short);
        lemma_cards_of_push_front(short, card);
        assert(deck.subrange(back - m, back) =~= seq![card] + deck.subrange(back - i, back));
        lemma_cards_of_push_front(deck.subrange(back - i, back), card);
        assert(dealt_cards(deck, n, m, rounds + 1) =~= dealt_cards(deck, n, m, rounds).add(
            cards_of(deck.subrange(back - m, back)),
        ));
    }
}

/// After `rounds` rounds the players have been dealt the cards that lay at
/// the back of the deck, one for each player and round.
proof fn lemma_dealt_rounds(deck: Seq<Card>, n: nat, rounds: nat)
    requires
        deck.len() == 108,
        rounds * n <= 108,
    ensures
        dealt_cards(deck, n as int, n, rounds) == cards_of(deck.subrange(108 - rounds * n, 108)),
    decreases rounds,
{
    broadcast use vstd::multiset::group_multiset_axioms;

    if rounds == 0 {
        lemma_no_rounds(deck, n as int, n);
        assert(rounds * n == 0) by (nonlinear_arith)
            requires
                rounds == 0,
        ;
        assert(deck.subrange(108, 108) =~= Seq::<Card>::empty());
        lemma_cards_of_none();
    } else {
        let before = (rounds - 1) as nat;
        assert(rounds * n == before * n + n) by (nonlinear_arith)
            requires
                rounds == before + 1,
        ;
        lemma_dealt_rounds(deck, n, before);
        lemma_dealt_round(deck, n as int, n, before);
        let row = deck.subrange(108 - rounds * n, 108 - before * n);
        let rest = deck.subrange(108 - before * n, 108);
        assert(deck.subrange(108 - rounds * n, 108) =~= row + rest);
        lemma_cards_of_concat(row, rest);
        assert(dealt_cards(deck, n as int, n, rounds) =~= cards_of(
            deck.subrange(108 - rounds * n, 108),
        ));
    }
}

/// The hands of the first `m` players at the start of a game hold what they
/// were dealt and what the players brought.
proof fn lemma_dealt_players(deck: Seq<Card>, players: Seq<PlayerView>, m: nat)
    requires
        m <= players.len(),
    ensures
        hands_cards(GameView::dealt(deck, players).players.take(m as int)) == dealt_cards(
            deck,
            players.len() as int,
            m,
            7,
        ).add(hands_cards(players.take(m as int))),
    decreases m,
{
    broadcast use vstd::multiset::group_multiset_axioms;

    let seated = GameView::dealt(deck, players).players;
    if m == 0 {
        assert(hands_cards(seated.take(0)) =~= dealt_cards(deck, players.len() as int, 0, 7).add(
            hands_cards(players.take(0)),
        ));
    } else {
        let i = m - 1;
        lemma_dealt_players(deck, players, i as nat);
        assert(seated.take(m as int).drop_last() =~= seated.take(i));
        assert(players.take(m as int).drop_last() =~= players.take(i));
        lemma_cards_of_concat(
            GameView::dealt_hand(deck, players.len() as int, i, 7),
            players[i].hand,
        );
        assert(hands_cards(seated.take(m as int)) =~= dealt_cards(
            deck,
            players.len() as int,
            m,
            7,
        ).add(hands_cards(players.take(m as int))));
    }
}

/// Dealing neither creates nor destroys a card: a game at its start holds
/// the cards of the deck it was dealt from and what the players brought.
pub proof fn lemma_dealt_cards(deck: Seq<Card>, players: Seq<PlayerView>)
    requires
        deck.len() == 108,
        2 <= players.len() <= 8,
    ensures
        GameView::dealt(deck, players).cards() == cards_of(deck).add(hands_cards(players)),
{
    broadcast use vstd::multiset::group_multiset_axioms;

    let n = players.len();
    let g = GameView::dealt(deck, players);
    lemma_dealt_players(deck, players, n);
    assert(g.players.take(n as int) =~= g.players);
    assert(players.take(n as int) =~= players);
    lemma_dealt_rounds(deck, n, 7);
    let top = deck[107 - 7 * n];
    let dealt = deck.subrange(108 - 7 * n, 108);
    lemma_cards_of_concat(g.draw, seq![top]);
    lemma_cards_of_concat(g.draw + seq![top], dealt);
    assert(deck =~= g.draw + seq![top] + dealt);
    assert(g.cards() =~= cards_of(deck).add(hands_cards(players)));
}

/// Conservation at the start: a game dealt from a fresh deck to players who
/// bring no cards holds exactly one full deck.
pub proof fn lemma_dealt_conserves(seed: u32, players: Seq<PlayerView>)
    requires
        2 <= players.len() <= 8,
        forall|i: int| 0 <= i < players.len() ==> (#[trigger] players[i]).hand.len() == 0,
    ensures
        GameView::dealt(fresh_deck(seed), players).conserved(),
{
    broadcast use vstd::multiset::group_multiset_axioms;

    lemma_fresh_deck(seed);
    lemma_cards_of_fresh_deck(seed);
    lemma_dealt_cards(fresh_deck(seed), players);
    lemma_empty_hands(players);
    assert(GameView::dealt(fresh_deck(seed), players).cards() =~= cards_of(standard_deck()));
}

} // verus!
