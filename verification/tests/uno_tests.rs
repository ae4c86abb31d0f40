use uno::{Card, Color, Deck, Face, GameDirection, Player, TurnResult, Uno};

const COLORS: [Color; 4] = [Color::Red, Color::Green, Color::Blue, Color::Yellow];

const COLORED_FACES: [Face; 13] = [
    Face::Zero,
    Face::One,
    Face::Two,
    Face::Three,
    Face::Four,
    Face::Five,
    Face::Six,
    Face::Seven,
    Face::Eight,
    Face::Nine,
    Face::Skip,
    Face::Reverse,
    Face::DrawTwo,
];

const NAMES: [&str; 8] = ["Ali", "Bob", "Cam", "Dan", "Edd", "Fil", "Gem", "Hal"];

fn game(players: usize) -> Uno {
    Uno::create_game(NAMES[..players].iter().map(|name| Player::new(name)).collect())
}

fn current_name(uno: &mut Uno) -> String {
    uno.current_player().name().to_string()
}

fn hand_sizes(uno: &Uno) -> Vec<usize> {
    uno.players().iter().map(|player| player.get_hand().len()).collect()
}

fn hands(uno: &Uno) -> Vec<Vec<Card>> {
    uno.players().iter().map(|player| player.get_hand().to_vec()).collect()
}

fn all_cards(uno: &Uno) -> Vec<Card> {
    let mut cards: Vec<Card> = uno.deck().to_vec();
    cards.extend(uno.discard().iter());
    for player in uno.players() {
        cards.extend(player.get_hand().iter());
    }
    cards
}

fn count(cards: &[Card], card: Card) -> usize {
    cards.iter().filter(|held| **held == card).count()
}

fn holds_one_full_deck(cards: &[Card]) -> bool {
    let mut full = cards.len() == 108;
    for color in COLORS {
        for face in COLORED_FACES {
            let expected = if face == Face::Zero { 1 } else { 2 };
            full = full && count(cards, Card::new(color, face)) == expected;
        }
    }
    full && count(cards, Card::new(Color::Red, Face::DrawFour)) == 4
        && count(cards, Card::new(Color::Red, Face::ColorCard)) == 4
}

/// Leaves the current player with `cards` alone in hand.
fn deal_exactly(uno: &mut Uno, cards: &[Card]) {
    while uno.current_player().get_hand_mut().draw().is_some() {}
    for card in cards.iter().rev() {
        uno.current_player().add_card(*card);
    }
}

/// Makes a card of `color` and `face` the top of the discard pile: the
/// current player calls the color with a wild card, and the next player
/// follows with the card.
fn set_top(uno: &mut Uno, color: Color, face: Face) {
    let wild = Card::new(color, Face::ColorCard);
    uno.current_player().add_card(wild);
    assert!(matches!(uno.play_card(wild), TurnResult::Success(_)));
    let card = Card::new(color, face);
    uno.current_player().add_card(card);
    uno.current_player().add_card(Card::new(color, Face::Zero));
    assert!(matches!(uno.play_card(card), TurnResult::Success(_)));
    assert_eq!(Some(&card), uno.discard().peek_top_card());
}

#[test]
fn two_players_start_with_seven_cards_each() {
    let uno = game(2);
    assert_eq!(vec![7, 7], hand_sizes(&uno));
    assert_eq!(93, uno.deck().len());
    assert_eq!(1, uno.discard().len());
    assert_eq!(1, uno.current_turn());
    assert_eq!(GameDirection::Clockwise, uno.direction());
    assert_eq!(2, uno.players().len());
}

#[test]
fn eight_players_start_with_seven_cards_each() {
    let mut uno = game(8);
    assert_eq!(vec![7; 8], hand_sizes(&uno));
    assert_eq!(51, uno.deck().len());
    assert_eq!(1, uno.discard().len());
    assert_eq!("Ali", current_name(&mut uno));
}

#[test]
fn players_keep_their_names_and_order() {
    let uno = game(5);
    let names: Vec<&str> = uno.players().iter().map(|player| player.name()).collect();
    assert_eq!(vec!["Ali", "Bob", "Cam", "Dan", "Edd"], names);
}

#[test]
fn players_keep_the_cards_they_bring() {
    let mut ali = Player::new("Ali");
    ali.add_card(Card::new(Color::Red, Face::Nine));
    let bob = Player::new("Bob");
    let uno = Uno::create_game(vec![ali, bob]);
    assert_eq!(vec![8, 7], hand_sizes(&uno));
    assert_eq!(Card::new(Color::Red, Face::Nine), uno.players()[0].get_hand()[7]);
    assert_eq!(93, uno.deck().len());
}

#[test]
fn a_new_game_holds_one_full_deck() {
    for players in 2..=8 {
        let uno = game(players);
        assert!(holds_one_full_deck(&all_cards(&uno)));
    }
}

#[test]
fn skip_passes_over_one_player() {
    let mut uno = game(4);
    set_top(&mut uno, Color::Red, Face::Five);
    assert_eq!("Cam", current_name(&mut uno));
    let turn = uno.current_turn();
    let skip = Card::new(Color::Red, Face::Skip);
    uno.current_player().add_card(skip);
    let sizes = hand_sizes(&uno);

    assert!(matches!(uno.play_card(skip), TurnResult::Success(card) if card == skip));
    assert_eq!(turn + 2, uno.current_turn());
    assert_eq!("Ali", current_name(&mut uno));
    assert_eq!(Some(&skip), uno.discard().peek_top_card());
    assert_eq!(vec![sizes[0], sizes[1], sizes[2] - 1, sizes[3]], hand_sizes(&uno));
    assert_eq!(GameDirection::Clockwise, uno.direction());
}

#[test]
fn skip_between_two_players_comes_back() {
    let mut uno = game(2);
    set_top(&mut uno, Color::Red, Face::Five);
    assert_eq!("Ali", current_name(&mut uno));
    let turn = uno.current_turn();
    let skip = Card::new(Color::Red, Face::Skip);
    uno.current_player().add_card(skip);

    assert!(matches!(uno.play_card(skip), TurnResult::Success(_)));
    assert_eq!(turn + 2, uno.current_turn());
    assert_eq!("Ali", current_name(&mut uno));
}

#[test]
fn a_number_card_passes_the_turn_once() {
    let mut uno = game(3);
    set_top(&mut uno, Color::Green, Face::Five);
    assert_eq!("Cam", current_name(&mut uno));
    let turn = uno.current_turn();
    let draw = uno.deck().len();
    let seven = Card::new(Color::Green, Face::Seven);
    uno.current_player().add_card(seven);
    let sizes = hand_sizes(&uno);

    assert!(matches!(uno.play_card(seven), TurnResult::Success(_)));
    assert_eq!(turn + 1, uno.current_turn());
    assert_eq!("Ali", current_name(&mut uno));
    assert_eq!(draw, uno.deck().len());
    assert_eq!(vec![sizes[0], sizes[1], sizes[2] - 1], hand_sizes(&uno));
}

#[test]
fn a_card_of_the_same_face_may_follow() {
    let mut uno = game(3);
    set_top(&mut uno, Color::Green, Face::Five);
    let five = Card::new(Color::Blue, Face::Five);
    uno.current_player().add_card(five);
    assert!(matches!(uno.play_card(five), TurnResult::Success(_)));
    assert_eq!(Some(&five), uno.discard().peek_top_card());
}

#[test]
fn draw_two_makes_the_next_player_draw_and_lose_the_turn() {
    let mut uno = game(4);
    set_top(&mut uno, Color::Blue, Face::Five);
    assert_eq!("Cam", current_name(&mut uno));
    let turn = uno.current_turn();
    let draw = uno.deck().len();
    let card = Card::new(Color::Blue, Face::DrawTwo);
    uno.current_player().add_card(card);
    let sizes = hand_sizes(&uno);
    let next_two = [uno.deck()[draw - 1], uno.deck()[draw - 2]];

    assert!(matches!(uno.play_card(card), TurnResult::Success(_)));
    assert_eq!(turn + 2, uno.current_turn());
    assert_eq!("Ali", current_name(&mut uno));
    assert_eq!(draw - 2, uno.deck().len());
    assert_eq!(vec![sizes[0], sizes[1], sizes[2] - 1, sizes[3] + 2], hand_sizes(&uno));
    let victim = uno.players()[3].get_hand();
    assert!(victim[0] == next_two[1] && victim[0].color == next_two[1].color);
    assert!(victim[1] == next_two[0] && victim[1].color == next_two[0].color);
}

#[test]
fn draw_four_makes_the_next_player_draw_four() {
    let mut uno = game(4);
    assert_eq!("Ali", current_name(&mut uno));
    let draw = uno.deck().len();
    let card = Card::new(Color::Green, Face::DrawFour);
    uno.current_player().add_card(card);
    let sizes = hand_sizes(&uno);

    assert!(matches!(uno.play_card(card), TurnResult::Success(_)));
    assert_eq!(3, uno.current_turn());
    assert_eq!("Cam", current_name(&mut uno));
    assert_eq!(draw - 4, uno.deck().len());
    assert_eq!(vec![sizes[0] - 1, sizes[1] + 4, sizes[2], sizes[3]], hand_sizes(&uno));
    assert_eq!(Color::Green, uno.discard().peek_top_card().unwrap().color);
}

#[test]
fn reverse_turns_the_direction_round() {
    let mut uno = game(4);
    set_top(&mut uno, Color::Yellow, Face::Five);
    assert_eq!("Cam", current_name(&mut uno));
    let turn = uno.current_turn();
    let card = Card::new(Color::Yellow, Face::Reverse);
    uno.current_player().add_card(card);

    assert!(matches!(uno.play_card(card), TurnResult::Success(_)));
    assert_eq!(GameDirection::CounterClockwise, uno.direction());
    assert_eq!(turn + 1, uno.current_turn());
    assert_eq!("Bob", current_name(&mut uno));
}

#[test]
fn reverse_between_two_players_passes_the_turn_twice() {
    let mut uno = game(2);
    set_top(&mut uno, Color::Yellow, Face::Five);
    assert_eq!("Ali", current_name(&mut uno));
    let turn = uno.current_turn();
    let card = Card::new(Color::Yellow, Face::Reverse);
    uno.current_player().add_card(card);

    assert!(matches!(uno.play_card(card), TurnResult::Success(_)));
    assert_eq!(GameDirection::CounterClockwise, uno.direction());
    assert_eq!(turn + 2, uno.current_turn());
    assert_eq!("Ali", current_name(&mut uno));
}

#[test]
fn counter_clockwise_wraps_from_the_first_player_to_the_last() {
    let mut uno = game(4);
    assert_eq!("Ali", current_name(&mut uno));
    let top = *uno.discard().peek_top_card().unwrap();
    let wild = Card::new(Color::Red, Face::ColorCard);
    uno.current_player().add_card(wild);
    assert!(matches!(uno.play_card(wild), TurnResult::Success(_)));
    assert!(top.face != Face::ColorCard || uno.discard().len() == 2);
    assert_eq!("Bob", current_name(&mut uno));

    let reverse = Card::new(Color::Red, Face::Reverse);
    uno.current_player().add_card(reverse);
    assert!(matches!(uno.play_card(reverse), TurnResult::Success(_)));
    assert_eq!("Ali", current_name(&mut uno));

    let one = Card::new(Color::Red, Face::One);
    uno.current_player().add_card(one);
    assert!(matches!(uno.play_card(one), TurnResult::Success(_)));
    assert_eq!("Dan", current_name(&mut uno));
    assert_eq!(4, uno.current_turn());
}

#[test]
fn a_card_that_is_not_held_is_refused_and_nothing_changes() {
    let mut uno = game(3);
    deal_exactly(&mut uno, &[Card::new(Color::Red, Face::One), Card::new(Color::Blue, Face::Two)]);
    let before = (hands(&uno), uno.deck().to_vec(), uno.discard().to_vec());
    let asked = Card::new(Color::Red, Face::Two);

    assert!(matches!(uno.play_card(asked), TurnResult::NotHoldingCard(card) if card == asked));
    assert_eq!(before, (hands(&uno), uno.deck().to_vec(), uno.discard().to_vec()));
    assert_eq!(1, uno.current_turn());
    assert_eq!(GameDirection::Clockwise, uno.direction());
    assert_eq!("Ali", current_name(&mut uno));
}

#[test]
fn a_card_that_may_not_follow_is_refused_and_nothing_changes() {
    let mut uno = game(3);
    set_top(&mut uno, Color::Red, Face::Five);
    assert_eq!("Cam", current_name(&mut uno));
    let turn = uno.current_turn();
    let asked = Card::new(Color::Blue, Face::Six);
    uno.current_player().add_card(asked);
    let before = (hands(&uno), uno.deck().to_vec(), uno.discard().to_vec());

    match uno.play_card(asked) {
        TurnResult::InvalidMove(top, card) => {
            assert_eq!(Card::new(Color::Red, Face::Five), top);
            assert_eq!(asked, card);
        }
        other => panic!("the play came to {:?}", other),
    }
    assert_eq!(before, (hands(&uno), uno.deck().to_vec(), uno.discard().to_vec()));
    assert_eq!(turn, uno.current_turn());
    assert_eq!(GameDirection::Clockwise, uno.direction());
    assert_eq!("Cam", current_name(&mut uno));
}

#[test]
fn not_holding_comes_before_the_rule_of_play() {
    let mut uno = game(2);
    set_top(&mut uno, Color::Red, Face::Five);
    deal_exactly(&mut uno, &[Card::new(Color::Red, Face::One)]);
    let asked = Card::new(Color::Blue, Face::Six);
    assert!(matches!(uno.play_card(asked), TurnResult::NotHoldingCard(_)));
}

#[test]
fn the_last_card_ends_the_game_whatever_its_face() {
    let faces = [Face::Skip, Face::Reverse, Face::DrawTwo, Face::Seven, Face::DrawFour, Face::ColorCard];
    for face in faces {
        let mut uno = game(3);
        set_top(&mut uno, Color::Red, Face::Five);
        assert_eq!("Cam", current_name(&mut uno));
        let turn = uno.current_turn();
        let draw = uno.deck().len();
        let discard = uno.discard().len();
        let last = Card::new(Color::Red, face);
        deal_exactly(&mut uno, &[last]);
        let sizes = hand_sizes(&uno);

        assert!(matches!(uno.play_card(last), TurnResult::GameOver));
        assert_eq!(turn, uno.current_turn());
        assert_eq!(GameDirection::Clockwise, uno.direction());
        assert_eq!("Cam", current_name(&mut uno));
        assert_eq!(draw, uno.deck().len());
        assert_eq!(discard + 1, uno.discard().len());
        assert_eq!(Some(&last), uno.discard().peek_top_card());
        assert_eq!(vec![sizes[0], sizes[1], 0], hand_sizes(&uno));
    }
}

#[test]
fn a_wild_card_is_found_in_the_hand_whatever_color_is_called() {
    let mut uno = game(2);
    deal_exactly(
        &mut uno,
        &[
            Card::new(Color::Green, Face::One),
            Card::new(Color::Red, Face::ColorCard),
            Card::new(Color::Red, Face::ColorCard),
        ],
    );
    let called = Card::new(Color::Blue, Face::ColorCard);

    assert!(matches!(uno.play_card(called), TurnResult::Success(_)));
    let top = uno.discard().peek_top_card().unwrap();
    assert_eq!(Color::Blue, top.color);
    assert_eq!(Face::ColorCard, top.face);
    let hand = uno.players()[0].get_hand();
    assert_eq!(2, hand.len());
    assert_eq!(Card::new(Color::Green, Face::One), hand[0]);
    assert_eq!(Face::ColorCard, hand[1].face);

    let blue = Card::new(Color::Blue, Face::Three);
    let red = Card::new(Color::Red, Face::Three);
    deal_exactly(&mut uno, &[red, blue, blue]);
    assert!(matches!(uno.play_card(red), TurnResult::InvalidMove(_, _)));
    assert!(matches!(uno.play_card(blue), TurnResult::Success(_)));
}

#[test]
fn play_takes_the_first_of_two_equal_cards() {
    let mut uno = game(2);
    set_top(&mut uno, Color::Red, Face::Five);
    let one = Card::new(Color::Red, Face::One);
    let two = Card::new(Color::Green, Face::Two);
    deal_exactly(&mut uno, &[two, one, two, one]);
    assert!(matches!(uno.play_card(one), TurnResult::Success(_)));
    assert_eq!(vec![two, two, one], uno.players()[0].get_hand().to_vec());
}

#[test]
fn draw_card_takes_the_back_of_the_draw_pile() {
    let mut uno = game(2);
    let expected = uno.deck()[92];
    let discard = uno.discard().to_vec();
    let card = uno.draw_card();
    assert!(card == expected && card.color == expected.color);
    assert_eq!(92, uno.deck().len());
    assert_eq!(discard, uno.discard().to_vec());
    assert_eq!(vec![7, 7], hand_sizes(&uno));
    assert_eq!(1, uno.current_turn());
}

#[test]
fn an_empty_draw_pile_is_refilled_from_under_the_top_of_the_discard_pile() {
    let mut uno = game(2);
    for (color, face) in [(Color::Red, Face::One), (Color::Green, Face::Two), (Color::Blue, Face::Three)] {
        set_top(&mut uno, color, face);
    }
    while uno.deck().len() > 0 {
        uno.draw_card();
    }
    let discard = uno.discard().to_vec();
    assert_eq!(7, discard.len());

    let card = uno.draw_card();
    assert!(card == discard[6] && card.color == discard[6].color);
    assert_eq!(vec![discard[0]], uno.discard().to_vec());
    assert_eq!(discard[1..6].to_vec(), uno.deck().to_vec());
}

#[test]
fn with_nothing_under_the_top_a_fresh_deck_comes_in() {
    let mut uno = game(2);
    while uno.deck().len() > 0 {
        uno.draw_card();
    }
    let top = *uno.discard().peek_top_card().unwrap();
    assert_eq!(1, uno.discard().len());

    let card = uno.draw_card();
    assert_eq!(vec![top], uno.discard().to_vec());
    assert_eq!(107, uno.deck().len());
    let mut fresh = uno.deck().to_vec();
    fresh.push(card);
    assert!(holds_one_full_deck(&fresh));
}

#[test]
fn forced_draws_reach_through_the_refill() {
    let mut uno = game(2);
    set_top(&mut uno, Color::Red, Face::One);
    set_top(&mut uno, Color::Green, Face::Two);
    while uno.deck().len() > 1 {
        uno.draw_card();
    }
    let last_of_draw = uno.deck()[0];
    let discard = uno.discard().to_vec();
    assert_eq!(5, discard.len());
    let card = Card::new(Color::Green, Face::DrawFour);
    uno.current_player().add_card(card);
    let sizes = hand_sizes(&uno);

    assert!(matches!(uno.play_card(card), TurnResult::Success(_)));
    assert_eq!(vec![card], uno.discard().to_vec());
    assert_eq!(vec![discard[0], discard[1]], uno.deck().to_vec());
    assert_eq!(vec![sizes[0] - 1, sizes[1] + 4], hand_sizes(&uno));
    let victim = uno.players()[1].get_hand();
    assert_eq!(vec![discard[2], discard[3], discard[4], last_of_draw], victim[..4].to_vec());
}

#[test]
fn plays_and_draws_keep_one_full_deck_in_the_game() {
    for players in 2..=8 {
        let mut uno = game(players);
        assert!(holds_one_full_deck(&all_cards(&uno)));
        for _ in 0..300 {
            if uno.deck().len() + uno.discard().len() < 5 {
                break;
            }
            let top = *uno.discard().peek_top_card().unwrap();
            let hand = uno.current_player().get_hand().to_vec();
            let choice = hand.iter().find(|card| card.can_play_on(top));
            let result = match choice {
                Some(card) => uno.play_card(*card),
                None => {
                    let drawn = uno.draw_card();
                    uno.current_player().add_card(drawn);
                    uno.play_card(drawn)
                }
            };
            assert!(holds_one_full_deck(&all_cards(&uno)));
            if matches!(result, TurnResult::GameOver) {
                break;
            }
        }
    }
}

#[test]
fn the_current_player_can_be_handed_a_card() {
    let mut uno = game(3);
    let card = uno.draw_card();
    uno.current_player().get_hand_mut().push_front(card);
    assert_eq!(vec![8, 7, 7], hand_sizes(&uno));
    assert_eq!(Some(&card), uno.players()[0].get_hand().peek_top_card());
    assert_eq!(1, uno.current_turn());
    assert!(holds_one_full_deck(&all_cards(&uno)));
}

#[test]
fn piles_are_piles() {
    let uno = game(2);
    let draw: &Deck = uno.deck();
    let discard: &Deck = uno.discard();
    assert_eq!(94, draw.len() + discard.len());
}
