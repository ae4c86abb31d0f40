use uno::{Card, Color, Deck, Face};

const COLORS: [Color; 4] = [Color::Red, Color::Green, Color::Blue, Color::Yellow];

const COLORED_FACES: [Face; 13] = [
    Face::Zero,
    Face::One,
    Face::Two,
    Face::Three,
    Face::Four,
    Face::Five,
    Face::Six,
    Face::Seven,
    Face::Eight,
    Face::Nine,
    Face::Skip,
    Face::Reverse,
    Face::DrawTwo,
];

fn count(cards: &[Card], card: Card) -> usize {
    cards.iter().filter(|held| **held == card).count()
}

fn small_pile() -> Deck {
    Deck::new(vec![
        Card::new(Color::Red, Face::One),
        Card::new(Color::Green, Face::Two),
        Card::new(Color::Blue, Face::Three),
    ])
}

#[test]
fn test_add_assign() {
    let mut deck = Deck::default();
    let top = deck.draw().unwrap();
    assert_eq!(107, (*deck).len());

    deck += top.clone();
    assert_eq!(deck.peek_top_card(), Some(&top));
    assert_eq!(108, (*deck).len());
}

#[test]
fn test_sub_assign() {
    let mut deck = Deck::default();
    let top = deck.peek_top_card().unwrap().clone();
    assert_eq!(108, (*deck).len());

    deck -= top;
    assert_eq!(107, (*deck).len());
}

#[test]
fn default_deck_has_the_full_composition() {
    let deck = Deck::default();
    assert_eq!(108, deck.len());
    for color in COLORS {
        for face in COLORED_FACES {
            let expected = if face == Face::Zero { 1 } else { 2 };
            assert_eq!(expected, count(&deck, Card::new(color, face)));
        }
    }
    assert_eq!(4, count(&deck, Card::new(Color::Red, Face::DrawFour)));
    assert_eq!(4, count(&deck, Card::new(Color::Red, Face::ColorCard)));
}

#[test]
fn default_deck_keeps_wild_cards_under_red() {
    let deck = Deck::default();
    for card in deck.iter() {
        if card.face == Face::DrawFour || card.face == Face::ColorCard {
            assert_eq!(Color::Red, card.color);
        }
    }
}

#[test]
fn new_keeps_the_order() {
    let deck = small_pile();
    assert_eq!(3, deck.len());
    assert_eq!(Card::new(Color::Red, Face::One), deck[0]);
    assert_eq!(Card::new(Color::Green, Face::Two), deck[1]);
    assert_eq!(Card::new(Color::Blue, Face::Three), deck[2]);
}

#[test]
fn from_vec_keeps_the_order() {
    let deck: Deck = vec![Card::new(Color::Yellow, Face::Nine), Card::new(Color::Red, Face::Skip)].into();
    assert_eq!(2, deck.len());
    assert_eq!(Card::new(Color::Yellow, Face::Nine), deck[0]);
    assert_eq!(Card::new(Color::Red, Face::Skip), deck[1]);
}

#[test]
fn draw_takes_the_back() {
    let mut deck = small_pile();
    assert_eq!(Some(Card::new(Color::Blue, Face::Three)), deck.draw());
    assert_eq!(2, deck.len());
    assert_eq!(Some(Card::new(Color::Green, Face::Two)), deck.draw());
    assert_eq!(Some(Card::new(Color::Red, Face::One)), deck.draw());
    assert_eq!(0, deck.len());
}

#[test]
fn draw_from_an_empty_pile_is_none() {
    let mut deck = Deck::new(Vec::new());
    assert_eq!(None, deck.draw());
    assert_eq!(0, deck.len());
}

#[test]
fn peek_shows_the_front_and_leaves_it() {
    let deck = small_pile();
    assert_eq!(Some(&Card::new(Color::Red, Face::One)), deck.peek_top_card());
    assert_eq!(3, deck.len());
}

#[test]
fn peek_at_an_empty_pile_is_none() {
    let deck = Deck::new(Vec::new());
    assert_eq!(None, deck.peek_top_card());
}

#[test]
fn push_front_puts_the_card_on_top() {
    let mut deck = small_pile();
    deck.push_front(Card::new(Color::Yellow, Face::Skip));
    assert_eq!(4, deck.len());
    assert_eq!(Card::new(Color::Yellow, Face::Skip), deck[0]);
    assert_eq!(Card::new(Color::Red, Face::One), deck[1]);
    assert_eq!(Card::new(Color::Blue, Face::Three), deck[3]);
}

#[test]
fn remove_top_takes_the_front() {
    let mut deck = small_pile();
    assert_eq!(Card::new(Color::Red, Face::One), deck.remove_top());
    assert_eq!(2, deck.len());
    assert_eq!(Card::new(Color::Green, Face::Two), deck[0]);
    assert_eq!(Card::new(Color::Blue, Face::Three), deck[1]);
}

#[test]
fn remove_first_match_takes_only_the_first() {
    let mut deck = Deck::new(vec![
        Card::new(Color::Red, Face::One),
        Card::new(Color::Green, Face::Two),
        Card::new(Color::Red, Face::One),
        Card::new(Color::Green, Face::Two),
    ]);
    deck.remove_first_match(Card::new(Color::Green, Face::Two));
    assert_eq!(3, deck.len());
    assert_eq!(Card::new(Color::Red, Face::One), deck[0]);
    assert_eq!(Card::new(Color::Red, Face::One), deck[1]);
    assert_eq!(Card::new(Color::Green, Face::Two), deck[2]);
}

#[test]
fn remove_first_match_of_an_absent_card_changes_nothing() {
    let mut deck = small_pile();
    deck.remove_first_match(Card::new(Color::Yellow, Face::One));
    assert_eq!(3, deck.len());
    assert_eq!(Card::new(Color::Red, Face::One), deck[0]);
    assert_eq!(Card::new(Color::Green, Face::Two), deck[1]);
    assert_eq!(Card::new(Color::Blue, Face::Three), deck[2]);
}

#[test]
fn remove_first_match_ignores_the_color_of_a_wild_card() {
    let mut deck = Deck::new(vec![
        Card::new(Color::Red, Face::One),
        Card::new(Color::Red, Face::DrawFour),
        Card::new(Color::Red, Face::ColorCard),
    ]);
    deck.remove_first_match(Card::new(Color::Blue, Face::ColorCard));
    assert_eq!(2, deck.len());
    assert_eq!(Face::One, deck[0].face);
    assert_eq!(Face::DrawFour, deck[1].face);
}

#[test]
fn has_card_goes_by_color_and_face() {
    let deck = small_pile();
    assert!(deck.has_card(Card::new(Color::Green, Face::Two)));
    assert!(!deck.has_card(Card::new(Color::Green, Face::Three)));
    assert!(!deck.has_card(Card::new(Color::Red, Face::Two)));
    assert!(!Deck::new(Vec::new()).has_card(Card::new(Color::Red, Face::One)));
}

#[test]
fn has_card_ignores_the_color_of_a_wild_card() {
    let deck = Deck::new(vec![Card::new(Color::Red, Face::DrawFour)]);
    assert!(deck.has_card(Card::new(Color::Yellow, Face::DrawFour)));
    assert!(!deck.has_card(Card::new(Color::Red, Face::ColorCard)));
}

#[test]
fn reclaim_appends_in_order_and_empties_the_source() {
    let mut deck = small_pile();
    let mut other = Deck::new(vec![
        Card::new(Color::Yellow, Face::Four),
        Card::new(Color::Yellow, Face::Five),
    ]);
    deck.reclaim(&mut other);
    assert_eq!(0, other.len());
    assert_eq!(5, deck.len());
    assert_eq!(Card::new(Color::Red, Face::One), deck[0]);
    assert_eq!(Card::new(Color::Blue, Face::Three), deck[2]);
    assert_eq!(Card::new(Color::Yellow, Face::Four), deck[3]);
    assert_eq!(Card::new(Color::Yellow, Face::Five), deck[4]);
}

#[test]
fn shuffle_only_reorders() {
    let mut deck = Deck::default();
    deck.shuffle();
    assert_eq!(108, deck.len());
    for color in COLORS {
        for face in COLORED_FACES {
            let expected = if face == Face::Zero { 1 } else { 2 };
            assert_eq!(expected, count(&deck, Card::new(color, face)));
        }
    }
    assert_eq!(4, count(&deck, Card::new(Color::Red, Face::DrawFour)));
    assert_eq!(4, count(&deck, Card::new(Color::Red, Face::ColorCard)));
}

#[test]
fn shuffle_of_an_empty_pile_is_empty() {
    let mut deck = Deck::new(Vec::new());
    deck.shuffle();
    assert_eq!(0, deck.len());
}
