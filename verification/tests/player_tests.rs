use uno::{Card, Color, Face, Player};

#[test]
fn new_player_has_a_name_and_an_empty_hand() {
    let player = Player::new("Ali");
    assert_eq!("Ali", player.name());
    assert_eq!(0, player.get_hand().len());
}

#[test]
fn player_from_a_name() {
    let player: Player = "Bob".into();
    assert_eq!("Bob", player.name());
    assert_eq!(0, player.get_hand().len());
}

#[test]
fn add_card_puts_the_card_at_the_front_of_the_hand() {
    let mut player = Player::new("Cam");
    player.add_card(Card::new(Color::Red, Face::One));
    player.add_card(Card::new(Color::Blue, Face::Skip));
    assert_eq!(2, player.get_hand().len());
    assert_eq!(Some(&Card::new(Color::Blue, Face::Skip)), player.get_hand().peek_top_card());
    assert_eq!(Card::new(Color::Red, Face::One), player.get_hand()[1]);
    assert_eq!("Cam", player.name());
}

#[test]
fn get_hand_mut_changes_the_hand_in_place() {
    let mut player = Player::new("Dan");
    player.add_card(Card::new(Color::Red, Face::One));
    player.add_card(Card::new(Color::Green, Face::Two));
    player.get_hand_mut().remove_first_match(Card::new(Color::Red, Face::One));
    assert_eq!(1, player.get_hand().len());
    assert!(player.get_hand().has_card(Card::new(Color::Green, Face::Two)));
    assert!(!player.get_hand().has_card(Card::new(Color::Red, Face::One)));
    assert_eq!("Dan", player.name());
}
