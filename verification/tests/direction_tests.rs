use uno::GameDirection;

#[test]
fn direction_tests() {
    let direction = GameDirection::Clockwise;
    assert_eq!(direction, !!direction);
}

#[test]
fn reverse_flips_the_direction() {
    assert_eq!(GameDirection::CounterClockwise, GameDirection::Clockwise.reverse());
    assert_eq!(GameDirection::Clockwise, GameDirection::CounterClockwise.reverse());
    assert_eq!(GameDirection::CounterClockwise, !GameDirection::Clockwise);
}

#[test]
fn reversing_twice_gives_the_direction_back() {
    for direction in [GameDirection::Clockwise, GameDirection::CounterClockwise] {
        assert_eq!(direction, direction.reverse().reverse());
    }
}

#[test]
fn a_direction_moves_an_index_by_one() {
    assert_eq!(4, 3isize + GameDirection::Clockwise);
    assert_eq!(2, 3isize + GameDirection::CounterClockwise);
    assert_eq!(-1, 0isize + GameDirection::CounterClockwise);
}
