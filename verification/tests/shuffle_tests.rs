use uno::shuffle::{seed_from, shuffle, shuffle_seeded, Xorshift};

#[test]
fn xorshift_steps_from_one() {
    let mut generator = Xorshift::new(1);
    assert_eq!(270369, generator.next());
    assert_eq!(67634689, generator.next());
}

#[test]
fn xorshift_from_zero_stays_at_zero() {
    let mut generator = Xorshift::new(0);
    assert_eq!(0, generator.next());
    assert_eq!(0, generator.next());
}

#[test]
fn xorshift_drops_the_bits_shifted_out() {
    let mut generator = Xorshift::new(2463534242);
    assert_eq!(723471715, generator.next());
}

#[test]
fn shuffle_seeded_gives_the_order_of_the_seed() {
    let mut three = [0, 1, 2];
    shuffle_seeded(&mut three, 1);
    assert_eq!([2, 1, 0], three);

    let mut eight = [0, 1, 2, 3, 4, 5, 6, 7];
    shuffle_seeded(&mut eight, 1);
    assert_eq!([5, 2, 7, 4, 0, 1, 3, 6], eight);

    let mut eight = [0, 1, 2, 3, 4, 5, 6, 7];
    shuffle_seeded(&mut eight, 42);
    assert_eq!([5, 2, 3, 0, 4, 6, 7, 1], eight);

    let mut letters = ['a', 'b', 'c', 'd', 'e', 'f', 'g', 'h'];
    shuffle_seeded(&mut letters, 2024);
    assert_eq!(['a', 'c', 'g', 'e', 'f', 'd', 'h', 'b'], letters);
}

#[test]
fn shuffle_seeded_with_seed_zero_rotates() {
    let mut five = [0, 1, 2, 3, 4];
    shuffle_seeded(&mut five, 0);
    assert_eq!([4, 0, 1, 2, 3], five);
}

#[test]
fn shuffle_seeded_of_short_slices() {
    let mut none: [u8; 0] = [];
    shuffle_seeded(&mut none, 7);
    assert_eq!(0, none.len());

    let mut one = [7];
    shuffle_seeded(&mut one, 9);
    assert_eq!([7], one);

    let mut two = [0, 1];
    shuffle_seeded(&mut two, 5);
    assert_eq!([1, 0], two);
}

#[test]
fn shuffle_only_reorders_a_slice() {
    let mut data: Vec<u32> = (0..50).collect();
    shuffle(&mut data);
    assert_eq!(50, data.len());
    data.sort();
    let expected: Vec<u32> = (0..50).collect();
    assert_eq!(expected, data);
}

#[test]
fn shuffle_of_an_empty_slice_does_nothing() {
    let mut data: Vec<u32> = Vec::new();
    shuffle(&mut data);
    assert!(data.is_empty());
}

#[test]
fn a_reading_gives_its_lowest_32_bits_as_the_seed() {
    assert_eq!(0, seed_from(Some(0)));
    assert_eq!(5, seed_from(Some(5)));
    assert_eq!(4294967295, seed_from(Some(4294967295)));
    assert_eq!(0, seed_from(Some(4294967296)));
    assert_eq!(7, seed_from(Some(4294967296 + 7)));
    assert_eq!(1386813960, seed_from(Some(1_700_000_000_123_456_789_000)));
    assert_eq!(u32::MAX, seed_from(Some(u128::MAX)));
}

#[test]
fn no_reading_gives_seed_zero() {
    assert_eq!(0, seed_from(None));
}
