use battleship::text::{actor_name, compose_message, decimal};

#[test]
fn decimal_numbers() {
    assert_eq!(decimal(0), "0");
    assert_eq!(decimal(7), "7");
    assert_eq!(decimal(10), "10");
    assert_eq!(decimal(42), "42");
    assert_eq!(decimal(100), "100");
    assert_eq!(decimal(9_876_543_210), "9876543210");
    assert_eq!(decimal(u64::MAX), "18446744073709551615");
}

#[test]
fn actors() {
    assert_eq!(actor_name(false), "You");
    assert_eq!(actor_name(true), "Computer");
}

#[test]
fn a_kill_and_a_miss_for_the_human() {
    assert_eq!(compose_message(1, 0, 1, false), "You have sunk 1 ship. You missed 1.");
}

#[test]
fn two_hits_for_the_computer() {
    assert_eq!(compose_message(0, 2, 0, true), "Computer have 2 hit.");
}

#[test]
fn kills_hide_the_hits() {
    assert_eq!(compose_message(2, 5, 0, false), "You have sunk 2 ship.");
    assert_eq!(compose_message(1, 3, 4, true), "Computer have sunk 1 ship. Computer missed 4.");
}

#[test]
fn nothing_hit() {
    assert_eq!(compose_message(0, 0, 0, false), "You have 0 hit.");
    assert_eq!(compose_message(0, 0, 1, false), "You have 0 hit. You missed 1.");
    assert_eq!(compose_message(0, 0, 3, true), "Computer have 0 hit. Computer missed 3.");
}

#[test]
fn counts_of_more_than_one_digit() {
    assert_eq!(compose_message(0, 12, 88, false), "You have 12 hit. You missed 88.");
    assert_eq!(compose_message(10, 0, 0, true), "Computer have sunk 10 ship.");
}
