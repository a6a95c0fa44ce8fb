//! Tests for the menu: printed options and validated numeric selection.

use guessing_game::io::{Reader, Writer};
use guessing_game::menu::menu;

fn setup_io() -> (Writer, Reader) {
    setup_io_with_input("1")
}

fn setup_io_with_input(input: &str) -> (Writer, Reader) {
    (Writer::new(), Reader::new(vec![String::from(input)]))
}

#[test]
fn menu_prints_generic_first_line() {
    let (mut writer, mut reader) = setup_io();
    let choices = ["first", "second"];
    menu(&choices, &mut writer, &mut reader).unwrap();

    assert!(writer
        .written_lines
        .get(0)
        .unwrap()
        .contains("Please choose from the following..."));
}

#[test]
fn menu_passes_given_choices_to_given_print_fn() {
    let (mut writer, mut reader) = setup_io();
    let choices = ["first", "second"];
    menu(&choices, &mut writer, &mut reader).unwrap();

    assert!(writer.written_lines.get(1).unwrap().contains("first"));
    assert!(writer.written_lines.get(2).unwrap().contains("second"));
}

#[test]
fn menu_returns_user_input() {
    let (mut writer, mut reader) = setup_io_with_input("1");
    let choices = ["choice"];
    let response = menu(&choices, &mut writer, &mut reader);

    assert_eq!(response.unwrap(), 1)
}

#[test]
#[should_panic(expected = "Invalid choice!")]
fn menu_returns_error_if_user_input_is_not_a_number() {
    let (mut writer, mut reader) = setup_io_with_input("not a number");
    let choices = ["choice"];
    menu(&choices, &mut writer, &mut reader).unwrap();
}

#[test]
#[should_panic(expected = "Invalid choice!")]
fn menu_returns_error_if_user_input_is_negative() {
    let (mut writer, mut reader) = setup_io_with_input("-1");
    let choices = ["choice"];
    menu(&choices, &mut writer, &mut reader).unwrap();
}

#[test]
#[should_panic(expected = "Invalid choice!")]
fn menu_returns_error_if_user_input_is_higher_than_length_of_choice_array() {
    let (mut writer, mut reader) = setup_io_with_input("2");
    let choices = ["choice"];
    menu(&choices, &mut writer, &mut reader).unwrap();
}

#[test]
#[should_panic(expected = "Invalid choice!")]
fn menu_returns_error_if_user_input_is_0() {
    let (mut writer, mut reader) = setup_io_with_input("0");
    let choices = ["choice"];
    menu(&choices, &mut writer, &mut reader).unwrap();
}
