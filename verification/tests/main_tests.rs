//! Tests for the free `evaluate` and `play_game` functions.

use guessing_game::game::{evaluate, play_game, GameError};
use guessing_game::io::{Reader, Writer};

fn setup_io_with_input(input: &str) -> (Writer, Reader) {
    (Writer::new(), Reader::new(vec![String::from(input)]))
}

fn setup_io_with_many_inputs(inputs: &[&str]) -> (Writer, Reader) {
    let values: Vec<String> = inputs.iter().map(|input| String::from(*input)).collect();
    (Writer::new(), Reader::new(values))
}

#[test]
fn main_evaluate_returns_ok_if_guess_is_correct() -> Result<(), String> {
    evaluate(1, 1)
}

#[test]
fn main_evaluate_returns_err_if_guess_is_incorrect() -> Result<(), ()> {
    match evaluate(1, 2) {
        Err(_) => Ok(()),
        _ => Err(()),
    }
}

#[test]
fn main_evaluate_specifies_if_guess_is_too_high() {
    let reason = match evaluate(11, 10) {
        Err(reason) => reason,
        _ => panic!("evaluate should be Err"),
    };

    assert!(reason.contains("too high"))
}

#[test]
fn main_evaluate_specifies_if_guess_is_too_low() {
    let reason = match evaluate(9, 10) {
        Err(reason) => reason,
        _ => panic!("evaluate should be Err"),
    };

    assert!(reason.contains("too low"))
}

#[test]
fn main_play_game_returns_ok_if_guesser_is_correct_on_first_guess() {
    let (mut writer, mut reader) = setup_io_with_input("1");
    let test_secret = 1;
    let game_result = play_game(test_secret, &mut writer, &mut reader);

    match game_result {
        Ok(()) => assert!(true),
        Err(err) => assert!(false, "This shouldn't be Err {:?}", err),
    }
}

#[test]
fn main_play_game_returns_ok_if_guesser_is_eventually_correct() {
    let guesses = ["0", "1"];
    let (mut writer, mut reader) = setup_io_with_many_inputs(&guesses);
    let test_secret = 1;
    let game_result = play_game(test_secret, &mut writer, &mut reader);

    match game_result {
        Ok(()) => assert!(true),
        Err(err) => assert!(false, "This shouldn't be Err {:?}", err),
    }
}

#[test]
fn main_play_game_returns_quit_if_user_enters_quit() {
    let (mut writer, mut reader) = setup_io_with_input("quit");
    let test_secret = 1;
    let game_result = play_game(test_secret, &mut writer, &mut reader);

    match game_result {
        Ok(()) => assert!(false, "This should never happen"),
        Err(err) => {
            if let GameError::Quit = err {
                assert!(true)
            } else {
                assert!(false, "Err should contain 'quit', not '{:?}'", err)
            }
        }
    }
}

#[test]
fn main_play_game_alerts_guesser_if_input_is_invalid() {
    let guesses = ["not a valid input", "1"];
    let (mut writer, mut reader) = setup_io_with_many_inputs(&guesses);
    let test_secret = 1;
    let _ = play_game(test_secret, &mut writer, &mut reader);

    let invalid_input = writer
        .written_lines
        .iter()
        .find(|line| line.contains("Invalid input"));

    match invalid_input {
        Some(_) => assert!(true),
        None => assert!(
            false,
            "output should include line indicating first input was invalid"
        ),
    }
}

#[test]
fn main_play_game_allows_user_to_continue_guessing_after_invalid_input() {
    let guesses = ["not a valid input", "1"];
    let (mut writer, mut reader) = setup_io_with_many_inputs(&guesses);
    let test_secret = 1;
    let game_result = play_game(test_secret, &mut writer, &mut reader);

    match game_result {
        Ok(()) => assert!(true),
        Err(err) => assert!(false, "This shouldn't be Err {:?}", err),
    }
}
