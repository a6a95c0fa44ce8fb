//! Tests for one round of the game played through the `Game` object.

use guessing_game::game::{Game, GameError};
use guessing_game::io::{Reader, Writer};

fn setup_io() -> (Writer, Reader) {
    setup_io_with_input("1")
}

fn setup_io_with_input(input: &str) -> (Writer, Reader) {
    (Writer::new(), Reader::new(vec![String::from(input)]))
}

fn setup_io_with_many_inputs(inputs: &[&str]) -> (Writer, Reader) {
    let values: Vec<String> = inputs.iter().map(|input| String::from(*input)).collect();
    (Writer::new(), Reader::new(values))
}

fn setup_game_with_secret(secret: u8) -> Game {
    let (writer, reader) = setup_io();
    Game::new(secret, writer, reader)
}

#[test]
fn takes_secret_and_io_read_and_write_streams_on_init() -> Result<(), String> {
    let (writer, reader) = setup_io();
    let secret = 8;
    Game::new(secret, writer, reader);
    Ok(())
}

#[test]
fn game_play_game_returns_ok_if_guesser_is_correct_on_first_guess() -> Result<(), GameError> {
    let (writer, reader) = setup_io_with_input("1");
    let test_secret = 1;
    let mut game = Game::new(test_secret, writer, reader);

    game.play()
}

#[test]
fn game_play_game_returns_ok_if_guesser_is_eventually_correct() -> Result<(), GameError> {
    let guesses = ["0", "1"];
    let (writer, reader) = setup_io_with_many_inputs(&guesses);
    let test_secret = 1;
    let mut game = Game::new(test_secret, writer, reader);

    game.play()
}

#[test]
fn game_play_game_returns_quit_if_user_enters_quit() -> Result<(), String> {
    let (writer, reader) = setup_io_with_input("quit");
    let test_secret = 1;
    let mut game = Game::new(test_secret, writer, reader);

    match game.play() {
        Ok(()) => Err(String::from("This should never happen")),
        Err(err) => {
            if let GameError::Quit = err {
                Ok(())
            } else {
                Err(format!("Err should contain 'quit', not '{:?}'", err))
            }
        }
    }
}

#[test]
fn game_play_game_alerts_guesser_if_input_is_invalid() -> Result<(), String> {
    let guesses = ["not a valid input", "1"];
    let (writer, reader) = setup_io_with_many_inputs(&guesses);
    let test_secret = 1;
    let mut game = Game::new(test_secret, writer, reader);
    game.play()
        .map_err(|err| format!("Unexpected error: {:?}", err))?;

    let invalid_input = game
        .writer
        .written_lines
        .iter()
        .find(|line| line.contains("Invalid input"));

    match invalid_input {
        Some(_) => Ok(()),
        None => Err(String::from(
            "output should include line indicating first input was invalid",
        )),
    }
}

#[test]
fn game_play_game_allows_user_to_continue_guessing_after_invalid_input() -> Result<(), String> {
    let guesses = ["not a valid input", "1"];
    let (writer, reader) = setup_io_with_many_inputs(&guesses);
    let test_secret = 1;
    let mut game = Game::new(test_secret, writer, reader);

    game.play()
        .map_err(|err| format!("This shouldn't be Err {:?}", err))
}

#[test]
fn game_evaluate_returns_ok_if_guess_is_correct() -> Result<(), String> {
    let game = setup_game_with_secret(1);
    game.evaluate(1)
}

#[test]
fn game_evaluate_returns_err_if_guess_is_incorrect() -> Result<(), String> {
    let game = setup_game_with_secret(2);

    match game.evaluate(1) {
        Err(_) => Ok(()),
        _ => Err(String::from("This should have Errored")),
    }
}

#[test]
fn game_evaluate_specifies_if_guess_is_too_high() {
    let game = setup_game_with_secret(10);
    let reason = match game.evaluate(11) {
        Err(reason) => reason,
        _ => panic!("evaluate should be Err"),
    };

    let expected = "too high";
    assert!(
        reason.contains(expected),
        "{reason} should contain {expected}"
    )
}

#[test]
fn game_evaluate_specifies_if_guess_is_too_low() {
    let game = setup_game_with_secret(10);
    let reason = match game.evaluate(9) {
        Err(reason) => reason,
        _ => panic!("evaluate should be Err"),
    };

    let expected = "too low";
    assert!(
        reason.contains(expected),
        "{reason} should contain {expected}"
    )
}
