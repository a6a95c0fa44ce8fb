//! Tests for the prompt over the recording writer and scripted reader.

use guessing_game::io::{prompt, Reader, Writer};

fn setup_io() -> (Writer, Reader) {
    setup_io_with_input("1")
}

fn setup_io_with_input(input: &str) -> (Writer, Reader) {
    (Writer::new(), Reader::new(vec![String::from(input)]))
}

#[test]
fn prompt_sends_prompt_char_to_given_print_fn() {
    let (mut writer, mut reader) = setup_io();
    prompt(&mut writer, &mut reader);

    assert_eq!(writer.written_lines.get(0), Some(&("> ").to_string()));
}

#[test]
fn prompt_returns_user_input() {
    let (mut writer, mut reader) = setup_io_with_input("given input");
    let actual = prompt(&mut writer, &mut reader);

    assert_eq!(actual, String::from("given input"))
}
