//! One round of the guessing game: evaluating a guess against the secret,
//! taking a single turn on one line of input, and playing a whole round over
//! scripted input.

use vstd::prelude::*;

use crate::io::{prompt, Reader, WriteArgs, Writer};
use crate::text::{contains_text, dec_digits, parse_u8, parse_u8_spec, trim, trim_spec, u64_to_string};

verus! {

/// How a round can end without a correct guess. `Quit` means the player asked
/// to quit; `Unknown` covers unexpected behaviour and is never produced by a
/// correct round.
#[derive(Debug)]
pub enum GameError {
    Quit,
    Unknown,
}

/// The message for a guess below the secret.
pub open spec fn too_low_msg(guess: u8) -> Seq<char> {
    dec_digits(guess as nat) + " is too low!"@
}

/// The message for a guess above the secret.
pub open spec fn too_high_msg(guess: u8) -> Seq<char> {
    dec_digits(guess as nat) + " is too high!"@
}

/// What `evaluate` returns: success on the right guess, otherwise the
/// too-low or too-high message.
pub open spec fn evaluate_spec(actual: u8, expected: u8) -> Result<(), Seq<char>> {
    if actual == expected {
        Ok(())
    } else if actual < expected {
        Err(too_low_msg(actual))
    } else {
        Err(too_high_msg(actual))
    }
}

/// An evaluation result with its message read as text.
pub open spec fn msg_view(r: Result<(), String>) -> Result<(), Seq<char>> {
    match r {
        Ok(u) => Ok(u),
        Err(m) => Err(m@),
    }
}

/// Compares a guess with the expected secret: `Ok` when they are equal,
/// otherwise `Err` with the too-low or too-high message.
pub fn evaluate(actual: u8, expected: u8) -> (r: Result<(), String>)
    ensures
        msg_view(r) == evaluate_spec(actual, expected),
{
    if actual == expected {
        Ok(())
    } else if actual < expected {
        let mut m = u64_to_string(actual as u64);
        m.append(" is too low!");
        Err(m)
    } else {
        let mut m = u64_to_string(actual as u64);
        m.append(" is too high!");
        Err(m)
    }
}

/// Every guess below the secret is answered with `TooLow`: an error message
/// that mentions "too low".
pub proof fn lemma_too_low_mentioned(guess: u8, secret: u8)
    requires
        guess < secret,
    ensures
        evaluate_spec(guess, secret) matches Err(m) && contains_text(m, "too low"@),
{
    reveal_strlit(" is too low!");
    reveal_strlit("too low");
    let m = too_low_msg(guess);
    let d = dec_digits(guess as nat).len() as int;
    assert(contains_text(m, "too low"@)) by {
        assert(m.subrange(d + 4, d + 4 + "too low"@.len() as int) =~= "too low"@);
    }
}

/// Every guess above the secret is answered with `TooHigh`: an error message
/// that mentions "too high".
pub proof fn lemma_too_high_mentioned(guess: u8, secret: u8)
    requires
        guess > secret,
    ensures
        evaluate_spec(guess, secret) matches Err(m) && contains_text(m, "too high"@),
{
    reveal_strlit(" is too high!");
    reveal_strlit("too high");
    let m = too_high_msg(guess);
    let d = dec_digits(guess as nat).len() as int;
    assert(contains_text(m, "too high"@)) by {
        assert(m.subrange(d + 4, d + 4 + "too high"@.len() as int) =~= "too high"@);
    }
}

/// Evaluating twice with identical inputs yields identical results: any two
/// results the evaluator's contract admits for the same guess and secret
/// agree, message for message.
pub proof fn lemma_evaluate_idempotent(
    actual: u8,
    expected: u8,
    r1: Result<(), String>,
    r2: Result<(), String>,
)
    requires
        msg_view(r1) == evaluate_spec(actual, expected),
        msg_view(r2) == evaluate_spec(actual, expected),
    ensures
        msg_view(r1) == msg_view(r2),
{
}

/// Where a round stands after one turn.
#[derive(Clone, Copy, Debug, PartialEq, Eq, Structural)]
pub enum TurnStatus {
    /// The guess was correct; the round is over.
    Won,
    /// The player asked to quit; the round is over.
    Quit,
    /// The round goes on, awaiting another guess.
    Awaiting,
}

/// Where a round stands after a turn on the trimmed input `t`.
pub open spec fn turn_status(secret: u8, t: Seq<char>) -> TurnStatus {
    match parse_u8_spec(t) {
        Some(guess) => if guess == secret {
            TurnStatus::Won
        } else {
            TurnStatus::Awaiting
        },
        None => if t == "quit"@ {
            TurnStatus::Quit
        } else {
            TurnStatus::Awaiting
        },
    }
}

/// The one entry a turn on the trimmed input `t` writes.
pub open spec fn turn_output(secret: u8, t: Seq<char>) -> Seq<char> {
    match parse_u8_spec(t) {
        Some(guess) => if guess == secret {
            "Correct! "@
        } else if guess < secret {
            too_low_msg(guess) + "\n\n"@
        } else {
            too_high_msg(guess) + "\n\n"@
        },
        None => if t == "quit"@ {
            "Quitting...\n"@
        } else {
            "Invalid input, please guess an integer belonging to [0,100] or enter 'quit' to quit playing.\n"@
        },
    }
}

/// Takes one turn on one line of input: parses the trimmed line as a guess
/// and evaluates it, or recognises the quit command, writing exactly the
/// message the round's protocol calls for.
pub fn take_turn(secret: u8, line: &str, writer: &mut Writer) -> (status: TurnStatus)
    ensures
        status == turn_status(secret, trim_spec(line@)),
        final(writer)@ == old(writer)@.push(turn_output(secret, trim_spec(line@))),
{
    let t = trim(line);
    match parse_u8(t.as_str()) {
        Some(guess) => {
            match evaluate(guess, secret) {
                Ok(_) => {
                    crate::io::write(writer, WriteArgs::Str("Correct! "));
                    TurnStatus::Won
                },
                Err(value) => {
                    let mut m = value;
                    m.append("\n\n");
                    crate::io::write(writer, WriteArgs::Fmt(m));
                    TurnStatus::Awaiting
                },
            }
        },
        None => {
            if t == String::from_str("quit") {
                crate::io::write(writer, WriteArgs::Str("Quitting...\n"));
                TurnStatus::Quit
            } else {
                crate::io::write(
                    writer,
                    WriteArgs::Str(
                        "Invalid input, please guess an integer belonging to [0,100] or enter 'quit' to quit playing.\n",
                    ),
                );
                TurnStatus::Awaiting
            }
        },
    }
}

/// The result of a round played on the given input lines, raw as read:
/// `Won` on the first line whose trimmed text parses to the secret, `Quit`
/// on the first unparsable line that is exactly `quit`, and nothing when the
/// lines run out before either.
pub open spec fn round_result(secret: u8, lines: Seq<Seq<char>>) -> Option<
    Result<(), GameError>,
>
    decreases lines.len(),
{
    if lines.len() == 0 {
        None
    } else {
        match turn_status(secret, trim_spec(lines[0])) {
            TurnStatus::Won => Some(Ok(())),
            TurnStatus::Quit => Some(Err(GameError::Quit)),
            TurnStatus::Awaiting => round_result(secret, lines.drop_first()),
        }
    }
}

/// How many of the given input lines a round consumes.
pub open spec fn round_steps(secret: u8, lines: Seq<Seq<char>>) -> int
    decreases lines.len(),
{
    if lines.len() == 0 {
        0
    } else if turn_status(secret, trim_spec(lines[0])) is Awaiting {
        1 + round_steps(secret, lines.drop_first())
    } else {
        1
    }
}

/// The four entries one iteration of a round writes for the raw input line
/// `raw`: the guess prompt, the prompt marker, the padding line, and the
/// turn's own message.
pub open spec fn iter_output(secret: u8, raw: Seq<char>) -> Seq<Seq<char>> {
    seq!["Guess a number...\n"@, "> "@, "\n"@, turn_output(secret, trim_spec(raw))]
}

/// Everything a round writes on the given input lines.
pub open spec fn round_output(secret: u8, lines: Seq<Seq<char>>) -> Seq<Seq<char>>
    decreases lines.len(),
{
    if lines.len() == 0 {
        Seq::empty()
    } else if turn_status(secret, trim_spec(lines[0])) is Awaiting {
        iter_output(secret, lines[0]) + round_output(secret, lines.drop_first())
    } else {
        iter_output(secret, lines[0])
    }
}

/// Plays one round with the given secret: prompts for a guess on each
/// iteration and reports on it, until the guess is correct (`Ok`) or the
/// player enters `quit` (`Err(GameError::Quit)`). The input script must
/// settle the round before it runs out, since a real player blocks for more
/// input instead.
pub fn play_game(secret: u8, writer: &mut Writer, reader: &mut Reader) -> (r: Result<
    (),
    GameError,
>)
    requires
        old(reader).wf(),
        round_result(secret, old(reader).remaining()) is Some,
    ensures
        Some(r) == round_result(secret, old(reader).remaining()),
        final(writer)@ == old(writer)@ + round_output(secret, old(reader).remaining()),
        final(reader).lines == old(reader).lines,
        final(reader).pos == old(reader).pos + round_steps(secret, old(reader).remaining()),
{
    let ghost lines0: Seq<Seq<char>> = reader.lines.deep_view();
    let ghost lv0 = reader.lines;
    let ghost pos0: usize = reader.pos;
    let ghost w0: Seq<Seq<char>> = writer@;
    let mut res: Result<(), GameError> = Err(GameError::Unknown);
    let mut keep_guessing = true;
    while keep_guessing
        invariant
            reader.lines == lv0,
            reader.lines.deep_view() == lines0,
            pos0 <= reader.pos <= lines0.len(),
            keep_guessing ==> round_result(secret, lines0.skip(pos0 as int)) == round_result(
                secret,
                lines0.skip(reader.pos as int),
            ),
            keep_guessing ==> round_result(secret, lines0.skip(reader.pos as int)) is Some,
            keep_guessing ==> w0 + round_output(secret, lines0.skip(pos0 as int)) == writer@
                + round_output(secret, lines0.skip(reader.pos as int)),
            keep_guessing ==> pos0 + round_steps(secret, lines0.skip(pos0 as int)) == reader.pos
                + round_steps(secret, lines0.skip(reader.pos as int)),
            !keep_guessing ==> Some(res) == round_result(secret, lines0.skip(pos0 as int)),
            !keep_guessing ==> writer@ == w0 + round_output(secret, lines0.skip(pos0 as int)),
            !keep_guessing ==> reader.pos == pos0 + round_steps(
                secret,
                lines0.skip(pos0 as int),
            ),
        decreases lines0.len() - reader.pos,
    {
        let ghost pos = reader.pos;
        let ghost rem = lines0.skip(pos as int);
        let ghost raw = lines0[pos as int];
        let ghost w_start = writer@;
        proof {
            assert(rem.len() > 0);
            assert(rem[0] == raw);
        }
        crate::io::write(writer, WriteArgs::Str("Guess a number...\n"));
        let guess_value = prompt(writer, reader);
        proof {
            crate::text::lemma_trim_idempotent(raw);
        }
        let status = take_turn(secret, guess_value.as_str(), writer);
        proof {
            assert(writer@ =~= w_start + iter_output(secret, raw));
            assert(rem.drop_first() =~= lines0.skip(pos + 1));
            assert(w0 + round_output(secret, lines0.skip(pos0 as int)) == w_start + round_output(
                secret,
                rem,
            ));
            if turn_status(secret, trim_spec(raw)) is Awaiting {
                assert(round_output(secret, rem) == iter_output(secret, raw) + round_output(
                    secret,
                    rem.drop_first(),
                ));
                assert((w_start + iter_output(secret, raw)) + round_output(
                    secret,
                    rem.drop_first(),
                ) =~= w_start + (iter_output(secret, raw) + round_output(
                    secret,
                    rem.drop_first(),
                )));
            } else {
                assert(round_output(secret, rem) == iter_output(secret, raw));
            }
        }
        match status {
            TurnStatus::Won => {
                keep_guessing = false;
                res = Ok(());
            },
            TurnStatus::Quit => {
                keep_guessing = false;
                res = Err(GameError::Quit);
            },
            TurnStatus::Awaiting => {},
        }
    }
    res
}

/// Represents a game as an object that knows a secret number and the
/// capability pair its round works over, and exposes a `play` method that
/// prompts the guesser to guess in a loop until the guess is correct.
pub struct Game {
    pub reader: Reader,
    pub secret: u8,
    pub writer: Writer,
}

impl Game {
    /// A new game with the given secret number and io streams.
    pub fn new(secret: u8, writer: Writer, reader: Reader) -> (g: Game)
        ensures
            g.secret == secret,
            g.writer == writer,
            g.reader == reader,
    {
        Game { secret, writer, reader }
    }

    /// Plays one round against this game's secret; see `play_game`.
    pub fn play(&mut self) -> (r: Result<(), GameError>)
        requires
            old(self).reader.wf(),
            round_result(old(self).secret, old(self).reader.remaining()) is Some,
        ensures
            Some(r) == round_result(old(self).secret, old(self).reader.remaining()),
            final(self).secret == old(self).secret,
            final(self).writer@ == old(self).writer@ + round_output(
                old(self).secret,
                old(self).reader.remaining(),
            ),
            final(self).reader.lines == old(self).reader.lines,
            final(self).reader.pos == old(self).reader.pos + round_steps(
                old(self).secret,
                old(self).reader.remaining(),
            ),
    {
        let secret = self.secret;
        play_game(secret, &mut self.writer, &mut self.reader)
    }

    /// Compares a guess with this game's secret; see `evaluate`.
    pub fn evaluate(&self, actual: u8) -> (r: Result<(), String>)
        ensures
            msg_view(r) == evaluate_spec(actual, self.secret),
    {
        evaluate(actual, self.secret)
    }
}

/// The message the session driver reports a finished round with.
pub open spec fn outcome_message_spec(r: Result<(), GameError>) -> Seq<char> {
    match r {
        Ok(u) => "You won!\n"@,
        Err(GameError::Quit) => "You quit. "@,
        Err(GameError::Unknown) => "An unknown Error occurred."@,
    }
}

/// The message a finished round is reported with: winning, quitting, and the
/// defensive case a correct round never produces.
pub fn outcome_message(result: &Result<(), GameError>) -> (m: &'static str)
    ensures
        m@ == outcome_message_spec(*result),
{
    match result {
        Ok(_) => "You won!\n",
        Err(GameError::Quit) => "You quit. ",
        Err(GameError::Unknown) => "An unknown Error occurred.",
    }
}

} // verus!
