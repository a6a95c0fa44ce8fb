//! The menu: a numbered list of textual options with validated numeric
//! selection.

use vstd::prelude::*;

use crate::io::{prompt, Reader, WriteArgs, Writer};
use crate::text::{dec_digits, parse_usize, parse_usize_spec, trim, trim_spec};

verus! {

/// The error the menu answers every malformed or out-of-range choice with.
/// The three failure causes are not distinguished to the caller.
pub open spec fn invalid_choice_msg() -> Seq<char> {
    "Invalid choice!"@
}

/// What a choice among `k` options yields for the trimmed input `t`: the
/// 1-based index it names when `t` parses and lands in `[1, k]`, and
/// `invalid_choice_msg` on a parse failure, zero, or an out-of-range value.
pub open spec fn menu_spec(k: int, t: Seq<char>) -> Result<usize, Seq<char>> {
    match parse_usize_spec(t) {
        Some(num) => if 1 <= num <= k {
            Ok(num)
        } else {
            Err(invalid_choice_msg())
        },
        None => Err(invalid_choice_msg()),
    }
}

/// A menu result with its error read as text.
pub open spec fn choice_view(r: Result<usize, &str>) -> Result<usize, Seq<char>> {
    match r {
        Ok(num) => Ok(num),
        Err(m) => Err(m@),
    }
}

/// The lines the menu prints for its options: `"{1-based index}) {label}"`.
pub open spec fn menu_lines(choices: Seq<Seq<char>>) -> Seq<Seq<char>> {
    Seq::new(choices.len(), |i: int| dec_digits((i + 1) as nat) + ") "@ + choices[i] + "\n"@)
}

/// Validates one line of input as a choice among `choices`; see `menu_spec`.
pub fn validate_choice(choices: &[&str], line: &str) -> (r: Result<usize, &'static str>)
    ensures
        choice_view(r) == menu_spec(choices@.len() as int, trim_spec(line@)),
{
    let t = trim(line);
    match parse_usize(t.as_str()) {
        Some(num) => {
            if num > 0 && num <= choices.len() {
                Ok(num)
            } else {
                Err("Invalid choice!")
            }
        },
        None => Err("Invalid choice!"),
    }
}

/// Prints the given options as a numbered menu, prompts for a line of input,
/// and returns the validated 1-based choice, or `Err` on any malformed or
/// out-of-range input.
pub fn menu(choices: &[&str], writer: &mut Writer, reader: &mut Reader) -> (r: Result<
    usize,
    &'static str,
>)
    requires
        old(reader).pos < old(reader).lines@.len(),
    ensures
        choice_view(r) == menu_spec(
            choices@.len() as int,
            trim_spec(old(reader).lines.deep_view()[old(reader).pos as int]),
        ),
        final(writer)@ == old(writer)@.push("\nPlease choose from the following...\n"@)
            + menu_lines(choices.deep_view()) + seq!["> "@, "\n"@],
        final(reader).lines == old(reader).lines,
        final(reader).pos == old(reader).pos + 1,
{
    crate::io::write(writer, WriteArgs::Str("\nPlease choose from the following...\n"));
    let ghost w1 = writer@;
    let mut index: usize = 0;
    while index < choices.len()
        invariant
            index <= choices@.len(),
            writer@ == w1 + menu_lines(choices.deep_view()).take(index as int),
        decreases choices@.len() - index,
    {
        let mut line = crate::text::u64_to_string(index as u64 + 1);
        line.append(") ");
        line.append(choices[index]);
        line.append("\n");
        crate::io::write(writer, WriteArgs::Fmt(line));
        index = index + 1;
        proof {
            assert(writer@ =~= w1 + menu_lines(choices.deep_view()).take(index as int));
        }
    }
    proof {
        assert(menu_lines(choices.deep_view()).take(index as int) =~= menu_lines(
            choices.deep_view(),
        ));
    }
    let ghost raw = reader.lines.deep_view()[reader.pos as int];
    let choice = prompt(writer, reader);
    proof {
        crate::text::lemma_trim_idempotent(raw);
        assert(writer@ =~= old(writer)@.push("\nPlease choose from the following...\n"@)
            + menu_lines(choices.deep_view()) + seq!["> "@, "\n"@]);
    }
    validate_choice(choices, choice.as_str())
}

/// Making the same choice twice among the same options yields the same
/// result: any two results the menu's contract admits for identical inputs
/// agree.
pub proof fn lemma_menu_idempotent(
    k: int,
    t: Seq<char>,
    r1: Result<usize, &str>,
    r2: Result<usize, &str>,
)
    requires
        choice_view(r1) == menu_spec(k, t),
        choice_view(r2) == menu_spec(k, t),
    ensures
        choice_view(r1) == choice_view(r2),
{
}

} // verus!
