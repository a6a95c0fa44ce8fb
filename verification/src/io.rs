//! The capability pair every interactive component works over: a [`Writer`]
//! that records each piece of text written, and a [`Reader`] that replays a
//! list of input lines in order. The surrounding program shuttles text
//! between these values and the real terminal.

use vstd::prelude::*;

use crate::text::{trim, trim_spec};

verus! {

/// Records everything written, one entry per `write` call.
pub struct Writer {
    pub written_lines: Vec<String>,
}

impl View for Writer {
    type V = Seq<Seq<char>>;

    open spec fn view(&self) -> Seq<Seq<char>> {
        self.written_lines.deep_view()
    }
}

impl Writer {
    /// A writer with nothing written yet.
    pub fn new() -> (w: Writer)
        ensures
            w@ == Seq::<Seq<char>>::empty(),
    {
        let w = Writer { written_lines: Vec::new() };
        proof {
            assert(w@ =~= Seq::<Seq<char>>::empty());
        }
        w
    }
}

/// Replays a fixed list of input lines, one per `read_line` call.
pub struct Reader {
    pub lines: Vec<String>,
    pub pos: usize,
}

impl Reader {
    /// The input lines not yet read.
    pub open spec fn remaining(&self) -> Seq<Seq<char>> {
        self.lines.deep_view().skip(self.pos as int)
    }

    /// The reading position never passes the end of the script.
    pub open spec fn wf(&self) -> bool {
        self.pos <= self.lines@.len()
    }

    /// A reader that will hand out `lines` in order.
    pub fn new(lines: Vec<String>) -> (r: Reader)
        ensures
            r.wf(),
            r.lines == lines,
            r.pos == 0,
    {
        Reader { lines, pos: 0 }
    }

    /// Hands out the next line.
    pub fn read_line(&mut self) -> (line: String)
        requires
            old(self).pos < old(self).lines@.len(),
        ensures
            old(self).wf() ==> final(self).wf(),
            line@ == old(self).lines.deep_view()[old(self).pos as int],
            final(self).lines == old(self).lines,
            final(self).pos == old(self).pos + 1,
    {
        let n = self.lines.len();
        proof {
            assert(self.pos < n);
        }
        let line = self.lines[self.pos].clone();
        self.pos = self.pos + 1;
        line
    }
}

/// The kinds of text `write` takes: text already formatted by the caller, or
/// a string slice.
pub enum WriteArgs<'a> {
    Fmt(String),
    Str(&'a str),
}

/// The text a `WriteArgs` value carries.
pub open spec fn write_args_text(args: WriteArgs<'_>) -> Seq<char> {
    match args {
        WriteArgs::Fmt(s) => s@,
        WriteArgs::Str(s) => s@,
    }
}

/// Appends the given text to the writer as one entry.
pub fn write(writer: &mut Writer, args: WriteArgs<'_>)
    ensures
        final(writer)@ == old(writer)@.push(write_args_text(args)),
{
    let ghost expected = old(writer)@.push(write_args_text(args));
    match args {
        WriteArgs::Fmt(s) => writer.written_lines.push(s),
        WriteArgs::Str(s) => writer.written_lines.push(String::from_str(s)),
    }
    proof {
        assert(writer@ =~= expected);
    }
}

/// Prompts for one line of input: writes the prompt marker `"> "`, reads a
/// line, writes the padding `"\n"`, and returns the line trimmed.
pub fn prompt(writer: &mut Writer, reader: &mut Reader) -> (answer: String)
    requires
        old(reader).pos < old(reader).lines@.len(),
    ensures
        answer@ == trim_spec(old(reader).lines.deep_view()[old(reader).pos as int]),
        final(writer)@ == old(writer)@.push("> "@).push("\n"@),
        final(reader).lines == old(reader).lines,
        final(reader).pos == old(reader).pos + 1,
{
    write(writer, WriteArgs::Str("> "));
    let answer = reader.read_line();
    write(writer, WriteArgs::Str("\n"));
    trim(answer.as_str())
}

} // verus!
