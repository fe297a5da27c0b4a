//! The command reader: a line-oriented state machine fed one console byte at a time.

use vstd::prelude::*;
use crate::buffer::{buffer_as_slice, buffer_bytes, buffer_clear, buffer_new, buffer_push, CAPACITY};
use crate::text::{ascii_bytes, push_text};
use vstd::slice::slice_to_vec;

verus! {

/// The byte that ends a request line: ASCII carriage return.
pub const ENTER_KEY: u8 = 0x0D;

/// A request the console understands.
#[derive(Clone, Copy, Debug, PartialEq, Eq, Structural)]
pub enum Command {
    Accelerometer,
    Magnetometer,
}

impl Command {
    /// The text of the request line that selects this command.
    pub open spec fn word_text(self) -> Seq<char> {
        match self {
            Command::Accelerometer => "accelerometer"@,
            Command::Magnetometer => "magnetometer"@,
        }
    }

    /// The bytes of the request line that selects this command.
    pub open spec fn word(self) -> Seq<u8> {
        ascii_bytes(self.word_text())
    }

    /// The request line that selects this command, as text.
    pub fn name(self) -> (name: &'static str)
        ensures
            name@ == self.word_text(),
            name.is_ascii(),
    {
        proof {
            reveal_strlit("accelerometer");
            reveal_strlit("magnetometer");
        }
        match self {
            Command::Accelerometer => "accelerometer",
            Command::Magnetometer => "magnetometer",
        }
    }
}

/// The command a completed line selects, if any: the line must be exactly a
/// command word, byte for byte.
pub open spec fn parse_line(line: Seq<u8>) -> Option<Command> {
    if line == Command::Accelerometer.word() {
        Some(Command::Accelerometer)
    } else if line == Command::Magnetometer.word() {
        Some(Command::Magnetometer)
    } else {
        None
    }
}

/// Whether `line` is exactly the ASCII text `word`.
fn line_is(line: &[u8], word: &str) -> (same: bool)
    requires
        word.is_ascii(),
    ensures
        same == (line@ == ascii_bytes(word@)),
{
    proof {
        vstd::string::is_ascii_spec_bytes(word);
    }
    let expected = word.as_bytes();
    if line.len() != expected.len() {
        return false;
    }
    let mut i: usize = 0;
    while i < line.len()
        invariant
            i <= line.len(),
            line@.len() == expected@.len(),
            expected@ == ascii_bytes(word@),
            forall|j: int| 0 <= j < i ==> line@[j] == expected@[j],
        decreases line.len() - i,
    {
        if line[i] != expected[i] {
            return false;
        }
        i += 1;
    }
    assert(line@ =~= expected@);
    true
}

/// Matches a completed line against the command words.
pub fn match_line(line: &[u8]) -> (command: Option<Command>)
    ensures
        command == parse_line(line@),
{
    if line_is(line, Command::Accelerometer.name()) {
        Some(Command::Accelerometer)
    } else if line_is(line, Command::Magnetometer.name()) {
        Some(Command::Magnetometer)
    } else {
        None
    }
}

/// The state the reader is in once a byte has been handled.
#[derive(Clone, Copy, Debug, PartialEq, Eq, Structural)]
pub enum State {
    /// Collecting the bytes of a line.
    Accumulating,
    /// A line named a command; the reader hands it over.
    Matched,
    /// A byte arrived while the buffer was full; the line so far is dropped.
    Overflow,
}

/// What feeding one byte to the reader led to.
#[derive(Clone, Copy, Debug, PartialEq, Eq, Structural)]
pub enum Outcome {
    /// The byte joined the line being collected.
    Stored,
    /// The terminator completed a line that names a command.
    Matched(Command),
    /// The terminator completed a line that names no command.
    Unknown,
    /// The buffer was full: the byte and the line collected so far are dropped.
    Overflow,
}

impl Outcome {
    /// The state the reader has entered.
    pub open spec fn spec_state(self) -> State {
        match self {
            Outcome::Stored | Outcome::Unknown => State::Accumulating,
            Outcome::Matched(_) => State::Matched,
            Outcome::Overflow => State::Overflow,
        }
    }

    /// The command to hand over, if a line named one.
    pub open spec fn spec_command(self) -> Option<Command> {
        match self {
            Outcome::Matched(command) => Some(command),
            _ => None,
        }
    }

    /// The text the console shows after the echo of the byte.
    pub open spec fn notice_text(self) -> Seq<char> {
        match self {
            Outcome::Stored => Seq::empty(),
            Outcome::Matched(_) => "\r\n"@,
            Outcome::Unknown => "\r\nUnknown command\r\n"@,
            Outcome::Overflow => "error: buffer full\r\n"@,
        }
    }

    /// The state the reader has entered.
    #[verifier::when_used_as_spec(spec_state)]
    pub fn state(self) -> (state: State)
        ensures
            state == self.spec_state(),
    {
        match self {
            Outcome::Stored | Outcome::Unknown => State::Accumulating,
            Outcome::Matched(_) => State::Matched,
            Outcome::Overflow => State::Overflow,
        }
    }

    /// The command to hand over, if a line named one.
    #[verifier::when_used_as_spec(spec_command)]
    pub fn command(self) -> (command: Option<Command>)
        ensures
            command == self.spec_command(),
    {
        match self {
            Outcome::Matched(command) => Some(command),
            _ => None,
        }
    }

    /// The text to write to the console after the echo of the byte.
    pub fn notice(self) -> (notice: &'static str)
        ensures
            notice@ == self.notice_text(),
            notice.is_ascii(),
    {
        proof {
            reveal_strlit("");
            reveal_strlit("\r\n");
            reveal_strlit("\r\nUnknown command\r\n");
            reveal_strlit("error: buffer full\r\n");
        }
        match self {
            Outcome::Stored => "",
            Outcome::Matched(_) => "\r\n",
            Outcome::Unknown => "\r\nUnknown command\r\n",
            Outcome::Overflow => "error: buffer full\r\n",
        }
    }
}

/// Whether the console can echo `byte`: alone it must be a text, that is ASCII.
pub open spec fn spec_is_text_byte(byte: u8) -> bool {
    byte <= 0x7f
}

/// Whether the console can echo `byte`: alone it must be a text, that is ASCII.
#[verifier::when_used_as_spec(spec_is_text_byte)]
pub fn is_text_byte(byte: u8) -> (text: bool)
    ensures
        text == spec_is_text_byte(byte),
{
    byte <= 0x7f
}

/// What the reader does with `byte` while holding the line `held`.
pub open spec fn outcome_of(held: Seq<u8>, byte: u8) -> Outcome {
    if byte == ENTER_KEY {
        match parse_line(held) {
            Some(command) => Outcome::Matched(command),
            None => Outcome::Unknown,
        }
    } else if held.len() < CAPACITY {
        Outcome::Stored
    } else {
        Outcome::Overflow
    }
}

/// The line the reader holds after `byte`: one byte longer when the byte was
/// stored, empty in every other case.
pub open spec fn held_after(held: Seq<u8>, byte: u8) -> Seq<u8> {
    if outcome_of(held, byte) == Outcome::Stored {
        held.push(byte)
    } else {
        Seq::empty()
    }
}

/// What the console shows for `byte`: its echo, then the notice of the outcome.
pub open spec fn console_of(held: Seq<u8>, byte: u8) -> Seq<u8> {
    seq![byte] + ascii_bytes(outcome_of(held, byte).notice_text())
}

/// The command reader: the bytes of the line being collected.
pub struct CommandReader {
    buffer: heapless::Vec<u8, CAPACITY>,
}

impl CommandReader {
    /// The bytes of the line collected so far.
    pub closed spec fn view(&self) -> Seq<u8> {
        buffer_bytes(self.buffer)
    }

    /// The line fits the buffer. Every reader made by `new` and driven by
    /// `feed` satisfies it.
    pub open spec fn wf(&self) -> bool {
        self@.len() <= CAPACITY
    }

    /// A reader in its initial state: accumulating, with an empty buffer.
    pub fn new() -> (reader: CommandReader)
        ensures
            reader@ == Seq::<u8>::empty(),
            reader.wf(),
    {
        CommandReader { buffer: buffer_new() }
    }

    /// The bytes of the line collected so far.
    pub fn held(&self) -> (bytes: &[u8])
        ensures
            bytes@ == self@,
    {
        buffer_as_slice(&self.buffer)
    }

    /// Handles one received byte. The caller echoes the byte, writes the
    /// notice of the outcome and, on a match, leaves with the command.
    pub fn feed(&mut self, byte: u8) -> (outcome: Outcome)
        requires
            is_text_byte(byte),
        ensures
            outcome == outcome_of(old(self)@, byte),
            final(self)@ == held_after(old(self)@, byte),
            final(self).wf(),
    {
        if byte == ENTER_KEY {
            let command = match_line(buffer_as_slice(&self.buffer));
            buffer_clear(&mut self.buffer);
            match command {
                Some(command) => Outcome::Matched(command),
                None => Outcome::Unknown,
            }
        } else if buffer_push(&mut self.buffer, byte) {
            Outcome::Stored
        } else {
            buffer_clear(&mut self.buffer);
            Outcome::Overflow
        }
    }
}

/// What running the reader over received bytes comes to.
pub ghost struct Trace {
    /// The command of the line that matched, if one did.
    pub command: Option<Command>,
    /// How many bytes were read: all of them, or those up to the end of the matching line.
    pub consumed: nat,
    /// Everything written to the console.
    pub console: Seq<u8>,
    /// The bytes left in the buffer.
    pub held: Seq<u8>,
}

/// Runs a fresh reader over `input`, byte by byte, until a line names a
/// command or the bytes run out.
pub open spec fn trace(input: Seq<u8>) -> Trace
    decreases input.len(),
{
    if input.len() == 0 {
        Trace { command: None, consumed: 0, console: Seq::empty(), held: Seq::empty() }
    } else {
        let before = trace(input.drop_last());
        if before.command is Some {
            before
        } else {
            let byte = input.last();
            Trace {
                command: outcome_of(before.held, byte).spec_command(),
                consumed: before.consumed + 1,
                console: before.console + console_of(before.held, byte),
                held: held_after(before.held, byte),
            }
        }
    }
}

/// Every byte that the reader gets to read can be echoed.
pub open spec fn readable(input: Seq<u8>) -> bool {
    forall|i: int| 0 <= i < trace(input).consumed ==> is_text_byte(#[trigger] input[i])
}

/// Reading never goes past the bytes given, and takes all of them unless a
/// line matched.
pub proof fn lemma_trace_consumed(input: Seq<u8>)
    ensures
        trace(input).consumed <= input.len(),
        trace(input).command is None ==> trace(input).consumed == input.len(),
        trace(input).command is Some ==> trace(input).consumed >= 1,
    decreases input.len(),
{
    if input.len() > 0 {
        lemma_trace_consumed(input.drop_last());
    }
}

/// Input made of text bytes only is readable.
pub proof fn lemma_text_is_readable(input: Seq<u8>)
    requires
        forall|i: int| 0 <= i < input.len() ==> is_text_byte(#[trigger] input[i]),
    ensures
        readable(input),
{
    lemma_trace_consumed(input);
}

/// Once a line has matched, further bytes change nothing: the reader has left.
pub proof fn lemma_trace_stops_at_match(input: Seq<u8>, n: int)
    requires
        0 <= n <= input.len(),
        trace(input.take(n)).command is Some,
    ensures
        trace(input) == trace(input.take(n)),
    decreases input.len(),
{
    if n == input.len() {
        assert(input.take(n) =~= input);
    } else {
        assert(input.drop_last().take(n) =~= input.take(n));
        lemma_trace_stops_at_match(input.drop_last(), n);
    }
}

/// Reading more bytes never shortens what was read.
pub proof fn lemma_trace_consumed_grows(input: Seq<u8>, n: int)
    requires
        0 <= n <= input.len(),
    ensures
        trace(input.take(n)).consumed <= trace(input).consumed,
    decreases input.len(),
{
    if n == input.len() {
        assert(input.take(n) =~= input);
    } else {
        assert(input.drop_last().take(n) =~= input.take(n));
        lemma_trace_consumed_grows(input.drop_last(), n);
    }
}

/// A line in the making: bytes without the terminator that fit the buffer.
pub open spec fn is_line(line: Seq<u8>) -> bool {
    line.len() <= CAPACITY && forall|i: int| 0 <= i < line.len() ==> line[i] != ENTER_KEY
}

/// The bytes of a line are stored and echoed as they come, and nothing else
/// is written.
pub proof fn lemma_line_is_collected(line: Seq<u8>)
    requires
        is_line(line),
    ensures
        trace(line) == (Trace {
            command: None,
            consumed: line.len(),
            console: line,
            held: line,
        }),
    decreases line.len(),
{
    if line.len() == 0 {
        assert(line =~= Seq::<u8>::empty());
    } else {
        let front = line.drop_last();
        lemma_line_is_collected(front);
        assert(line[line.len() - 1] != ENTER_KEY);
        assert(front.push(line.last()) =~= line);
        assert(front + console_of(front, line.last()) =~= line);
    }
}

/// The terminator completes a line: the console has shown the line, the
/// echoed terminator and the notice; the command is the one that the line
/// names, if it names one; the buffer is empty again.
pub proof fn lemma_terminator_completes_line(line: Seq<u8>)
    requires
        is_line(line),
    ensures
        trace(line.push(ENTER_KEY)) == (Trace {
            command: parse_line(line),
            consumed: line.len() + 1,
            console: line.push(ENTER_KEY) + ascii_bytes(
                outcome_of(line, ENTER_KEY).notice_text(),
            ),
            held: Seq::empty(),
        }),
{
    let input = line.push(ENTER_KEY);
    lemma_line_is_collected(line);
    assert(input.drop_last() =~= line);
    assert(line + console_of(line, ENTER_KEY) =~= line.push(ENTER_KEY) + ascii_bytes(
        outcome_of(line, ENTER_KEY).notice_text(),
    ));
}

/// A byte that arrives while the buffer is full is echoed and dropped
/// together with the line: the console shows the overflow notice and the
/// buffer is empty afterwards.
pub proof fn lemma_full_buffer_overflows(line: Seq<u8>, byte: u8)
    requires
        is_line(line),
        line.len() == CAPACITY,
        byte != ENTER_KEY,
    ensures
        trace(line.push(byte)) == (Trace {
            command: None,
            consumed: line.len() + 1,
            console: line.push(byte) + ascii_bytes("error: buffer full\r\n"@),
            held: Seq::empty(),
        }),
{
    let input = line.push(byte);
    lemma_line_is_collected(line);
    assert(input.drop_last() =~= line);
    assert(line + console_of(line, byte) =~= line.push(byte) + ascii_bytes(
        "error: buffer full\r\n"@,
    ));
}

/// The record of one run of the reader over received bytes.
#[derive(Debug)]
pub struct Transcript {
    /// The command of the line that matched, if one did.
    pub command: Option<Command>,
    /// How many bytes were read.
    pub consumed: usize,
    /// Everything written to the console: echoes and notices, in order.
    pub console: Vec<u8>,
    /// The bytes left in the buffer.
    pub pending: Vec<u8>,
}

impl View for Transcript {
    type V = Trace;

    open spec fn view(&self) -> Trace {
        Trace {
            command: self.command,
            consumed: self.consumed as nat,
            console: self.console@,
            held: self.pending@,
        }
    }
}

/// Reads one command from recorded console input: feeds a fresh reader byte
/// by byte until a line names a command or the input runs out.
pub fn read_command(input: &[u8]) -> (transcript: Transcript)
    requires
        readable(input@),
    ensures
        transcript@ == trace(input@),
{
    let mut reader = CommandReader::new();
    let mut console: Vec<u8> = Vec::new();
    let mut command: Option<Command> = None;
    let mut i: usize = 0;
    assert(input@.take(0) =~= Seq::<u8>::empty());
    while i < input.len() && command.is_none()
        invariant
            i <= input.len(),
            readable(input@),
            trace(input@.take(i as int)) == (Trace {
                command,
                consumed: i as nat,
                console: console@,
                held: reader@,
            }),
        decreases input.len() - i,
    {
        let byte = input[i];
        proof {
            let read = input@.take(i + 1);
            assert(read.drop_last() =~= input@.take(i as int));
            assert(read.last() == byte);
            lemma_trace_consumed_grows(input@, i + 1);
        }
        let ghost before = trace(input@.take(i as int));
        let outcome = reader.feed(byte);
        console.push(byte);
        push_text(&mut console, outcome.notice());
        command = outcome.command();
        i += 1;
        assert(console@ =~= before.console + console_of(before.held, byte));
    }
    proof {
        if command is Some {
            lemma_trace_stops_at_match(input@, i as int);
        } else {
            assert(input@.take(i as int) =~= input@);
        }
    }
    let pending = slice_to_vec(reader.held());
    Transcript { command, consumed: i, console, pending }
}

} // verus!
