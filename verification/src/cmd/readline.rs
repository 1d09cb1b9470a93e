//! The line editor of the interactive prompt.
//!
//! The terminal is read one byte at a time. Each byte goes to
//! [`Readline::feed`] together with the fact whether more bytes are already
//! buffered behind it, which is how a paste is told from typing: while a paste is
//! drained, a line feed submits the line, as the carriage return of the Enter key
//! always does; typed on its own, a line feed continues the input on a new line.

use vstd::prelude::*;
use vstd::utf8::*;

use crate::text;

verus! {

/// Ctrl-C.
pub const CHAR_INTERRUPT: u8 = 3;

/// Ctrl-D.
pub const CHAR_EOF: u8 = 4;

/// A line feed: Ctrl-J, or a pasted end of line.
pub const CHAR_CTRL_J: u8 = 10;

/// The Enter key.
pub const CHAR_ENTER: u8 = 13;

pub const CHAR_ESC: u8 = 27;

/// `[`, the second byte of a control sequence.
pub const CHAR_ESCAPE_EX: u8 = 91;

pub const CHAR_BACKSPACE: u8 = 127;

/// `2`, the third byte of the two sequences that bracket a paste. Behind it
/// comes `00~` at the start of a paste and `01~` at its end.
pub const CHAR_BRACKETED_PASTE: u8 = 50;

pub enum ReadlineError {
    Interrupted,
}

/// What came of asking the terminal for one byte.
pub enum Key {
    /// A byte; `more` holds if others are buffered behind it.
    Byte { byte: u8, more: bool },
    /// The input is at its end, or could not be read.
    Closed,
}

/// Where in an escape sequence the editor stands.
#[derive(Clone, Copy)]
pub enum Phase {
    /// Outside of any sequence.
    Plain,
    /// Behind an escape.
    Escape,
    /// Behind an escape and a bracket.
    Bracket,
    /// Behind `ESC [ 2`: three bytes follow.
    Code0,
    Code1(u8),
    Code2(u8, u8),
    /// Behind `ESC [ 3`, `ESC [ 5` or `ESC [ 6`: one byte follows.
    Tilde,
}

/// The state of the editor.
#[verifier::ext_equal]
pub struct LineView {
    pub pasting: bool,
    pub prompt: Seq<char>,
    /// The bytes of the line being edited.
    pub buf: Seq<u8>,
    /// The lines before it in the same input.
    pub lines: Seq<Seq<char>>,
    pub draining: bool,
    /// Draining ends before the next byte is read.
    pub stop: bool,
    pub phase: Phase,
}

/// How a step ends.
pub enum Outcome {
    /// The input goes on.
    Pending,
    /// The input is complete.
    Line(Seq<char>),
    /// There is no more input.
    End,
    /// The input was given up.
    Interrupted,
}

/// One step of the editor: its new state, the bytes that go to the terminal,
/// and how it ended.
#[verifier::ext_equal]
pub struct StepView {
    pub next: LineView,
    pub echo: Seq<u8>,
    pub outcome: Outcome,
}

/// The bytes of a buffer without its last code point: its last byte that is no
/// continuation byte and all that follow it are gone.
pub open spec fn erase_last(buf: Seq<u8>) -> Seq<u8>
    decreases buf.len(),
{
    if buf.len() == 0 {
        buf
    } else if is_continuation_byte(buf.last()) {
        erase_last(buf.drop_last())
    } else {
        buf.drop_last()
    }
}

/// Whether a byte outside of a sequence is taken into the line.
pub open spec fn is_text(byte: u8) -> bool {
    &&& byte >= 32 || byte == 9
    &&& byte != CHAR_BACKSPACE
}

impl LineView {
    /// The text of an input: its lines with line feeds between them.
    pub open spec fn assembled(self) -> Seq<char> {
        text::join_spec(self.lines.push(text::lossy_text(self.buf)), seq!['\n'])
    }

    /// The state of an editor that has read nothing.
    pub open spec fn fresh() -> LineView {
        LineView {
            pasting: false,
            prompt: Seq::empty(),
            buf: Seq::empty(),
            lines: Seq::empty(),
            draining: false,
            stop: false,
            phase: Phase::Plain,
        }
    }

    /// The state at the start of an input.
    pub open spec fn begun(self, prompt: Seq<char>) -> LineView {
        LineView {
            pasting: self.pasting,
            prompt: prompt,
            buf: Seq::empty(),
            lines: Seq::empty(),
            draining: false,
            stop: false,
            phase: Phase::Plain,
        }
    }

    /// The state once a byte has been read outside of the tail of a sequence:
    /// draining lasts for one byte more once the buffer is empty.
    pub open spec fn read(self, more: bool) -> LineView {
        LineView {
            draining: more || (self.draining && !self.stop),
            stop: !more && self.draining && !self.stop,
            phase: Phase::Plain,
            ..self
        }
    }

    pub open spec fn at(self, phase: Phase) -> LineView {
        LineView { phase: phase, ..self }
    }

    /// The state once the three bytes behind `ESC [ 2` are there.
    pub open spec fn coded(self, code: Seq<u8>, more: bool) -> LineView {
        LineView {
            pasting: if code == seq![48u8, 48u8, 126u8] {
                true
            } else if code == seq![48u8, 49u8, 126u8] {
                false
            } else {
                self.pasting
            },
            draining: self.draining || more,
            phase: Phase::Plain,
            ..self
        }
    }

    pub open spec fn quietly(self) -> StepView {
        StepView { next: self, echo: Seq::empty(), outcome: Outcome::Pending }
    }

    /// The line is handed over.
    pub open spec fn submitted(self) -> StepView {
        StepView { next: self, echo: seq![10u8], outcome: Outcome::Line(self.assembled()) }
    }

    /// A byte outside of any sequence; `self` is the state behind its reading.
    pub open spec fn typed(self, byte: u8) -> StepView {
        if byte == CHAR_INTERRUPT {
            StepView { next: self, echo: seq![10u8], outcome: Outcome::Interrupted }
        } else if byte == CHAR_EOF {
            if self.buf.len() == 0 && self.lines.len() == 0 {
                StepView { next: self, echo: seq![10u8], outcome: Outcome::End }
            } else {
                self.quietly()
            }
        } else if byte == CHAR_ESC {
            self.at(Phase::Escape).quietly()
        } else if byte == CHAR_BACKSPACE {
            if self.buf.len() > 0 {
                StepView {
                    next: LineView { buf: erase_last(self.buf), ..self },
                    echo: seq![8u8, 32u8, 8u8],
                    outcome: Outcome::Pending,
                }
            } else if self.lines.len() > 0 {
                let prev = self.lines.last();
                StepView {
                    next: LineView { buf: encode_utf8(prev), lines: self.lines.drop_last(), ..self },
                    echo: encode_utf8("\r\x1b[K\x1b[A\r\x1b[K"@) + encode_utf8(self.prompt)
                        + encode_utf8(prev),
                    outcome: Outcome::Pending,
                }
            } else {
                self.quietly()
            }
        } else if byte == CHAR_CTRL_J && !self.draining {
            StepView {
                next: LineView {
                    buf: Seq::empty(),
                    lines: self.lines.push(text::lossy_text(self.buf)),
                    ..self
                },
                echo: seq![10u8, 46u8, 32u8],
                outcome: Outcome::Pending,
            }
        } else if byte == CHAR_CTRL_J || byte == CHAR_ENTER {
            self.submitted()
        } else if is_text(byte) {
            StepView {
                next: LineView { buf: self.buf.push(byte), ..self },
                echo: seq![byte],
                outcome: Outcome::Pending,
            }
        } else {
            self.quietly()
        }
    }

    /// One step of the editor.
    pub open spec fn step(self, key: Key) -> StepView {
        match (self.phase, key) {
            (Phase::Plain, Key::Byte { byte, more }) => self.read(more).typed(byte),
            (Phase::Escape, Key::Byte { byte, more }) => if byte == CHAR_ESCAPE_EX {
                self.read(more).at(Phase::Bracket).quietly()
            } else {
                self.read(more).quietly()
            },
            (Phase::Bracket, Key::Byte { byte, more }) => if byte == CHAR_BRACKETED_PASTE {
                self.read(more).at(Phase::Code0).quietly()
            } else if byte == 51 || byte == 53 || byte == 54 {
                self.read(more).at(Phase::Tilde).quietly()
            } else {
                self.read(more).quietly()
            },
            (Phase::Code0, Key::Byte { byte, more }) => self.at(Phase::Code1(byte)).quietly(),
            (Phase::Code1(a), Key::Byte { byte, more }) => self.at(Phase::Code2(a, byte)).quietly(),
            (Phase::Code2(a, b), Key::Byte { byte, more }) => self.coded(
                seq![a, b, byte],
                more,
            ).quietly(),
            (Phase::Tilde, Key::Byte { byte, more }) => self.at(Phase::Plain).quietly(),
            (Phase::Plain | Phase::Escape | Phase::Bracket, Key::Closed) => StepView {
                next: self.at(Phase::Plain),
                echo: Seq::empty(),
                outcome: Outcome::End,
            },
            (_, Key::Closed) => self.at(Phase::Plain).quietly(),
        }
    }
}

/// The line editor.
pub struct Readline {
    /// Whether the terminal is between the two marks of a bracketed paste.
    pasting: bool,
    prompt: String,
    buf: Vec<u8>,
    pasted_lines: Vec<String>,
    draining: bool,
    stop_draining: bool,
    phase: Phase,
}

/// What [`Readline::feed`] asks of the caller.
pub struct Step {
    /// Bytes to write to the terminal.
    pub echo: Vec<u8>,
    /// The input, once it is complete: a line, or nothing at the end of input.
    pub done: Option<Result<Option<String>, ReadlineError>>,
}

impl View for Readline {
    type V = LineView;

    closed spec fn view(&self) -> LineView {
        LineView {
            pasting: self.pasting,
            prompt: self.prompt@,
            buf: self.buf@,
            lines: text::texts(self.pasted_lines@),
            draining: self.draining,
            stop: self.stop_draining,
            phase: self.phase,
        }
    }
}

impl Step {
    /// Whether the step tells the caller `outcome`.
    pub open spec fn tells(self, outcome: Outcome) -> bool {
        match outcome {
            Outcome::Pending => self.done is None,
            Outcome::Line(s) => self.done matches Some(Ok(Some(line))) && line@ == s,
            Outcome::End => self.done matches Some(Ok(None)),
            Outcome::Interrupted => self.done matches Some(Err(ReadlineError::Interrupted)),
        }
    }
}

fn is_continuation(b: u8) -> (r: bool)
    ensures
        r == is_continuation_byte(b),
{
    0x80 <= b && b <= 0xbf
}

impl Readline {
    /// An editor outside of any paste, with no prompt and nothing typed.
    pub fn new() -> (r: Self)
        ensures
            r@ == LineView::fresh(),
    {
        let r = Readline {
            pasting: false,
            prompt: String::new(),
            buf: Vec::new(),
            pasted_lines: Vec::new(),
            draining: false,
            stop_draining: false,
            phase: Phase::Plain,
        };
        assert(r@ =~= LineView::fresh());
        r
    }

    /// Whether the terminal is between the two marks of a bracketed paste.
    pub fn pasting(&self) -> (r: bool)
        ensures
            r == self@.pasting,
    {
        self.pasting
    }

    /// Starts an input: gives the bytes of the prompt, which go to the terminal.
    pub fn begin(&mut self, prompt: &str) -> (echo: Vec<u8>)
        ensures
            final(self)@ == old(self)@.begun(prompt@),
            echo@ == encode_utf8(prompt@),
    {
        self.prompt = prompt.to_owned();
        self.buf = Vec::new();
        self.pasted_lines = Vec::new();
        self.draining = false;
        self.stop_draining = false;
        self.phase = Phase::Plain;
        assert(text::texts(self.pasted_lines@) =~= Seq::empty());
        text::to_bytes(prompt)
    }

    /// The text of the input so far.
    fn assemble(&self) -> (r: String)
        ensures
            r@ == self@.assembled(),
    {
        let last = text::lossy(self.buf.as_slice());
        if self.pasted_lines.len() == 0 {
            assert(self@.lines.push(text::lossy_text(self@.buf)) =~= seq![last@]);
            last
        } else {
            let mut full = text::join(&self.pasted_lines, "\n");
            full.append("\n");
            full.append(last.as_str());
            proof {
                reveal_strlit("\n");
                assert("\n"@ =~= seq!['\n']);
                assert(self@.lines.push(last@).drop_last() =~= self@.lines);
                assert(full@ =~= self@.assembled());
            }
            full
        }
    }

    fn erase(&mut self)
        ensures
            final(self)@ == (LineView { buf: erase_last(old(self)@.buf), ..old(self)@ }),
    {
        let ghost start = self.buf@;
        loop
            invariant_except_break
                erase_last(start) == erase_last(self.buf@),
            invariant
                self.pasting == old(self).pasting,
                self.prompt == old(self).prompt,
                self.pasted_lines == old(self).pasted_lines,
                self.draining == old(self).draining,
                self.stop_draining == old(self).stop_draining,
                self.phase == old(self).phase,
            ensures
                self.buf@ == erase_last(start),
            decreases self.buf@.len(),
        {
            match self.buf.pop() {
                None => {
                    break;
                },
                Some(b) => {
                    if !is_continuation(b) {
                        break;
                    }
                },
            }
        }
    }

    /// Takes what came of asking the terminal for one byte.
    pub fn feed(&mut self, key: Key) -> (r: Step)
        ensures
            ({
                let step = old(self)@.step(key);
                &&& final(self)@ == step.next
                &&& r.echo@ == step.echo
                &&& r.tells(step.outcome)
            }),
    {
        match key {
            Key::Closed => {
                let end = match self.phase {
                    Phase::Plain => true,
                    Phase::Escape => true,
                    Phase::Bracket => true,
                    _ => false,
                };
                self.phase = Phase::Plain;
                if end {
                    Step { echo: Vec::new(), done: Some(Ok(None)) }
                } else {
                    Step { echo: Vec::new(), done: None }
                }
            },
            Key::Byte { byte, more } => {
                let phase = self.phase;
                match phase {
                    Phase::Code0 => {
                        self.phase = Phase::Code1(byte);
                    },
                    Phase::Code1(a) => {
                        self.phase = Phase::Code2(a, byte);
                    },
                    Phase::Code2(a, b) => {
                        self.code(a, b, byte, more);
                    },
                    Phase::Tilde => {
                        self.phase = Phase::Plain;
                    },
                    Phase::Bracket => {
                        self.note_read(more);
                        if byte == CHAR_BRACKETED_PASTE {
                            self.phase = Phase::Code0;
                        } else if byte == 51 || byte == 53 || byte == 54 {
                            self.phase = Phase::Tilde;
                        }
                    },
                    Phase::Escape => {
                        self.note_read(more);
                        if byte == CHAR_ESCAPE_EX {
                            self.phase = Phase::Bracket;
                        }
                    },
                    Phase::Plain => {
                        self.note_read(more);
                        return self.plain(byte);
                    },
                }
                Step { echo: Vec::new(), done: None }
            },
        }
    }

    fn note_read(&mut self, more: bool)
        ensures
            final(self)@ == old(self)@.read(more),
    {
        if self.stop_draining {
            self.draining = false;
            self.stop_draining = false;
        }
        if more {
            self.draining = true;
        } else if self.draining {
            self.stop_draining = true;
        }
        self.phase = Phase::Plain;
    }

    fn code(&mut self, a: u8, b: u8, c: u8, more: bool)
        ensures
            final(self)@ == old(self)@.coded(seq![a, b, c], more),
    {
        proof {
            let s = seq![a, b, c];
            let start = seq![48u8, 48u8, 126u8];
            let end = seq![48u8, 49u8, 126u8];
            assert(s[0] == a && s[1] == b && s[2] == c);
            assert(start[0] == 48 && start[1] == 48 && start[2] == 126);
            assert(end[0] == 48 && end[1] == 49 && end[2] == 126);
            if a == 48 && b == 48 && c == 126 {
                assert(s =~= start);
            }
            if a == 48 && b == 49 && c == 126 {
                assert(s =~= end);
            }
        }
        if a == 48 && b == 48 && c == 126 {
            self.pasting = true;
        } else if a == 48 && b == 49 && c == 126 {
            self.pasting = false;
        }
        if more {
            self.draining = true;
        }
        self.phase = Phase::Plain;
    }

    fn submit(&self) -> (r: Step)
        ensures
            r.echo@ == self@.submitted().echo,
            r.tells(self@.submitted().outcome),
    {
        let line = self.assemble();
        Step { echo: vec![10u8], done: Some(Ok(Some(line))) }
    }

    fn plain(&mut self, byte: u8) -> (r: Step)
        ensures
            ({
                let step = old(self)@.typed(byte);
                &&& final(self)@ == step.next
                &&& r.echo@ == step.echo
                &&& r.tells(step.outcome)
            }),
    {
        let quiet = Step { echo: Vec::new(), done: None };
        if byte == CHAR_INTERRUPT {
            Step { echo: vec![10u8], done: Some(Err(ReadlineError::Interrupted)) }
        } else if byte == CHAR_EOF {
            if self.buf.len() == 0 && self.pasted_lines.len() == 0 {
                Step { echo: vec![10u8], done: Some(Ok(None)) }
            } else {
                quiet
            }
        } else if byte == CHAR_ESC {
            self.phase = Phase::Escape;
            quiet
        } else if byte == CHAR_BACKSPACE {
            if self.buf.len() > 0 {
                self.erase();
                Step { echo: vec![8u8, 32u8, 8u8], done: None }
            } else {
                self.rejoin()
            }
        } else if byte == CHAR_CTRL_J && !self.draining {
            let line = text::lossy(self.buf.as_slice());
            let ghost before = self.pasted_lines@;
            self.pasted_lines.push(line);
            self.buf.clear();
            assert(text::texts(self.pasted_lines@) =~= text::texts(before).push(line@));
            Step { echo: vec![10u8, 46u8, 32u8], done: None }
        } else if byte == CHAR_CTRL_J || byte == CHAR_ENTER {
            self.submit()
        } else if byte >= 32 || byte == 9 {
            self.buf.push(byte);
            Step { echo: vec![byte], done: None }
        } else {
            quiet
        }
    }

    /// Takes back the last line feed, where there is one.
    fn rejoin(&mut self) -> (r: Step)
        requires
            old(self)@.buf.len() == 0,
        ensures
            ({
                let step = old(self)@.typed(CHAR_BACKSPACE);
                &&& final(self)@ == step.next
                &&& r.echo@ == step.echo
                &&& r.tells(step.outcome)
            }),
    {
        let ghost lines = self.pasted_lines@;
        match self.pasted_lines.pop() {
            None => Step { echo: Vec::new(), done: None },
            Some(prev) => {
                assert(text::texts(self.pasted_lines@) =~= text::texts(lines).drop_last());
                assert(text::texts(lines).last() == prev@);
                let mut echo = text::to_bytes("\r\x1b[K\x1b[A\r\x1b[K");
                let mut p = text::to_bytes(self.prompt.as_str());
                echo.append(&mut p);
                let mut q = text::to_bytes(prev.as_str());
                echo.append(&mut q);
                self.buf = text::to_bytes(prev.as_str());
                Step { echo, done: None }
            },
        }
    }
}

} // verus!
