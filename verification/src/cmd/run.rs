//! `run`: an interactive chat, or one prompt and its reply.

use vstd::prelude::*;

use crate::cmd::readline::ReadlineError;
use crate::text;

verus! {

/// The arguments of `run`.
pub struct RunArgs {
    pub model: String,
    /// Turns a model's thinking on or off; without it the model's own default
    /// stands.
    pub think: Option<bool>,
    /// The most tokens that one reply may have.
    pub num_predict: Option<u32>,
    pub prompt: Vec<String>,
}

/// What every request of a session carries along.
#[derive(Clone, Copy, PartialEq, Eq, Structural)]
pub struct ChatOptions {
    pub think: Option<bool>,
    pub num_predict: Option<u32>,
}

/// How a session goes.
pub enum RunMode {
    /// The prompt of the terminal.
    Interactive,
    /// The prompt is the first line of the standard input.
    FromInput,
    /// The prompt stood on the command line.
    OneShot(String),
}

impl RunArgs {
    pub fn options(&self) -> (r: ChatOptions)
        ensures
            r.think == self.think,
            r.num_predict == self.num_predict,
    {
        ChatOptions { think: self.think, num_predict: self.num_predict }
    }

    /// The words of the prompt, with spaces between them.
    pub open spec fn joined(self) -> Seq<char> {
        text::join_spec(text::texts(self.prompt@), " "@)
    }

    /// How the session goes: words on the command line are the prompt; without
    /// any, a terminal gets the interactive prompt.
    pub fn mode(&self, is_terminal: bool) -> (r: RunMode)
        ensures
            match r {
                RunMode::OneShot(p) => p@ == self.joined() && p@.len() > 0,
                RunMode::Interactive => self.joined().len() == 0 && is_terminal,
                RunMode::FromInput => self.joined().len() == 0 && !is_terminal,
            },
    {
        let prompt = text::join(&self.prompt, " ");
        if !prompt.as_str().is_empty() {
            RunMode::OneShot(prompt)
        } else if is_terminal {
            RunMode::Interactive
        } else {
            RunMode::FromInput
        }
    }
}

/// The prompt in a line of input, unless the line is blank.
pub fn prompt_from_input(line: &str) -> (r: Option<String>)
    ensures
        r is Some <==> text::trim_spec(line@).len() > 0,
        r matches Some(p) ==> p@ == text::trim_spec(line@),
{
    let p = text::trim(line);
    if p.as_str().is_empty() {
        None
    } else {
        Some(p)
    }
}

// ---------------------------------------------------------------------------
// The interactive prompt
// ---------------------------------------------------------------------------

/// What the loop around the prompt does next.
pub enum ReplAction {
    /// Reads on.
    Continue,
    /// Ends the session.
    Quit,
    /// Forgets the conversation.
    Clear,
    /// Lists the commands.
    Help,
    /// Sends a turn.
    Submit(String),
}

/// [`ReplAction`] over texts.
pub enum ReplDoes {
    Continue,
    Quit,
    Clear,
    Help,
    Submit(Seq<char>),
}

impl ReplAction {
    pub open spec fn does(self) -> ReplDoes {
        match self {
            ReplAction::Continue => ReplDoes::Continue,
            ReplAction::Quit => ReplDoes::Quit,
            ReplAction::Clear => ReplDoes::Clear,
            ReplAction::Help => ReplDoes::Help,
            ReplAction::Submit(s) => ReplDoes::Submit(s@),
        }
    }
}

/// A turn is sent unless it is blank.
pub open spec fn submit_unless_blank(s: Seq<char>) -> ReplDoes {
    if text::trim_spec(s).len() > 0 {
        ReplDoes::Submit(s)
    } else {
        ReplDoes::Continue
    }
}

/// What a line means outside of a quoted block, and the block that it opens.
pub open spec fn command(line: Seq<char>) -> (Option<Seq<char>>, ReplDoes) {
    let word = text::trim_spec(line);
    let start = text::trim_start_spec(line);
    let inner = text::strip_all(start, "\"\"\""@);
    if word.len() == 0 {
        (None, ReplDoes::Continue)
    } else if word == "/bye"@ || word == "/exit"@ {
        (None, ReplDoes::Quit)
    } else if word == "/clear"@ {
        (None, ReplDoes::Clear)
    } else if word[0] == '/' {
        (None, ReplDoes::Help)
    } else if "\"\"\""@.is_prefix_of(start) {
        if "\"\"\""@.is_suffix_of(inner) {
            (None, submit_unless_blank(inner.take(inner.len() - "\"\"\""@.len())))
        } else {
            (Some(inner + "\n"@), ReplDoes::Continue)
        }
    } else {
        (None, ReplDoes::Submit(line))
    }
}

/// The state of the loop around the prompt.
#[verifier::ext_equal]
pub struct ReplView {
    /// The text of an open quoted block.
    pub multiline: Option<Seq<char>>,
    /// The lines of a paste that is still coming in.
    pub paste: Seq<char>,
}

impl ReplView {
    /// A whole line: it ends or goes on with an open block, or stands on its own.
    pub open spec fn whole_line(self, line: Seq<char>) -> (ReplView, ReplDoes) {
        match self.multiline {
            Some(buf) => if "\"\"\""@.is_suffix_of(line) {
                let full = buf + line.take(line.len() - "\"\"\""@.len());
                (
                    ReplView { multiline: None, ..self },
                    submit_unless_blank(text::trim_end_char_spec(full, '\n')),
                )
            } else {
                (ReplView { multiline: Some(buf + line + "\n"@), ..self }, ReplDoes::Continue)
            },
            None => (ReplView { multiline: command(line).0, ..self }, command(line).1),
        }
    }

    /// A line from the editor. Lines of a paste are gathered, and the line behind
    /// the paste is the end of them.
    pub open spec fn line(self, line: Seq<char>, pasting: bool) -> (ReplView, ReplDoes) {
        if pasting {
            (ReplView { paste: self.paste + line + "\n"@, ..self }, ReplDoes::Continue)
        } else {
            (ReplView { paste: Seq::empty(), ..self }).whole_line(self.paste + line)
        }
    }
}

/// The loop around the prompt.
pub struct Repl {
    multiline: Option<String>,
    paste: String,
}

impl View for Repl {
    type V = ReplView;

    closed spec fn view(&self) -> ReplView {
        ReplView {
            multiline: match self.multiline {
                Some(s) => Some(s@),
                None => None,
            },
            paste: self.paste@,
        }
    }
}

/// `s`, unless it is blank.
fn submit(s: String) -> (r: ReplAction)
    ensures
        r.does() == submit_unless_blank(s@),
{
    if text::trim(s.as_str()).as_str().is_empty() {
        ReplAction::Continue
    } else {
        ReplAction::Submit(s)
    }
}

impl Repl {
    pub fn new() -> (r: Self)
        ensures
            r@ == (ReplView { multiline: None, paste: Seq::empty() }),
    {
        Repl { multiline: None, paste: String::new() }
    }

    /// The prompt: another one while a block or a paste is open.
    pub fn prompt(&self) -> (r: &'static str)
        ensures
            r@ == if self@.multiline is Some || self@.paste.len() > 0 {
                ". "@
            } else {
                "> "@
            },
    {
        if self.multiline.is_some() || !self.paste.as_str().is_empty() {
            ". "
        } else {
            "> "
        }
    }

    /// What follows from an input of the editor. An interrupt drops what is open;
    /// the end of input ends the session.
    pub fn on_read(&mut self, read: Result<Option<String>, ReadlineError>, pasting: bool) -> (r:
        ReplAction)
        ensures
            match read {
                Ok(Some(line)) => (final(self)@, r.does()) == old(self)@.line(line@, pasting),
                Ok(None) => r is Quit && final(self)@ == old(self)@,
                Err(ReadlineError::Interrupted) => r is Continue && final(self)@ == (ReplView {
                    multiline: None,
                    paste: Seq::empty(),
                }),
            },
    {
        match read {
            Ok(Some(line)) => {
                if pasting {
                    self.paste.append(line.as_str());
                    self.paste.append("\n");
                    return ReplAction::Continue;
                }
                let mut full = String::new();
                std::mem::swap(&mut full, &mut self.paste);
                full.append(line.as_str());
                self.on_whole_line(full)
            },
            Ok(None) => ReplAction::Quit,
            Err(ReadlineError::Interrupted) => {
                self.multiline = None;
                self.paste = String::new();
                ReplAction::Continue
            },
        }
    }

    fn on_whole_line(&mut self, line: String) -> (r: ReplAction)
        ensures
            (final(self)@, r.does()) == old(self)@.whole_line(line@),
    {
        match self.multiline.take() {
            Some(mut buf) => {
                match text::strip_suffix(line.as_str(), "\"\"\"") {
                    Some(content) => {
                        buf.append(content.as_str());
                        submit(text::trim_end_char(buf.as_str(), '\n'))
                    },
                    None => {
                        buf.append(line.as_str());
                        buf.append("\n");
                        self.multiline = Some(buf);
                        ReplAction::Continue
                    },
                }
            },
            None => {
                let (block, action) = on_command(line);
                self.multiline = block;
                action
            },
        }
    }
}

fn on_command(line: String) -> (r: (Option<String>, ReplAction))
    ensures
        match r.0 {
            Some(s) => command(line@).0 == Some(s@),
            None => command(line@).0 is None,
        },
        r.1.does() == command(line@).1,
{
    let word = text::trim(line.as_str());
    if word.as_str().is_empty() {
        (None, ReplAction::Continue)
    } else if text::same(word.as_str(), "/bye") || text::same(word.as_str(), "/exit") {
        (None, ReplAction::Quit)
    } else if text::same(word.as_str(), "/clear") {
        (None, ReplAction::Clear)
    } else if word.as_str().get_char(0) == '/' {
        (None, ReplAction::Help)
    } else {
        let start = text::trim_start(line.as_str());
        if text::starts_with(start.as_str(), "\"\"\"") {
            let mut inner = text::trim_start_matches(start.as_str(), "\"\"\"");
            match text::strip_suffix(inner.as_str(), "\"\"\"") {
                Some(closed) => (None, submit(closed)),
                None => {
                    inner.append("\n");
                    (Some(inner), ReplAction::Continue)
                },
            }
        } else {
            (None, ReplAction::Submit(line))
        }
    }
}

/// What a line means where the terminal itself does the editing: as at the
/// prompt, without quoted blocks and without help.
pub open spec fn cooked(line: Seq<char>) -> ReplDoes {
    let line = text::trim_end_char_spec(text::trim_end_char_spec(line, '\n'), '\r');
    let word = text::trim_spec(line);
    if word.len() == 0 {
        ReplDoes::Continue
    } else if word == "/bye"@ || word == "/exit"@ {
        ReplDoes::Quit
    } else if word == "/clear"@ {
        ReplDoes::Clear
    } else {
        ReplDoes::Submit(line)
    }
}

/// The step of the loop for terminals without raw mode; `line` is nothing at the
/// end of input.
pub fn on_cooked_line(line: Option<&str>) -> (r: ReplAction)
    ensures
        match line {
            Some(s) => r.does() == cooked(s@),
            None => r is Quit,
        },
{
    match line {
        None => ReplAction::Quit,
        Some(s) => {
            let line = text::trim_end_char(text::trim_end_char(s, '\n').as_str(), '\r');
            let word = text::trim(line.as_str());
            if word.as_str().is_empty() {
                ReplAction::Continue
            } else if text::same(word.as_str(), "/bye") || text::same(word.as_str(), "/exit") {
                ReplAction::Quit
            } else if text::same(word.as_str(), "/clear") {
                ReplAction::Clear
            } else {
                ReplAction::Submit(line)
            }
        },
    }
}

// ---------------------------------------------------------------------------
// One turn
// ---------------------------------------------------------------------------

/// A message of a conversation.
pub struct Msg {
    pub role: String,
    pub content: String,
    pub thinking: Option<String>,
}

/// The request of a turn.
pub struct ChatReq<'a> {
    pub model: &'a str,
    pub messages: &'a Vec<Msg>,
    pub stream: bool,
    pub think: Option<bool>,
    pub options: Option<ChatReqOptions>,
}

#[derive(Clone, Copy, PartialEq, Eq, Structural)]
pub struct ChatReqOptions {
    pub num_predict: Option<u32>,
}

/// One line of a streamed reply.
pub struct ChatChunk {
    pub message: Option<Msg>,
    pub done: bool,
}

/// The message that a role sends.
pub open spec fn is_message(m: Msg, role: Seq<char>, content: Seq<char>) -> bool {
    m.role@ == role && m.content@ == content && m.thinking is None
}

/// Adds the user's turn to a conversation.
pub fn begin_turn(messages: &mut Vec<Msg>, content: String)
    ensures
        final(messages)@.len() == old(messages)@.len() + 1,
        final(messages)@.drop_last() == old(messages)@,
        is_message(final(messages)@.last(), "user"@, content@),
{
    messages.push(Msg { role: "user".to_owned(), content, thinking: None });
    assert(messages@.drop_last() =~= old(messages)@);
}

/// The request that sends a conversation: always streamed, and with a limit on
/// the reply only where one was asked for.
pub fn chat_request<'a>(model: &'a str, messages: &'a Vec<Msg>, opts: ChatOptions) -> (r: ChatReq<'a>)
    ensures
        r.model@ == model@,
        r.messages@ == messages@,
        r.stream,
        r.think == opts.think,
        r.options == match opts.num_predict {
            Some(n) => Some(ChatReqOptions { num_predict: Some(n) }),
            None => None,
        },
{
    ChatReq {
        model,
        messages,
        stream: true,
        think: opts.think,
        options: match opts.num_predict {
            Some(n) => Some(ChatReqOptions { num_predict: Some(n) }),
            None => None,
        },
    }
}

impl ChatChunk {
    pub open spec fn content(self) -> Seq<char> {
        match self.message {
            Some(m) => m.content@,
            None => Seq::empty(),
        }
    }

    pub open spec fn thinking(self) -> Seq<char> {
        match self.message {
            Some(Msg { thinking: Some(t), .. }) => t@,
            _ => Seq::empty(),
        }
    }
}

/// What one line of a reply puts on the terminal.
pub struct ChatOut {
    /// To the standard error: the model's thinking.
    pub err: String,
    /// To the standard output: its answer.
    pub out: String,
    /// The reply is complete.
    pub stop: bool,
}

/// A reply as it comes in.
pub struct ChatReply {
    pub full: String,
    pub thinking_open: bool,
}

/// The thinking in a chunk as it is shown: under a heading where it starts, and
/// closed by a line feed before the answer.
pub open spec fn shown_thinking(open: bool, c: ChatChunk) -> Seq<char> {
    let heading = if !open && c.thinking().len() > 0 {
        "Thinking: "@
    } else {
        Seq::empty()
    };
    let close = if (open || c.thinking().len() > 0) && c.content().len() > 0 {
        "\n"@
    } else {
        Seq::empty()
    };
    heading + c.thinking() + close
}

impl ChatReply {
    pub fn new() -> (r: Self)
        ensures
            r.full@ == Seq::<char>::empty(),
            !r.thinking_open,
    {
        ChatReply { full: String::new(), thinking_open: false }
    }

    /// Takes one line of the reply; one that is no chunk is passed over.
    pub fn on_line(&mut self, chunk: Option<&ChatChunk>) -> (r: ChatOut)
        ensures
            match chunk {
                Some(c) => {
                    &&& r.out@ == c.content()
                    &&& r.err@ == shown_thinking(old(self).thinking_open, *c)
                    &&& r.stop == c.done
                    &&& final(self).full@ == old(self).full@ + c.content()
                    &&& final(self).thinking_open == ((old(self).thinking_open
                        || c.thinking().len() > 0) && c.content().len() == 0)
                },
                None => {
                    &&& r.out@.len() == 0 && r.err@.len() == 0 && !r.stop
                    &&& *final(self) == *old(self)
                },
            },
    {
        let mut err = String::new();
        let mut out = String::new();
        let mut stop = false;
        if let Some(c) = chunk {
            if let Some(msg) = &c.message {
                if let Some(t) = &msg.thinking {
                    if !t.as_str().is_empty() {
                        if !self.thinking_open {
                            err.append("Thinking: ");
                            self.thinking_open = true;
                        }
                        err.append(t.as_str());
                    }
                }
                if !msg.content.as_str().is_empty() {
                    if self.thinking_open {
                        err.append("\n");
                        self.thinking_open = false;
                    }
                    out.append(msg.content.as_str());
                    self.full.append(msg.content.as_str());
                }
            }
            stop = c.done;
            proof {
                assert(out@ =~= c.content());
                assert(err@ =~= shown_thinking(old(self).thinking_open, *c));
                assert(self.full@ =~= old(self).full@ + c.content());
            }
        }
        ChatOut { err, out, stop }
    }

    /// Adds the complete reply to the conversation.
    pub fn finish(self, messages: &mut Vec<Msg>)
        ensures
            final(messages)@.len() == old(messages)@.len() + 1,
            final(messages)@.drop_last() == old(messages)@,
            is_message(final(messages)@.last(), "assistant"@, self.full@),
    {
        messages.push(Msg { role: "assistant".to_owned(), content: self.full, thinking: None });
        assert(messages@.drop_last() =~= old(messages)@);
    }
}

// ---------------------------------------------------------------------------
// Laws
// ---------------------------------------------------------------------------

/// Lines, each with a line feed behind it.
pub open spec fn lines_text(lines: Seq<Seq<char>>) -> Seq<char>
    decreases lines.len(),
{
    if lines.len() == 0 {
        Seq::empty()
    } else {
        lines_text(lines.drop_last()) + lines.last() + "\n"@
    }
}

/// The state behind some lines, none of which asks for anything to be done.
pub open spec fn after_lines(r: ReplView, lines: Seq<Seq<char>>, pasting: bool) -> ReplView
    decreases lines.len(),
{
    if lines.len() == 0 {
        r
    } else {
        after_lines(r, lines.drop_last(), pasting).line(lines.last(), pasting).0
    }
}

/// The lines of a paste and the line behind it are one input, in which the lines
/// stand one below the other.
pub proof fn law_paste_is_one_input(r: ReplView, lines: Seq<Seq<char>>, last: Seq<char>)
    requires
        r.paste.len() == 0,
    ensures
        after_lines(r, lines, true).line(last, false) == r.whole_line(lines_text(lines) + last),
{
    lemma_paste(r, lines);
    assert(ReplView { paste: Seq::empty(), ..after_lines(r, lines, true) } =~= r);
    assert(r.paste + lines_text(lines) + last =~= lines_text(lines) + last);
}

proof fn lemma_paste(r: ReplView, lines: Seq<Seq<char>>)
    ensures
        after_lines(r, lines, true) == (ReplView { paste: r.paste + lines_text(lines), ..r }),
    decreases lines.len(),
{
    if lines.len() == 0 {
        assert(r.paste + lines_text(lines) =~= r.paste);
    } else {
        lemma_paste(r, lines.drop_last());
        assert(after_lines(r, lines, true).paste =~= r.paste + lines_text(lines));
    }
}

/// A quoted block is sent once the closing quotes come: what stood behind the
/// opening ones, the lines in between and what stands before the closing ones,
/// one below the other, without line feeds at the end.
pub proof fn law_quoted_block(buf: Seq<char>, lines: Seq<Seq<char>>, last: Seq<char>)
    requires
        forall|i: int| 0 <= i < lines.len() ==> !("\"\"\""@).is_suffix_of(#[trigger] lines[i]),
        "\"\"\""@.is_suffix_of(last),
    ensures
        ({
            let open = ReplView { multiline: Some(buf), paste: Seq::empty() };
            let block = buf + lines_text(lines) + last.take(last.len() - "\"\"\""@.len());
            after_lines(open, lines, false).line(last, false) == (
                (ReplView { multiline: None, paste: Seq::empty() }),
                submit_unless_blank(text::trim_end_char_spec(block, '\n')),
            )
        }),
{
    lemma_block(buf, lines);
    assert(Seq::<char>::empty() + last =~= last);
}

proof fn lemma_block(buf: Seq<char>, lines: Seq<Seq<char>>)
    requires
        forall|i: int| 0 <= i < lines.len() ==> !("\"\"\""@).is_suffix_of(#[trigger] lines[i]),
    ensures
        after_lines(ReplView { multiline: Some(buf), paste: Seq::empty() }, lines, false) == (ReplView {
            multiline: Some(buf + lines_text(lines)),
            paste: Seq::empty(),
        }),
    decreases lines.len(),
{
    if lines.len() == 0 {
        assert(buf + lines_text(lines) =~= buf);
    } else {
        let rest = lines.drop_last();
        assert forall|i: int| 0 <= i < rest.len() implies !("\"\"\""@).is_suffix_of(
            #[trigger] rest[i],
        ) by {
            assert(rest[i] == lines[i]);
        }
        lemma_block(buf, rest);
        assert(lines.last() == lines[lines.len() - 1]);
        assert(Seq::<char>::empty() + lines.last() =~= lines.last());
        assert(buf + lines_text(rest) + lines.last() + "\n"@ =~= buf + lines_text(lines));
    }
}

/// What is sent is never blank.
pub proof fn law_blank_is_never_sent(r: ReplView, line: Seq<char>, pasting: bool)
    ensures
        r.line(line, pasting).1 matches ReplDoes::Submit(s) ==> text::trim_spec(s).len() > 0,
{
}

} // verus!
