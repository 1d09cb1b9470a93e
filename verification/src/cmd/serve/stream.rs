//! The stream of an engine's reply: lines out of arbitrary pieces of bytes, the
//! content of each, and the chunks of the Ollama API made of them.

use vstd::prelude::*;
use vstd::utf8::*;

use crate::clock;
use crate::cmd::serve::chat::OllamaMessage;
use crate::text;

verus! {

// ---------------------------------------------------------------------------
// Lines
// ---------------------------------------------------------------------------

/// The index of the first line feed among bytes, or their number where there is
/// none.
pub open spec fn feed_at(s: Seq<u8>) -> int
    decreases s.len(),
{
    if s.len() == 0 || s[0] == 10 {
        0
    } else {
        1 + feed_at(s.drop_first())
    }
}

/// The text of a line: its bytes as a text, without the carriage returns at its
/// end.
pub open spec fn line_of(bytes: Seq<u8>) -> Seq<char> {
    text::trim_end_char_spec(text::lossy_text(bytes), '\r')
}

/// The complete lines of a stream of bytes, each without its line feed and the
/// carriage returns before it.
pub open spec fn complete_lines(s: Seq<u8>) -> Seq<Seq<char>>
    decreases s.len(),
{
    let n = feed_at(s);
    if 0 <= n < s.len() {
        seq![line_of(s.take(n))] + complete_lines(s.skip(n + 1))
    } else {
        Seq::empty()
    }
}

/// What stands behind the last line feed of a stream of bytes.
pub open spec fn open_line(s: Seq<u8>) -> Seq<u8>
    decreases s.len(),
{
    let n = feed_at(s);
    if 0 <= n < s.len() {
        open_line(s.skip(n + 1))
    } else {
        s
    }
}

proof fn lemma_feed_at(s: Seq<u8>, n: int)
    requires
        0 <= n <= s.len(),
        forall|j: int| 0 <= j < n ==> s[j] != 10,
        n < s.len() ==> s[n] == 10,
    ensures
        feed_at(s) == n,
    decreases n,
{
    if n > 0 {
        assert(s[0] != 10);
        lemma_feed_at(s.drop_first(), n - 1);
    }
}

proof fn lemma_feed_bound(s: Seq<u8>)
    ensures
        0 <= feed_at(s) <= s.len(),
        feed_at(s) < s.len() ==> s[feed_at(s)] == 10,
        forall|j: int| 0 <= j < feed_at(s) ==> s[j] != 10,
    decreases s.len(),
{
    if s.len() > 0 && s[0] != 10 {
        let t = s.drop_first();
        lemma_feed_bound(t);
        assert forall|j: int| 0 <= j < feed_at(s) implies s[j] != 10 by {
            if j > 0 {
                assert(t[j - 1] == s[j]);
            }
        }
    }
}

/// The bytes of a stream that have not yet come out as lines.
pub struct LineBuffer {
    buf: Vec<u8>,
}

impl View for LineBuffer {
    type V = Seq<u8>;

    closed spec fn view(&self) -> Seq<u8> {
        self.buf@
    }
}

impl LineBuffer {
    pub fn new() -> (r: Self)
        ensures
            r@.len() == 0,
    {
        LineBuffer { buf: Vec::new() }
    }

    /// Takes a piece of the stream.
    pub fn push(&mut self, piece: &[u8])
        ensures
            final(self)@ == old(self)@ + piece@,
    {
        self.buf.extend_from_slice(piece);
        assert(self@ =~= old(self)@ + piece@);
    }

    /// The next complete line, if there is one.
    pub fn next_line(&mut self) -> (r: Option<String>)
        ensures
            match r {
                Some(line) => {
                    &&& complete_lines(old(self)@) == seq![line@] + complete_lines(final(self)@)
                    &&& open_line(old(self)@) == open_line(final(self)@)
                    &&& final(self)@.len() < old(self)@.len()
                },
                None => complete_lines(old(self)@).len() == 0 && final(self)@ == old(self)@
                    && open_line(old(self)@) == old(self)@,
            },
    {
        let ghost all = self.buf@;
        let mut n: usize = 0;
        while n < self.buf.len() && self.buf[n] != 10
            invariant
                n <= self.buf@.len(),
                self.buf@ == all,
                forall|j: int| 0 <= j < n ==> all[j] != 10,
            decreases self.buf.len() - n,
        {
            n += 1;
        }
        proof {
            lemma_feed_at(all, n as int);
        }
        if n == self.buf.len() {
            return None;
        }
        let mut rest = self.buf.split_off(n + 1);
        std::mem::swap(&mut rest, &mut self.buf);
        rest.truncate(n);
        assert(rest@ =~= all.take(n as int));
        assert(self.buf@ =~= all.skip(n + 1));
        let line = text::lossy(rest.as_slice());
        Some(text::trim_end_char(line.as_str(), '\r'))
    }

    /// What is left when the stream has ended: a last line without a line feed.
    pub fn finish(&mut self) -> (r: Option<String>)
        ensures
            final(self)@.len() == 0,
            match r {
                Some(line) => line@ == text::lossy_text(old(self)@) && old(self)@.len() > 0,
                None => old(self)@.len() == 0,
            },
    {
        let mut rest: Vec<u8> = Vec::new();
        std::mem::swap(&mut rest, &mut self.buf);
        if rest.len() == 0 {
            None
        } else {
            Some(text::lossy(rest.as_slice()))
        }
    }
}

/// Wherever a stream is cut into pieces, the same lines come out of it: those of
/// the first piece, and then those of what it left open and the next piece.
pub proof fn law_pieces_do_not_matter(a: Seq<u8>, b: Seq<u8>)
    ensures
        complete_lines(a + b) == complete_lines(a) + complete_lines(open_line(a) + b),
        open_line(a + b) == open_line(open_line(a) + b),
    decreases a.len(),
{
    let n = feed_at(a);
    lemma_feed_bound(a);
    if n < a.len() {
        assert forall|j: int| 0 <= j < n implies (a + b)[j] != 10 by {
            assert(a[j] != 10);
        }
        lemma_feed_at(a + b, n);
        assert((a + b).take(n) =~= a.take(n));
        assert((a + b).skip(n + 1) =~= a.skip(n + 1) + b);
        law_pieces_do_not_matter(a.skip(n + 1), b);
        let line = seq![line_of(a.take(n))];
        let rest = complete_lines(a.skip(n + 1));
        let more = complete_lines(open_line(a) + b);
        assert(line + (rest + more) =~= (line + rest) + more);
    } else {
        assert(complete_lines(a) + complete_lines(a + b) =~= complete_lines(a + b));
    }
}

/// The bytes of a stream that came in pieces.
pub open spec fn stream_bytes(pieces: Seq<Vec<u8>>) -> Seq<u8>
    decreases pieces.len(),
{
    if pieces.len() == 0 {
        Seq::empty()
    } else {
        stream_bytes(pieces.drop_last()) + pieces.last()@
    }
}

/// All the lines of a stream of bytes; what stands behind the last line feed is a
/// line too unless it is empty.
pub open spec fn all_lines(s: Seq<u8>) -> Seq<Seq<char>> {
    if open_line(s).len() > 0 {
        complete_lines(s).push(text::lossy_text(open_line(s)))
    } else {
        complete_lines(s)
    }
}

/// The lines of a stream that came in pieces: those of all its bytes.
pub fn bytes_to_lines(pieces: &Vec<Vec<u8>>) -> (r: Vec<String>)
    ensures
        text::texts(r@) == all_lines(stream_bytes(pieces@)),
{
    let mut buf = LineBuffer::new();
    let mut out: Vec<String> = Vec::new();
    let mut i: usize = 0;
    proof {
        assert(text::texts(out@) =~= Seq::empty());
        assert(buf@ =~= stream_bytes(pieces@.take(0)));
        assert(open_line(buf@) =~= buf@);
    }
    while i < pieces.len()
        invariant
            i <= pieces@.len(),
            text::texts(out@) == complete_lines(stream_bytes(pieces@.take(i as int))),
            buf@ == open_line(stream_bytes(pieces@.take(i as int))),
        decreases pieces.len() - i,
    {
        let ghost so_far = stream_bytes(pieces@.take(i as int));
        let ghost piece = pieces@[i as int]@;
        buf.push(pieces[i].as_slice());
        proof {
            assert(pieces@.take(i + 1).drop_last() =~= pieces@.take(i as int));
            assert(pieces@.take(i + 1).last() == pieces@[i as int]);
            law_pieces_do_not_matter(so_far, piece);
        }
        let ghost lines = complete_lines(so_far);
        let ghost whole = buf@;
        assert(text::texts(out@) + complete_lines(buf@) =~= lines + complete_lines(whole));
        loop
            invariant_except_break
                text::texts(out@) + complete_lines(buf@) == lines + complete_lines(whole),
                open_line(buf@) == open_line(whole),
            ensures
                text::texts(out@) == lines + complete_lines(whole),
                buf@ == open_line(whole),
            decreases buf@.len(),
        {
            let ghost before = out@;
            match buf.next_line() {
                Some(line) => {
                    out.push(line);
                    proof {
                        assert(text::texts(out@) =~= text::texts(before).push(line@));
                        assert(text::texts(before) + (seq![line@] + complete_lines(buf@))
                            =~= text::texts(out@) + complete_lines(buf@));
                    }
                },
                None => {
                    assert(text::texts(out@) + complete_lines(buf@) =~= text::texts(out@));
                    break;
                },
            }
        }
        i += 1;
    }
    assert(pieces@.take(i as int) =~= pieces@);
    let ghost before = out@;
    if let Some(line) = buf.finish() {
        out.push(line);
        assert(text::texts(out@) =~= text::texts(before).push(line@));
    }
    out
}

/// The lines of a text, each without its line feed and the carriage returns before
/// it; what stands behind the last line feed is a line as it is unless it is
/// empty.
pub open spec fn text_lines(s: Seq<char>) -> Seq<Seq<char>>
    decreases s.len(),
{
    let n = text::position(s, '\n');
    if 0 <= n < s.len() {
        seq![text::trim_end_char_spec(s.take(n), '\r')] + text_lines(s.skip(n + 1))
    } else if s.len() > 0 {
        seq![s]
    } else {
        Seq::empty()
    }
}

proof fn lemma_encoded_feed(s: Seq<char>)
    ensures
        ({
            let n = text::position(s, '\n');
            let e = encode_utf8(s);
            let k = feed_at(e);
            &&& 0 <= n <= s.len()
            &&& 0 <= k <= e.len()
            &&& e.take(k) == encode_utf8(s.take(n))
            &&& n < s.len() <==> k < e.len()
            &&& n < s.len() ==> e.skip(k + 1) == encode_utf8(s.skip(n + 1))
        }),
    decreases s.len(),
{
    let n = text::position(s, '\n');
    let e = encode_utf8(s);
    text::lemma_position_bound(s, '\n');
    lemma_feed_bound(e);
    if s.len() == 0 {
        assert(e.take(0) =~= e);
        assert(s.take(0) =~= s);
    } else {
        let c = s[0];
        let t = s.drop_first();
        let first = encode_scalar(c as u32);
        let rest = encode_utf8(t);
        char_is_scalar(c);
        text::lemma_scalar_bytes(c as u32);
        if c == '\n' {
            assert(first =~= seq![10u8]);
            assert(e[0] == 10);
            assert(e.take(0) =~= encode_utf8(s.take(0)));
            assert(e.skip(1) =~= rest);
            assert(s.skip(1) =~= t);
        } else {
            lemma_encoded_feed(t);
            let m = text::position(t, '\n');
            let k = feed_at(rest);
            lemma_feed_bound(rest);
            assert forall|j: int| 0 <= j < first.len() + k implies e[j] != 10 by {
                if j < first.len() {
                    assert(e[j] == first[j]);
                    if j > 0 {
                        assert(is_continuation_byte(first[j]));
                    } else if has_width_1_encoding(c as u32) {
                        assert((c as u32) as u8 == c as u32);
                        if c as u32 == 10 {
                            char_u32_cast(c, 10);
                        }
                    }
                } else {
                    assert(e[j] == rest[j - first.len()]);
                }
            }
            if k < rest.len() {
                assert(e[first.len() + k] == rest[k]);
            }
            lemma_feed_at(e, first.len() + k);
            assert(n == 1 + m);
            assert(s.take(n).drop_first() =~= t.take(m));
            assert(e.take(first.len() + k) =~= first + rest.take(k));
            if n < s.len() {
                assert(s.skip(n + 1) =~= t.skip(m + 1));
                assert(e.skip(first.len() + k + 1) =~= rest.skip(k + 1));
            }
        }
    }
}

proof fn lemma_lines_of_encoded(s: Seq<char>)
    ensures
        all_lines(encode_utf8(s)) == text_lines(s),
    decreases s.len(),
{
    let n = text::position(s, '\n');
    let e = encode_utf8(s);
    let k = feed_at(e);
    lemma_encoded_feed(s);
    if n < s.len() {
        let rest = e.skip(k + 1);
        lemma_lines_of_encoded(s.skip(n + 1));
        text::lemma_lossy_encoded(s.take(n));
        let line = seq![line_of(e.take(k))];
        if open_line(rest).len() > 0 {
            let last = text::lossy_text(open_line(rest));
            assert((line + complete_lines(rest)).push(last) =~= line + complete_lines(rest).push(
                last,
            ));
        }
    } else {
        text::lemma_lossy_encoded(s);
        if s.len() > 0 {
            char_is_scalar(s[0]);
            text::lemma_scalar_bytes(s[0] as u32);
            assert(e.len() > 0);
            assert(all_lines(e) =~= seq![s]);
        } else {
            assert(e.len() == 0);
        }
    }
}

/// Wherever the bytes of a text are cut into pieces, within a character as well as
/// between two, its lines come out.
pub proof fn law_cuts_do_not_matter(pieces: Seq<Vec<u8>>, s: Seq<char>)
    requires
        stream_bytes(pieces) == encode_utf8(s),
    ensures
        all_lines(stream_bytes(pieces)) == text_lines(s),
{
    lemma_lines_of_encoded(s);
}

// ---------------------------------------------------------------------------
// The content of a line
// ---------------------------------------------------------------------------

/// One event of an engine's stream.
pub struct OAIChunk {
    pub choices: Vec<OAIChunkChoice>,
}

pub struct OAIChunkChoice {
    pub delta: OAIChunkDelta,
    pub finish_reason: Option<String>,
}

/// Engines send the model's thinking under one of two names.
pub struct OAIChunkDelta {
    pub content: Option<String>,
    pub reasoning_content: Option<String>,
    pub thinking: Option<String>,
}

/// What an event says: some content, some thinking, and whether it is the last.
#[verifier::ext_equal]
pub struct Said {
    pub content: Seq<char>,
    pub thinking: Option<Seq<char>>,
    pub done: bool,
}

/// The payload of a line of an event stream.
pub open spec fn payload_of(line: Seq<char>) -> Option<Seq<char>> {
    if "data: "@.is_prefix_of(line) {
        Some(line.skip("data: "@.len() as int))
    } else {
        None
    }
}

/// The payload of a line of an event stream; other lines have none.
pub fn sse_payload(line: &str) -> (r: Option<String>)
    ensures
        match r {
            Some(p) => payload_of(line@) == Some(p@),
            None => payload_of(line@) is None,
        },
{
    text::strip_prefix(line, "data: ")
}

/// The text of a string that may be missing.
pub open spec fn text_or_empty(s: Option<String>) -> Seq<char> {
    match s {
        Some(s) => s@,
        None => Seq::empty(),
    }
}

impl OAIChunkDelta {
    /// The thinking under either name; an empty one counts as none.
    pub open spec fn thought(self) -> Option<Seq<char>> {
        let t = match self.reasoning_content {
            Some(s) => Some(s@),
            None => match self.thinking {
                Some(s) => Some(s@),
                None => None,
            },
        };
        if t matches Some(s) && s.len() > 0 {
            t
        } else {
            None
        }
    }
}

/// Whether a reason to finish is one: neither empty nor the word null.
pub open spec fn is_finish(reason: Option<String>) -> bool {
    reason matches Some(s) && s@.len() > 0 && s@ != "null"@
}

/// What a payload says. The chunk is what the payload holds, if it is one.
pub open spec fn said(payload: Seq<char>, chunk: Option<OAIChunk>) -> Option<Said> {
    if payload == "[DONE]"@ {
        Some(Said { content: Seq::empty(), thinking: None, done: true })
    } else {
        match chunk {
            Some(c) => if c.choices@.len() == 0 {
                None
            } else {
                let choice = c.choices@[0];
                Some(
                    Said {
                        content: text_or_empty(choice.delta.content),
                        thinking: choice.delta.thought(),
                        done: is_finish(choice.finish_reason),
                    },
                )
            },
            None => None,
        }
    }
}

/// A content, thinking and end that say the same.
pub open spec fn says(r: (String, Option<String>, bool)) -> Said {
    Said {
        content: r.0@,
        thinking: match r.1 {
            Some(t) => Some(t@),
            None => None,
        },
        done: r.2,
    }
}

fn string_or_empty(s: &Option<String>) -> (r: String)
    ensures
        r@ == text_or_empty(*s),
{
    match s {
        Some(s) => s.clone(),
        None => String::new(),
    }
}

fn nonempty(s: &String) -> (r: Option<String>)
    ensures
        match r {
            Some(t) => t@ == s@ && s@.len() > 0,
            None => s@.len() == 0,
        },
{
    if s.as_str().is_empty() {
        None
    } else {
        Some(s.clone())
    }
}

/// The content and the thinking of a payload, and whether it is the last; nothing
/// where it says nothing, so that the stream goes on.
pub fn oai_chunk_to_content(payload: &str, chunk: Option<&OAIChunk>) -> (r: Option<
    (String, Option<String>, bool),
>)
    ensures
        ({
            let given = match chunk {
                Some(c) => Some(*c),
                None => None,
            };
            match r {
                Some(x) => said(payload@, given) == Some(says(x)),
                None => said(payload@, given) is None,
            }
        }),
{
    if text::same(payload, "[DONE]") {
        return Some((String::new(), None, true));
    }
    match chunk {
        None => None,
        Some(c) => {
            if c.choices.len() == 0 {
                return None;
            }
            let choice = &c.choices[0];
            let content = string_or_empty(&choice.delta.content);
            let thinking = match &choice.delta.reasoning_content {
                Some(s) => nonempty(s),
                None => match &choice.delta.thinking {
                    Some(s) => nonempty(s),
                    None => None,
                },
            };
            let done = match &choice.finish_reason {
                Some(s) => !s.as_str().is_empty() && !text::same(s.as_str(), "null"),
                None => false,
            };
            Some((content, thinking, done))
        },
    }
}

// ---------------------------------------------------------------------------
// A whole reply
// ---------------------------------------------------------------------------

/// The payloads in the lines of a reply, in their order.
pub open spec fn payloads_in(lines: Seq<Seq<char>>) -> Seq<Seq<char>>
    decreases lines.len(),
{
    if lines.len() == 0 {
        Seq::empty()
    } else {
        let before = payloads_in(lines.drop_last());
        match payload_of(lines.last()) {
            Some(p) => before.push(p),
            None => before,
        }
    }
}

/// The payloads of a reply that is there as a whole; nothing where it is empty.
pub fn completion_payloads(raw: &[u8]) -> (r: Option<Vec<String>>)
    ensures
        r is Some <==> raw@.len() > 0,
        r matches Some(v) ==> text::texts(v@) == payloads_in(
            text::lines_spec(text::lossy_text(raw@)),
        ),
{
    if raw.len() == 0 {
        return None;
    }
    let all = text::lossy(raw);
    let lines = text::lines(all.as_str());
    let ghost trees = text::texts(lines@);
    let mut out: Vec<String> = Vec::new();
    let mut i: usize = 0;
    assert(text::texts(out@) =~= Seq::empty());
    while i < lines.len()
        invariant
            i <= lines@.len(),
            trees == text::texts(lines@),
            text::texts(out@) == payloads_in(trees.take(i as int)),
        decreases lines.len() - i,
    {
        proof {
            assert(trees.take(i + 1).drop_last() =~= trees.take(i as int));
            assert(trees.take(i + 1).last() == lines@[i as int]@);
        }
        let ghost before = out@;
        if let Some(p) = sse_payload(lines[i].as_str()) {
            out.push(p);
            assert(text::texts(out@) =~= text::texts(before).push(p@));
        }
        i += 1;
    }
    assert(trees.take(i as int) =~= trees);
    Some(out)
}

/// The content of a reply as its payloads come in.
pub struct Completion {
    pub content: String,
    pub done: bool,
}

impl Completion {
    pub fn new() -> (r: Self)
        ensures
            r.content@.len() == 0,
            !r.done,
    {
        Completion { content: String::new(), done: false }
    }

    /// Takes a payload: its content is added, unless an earlier one was the last.
    pub fn on_payload(&mut self, payload: &str, chunk: Option<&OAIChunk>)
        ensures
            ({
                let given = match chunk {
                    Some(c) => Some(*c),
                    None => None,
                };
                if old(self).done || said(payload@, given) is None {
                    *final(self) == *old(self)
                } else {
                    let s = said(payload@, given).unwrap();
                    final(self).content@ == old(self).content@ + s.content && final(self).done
                        == s.done
                }
            }),
    {
        if self.done {
            return ;
        }
        if let Some((content, _, done)) = oai_chunk_to_content(payload, chunk) {
            self.content.append(content.as_str());
            self.done = done;
        }
    }
}

// ---------------------------------------------------------------------------
// Chunks of the Ollama API
// ---------------------------------------------------------------------------

/// A line of the reply to `/api/chat`.
pub struct OllamaChatChunk {
    pub model: String,
    pub created_at: String,
    pub message: OllamaMessage,
    pub done: bool,
    pub done_reason: Option<String>,
}

/// A line of the reply to `/api/generate`.
pub struct OllamaGenerateChunk {
    pub model: String,
    pub created_at: String,
    pub response: String,
    pub thinking: Option<String>,
    pub done: bool,
    pub done_reason: Option<String>,
}

/// The reason that a chunk gives for the end of a reply.
pub open spec fn is_stop_reason(reason: Option<String>, done: bool) -> bool {
    match reason {
        Some(s) => done && s@ == "stop"@,
        None => !done,
    }
}

fn stop_reason(done: bool) -> (r: Option<String>)
    ensures
        is_stop_reason(r, done),
{
    if done {
        Some("stop".to_owned())
    } else {
        None
    }
}

/// The line of a chat's reply for what an engine said, stamped with the clock.
pub fn chat_chunk(model: &str, said: (String, Option<String>, bool)) -> (r: OllamaChatChunk)
    ensures
        r.model@ == model@,
        clock::is_stamp(r.created_at@),
        r.message.role@ == "assistant"@,
        r.message.content@ == said.0@,
        r.message.thinking == said.1,
        r.done == said.2,
        is_stop_reason(r.done_reason, said.2),
{
    let (content, thinking, done) = said;
    OllamaChatChunk {
        model: model.to_owned(),
        created_at: clock::now_rfc3339(),
        message: OllamaMessage { role: "assistant".to_owned(), content, thinking },
        done,
        done_reason: stop_reason(done),
    }
}

/// The line of a prompt's reply for what an engine said, stamped with the clock.
pub fn generate_chunk(model: &str, said: (String, Option<String>, bool)) -> (r: OllamaGenerateChunk)
    ensures
        r.model@ == model@,
        clock::is_stamp(r.created_at@),
        r.response@ == said.0@,
        r.thinking == said.1,
        r.done == said.2,
        is_stop_reason(r.done_reason, said.2),
{
    let (response, thinking, done) = said;
    OllamaGenerateChunk {
        model: model.to_owned(),
        created_at: clock::now_rfc3339(),
        response,
        thinking,
        done,
        done_reason: stop_reason(done),
    }
}

/// The whole reply to a request that loads or unloads a model.
pub fn loading_chunk(model: &str, unload: bool) -> (r: OllamaGenerateChunk)
    ensures
        r.model@ == model@,
        clock::is_stamp(r.created_at@),
        r.response@.len() == 0,
        r.thinking is None,
        r.done,
        r.done_reason matches Some(s) && s@ == if unload {
            "unload"@
        } else {
            "load"@
        },
{
    OllamaGenerateChunk {
        model: model.to_owned(),
        created_at: clock::now_rfc3339(),
        response: String::new(),
        thinking: None,
        done: true,
        done_reason: Some(
            if unload {
                "unload".to_owned()
            } else {
                "load".to_owned()
            },
        ),
    }
}

} // verus!
