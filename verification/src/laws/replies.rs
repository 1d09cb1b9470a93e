//! Laws of an engine's reply as it is read and passed on.

use vstd::prelude::*;

use crate::clock;
use crate::cmd::serve::stream;
use crate::cmd::serve::stream::{
    Completion, OAIChunk, OllamaChatChunk, OllamaGenerateChunk,
};
use crate::text;

verus! {

/// The characters of a text that may be missing: none where it is.
pub open spec fn chars_of(s: Option<String>) -> Seq<char> {
    if s is Some {
        s.unwrap()@
    } else {
        seq![]
    }
}

/// The content of a payload is, character for character, what the engine sent as
/// the content of the first choice, and nothing where it sent none.
pub proof fn law_content_is_passed_on(
    payload: &str,
    chunk: OAIChunk,
    r: Option<(String, Option<String>, bool)>,
)
    requires
        call_ensures(stream::oai_chunk_to_content, (payload, Some(&chunk)), r),
        payload@ != "[DONE]"@,
        chunk.choices@.len() > 0,
    ensures
        r is Some,
        chunk.choices@[0].delta.content matches Some(s) ==> r.unwrap().0@ == s@,
        chunk.choices@[0].delta.content is None ==> r.unwrap().0@.len() == 0,
{
}

/// The thinking of a payload is, character for character, what the engine sent
/// under the first of the two names that it used; an empty one is none.
pub proof fn law_thinking_is_passed_on(
    payload: &str,
    chunk: OAIChunk,
    r: Option<(String, Option<String>, bool)>,
)
    requires
        call_ensures(stream::oai_chunk_to_content, (payload, Some(&chunk)), r),
        payload@ != "[DONE]"@,
        chunk.choices@.len() > 0,
    ensures
        ({
            let d = chunk.choices@[0].delta;
            let t = r.unwrap().1;
            &&& d.reasoning_content is Some && d.reasoning_content.unwrap()@.len() > 0
                ==> t is Some && t.unwrap()@ == d.reasoning_content.unwrap()@
            &&& d.reasoning_content is Some && d.reasoning_content.unwrap()@.len() == 0
                ==> t is None
            &&& d.reasoning_content is None && d.thinking is Some && d.thinking.unwrap()@.len() > 0
                ==> t is Some && t.unwrap()@ == d.thinking.unwrap()@
            &&& d.reasoning_content is None && (d.thinking is None || d.thinking.unwrap()@.len()
                == 0) ==> t is None
        }),
{
}

/// A payload is the last exactly where the engine gives a reason to finish; the
/// word null and an empty text are none.
pub proof fn law_the_end_is_passed_on(
    payload: &str,
    chunk: OAIChunk,
    r: Option<(String, Option<String>, bool)>,
)
    requires
        call_ensures(stream::oai_chunk_to_content, (payload, Some(&chunk)), r),
        payload@ != "[DONE]"@,
        chunk.choices@.len() > 0,
    ensures
        ({
            let reason = chunk.choices@[0].finish_reason;
            &&& reason is None ==> !r.unwrap().2
            &&& reason is Some && reason.unwrap()@ != "null"@ && reason.unwrap()@.len() > 0
                ==> r.unwrap().2
            &&& reason is Some && (reason.unwrap()@ == "null"@ || reason.unwrap()@.len() == 0)
                ==> !r.unwrap().2
        }),
{
}

/// The mark at the end of a stream says the end and nothing else, whatever came
/// with it.
pub proof fn law_the_mark_ends_a_stream(
    payload: &str,
    chunk: Option<&OAIChunk>,
    r: Option<(String, Option<String>, bool)>,
)
    requires
        call_ensures(stream::oai_chunk_to_content, (payload, chunk), r),
        payload@ == "[DONE]"@,
    ensures
        r is Some,
        r.unwrap().0@.len() == 0,
        r.unwrap().1 is None,
        r.unwrap().2,
{
}

/// A payload other than the mark says something exactly where it is a chunk that
/// has a choice.
pub proof fn law_only_choices_say_something(
    payload: &str,
    chunk: Option<&OAIChunk>,
    r: Option<(String, Option<String>, bool)>,
)
    requires
        call_ensures(stream::oai_chunk_to_content, (payload, chunk), r),
        payload@ != "[DONE]"@,
    ensures
        r is Some <==> chunk is Some && chunk.unwrap().choices@.len() > 0,
{
}

/// The deltas of the first choices of chunks, one behind the other.
pub open spec fn deltas(chunks: Seq<OAIChunk>) -> Seq<char>
    decreases chunks.len(),
{
    if chunks.len() == 0 {
        Seq::empty()
    } else {
        deltas(chunks.drop_last()) + chars_of(chunks.last().choices@[0].delta.content)
    }
}

/// The contents of what was said, one behind the other.
pub open spec fn contents(said: Seq<(String, Option<String>, bool)>) -> Seq<char>
    decreases said.len(),
{
    if said.len() == 0 {
        Seq::empty()
    } else {
        contents(said.drop_last()) + said.last().0@
    }
}

/// The contents that come out for the chunks of a stream are, one behind the other,
/// the deltas of the engine one behind the other.
pub proof fn law_a_stream_is_passed_on(
    payloads: Seq<&str>,
    chunks: Seq<OAIChunk>,
    said: Seq<(String, Option<String>, bool)>,
)
    requires
        payloads.len() == chunks.len(),
        said.len() == chunks.len(),
        forall|i: int|
            0 <= i < chunks.len() ==> (#[trigger] payloads[i])@ != "[DONE]"@
                && chunks[i].choices@.len() > 0,
        forall|i: int|
            #![trigger said[i]]
            0 <= i < chunks.len() ==> call_ensures(
                stream::oai_chunk_to_content,
                (payloads[i], Some(&chunks[i])),
                Some(said[i]),
            ),
    ensures
        contents(said) == deltas(chunks),
    decreases chunks.len(),
{
    if chunks.len() > 0 {
        let n = chunks.len() - 1;
        assert(payloads[n]@ != "[DONE]"@);
        law_content_is_passed_on(payloads[n], chunks[n], Some(said[n]));
        assert(said[n].0@ =~= chars_of(chunks[n].choices@[0].delta.content));
        assert forall|i: int| 0 <= i < n implies (#[trigger] payloads.drop_last()[i])@ != "[DONE]"@
            && chunks.drop_last()[i].choices@.len() > 0 by {
            assert(payloads.drop_last()[i] == payloads[i]);
        }
        assert forall|i: int|
            #![trigger said.drop_last()[i]]
            0 <= i < n implies call_ensures(
            stream::oai_chunk_to_content,
            (payloads.drop_last()[i], Some(&chunks.drop_last()[i])),
            Some(said.drop_last()[i]),
        ) by {
            assert(said.drop_last()[i] == said[i]);
        }
        law_a_stream_is_passed_on(payloads.drop_last(), chunks.drop_last(), said.drop_last());
    }
}

/// The payload of a line is what stands behind the field's name: the name and the
/// payload make up the line again. A line that does not begin with the name has
/// none.
pub proof fn law_payloads_make_up_their_line(line: &str, r: Option<String>)
    requires
        call_ensures(stream::sse_payload, (line,), r),
    ensures
        r matches Some(p) ==> line@ == "data: "@ + p@,
        forall|p: Seq<char>| line@ == #[trigger] ("data: "@ + p) ==> r is Some && r.unwrap()@ == p,
{
    let name = "data: "@;
    if r is Some {
        assert(name + line@.skip(name.len() as int) =~= line@);
    }
    assert forall|p: Seq<char>| line@ == #[trigger] (name + p) implies r is Some && r.unwrap()@
        == p by {
        assert(name =~= line@.take(name.len() as int));
        assert(line@.skip(name.len() as int) =~= p);
    }
}

/// The places of the lines that have a payload.
pub open spec fn payload_places(lines: Seq<Seq<char>>) -> Seq<int>
    decreases lines.len(),
{
    if lines.len() == 0 {
        Seq::empty()
    } else {
        let before = payload_places(lines.drop_last());
        if "data: "@.is_prefix_of(lines.last()) {
            before.push(lines.len() - 1)
        } else {
            before
        }
    }
}

proof fn lemma_payload_places(lines: Seq<Seq<char>>)
    ensures
        ({
            let places = payload_places(lines);
            let out = stream::payloads_in(lines);
            &&& places.len() == out.len()
            &&& forall|k: int|
                #![trigger places[k]]
                0 <= k < out.len() ==> 0 <= places[k] < lines.len() && lines[places[k]] == "data: "@
                    + out[k]
            &&& forall|k: int, l: int| 0 <= k < l < places.len() ==> places[k] < places[l]
            &&& forall|i: int|
                0 <= i < lines.len() && "data: "@.is_prefix_of(#[trigger] lines[i])
                    ==> places.contains(i)
        }),
    decreases lines.len(),
{
    if lines.len() > 0 {
        let t = lines.drop_last();
        let name = "data: "@;
        lemma_payload_places(t);
        let places = payload_places(lines);
        let before = payload_places(t);
        let out = stream::payloads_in(lines);
        if name.is_prefix_of(lines.last()) {
            assert(name + lines.last().skip(name.len() as int) =~= lines.last());
        }
        assert forall|k: int|
            #![trigger places[k]]
            0 <= k < out.len() implies 0 <= places[k] < lines.len() && lines[places[k]] == name
            + out[k] by {
            if k < before.len() {
                assert(places[k] == before[k]);
                assert(t[before[k]] == lines[before[k]]);
                assert(out[k] == stream::payloads_in(t)[k]);
            }
        }
        assert forall|k: int, l: int| 0 <= k < l < places.len() implies places[k] < places[l] by {
            assert(places[k] == before[k]);
            if l < before.len() {
                assert(places[l] == before[l]);
            }
        }
        assert forall|i: int|
            0 <= i < lines.len() && name.is_prefix_of(#[trigger] lines[i]) implies places.contains(
            i,
        ) by {
            if i < t.len() {
                assert(t[i] == lines[i]);
                let k = choose|k: int| 0 <= k < before.len() && before[k] == i;
                assert(places[k] == i);
            } else {
                assert(places[before.len() as int] == i);
            }
        }
    }
}

/// The payloads of a whole reply are those of all its lines that have one, in
/// their order: each comes from a line that holds it behind the field's name, and
/// no such line is left out.
pub proof fn law_a_whole_reply_is_read(
    raw: &[u8],
    all: &str,
    lines: Vec<String>,
    r: Option<Vec<String>>,
)
    requires
        call_ensures(stream::completion_payloads, (raw,), r),
        all@ == text::lossy_text(raw@),
        call_ensures(text::lines, (all,), lines),
    ensures
        r is Some <==> raw@.len() > 0,
        r matches Some(out) ==> ({
            let places = payload_places(text::texts(lines@));
            &&& places.len() == out@.len()
            &&& forall|k: int|
                #![trigger places[k]]
                0 <= k < out@.len() ==> 0 <= places[k] < lines@.len() && lines@[places[k]]@
                    == "data: "@ + out@[k]@
            &&& forall|k: int, l: int| 0 <= k < l < places.len() ==> places[k] < places[l]
            &&& forall|i: int|
                0 <= i < lines@.len() && "data: "@.is_prefix_of((#[trigger] lines@[i])@)
                    ==> places.contains(i)
        }),
{
    if r is Some {
        let out = r.unwrap();
        let ls = text::texts(lines@);
        let places = payload_places(ls);
        lemma_payload_places(ls);
        let ps = text::texts(out@);
        assert forall|k: int|
            #![trigger places[k]]
            0 <= k < out@.len() implies 0 <= places[k] < lines@.len() && lines@[places[k]]@
            == "data: "@ + out@[k]@ by {
            assert(ps[k] == out@[k]@);
            assert(ls[places[k]] == lines@[places[k]]@);
        }
        assert forall|i: int|
            0 <= i < lines@.len() && "data: "@.is_prefix_of(
                (#[trigger] lines@[i])@,
            ) implies places.contains(i) by {
            assert(ls[i] == lines@[i]@);
        }
    }
}

/// A reply starts with no content and before its end.
pub proof fn law_completions_start(r: Completion)
    requires
        call_ensures(Completion::new, (), r),
    ensures
        r.content@.len() == 0,
        !r.done,
{
}

/// What a reply comes to: a payload adds its content behind what is there, until
/// one was the last; what says nothing changes nothing.
pub proof fn law_a_completion_adds_up(
    c: &mut Completion,
    payload: &str,
    chunk: Option<&OAIChunk>,
    r: Option<(String, Option<String>, bool)>,
)
    requires
        call_ensures(Completion::on_payload, (c, payload, chunk), ()),
        call_ensures(stream::oai_chunk_to_content, (payload, chunk), r),
    ensures
        old(c).done || r is None ==> final(c).content@ == old(c).content@
            && final(c).done == old(c).done,
        !old(c).done && r is Some ==> final(c).content@ == old(c).content@ + r.unwrap().0@
            && final(c).done == r.unwrap().2,
{
}

/// Whether a text is the timestamp of a reading of the clock.
pub open spec fn is_of_now(s: Seq<char>) -> bool {
    exists|now: (i64, u32)| #[trigger] clock::is_utc_reading(now) && s == clock::utc_text(now.0)
}

/// A line of a chat's reply says what the engine said, for the model asked for, as
/// the assistant; it gives a reason for the end exactly where it is the end.
pub proof fn law_chat_lines_say_it(
    model: &str,
    said: (String, Option<String>, bool),
    r: OllamaChatChunk,
)
    requires
        call_ensures(stream::chat_chunk, (model, said), r),
    ensures
        r.model@ == model@,
        is_of_now(r.created_at@),
        r.message.role@ == "assistant"@,
        r.message.content@ == said.0@,
        r.message.thinking == said.1,
        r.done == said.2,
        r.done_reason is Some <==> said.2,
        said.2 ==> r.done_reason.unwrap()@ == "stop"@,
{
}

/// A line of a prompt's reply says what the engine said.
pub proof fn law_prompt_lines_say_it(
    model: &str,
    said: (String, Option<String>, bool),
    r: OllamaGenerateChunk,
)
    requires
        call_ensures(stream::generate_chunk, (model, said), r),
    ensures
        r.model@ == model@,
        is_of_now(r.created_at@),
        r.response@ == said.0@,
        r.thinking == said.1,
        r.done == said.2,
        r.done_reason is Some <==> said.2,
        said.2 ==> r.done_reason.unwrap()@ == "stop"@,
{
}

/// A request that loads or unloads a model is answered with one line, the last,
/// that says which of the two it was and nothing else.
pub proof fn law_loading_lines(model: &str, unload: bool, r: OllamaGenerateChunk)
    requires
        call_ensures(stream::loading_chunk, (model, unload), r),
    ensures
        r.model@ == model@,
        is_of_now(r.created_at@),
        r.response@.len() == 0,
        r.thinking is None,
        r.done,
        r.done_reason is Some,
        unload ==> r.done_reason.unwrap()@ == "unload"@,
        !unload ==> r.done_reason.unwrap()@ == "load"@,
{
}

} // verus!
