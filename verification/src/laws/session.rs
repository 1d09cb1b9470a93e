//! Laws of a session at the terminal.

use vstd::prelude::*;

use crate::cmd::readline::ReadlineError;
use crate::cmd::run;
use crate::cmd::run::{
    ChatChunk, ChatOptions, ChatOut, ChatReply, ChatReq, Msg, Repl, ReplAction, RunArgs, RunMode,
};
use crate::laws::lines;
use crate::text;

verus! {

/// What every request carries along is what the command line says.
pub proof fn law_options_are_carried_along(args: &RunArgs, r: ChatOptions)
    requires
        call_ensures(RunArgs::options, (args,), r),
    ensures
        r.think == args.think,
        r.num_predict == args.num_predict,
{
}

/// Words on the command line are one prompt, with a space between each two; without
/// any, a terminal gets the interactive prompt and nothing else does.
pub proof fn law_how_a_session_goes(
    args: &RunArgs,
    is_terminal: bool,
    sep: &str,
    joined: String,
    r: RunMode,
)
    requires
        call_ensures(RunArgs::mode, (args, is_terminal), r),
        sep@ == " "@,
        call_ensures(text::join, (&args.prompt, sep), joined),
    ensures
        r is OneShot <==> joined@.len() > 0,
        r is OneShot ==> r->OneShot_0@ == joined@,
        r is Interactive <==> joined@.len() == 0 && is_terminal,
{
}

/// The prompt in a line of input is the line without the white space at its ends; a
/// blank line holds none.
pub proof fn law_prompts_in_input(line: &str, trimmed: String, r: Option<String>)
    requires
        call_ensures(run::prompt_from_input, (line,), r),
        call_ensures(text::trim, (line,), trimmed),
    ensures
        r is Some <==> trimmed@.len() > 0,
        r is Some ==> r.unwrap()@ == trimmed@,
{
}

/// A session starts with nothing open.
pub proof fn law_sessions_start(r: Repl)
    requires
        call_ensures(Repl::new, (), r),
    ensures
        r@.multiline is None,
        r@.paste.len() == 0,
{
}

/// The prompt says whether something is open: a block or a paste.
pub proof fn law_prompts_say_what_is_open(repl: &Repl, r: &'static str)
    requires
        call_ensures(Repl::prompt, (repl,), r),
    ensures
        repl@.multiline is Some || repl@.paste.len() > 0 ==> r@ == ". "@,
        repl@.multiline is None && repl@.paste.len() == 0 ==> r@ == "> "@,
{
}

/// A line of a paste is kept as it is and does nothing, whatever it says.
pub proof fn law_pasted_lines_are_kept(repl: &mut Repl, line: String, r: ReplAction)
    requires
        call_ensures(
            Repl::on_read,
            (repl, Ok::<Option<String>, ReadlineError>(Some(line)), true),
            r,
        ),
    ensures
        r is Continue,
        final(repl)@.multiline == old(repl)@.multiline,
        final(repl)@.paste == old(repl)@.paste + line@ + "\n"@,
{
}

/// The line behind a paste is read as one with it, as if the whole had been typed.
pub proof fn law_pastes_are_read_as_one(
    repl: &mut Repl,
    typed: &mut Repl,
    line: String,
    whole: String,
    r: ReplAction,
    s: ReplAction,
)
    requires
        call_ensures(
            Repl::on_read,
            (repl, Ok::<Option<String>, ReadlineError>(Some(line)), false),
            r,
        ),
        call_ensures(
            Repl::on_read,
            (typed, Ok::<Option<String>, ReadlineError>(Some(whole)), false),
            s,
        ),
        typed@.multiline == repl@.multiline,
        typed@.paste.len() == 0,
        whole@ == repl@.paste + line@,
    ensures
        r.does() == s.does(),
        final(repl)@ == final(typed)@,
        final(repl)@.paste.len() == 0,
{
    assert(typed@.paste + whole@ =~= whole@);
}

/// Outside of a block a line is a command by the word that it is, whatever white
/// space stands around it: a blank one does nothing, and a word that begins with a
/// slash and is none of the commands asks for help.
pub proof fn law_commands(
    repl: &mut Repl,
    line: String,
    typed: &str,
    word: String,
    r: ReplAction,
)
    requires
        call_ensures(
            Repl::on_read,
            (repl, Ok::<Option<String>, ReadlineError>(Some(line)), false),
            r,
        ),
        repl@.multiline is None,
        repl@.paste.len() == 0,
        typed@ == line@,
        call_ensures(text::trim, (typed,), word),
    ensures
        word@.len() == 0 ==> r is Continue,
        word@ == "/bye"@ || word@ == "/exit"@ ==> r is Quit,
        word@ == "/clear"@ ==> r is Clear,
        word@.len() > 0 && word@[0] == '/' && word@ != "/bye"@ && word@ != "/exit"@ && word@
            != "/clear"@ ==> r is Help,
        word@.len() == 0 || word@[0] == '/' ==> final(repl)@.multiline is None,
        final(repl)@.paste.len() == 0,
{
    reveal_strlit("/bye");
    reveal_strlit("/exit");
    reveal_strlit("/clear");
    assert(repl@.paste + line@ =~= line@);
    assert("/clear"@.len() != "/bye"@.len() && "/clear"@.len() != "/exit"@.len());
}

/// Any other line that does not open a block is sent, character for character.
pub proof fn law_other_lines_are_sent(
    repl: &mut Repl,
    line: String,
    typed: &str,
    word: String,
    start: String,
    r: ReplAction,
)
    requires
        call_ensures(
            Repl::on_read,
            (repl, Ok::<Option<String>, ReadlineError>(Some(line)), false),
            r,
        ),
        repl@.multiline is None,
        repl@.paste.len() == 0,
        typed@ == line@,
        call_ensures(text::trim, (typed,), word),
        call_ensures(text::trim_start, (typed,), start),
        word@.len() > 0,
        word@[0] != '/',
        !("\"\"\""@).is_prefix_of(start@),
    ensures
        r is Submit,
        r->Submit_0@ == line@,
        final(repl)@.multiline is None,
{
    reveal_strlit("/bye");
    reveal_strlit("/exit");
    reveal_strlit("/clear");
    assert(repl@.paste + line@ =~= line@);
    assert(word@ != "/bye"@ && word@ != "/exit"@ && word@ != "/clear"@);
}

/// A line that begins with quotes opens a block with what stands behind them,
/// unless it ends with quotes as well: then what stands between them is sent, where
/// it is not blank.
pub proof fn law_quotes_open_a_block(
    repl: &mut Repl,
    line: String,
    typed: &str,
    word: String,
    start: String,
    from: &str,
    quotes: &str,
    inner: String,
    r: ReplAction,
)
    requires
        call_ensures(
            Repl::on_read,
            (repl, Ok::<Option<String>, ReadlineError>(Some(line)), false),
            r,
        ),
        repl@.multiline is None,
        repl@.paste.len() == 0,
        typed@ == line@,
        call_ensures(text::trim, (typed,), word),
        call_ensures(text::trim_start, (typed,), start),
        word@.len() > 0,
        word@[0] != '/',
        quotes@ == "\"\"\""@,
        quotes@.is_prefix_of(start@),
        from@ == start@,
        call_ensures(text::trim_start_matches, (from, quotes), inner),
    ensures
        !quotes@.is_suffix_of(inner@) ==> r is Continue && final(repl)@.multiline == Some(
            inner@ + "\n"@,
        ),
        forall|s: Seq<char>|
            inner@ == #[trigger] (s + quotes@) ==> final(repl)@.multiline is None && (
            text::trim_spec(s).len() > 0 ==> r is Submit && r->Submit_0@ == s) && (
            text::trim_spec(s).len() == 0 ==> r is Continue),
{
    reveal_strlit("/bye");
    reveal_strlit("/exit");
    reveal_strlit("/clear");
    assert(repl@.paste + line@ =~= line@);
    assert(word@ != "/bye"@ && word@ != "/exit"@ && word@ != "/clear"@);
    assert forall|s: Seq<char>| inner@ == #[trigger] (s + quotes@) implies final(repl)@.multiline is None
        && (text::trim_spec(s).len() > 0 ==> r is Submit && r->Submit_0@ == s) && (text::trim_spec(s).len() == 0 ==> r is Continue) by {
        assert(inner@.subrange(inner@.len() - quotes@.len(), inner@.len() as int) =~= quotes@);
        assert(inner@.take(inner@.len() - quotes@.len()) =~= s);
    }
}

/// Within a block a line is taken as it is, whatever it says, until one ends with
/// quotes: then the block is sent without the line feeds at its end, where it is not
/// blank.
pub proof fn law_blocks_go_on(
    repl: &mut Repl,
    line: String,
    block: Seq<char>,
    r: ReplAction,
)
    requires
        call_ensures(
            Repl::on_read,
            (repl, Ok::<Option<String>, ReadlineError>(Some(line)), false),
            r,
        ),
        repl@.multiline == Some(block),
        repl@.paste.len() == 0,
    ensures
        !("\"\"\""@).is_suffix_of(line@) ==> r is Continue && final(repl)@.multiline == Some(
            block + line@ + "\n"@,
        ),
        forall|s: Seq<char>, t: Seq<char>|
            line@ == #[trigger] (s + "\"\"\""@) && #[trigger] lines::is_without_end(
                t,
                block + s,
                '\n',
            ) ==> final(repl)@.multiline is None && (text::trim_spec(t).len() > 0
                ==> r is Submit && r->Submit_0@ == t) && (text::trim_spec(t).len() == 0
                ==> r is Continue),
{
    let quotes = "\"\"\""@;
    assert(repl@.paste + line@ =~= line@);
    assert forall|s: Seq<char>, t: Seq<char>|
        line@ == #[trigger] (s + quotes) && #[trigger] lines::is_without_end(
            t,
            block + s,
            '\n',
        ) implies final(repl)@.multiline is None && (text::trim_spec(t).len() > 0
        ==> r is Submit && r->Submit_0@ == t) && (text::trim_spec(t).len() == 0
        ==> r is Continue) by {
        assert(line@.subrange(line@.len() - quotes.len(), line@.len() as int) =~= quotes);
        assert(line@.take(line@.len() - quotes.len()) =~= s);
        let u = text::trim_end_char_spec(block + s, '\n');
        lines::lemma_without_end(block + s, '\n');
        if t.len() < u.len() {
            assert((block + s)[u.len() - 1] == '\n');
            assert(u.last() == (block + s)[u.len() - 1]);
        }
        if u.len() < t.len() {
            assert((block + s)[t.len() - 1] == '\n');
            assert(t.last() == (block + s)[t.len() - 1]);
        }
        assert(t =~= u);
    }
}

/// The end of input ends a session; an interrupt drops what is open and ends
/// nothing.
pub proof fn law_ends_and_interrupts(
    ended: &mut Repl,
    interrupted: &mut Repl,
    r: ReplAction,
    s: ReplAction,
)
    requires
        call_ensures(
            Repl::on_read,
            (ended, Ok::<Option<String>, ReadlineError>(None), false),
            r,
        ) || call_ensures(
            Repl::on_read,
            (ended, Ok::<Option<String>, ReadlineError>(None), true),
            r,
        ),
        call_ensures(
            Repl::on_read,
            (
                interrupted,
                Err::<Option<String>, ReadlineError>(ReadlineError::Interrupted),
                false,
            ),
            s,
        ),
    ensures
        r is Quit,
        s is Continue,
        final(interrupted)@.multiline is None,
        final(interrupted)@.paste.len() == 0,
{
}

/// Where the terminal does the editing, a line is a command by the word that it is,
/// and is otherwise sent as it is, without its line end; the end of input ends the
/// session.
pub proof fn law_cooked_lines(
    line: Option<&str>,
    feedless: String,
    middle: &str,
    bare: String,
    typed: &str,
    word: String,
    r: ReplAction,
)
    requires
        call_ensures(run::on_cooked_line, (line,), r),
        line is Some ==> call_ensures(text::trim_end_char, (line.unwrap(), '\n'), feedless),
        middle@ == feedless@,
        call_ensures(text::trim_end_char, (middle, '\r'), bare),
        typed@ == bare@,
        call_ensures(text::trim, (typed,), word),
    ensures
        line is None ==> r is Quit,
        line is Some && word@.len() == 0 ==> r is Continue,
        line is Some && (word@ == "/bye"@ || word@ == "/exit"@) ==> r is Quit,
        line is Some && word@ == "/clear"@ ==> r is Clear,
        line is Some && word@.len() > 0 && word@ != "/bye"@ && word@ != "/exit"@ && word@
            != "/clear"@ ==> r is Submit && r->Submit_0@ == bare@,
{
    reveal_strlit("/bye");
    reveal_strlit("/exit");
    reveal_strlit("/clear");
    assert("/clear"@.len() != "/bye"@.len() && "/clear"@.len() != "/exit"@.len());
}

/// A turn of the user comes last in a conversation, as it is; what was said before
/// stays.
pub proof fn law_turns_are_added(messages: &mut Vec<Msg>, content: String)
    requires
        call_ensures(run::begin_turn, (messages, content), ()),
    ensures
        final(messages)@.len() == old(messages)@.len() + 1,
        forall|i: int|
            0 <= i < old(messages)@.len() ==> #[trigger] final(messages)@[i] == old(messages)@[i],
        final(messages)@.last().role@ == "user"@,
        final(messages)@.last().content@ == content@,
        final(messages)@.last().thinking is None,
{
    assert forall|i: int| 0 <= i < old(messages)@.len() implies #[trigger] final(messages)@[i]
        == old(messages)@[i] by {
        assert(final(messages)@.drop_last()[i] == final(messages)@[i]);
    }
}

/// A conversation is sent whole, streamed, and with a limit exactly where one was
/// asked for.
pub proof fn law_conversations_are_sent(
    model: &str,
    messages: &Vec<Msg>,
    opts: ChatOptions,
    r: ChatReq,
)
    requires
        call_ensures(run::chat_request, (model, messages, opts), r),
    ensures
        r.model@ == model@,
        r.messages@ == messages@,
        r.stream,
        r.think == opts.think,
        r.options is Some <==> opts.num_predict is Some,
        r.options is Some ==> r.options.unwrap().num_predict == opts.num_predict,
{
}

/// The answer in a chunk.
pub open spec fn answer(c: ChatChunk) -> Seq<char> {
    if c.message is Some {
        c.message.unwrap().content@
    } else {
        seq![]
    }
}

/// The thinking in a chunk.
pub open spec fn thought(c: ChatChunk) -> Seq<char> {
    if c.message is Some && c.message.unwrap().thinking is Some {
        c.message.unwrap().thinking.unwrap()@
    } else {
        seq![]
    }
}

/// The answer in a chunk is shown and kept, character for character, behind what
/// came before; a reply is complete exactly where a chunk says so.
pub proof fn law_answers_are_shown_and_kept(
    reply: &mut ChatReply,
    chunk: ChatChunk,
    r: ChatOut,
)
    requires
        call_ensures(ChatReply::on_line, (reply, Some(&chunk)), r),
    ensures
        r.out@ == answer(chunk),
        final(reply).full@ == old(reply).full@ + answer(chunk),
        r.stop == chunk.done,
{
    assert(answer(chunk) =~= chunk.content());
}

/// The thinking in a chunk is shown, character for character, apart from the
/// answer: under a heading exactly where it starts, and closed with a line feed
/// exactly where the answer starts behind it.
pub proof fn law_thinking_is_shown_apart(reply: &mut ChatReply, chunk: ChatChunk, r: ChatOut)
    requires
        call_ensures(ChatReply::on_line, (reply, Some(&chunk)), r),
    ensures
        ({
            let open = old(reply).thinking_open;
            let t = thought(chunk);
            let answered = answer(chunk).len() > 0;
            &&& t.len() == 0 && (!open || !answered) ==> r.err@.len() == 0
            &&& t.len() == 0 && open && answered ==> r.err@ == "\n"@
            &&& t.len() > 0 && open && !answered ==> r.err@ == t
            &&& t.len() > 0 && open && answered ==> r.err@ == t + "\n"@
            &&& t.len() > 0 && !open && !answered ==> r.err@ == "Thinking: "@ + t
            &&& t.len() > 0 && !open && answered ==> r.err@ == "Thinking: "@ + t + "\n"@
            &&& answered ==> !final(reply).thinking_open
            &&& !answered ==> final(reply).thinking_open == (open || t.len() > 0)
        }),
{
    assert(answer(chunk) =~= chunk.content());
    assert(thought(chunk) =~= chunk.thinking());
    let open = old(reply).thinking_open;
    let t = thought(chunk);
    let answered = answer(chunk).len() > 0;
    assert(Seq::<char>::empty() + t =~= t);
    assert(("Thinking: "@ + t) + Seq::<char>::empty() =~= "Thinking: "@ + t);
    assert(t + Seq::<char>::empty() =~= t);
    if t.len() == 0 {
        assert(t + "\n"@ =~= "\n"@);
    }
}

/// A line that is no chunk shows nothing and changes nothing; a reply starts empty.
pub proof fn law_other_lines_show_nothing(reply: &mut ChatReply, r: ChatOut, fresh: ChatReply)
    requires
        call_ensures(ChatReply::on_line, (reply, None::<&ChatChunk>), r),
        call_ensures(ChatReply::new, (), fresh),
    ensures
        r.out@.len() == 0,
        r.err@.len() == 0,
        !r.stop,
        *final(reply) == *old(reply),
        fresh.full@.len() == 0,
        !fresh.thinking_open,
{
}

/// A complete reply comes last in a conversation, with the answer and without the
/// thinking; what was said before stays.
pub proof fn law_replies_are_added(reply: ChatReply, messages: &mut Vec<Msg>)
    requires
        call_ensures(ChatReply::finish, (reply, messages), ()),
    ensures
        final(messages)@.len() == old(messages)@.len() + 1,
        forall|i: int|
            0 <= i < old(messages)@.len() ==> #[trigger] final(messages)@[i] == old(messages)@[i],
        final(messages)@.last().role@ == "assistant"@,
        final(messages)@.last().content@ == reply.full@,
        final(messages)@.last().thinking is None,
{
    assert forall|i: int| 0 <= i < old(messages)@.len() implies #[trigger] final(messages)@[i]
        == old(messages)@[i] by {
        assert(final(messages)@.drop_last()[i] == final(messages)@[i]);
    }
}

} // verus!
