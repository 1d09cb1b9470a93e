//! Laws of the line editor, key by key.

use vstd::prelude::*;
use vstd::utf8::*;

use crate::cmd::readline;
use crate::cmd::readline::{Key, Phase, Readline, Step};
use crate::text;

verus! {

/// Whether a step goes on with the input.
pub open spec fn goes_on(s: Step) -> bool {
    s.done is None
}

/// Whether a step hands over a text.
pub open spec fn hands_over(s: Step, text: Seq<char>) -> bool {
    s.done is Some && s.done.unwrap() is Ok && s.done.unwrap()->Ok_0 is Some
        && s.done.unwrap()->Ok_0.unwrap()@ == text
}

/// Whether a byte that was read with or without others behind it is part of a burst:
/// others are behind it, or stood behind one of the bytes just before it.
pub open spec fn in_burst(draining: bool, stop: bool, more: bool) -> bool {
    more || (draining && !stop)
}

/// A new editor has nothing, and is outside of any paste.
pub proof fn law_editors_start(r: Readline)
    requires
        call_ensures(Readline::new, (), r),
    ensures
        !r@.pasting,
        r@.buf.len() == 0,
        r@.lines.len() == 0,
        r@.phase is Plain,
        !r@.draining,
{
}

/// An input starts with its prompt on the terminal and without any text; a paste
/// goes on across inputs.
pub proof fn law_inputs_start(l: &mut Readline, prompt: &str, echo: Vec<u8>)
    requires
        call_ensures(Readline::begin, (l, prompt), echo),
    ensures
        echo@ == encode_utf8(prompt@),
        final(l)@.prompt == prompt@,
        final(l)@.buf.len() == 0,
        final(l)@.lines.len() == 0,
        final(l)@.phase is Plain,
        !final(l)@.draining,
        final(l)@.pasting == old(l)@.pasting,
{
}

/// A byte of a text comes last in the line and is shown: everything from the space
/// on but the backspace, and the tab.
pub proof fn law_text_is_taken(l: &mut Readline, byte: u8, more: bool, r: Step)
    requires
        call_ensures(Readline::feed, (l, Key::Byte { byte, more }), r),
        l@.phase is Plain,
        (32 <= byte && byte != 127) || byte == 9,
    ensures
        goes_on(r),
        r.echo@ == seq![byte],
        final(l)@.buf == old(l)@.buf.push(byte),
        final(l)@.lines == old(l)@.lines,
        final(l)@.phase is Plain,
{
}

/// Enter hands over the whole input, in or out of a burst: its lines and the one
/// being edited, with a line feed between each two.
pub proof fn law_enter_hands_over(l: &mut Readline, more: bool, r: Step)
    requires
        call_ensures(Readline::feed, (l, Key::Byte { byte: 13, more }), r),
        l@.phase is Plain,
    ensures
        hands_over(
            r,
            text::join_spec(
                old(l)@.lines.push(text::lossy_text(old(l)@.buf)),
                seq!['\n'],
            ),
        ),
        r.echo@ == seq![10u8],
{
}

/// A line feed hands over the input within a burst, as Enter does; on its own it
/// goes on with a new line.
pub proof fn law_line_feeds(l: &mut Readline, more: bool, r: Step)
    requires
        call_ensures(Readline::feed, (l, Key::Byte { byte: 10, more }), r),
        l@.phase is Plain,
    ensures
        in_burst(old(l)@.draining, old(l)@.stop, more) ==> hands_over(
            r,
            text::join_spec(
                old(l)@.lines.push(text::lossy_text(old(l)@.buf)),
                seq!['\n'],
            ),
        ) && r.echo@ == seq![10u8],
        !in_burst(old(l)@.draining, old(l)@.stop, more) ==> goes_on(r)
            && final(l)@.lines == old(l)@.lines.push(text::lossy_text(old(l)@.buf))
            && final(l)@.buf.len() == 0 && r.echo@ == seq![10u8, 46u8, 32u8],
{
}

/// A burst lasts as long as there are bytes behind the one that is read, and for one
/// byte more.
pub proof fn law_bursts(l: &mut Readline, byte: u8, more: bool, r: Step)
    requires
        call_ensures(Readline::feed, (l, Key::Byte { byte, more }), r),
        l@.phase is Plain,
    ensures
        final(l)@.draining == in_burst(old(l)@.draining, old(l)@.stop, more),
        final(l)@.stop == (!more && old(l)@.draining && !old(l)@.stop),
        final(l)@.pasting == old(l)@.pasting,
        final(l)@.prompt == old(l)@.prompt,
{
}

/// An interrupt gives the input up, whatever it holds.
pub proof fn law_interrupts(l: &mut Readline, more: bool, r: Step)
    requires
        call_ensures(Readline::feed, (l, Key::Byte { byte: 3, more }), r),
        l@.phase is Plain,
    ensures
        r.done is Some,
        r.done.unwrap() is Err,
        r.echo@ == seq![10u8],
{
}

/// The end of input counts only where nothing was typed.
pub proof fn law_ends_of_input(l: &mut Readline, more: bool, r: Step)
    requires
        call_ensures(Readline::feed, (l, Key::Byte { byte: 4, more }), r),
        l@.phase is Plain,
    ensures
        old(l)@.buf.len() == 0 && old(l)@.lines.len() == 0 ==> r.done is Some
            && r.done.unwrap() is Ok && r.done.unwrap()->Ok_0 is None && r.echo@ == seq![10u8],
        old(l)@.buf.len() > 0 || old(l)@.lines.len() > 0 ==> goes_on(r) && r.echo@.len() == 0,
        final(l)@.buf == old(l)@.buf,
        final(l)@.lines == old(l)@.lines,
{
}

/// Whether bytes are those of one character at most: one byte, and continuation
/// bytes behind it.
pub open spec fn is_one_character(s: Seq<u8>) -> bool {
    s.len() > 0 && forall|i: int| 1 <= i < s.len() ==> is_continuation_byte(#[trigger] s[i])
}

proof fn lemma_erased(kept: Seq<u8>, gone: Seq<u8>)
    requires
        is_one_character(gone),
        !is_continuation_byte(gone[0]),
    ensures
        readline::erase_last(kept + gone) == kept,
    decreases gone.len(),
{
    let all = kept + gone;
    if gone.len() == 1 {
        assert(all.drop_last() =~= kept);
    } else {
        assert(is_continuation_byte(gone[gone.len() - 1]));
        let g = gone.drop_last();
        assert forall|i: int| 1 <= i < g.len() implies is_continuation_byte(#[trigger] g[i]) by {
            assert(g[i] == gone[i]);
        }
        assert(all.drop_last() =~= kept + g);
        lemma_erased(kept, g);
    }
}

/// Backspace takes the last character of the line, all of its bytes and no others.
pub proof fn law_backspace_takes_a_character(
    l: &mut Readline,
    more: bool,
    kept: Seq<u8>,
    gone: Seq<u8>,
    r: Step,
)
    requires
        call_ensures(Readline::feed, (l, Key::Byte { byte: 127, more }), r),
        l@.phase is Plain,
        l@.buf == kept + gone,
        is_one_character(gone),
        !is_continuation_byte(gone[0]),
    ensures
        goes_on(r),
        final(l)@.buf == kept,
        final(l)@.lines == old(l)@.lines,
        r.echo@ == seq![8u8, 32u8, 8u8],
{
    lemma_erased(kept, gone);
}

/// At the start of a line backspace goes back to the end of the line before it,
/// which is shown again behind the prompt; where there is none it does nothing.
pub proof fn law_backspace_goes_back_a_line(l: &mut Readline, more: bool, r: Step)
    requires
        call_ensures(Readline::feed, (l, Key::Byte { byte: 127, more }), r),
        l@.phase is Plain,
        l@.buf.len() == 0,
    ensures
        goes_on(r),
        old(l)@.lines.len() > 0 ==> final(l)@.buf == encode_utf8(old(l)@.lines.last())
            && final(l)@.lines == old(l)@.lines.drop_last() && r.echo@ == encode_utf8(
            "\r\x1b[K\x1b[A\r\x1b[K"@,
        ) + encode_utf8(old(l)@.prompt) + encode_utf8(old(l)@.lines.last()),
        old(l)@.lines.len() == 0 ==> final(l)@.buf.len() == 0 && final(l)@.lines.len() == 0
            && r.echo@.len() == 0,
{
}

/// All other control characters do nothing; an escape starts a sequence.
pub proof fn law_other_control_characters(l: &mut Readline, byte: u8, more: bool, r: Step)
    requires
        call_ensures(Readline::feed, (l, Key::Byte { byte, more }), r),
        l@.phase is Plain,
        byte < 32,
        byte != 3 && byte != 4 && byte != 9 && byte != 10 && byte != 13,
    ensures
        goes_on(r),
        r.echo@.len() == 0,
        final(l)@.buf == old(l)@.buf,
        final(l)@.lines == old(l)@.lines,
        byte == 27 <==> final(l)@.phase is Escape,
        byte != 27 <==> final(l)@.phase is Plain,
{
}

/// No byte of a sequence comes into the text, is shown or ends the input; a sequence
/// ends where it is to: behind an escape that no bracket follows, behind the one byte
/// of a key, and behind the three bytes of a mark.
pub proof fn law_sequences(l: &mut Readline, byte: u8, more: bool, r: Step)
    requires
        call_ensures(Readline::feed, (l, Key::Byte { byte, more }), r),
        !(l@.phase is Plain),
    ensures
        goes_on(r),
        r.echo@.len() == 0,
        final(l)@.buf == old(l)@.buf,
        final(l)@.lines == old(l)@.lines,
        old(l)@.phase is Escape ==> (byte == 91 <==> final(l)@.phase is Bracket),
        old(l)@.phase is Escape ==> (byte != 91 <==> final(l)@.phase is Plain),
        old(l)@.phase is Bracket ==> (byte == 50 <==> final(l)@.phase is Code0),
        old(l)@.phase is Bracket ==> (byte == 51 || byte == 53 || byte == 54
            <==> final(l)@.phase is Tilde),
        old(l)@.phase is Bracket && byte != 50 && byte != 51 && byte != 53 && byte != 54
            ==> final(l)@.phase is Plain,
        old(l)@.phase is Code0 ==> final(l)@.phase == Phase::Code1(byte),
        old(l)@.phase is Code1 ==> final(l)@.phase == Phase::Code2(
            old(l)@.phase->Code1_0,
            byte,
        ),
        old(l)@.phase is Code2 || old(l)@.phase is Tilde ==> final(l)@.phase is Plain,
{
}

/// A burst goes on through a sequence: behind an escape and a bracket it lasts as
/// elsewhere, and of the bytes behind them the last of a mark can start one.
pub proof fn law_bursts_through_sequences(l: &mut Readline, byte: u8, more: bool, r: Step)
    requires
        call_ensures(Readline::feed, (l, Key::Byte { byte, more }), r),
        !(l@.phase is Plain),
    ensures
        old(l)@.phase is Escape || old(l)@.phase is Bracket ==> final(l)@.draining == in_burst(
            old(l)@.draining,
            old(l)@.stop,
            more,
        ) && final(l)@.stop == (!more && old(l)@.draining && !old(l)@.stop),
        old(l)@.phase is Code2 ==> final(l)@.draining == (old(l)@.draining || more),
        old(l)@.phase is Code0 || old(l)@.phase is Code1 || old(l)@.phase is Tilde
            ==> final(l)@.draining == old(l)@.draining,
        !(old(l)@.phase is Escape || old(l)@.phase is Bracket) ==> final(l)@.stop == old(l)@.stop,
        final(l)@.prompt == old(l)@.prompt,
{
}

/// The marks around a paste, and they alone, start and end it.
pub proof fn law_marks_of_pastes(l: &mut Readline, byte: u8, more: bool, r: Step)
    requires
        call_ensures(Readline::feed, (l, Key::Byte { byte, more }), r),
    ensures
        old(l)@.phase == Phase::Code2(48u8, 48u8) && byte == 126 ==> final(l)@.pasting,
        old(l)@.phase == Phase::Code2(48u8, 49u8) && byte == 126 ==> !final(l)@.pasting,
        !(old(l)@.phase == Phase::Code2(48u8, 48u8) && byte == 126) && !(old(l)@.phase
            == Phase::Code2(48u8, 49u8) && byte == 126) ==> final(l)@.pasting == old(l)@.pasting,
{
    if old(l)@.phase is Code2 {
        let a = old(l)@.phase->Code2_0;
        let b = old(l)@.phase->Code2_1;
        let code = seq![a, b, byte];
        let start = seq![48u8, 48u8, 126u8];
        let end = seq![48u8, 49u8, 126u8];
        if code == start {
            assert(code[0] == start[0] && code[1] == start[1] && code[2] == start[2]);
        }
        if code == end {
            assert(code[0] == end[0] && code[1] == end[1] && code[2] == end[2]);
        }
    }
}

/// A terminal that is gone ends the input, but for the last bytes of a sequence.
pub proof fn law_terminals_that_are_gone(l: &mut Readline, r: Step)
    requires
        call_ensures(Readline::feed, (l, Key::Closed), r),
    ensures
        old(l)@.phase is Plain || old(l)@.phase is Escape || old(l)@.phase is Bracket
            ==> r.done is Some && r.done.unwrap() is Ok && r.done.unwrap()->Ok_0 is None,
        !(old(l)@.phase is Plain || old(l)@.phase is Escape || old(l)@.phase is Bracket)
            ==> goes_on(r),
        r.echo@.len() == 0,
        final(l)@.buf == old(l)@.buf,
        final(l)@.lines == old(l)@.lines,
{
}

/// The editor tells whether it is in a paste.
pub proof fn law_pastes_are_told(l: &Readline, r: bool)
    requires
        call_ensures(Readline::pasting, (l,), r),
    ensures
        r == l@.pasting,
{
}

} // verus!
