//! What holds of the line editor over more than one byte.

use vstd::prelude::*;
use vstd::utf8::*;

use crate::cmd::readline::{Key, LineView, Outcome, Phase};
use crate::cmd::readline;
use crate::text;

verus! {

/// The state behind `keys`, and how they ended the input: those behind the one
/// that ended it are not taken.
pub open spec fn feed_all(l: LineView, keys: Seq<Key>) -> (LineView, Outcome)
    decreases keys.len(),
{
    if keys.len() == 0 {
        (l, Outcome::Pending)
    } else {
        let s = l.step(keys[0]);
        if s.outcome is Pending {
            feed_all(s.next, keys.drop_first())
        } else {
            (s.next, s.outcome)
        }
    }
}

/// Bytes typed one by one, none of them behind another in the buffer.
pub open spec fn typing(bytes: Seq<u8>) -> Seq<Key> {
    bytes.map_values(|b: u8| Key::Byte { byte: b, more: false })
}

/// A character that can be typed into a line.
pub open spec fn is_printable(c: char) -> bool {
    &&& c as u32 >= 32 || c == '\t'
    &&& c as u32 != 127
}

/// Neither in an escape sequence nor draining a paste.
pub open spec fn is_calm(l: LineView) -> bool {
    l.phase is Plain && !l.draining && !l.stop
}

proof fn lemma_feed_split(l: LineView, a: Seq<Key>, b: Seq<Key>)
    requires
        feed_all(l, a).1 is Pending,
    ensures
        feed_all(l, a + b) == feed_all(feed_all(l, a).0, b),
    decreases a.len(),
{
    if a.len() == 0 {
        assert(a + b =~= b);
    } else {
        assert((a + b)[0] == a[0]);
        assert((a + b).drop_first() =~= a.drop_first() + b);
        lemma_feed_split(l.step(a[0]).next, a.drop_first(), b);
    }
}

proof fn lemma_bytes_typed(l: LineView, bytes: Seq<u8>)
    requires
        is_calm(l),
        forall|i: int| 0 <= i < bytes.len() ==> readline::is_text(#[trigger] bytes[i]),
    ensures
        feed_all(l, typing(bytes)) == (
            (LineView { buf: l.buf + bytes, ..l }),
            Outcome::Pending,
        ),
    decreases bytes.len(),
{
    if bytes.len() == 0 {
        assert(l.buf + bytes =~= l.buf);
    } else {
        let keys = typing(bytes);
        assert(readline::is_text(bytes[0]));
        assert(keys[0] == Key::Byte { byte: bytes[0], more: false });
        let next = l.step(keys[0]).next;
        assert(next =~= (LineView { buf: l.buf.push(bytes[0]), ..l }));
        let rest = bytes.drop_first();
        assert(keys.drop_first() =~= typing(rest));
        lemma_bytes_typed(next, rest);
        assert(l.buf.push(bytes[0]) + rest =~= l.buf + bytes);
    }
}

proof fn lemma_char_is_text(c: char)
    requires
        is_printable(c),
    ensures
        forall|i: int|
            0 <= i < encode_scalar(c as u32).len() ==> readline::is_text(
                #[trigger] encode_scalar(c as u32)[i],
            ),
{
    char_is_scalar(c);
    text::lemma_scalar_bytes(c as u32);
    let e = encode_scalar(c as u32);
    assert forall|i: int| 0 <= i < e.len() implies readline::is_text(#[trigger] e[i]) by {
        if i > 0 {
            assert(is_continuation_byte(e[i]));
        }
    }
}

proof fn lemma_encode_push(s: Seq<char>, c: char)
    ensures
        encode_utf8(s.push(c)) == encode_utf8(s) + encode_scalar(c as u32),
    decreases s.len(),
{
    if s.len() == 0 {
        assert(s.push(c).drop_first() =~= s);
        assert(encode_utf8(s) =~= seq![]);
        assert(encode_scalar(c as u32) + encode_utf8(s) =~= encode_utf8(s) + encode_scalar(c as u32));
    } else {
        lemma_encode_push(s.drop_first(), c);
        assert(s.push(c).drop_first() =~= s.drop_first().push(c));
        assert(encode_utf8(s.push(c)) =~= encode_utf8(s) + encode_scalar(c as u32));
    }
}

proof fn lemma_text_typed(l: LineView, s: Seq<char>) -> (tail: Seq<char>)
    requires
        is_calm(l),
        l.buf.len() == 0,
        l.lines.len() == 0,
        forall|i: int| 0 <= i < s.len() ==> is_printable(#[trigger] s[i]) || s[i] == '\n',
    ensures
        ({
            let (end, outcome) = feed_all(l, typing(encode_utf8(s)));
            &&& outcome is Pending
            &&& end == (LineView { buf: encode_utf8(tail), lines: end.lines, ..l })
            &&& text::join_spec(end.lines.push(tail), seq!['\n']) == s
        }),
    decreases s.len(),
{
    if s.len() == 0 {
        assert(encode_utf8(s) =~= seq![]);
        assert(typing(encode_utf8(s)) =~= seq![]);
        assert(l.lines.push(s) =~= seq![s]);
        assert(l.buf =~= encode_utf8(s));
        s
    } else {
        let t = s.drop_last();
        let c = s.last();
        assert forall|i: int| 0 <= i < t.len() implies is_printable(#[trigger] t[i]) || t[i]
            == '\n' by {
            assert(s[i] == t[i]);
        }
        let tail = lemma_text_typed(l, t);
        let (mid, _) = feed_all(l, typing(encode_utf8(t)));
        assert(s =~= t.push(c));
        lemma_encode_push(t, c);
        let e = encode_scalar(c as u32);
        assert(typing(encode_utf8(s)) =~= typing(encode_utf8(t)) + typing(e));
        lemma_feed_split(l, typing(encode_utf8(t)), typing(e));
        if c == '\n' {
            char_is_scalar(c);
            text::lemma_scalar_bytes(c as u32);
            assert(e =~= seq![10u8]);
            assert(typing(e) =~= seq![Key::Byte { byte: 10, more: false }]);
            assert(typing(e).drop_first() =~= seq![]);
            text::lemma_lossy_encoded(tail);
            let empty = Seq::<char>::empty();
            let lines = mid.lines.push(tail);
            let next = mid.step(typing(e)[0]).next;
            assert(encode_utf8(empty) =~= seq![]);
            assert(next =~= (LineView { buf: encode_utf8(empty), lines: lines, ..l }));
            assert(feed_all(next, typing(e).drop_first()) == (next, Outcome::Pending));
            assert(lines.push(empty).drop_last() =~= lines);
            assert(t + seq!['\n'] + empty =~= s);
            empty
        } else {
            assert(is_printable(s[s.len() - 1]));
            lemma_char_is_text(c);
            lemma_bytes_typed(mid, e);
            let more = tail.push(c);
            lemma_encode_push(tail, c);
            let end = LineView { buf: mid.buf + e, ..mid };
            assert(mid.lines.push(more).drop_last() =~= mid.lines);
            assert(mid.lines.push(tail).drop_last() =~= mid.lines);
            if mid.lines.len() == 0 {
            } else {
                let head = text::join_spec(mid.lines, seq!['\n']) + seq!['\n'];
                assert(head + tail == t);
                assert(head + more =~= (head + tail).push(c));
            }
            more
        }
    }
}

/// A text of printable characters and line feeds, typed at a fresh prompt and
/// followed by Enter, is the line that comes back.
pub proof fn law_typed_text_comes_back(l: LineView, prompt: Seq<char>, s: Seq<char>, more: bool)
    requires
        forall|i: int| 0 <= i < s.len() ==> is_printable(#[trigger] s[i]) || s[i] == '\n',
    ensures
        feed_all(
            l.begun(prompt),
            typing(encode_utf8(s)).push(Key::Byte { byte: readline::CHAR_ENTER, more: more }),
        ).1 == Outcome::Line(s),
{
    let start = l.begun(prompt);
    let tail = lemma_text_typed(start, s);
    let enter = seq![Key::Byte { byte: readline::CHAR_ENTER, more: more }];
    let keys = typing(encode_utf8(s));
    assert(keys + enter =~= keys.push(Key::Byte { byte: readline::CHAR_ENTER, more: more }));
    lemma_feed_split(start, keys, enter);
    text::lemma_lossy_encoded(tail);
    assert(enter[0] == Key::Byte { byte: readline::CHAR_ENTER, more: more });
}

/// Bytes that were all there at once, with others behind them.
pub open spec fn pasted(bytes: Seq<u8>) -> Seq<Key> {
    bytes.map_values(|b: u8| Key::Byte { byte: b, more: true })
}

proof fn lemma_bytes_pasted(l: LineView, bytes: Seq<u8>)
    requires
        l.phase is Plain,
        forall|i: int| 0 <= i < bytes.len() ==> readline::is_text(#[trigger] bytes[i]),
    ensures
        ({
            let (end, outcome) = feed_all(l, pasted(bytes));
            &&& outcome is Pending
            &&& end.buf == l.buf + bytes && end.lines == l.lines
            &&& end.phase is Plain && end.pasting == l.pasting
        }),
    decreases bytes.len(),
{
    if bytes.len() == 0 {
        assert(l.buf + bytes =~= l.buf);
    } else {
        let keys = pasted(bytes);
        assert(readline::is_text(bytes[0]));
        assert(keys[0] == Key::Byte { byte: bytes[0], more: true });
        let next = l.step(keys[0]).next;
        assert(next.buf == l.buf.push(bytes[0]));
        let rest = bytes.drop_first();
        assert(keys.drop_first() =~= pasted(rest));
        lemma_bytes_pasted(next, rest);
        assert(l.buf.push(bytes[0]) + rest =~= l.buf + bytes);
    }
}

proof fn lemma_text_is_text(s: Seq<char>)
    requires
        forall|i: int| 0 <= i < s.len() ==> is_printable(#[trigger] s[i]),
    ensures
        forall|i: int|
            0 <= i < encode_utf8(s).len() ==> readline::is_text(#[trigger] encode_utf8(s)[i]),
    decreases s.len(),
{
    if s.len() > 0 {
        let t = s.drop_last();
        let c = s.last();
        assert forall|i: int| 0 <= i < t.len() implies is_printable(#[trigger] t[i]) by {
            assert(s[i] == t[i]);
        }
        lemma_text_is_text(t);
        assert(s =~= t.push(c));
        lemma_encode_push(t, c);
        assert(is_printable(s[s.len() - 1]));
        lemma_char_is_text(c);
        let a = encode_utf8(t);
        let e = encode_scalar(c as u32);
        assert forall|i: int| 0 <= i < encode_utf8(s).len() implies readline::is_text(
            #[trigger] encode_utf8(s)[i],
        ) by {
            if i < a.len() {
                assert(encode_utf8(s)[i] == a[i]);
            } else {
                assert(encode_utf8(s)[i] == e[i - a.len()]);
            }
        }
    } else {
        assert(encode_utf8(s) =~= seq![]);
    }
}

/// A line of printable characters out of a paste comes back at its line feed.
pub proof fn law_pasted_line_comes_back(l: LineView, prompt: Seq<char>, s: Seq<char>)
    requires
        forall|i: int| 0 <= i < s.len() ==> is_printable(#[trigger] s[i]),
    ensures
        feed_all(l.begun(prompt), pasted(encode_utf8(s).push(readline::CHAR_CTRL_J))).1
            == Outcome::Line(s),
{
    let start = l.begun(prompt);
    let bytes = encode_utf8(s);
    lemma_text_is_text(s);
    lemma_bytes_pasted(start, bytes);
    let end = feed_all(start, pasted(bytes)).0;
    let feed = seq![Key::Byte { byte: readline::CHAR_CTRL_J, more: true }];
    assert(pasted(bytes.push(readline::CHAR_CTRL_J)) =~= pasted(bytes) + feed);
    lemma_feed_split(start, pasted(bytes), feed);
    assert(start.buf + bytes =~= bytes);
    text::lemma_lossy_encoded(s);
    assert(feed[0] == Key::Byte { byte: readline::CHAR_CTRL_J, more: true });
    assert(end.lines.push(s) =~= seq![s]);
}

proof fn lemma_erase_encoded(buf: Seq<u8>, e: Seq<u8>)
    requires
        e.len() >= 1,
        !is_continuation_byte(e[0]),
        forall|i: int| 1 <= i < e.len() ==> is_continuation_byte(#[trigger] e[i]),
    ensures
        readline::erase_last(buf + e) == buf,
    decreases e.len(),
{
    let all = buf + e;
    assert(all.last() == e[e.len() - 1]);
    if e.len() == 1 {
        assert(all.drop_last() =~= buf);
    } else {
        assert(is_continuation_byte(e[e.len() - 1]));
        assert(all.drop_last() =~= buf + e.drop_last());
        assert forall|i: int| 1 <= i < e.drop_last().len() implies is_continuation_byte(
            #[trigger] e.drop_last()[i],
        ) by {
            assert(is_continuation_byte(e[i]));
        }
        lemma_erase_encoded(buf, e.drop_last());
    }
}

/// Backspace takes back the character that was typed before it, however many
/// bytes it has.
pub proof fn law_backspace_undoes_a_character(l: LineView, c: char)
    requires
        is_calm(l),
        is_printable(c),
    ensures
        feed_all(l, typing(encode_utf8(seq![c]) + seq![readline::CHAR_BACKSPACE])) == (
            l,
            Outcome::Pending,
        ),
{
    let e = encode_scalar(c as u32);
    assert(seq![c].drop_first() =~= seq![]);
    assert(encode_utf8(seq![c].drop_first()) =~= seq![]);
    assert(encode_utf8(seq![c]) =~= e);
    char_is_scalar(c);
    text::lemma_scalar_bytes(c as u32);
    lemma_char_is_text(c);
    lemma_bytes_typed(l, e);
    let bs = seq![readline::CHAR_BACKSPACE];
    assert(typing(e + bs) =~= typing(e) + typing(bs));
    lemma_feed_split(l, typing(e), typing(bs));
    let mid = LineView { buf: l.buf + e, ..l };
    lemma_erase_encoded(l.buf, e);
    assert(typing(bs)[0] == Key::Byte { byte: readline::CHAR_BACKSPACE, more: false });
    assert(typing(bs).drop_first() =~= seq![]);
    assert(mid.buf.len() > 0);
    assert(mid.step(typing(bs)[0]).next =~= l);
    assert(feed_all(mid, typing(bs)) == feed_all(l, typing(bs).drop_first()));
}

/// Backspace at the start of a continued line brings the line before it back.
pub proof fn law_backspace_undoes_a_line_feed(l: LineView)
    requires
        is_calm(l),
        valid_utf8(l.buf),
    ensures
        feed_all(l, typing(seq![readline::CHAR_CTRL_J, readline::CHAR_BACKSPACE])) == (
            l,
            Outcome::Pending,
        ),
{
    let keys = typing(seq![readline::CHAR_CTRL_J, readline::CHAR_BACKSPACE]);
    assert(keys[0] == Key::Byte { byte: readline::CHAR_CTRL_J, more: false });
    let mid = l.step(keys[0]).next;
    decode_utf8_encode_utf8(l.buf);
    assert(keys.drop_first() =~= seq![keys[1]]);
    assert(keys.drop_first().drop_first() =~= seq![]);
    assert(mid.lines.drop_last() =~= l.lines);
    assert(mid.step(keys[1]).next =~= l);
    assert(feed_all(mid, keys.drop_first()) == feed_all(l, keys.drop_first().drop_first()));
}

/// Outside of an escape sequence Enter always submits and Ctrl-C always
/// interrupts, whatever else is buffered.
pub proof fn law_enter_submits_and_ctrl_c_interrupts(l: LineView, more: bool)
    requires
        l.phase is Plain,
    ensures
        l.step(Key::Byte { byte: readline::CHAR_ENTER, more }).outcome == Outcome::Line(l.assembled()),
        l.step(Key::Byte { byte: readline::CHAR_INTERRUPT, more }).outcome is Interrupted,
{
}

/// A line feed with other bytes behind it ends the line like Enter; on its own,
/// outside of a paste, it continues the input.
pub proof fn law_line_feed(l: LineView)
    requires
        l.phase is Plain,
    ensures
        l.step(Key::Byte { byte: readline::CHAR_CTRL_J, more: true }).outcome == Outcome::Line(
            l.assembled(),
        ),
        !l.draining ==> l.step(Key::Byte { byte: readline::CHAR_CTRL_J, more: false }).outcome is Pending,
{
}

/// No byte of an escape sequence enters the text, is echoed or ends the input.
pub proof fn law_sequences_leave_the_text(l: LineView, byte: u8, more: bool)
    requires
        !(l.phase is Plain),
    ensures
        ({
            let s = l.step(Key::Byte { byte, more });
            s.next.buf == l.buf && s.next.lines == l.lines && s.echo.len() == 0 && s.outcome is Pending
        }),
{
}

/// The marks around a bracketed paste set and clear the flag, and leave the text
/// as it is.
pub proof fn law_paste_marks(l: LineView)
    requires
        is_calm(l),
    ensures
        feed_all(l, typing(seq![27u8, 91, 50, 48, 48, 126])) == (
            (LineView { pasting: true, ..l }),
            Outcome::Pending,
        ),
        feed_all(l, typing(seq![27u8, 91, 50, 48, 49, 126])) == (
            (LineView { pasting: false, ..l }),
            Outcome::Pending,
        ),
{
    reveal_with_fuel(feed_all, 7);
    let a = typing(seq![27u8, 91, 50, 48, 48, 126]);
    let b = typing(seq![27u8, 91, 50, 48, 49, 126]);
    assert(seq![48u8, 49, 126][1] != seq![48u8, 48, 126][1]);
    assert(a.drop_first().drop_first().drop_first().drop_first().drop_first().drop_first() =~= seq![]);
    assert(b.drop_first().drop_first().drop_first().drop_first().drop_first().drop_first() =~= seq![]);
    assert(feed_all(l, a).0 =~= (LineView { pasting: true, ..l }));
    assert(feed_all(l, b).0 =~= (LineView { pasting: false, ..l }));
}

} // verus!
