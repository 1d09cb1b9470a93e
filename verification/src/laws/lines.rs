//! Laws of cutting into lines.

use vstd::prelude::*;

use crate::cmd::serve::stream;
use crate::cmd::serve::stream::LineBuffer;
use crate::text;

verus! {

/// Lines of bytes one behind the other, each with a line feed behind it.
pub open spec fn with_feeds(lines: Seq<Seq<u8>>) -> Seq<u8>
    decreases lines.len(),
{
    if lines.len() == 0 {
        Seq::empty()
    } else {
        lines[0] + seq![10u8] + with_feeds(lines.drop_first())
    }
}

/// Whether bytes are these lines, each with a line feed behind it, and then what is
/// left open.
pub open spec fn is_cut(bytes: Seq<u8>, lines: Seq<Seq<u8>>, open: Seq<u8>) -> bool {
    &&& bytes == with_feeds(lines) + open
    &&& forall|i: int, j: int|
        0 <= i < lines.len() && 0 <= j < lines[i].len() ==> #[trigger] lines[i][j] != 10
    &&& forall|j: int| 0 <= j < open.len() ==> open[j] != 10
}

/// Whether a text is another without all the characters of one kind at its end.
pub open spec fn is_without_end(t: Seq<char>, whole: Seq<char>, c: char) -> bool {
    &&& t.len() <= whole.len()
    &&& t == whole.take(t.len() as int)
    &&& forall|i: int| t.len() <= i < whole.len() ==> whole[i] == c
    &&& t.len() > 0 ==> t.last() != c
}

pub proof fn lemma_without_end(s: Seq<char>, c: char)
    ensures
        is_without_end(text::trim_end_char_spec(s, c), s, c),
    decreases s.len(),
{
    let t = text::trim_end_char_spec(s, c);
    if s.len() > 0 && s.last() == c {
        lemma_without_end(s.drop_last(), c);
        assert(t =~= s.take(t.len() as int));
        assert forall|i: int| t.len() <= i < s.len() implies s[i] == c by {
            if i < s.len() - 1 {
                assert(s.drop_last()[i] == c);
            }
        }
    } else {
        assert(s.take(s.len() as int) =~= s);
    }
}

proof fn lemma_feed(bytes: Seq<u8>, n: int)
    requires
        0 <= n <= bytes.len(),
        forall|j: int| 0 <= j < n ==> bytes[j] != 10,
        n < bytes.len() ==> bytes[n] == 10,
    ensures
        stream::feed_at(bytes) == n,
    decreases n,
{
    if n > 0 {
        assert(bytes[0] != 10);
        lemma_feed(bytes.drop_first(), n - 1);
    }
}

proof fn lemma_cut(bytes: Seq<u8>, lines: Seq<Seq<u8>>, open: Seq<u8>)
    requires
        is_cut(bytes, lines, open),
    ensures
        stream::complete_lines(bytes).len() == lines.len(),
        forall|i: int|
            0 <= i < lines.len() ==> is_without_end(
                #[trigger] stream::complete_lines(bytes)[i],
                text::lossy_text(lines[i]),
                '\r',
            ),
        stream::open_line(bytes) == open,
    decreases lines.len(),
{
    if lines.len() == 0 {
        assert(bytes =~= open);
        lemma_feed(bytes, bytes.len() as int);
    } else {
        let n = lines[0].len() as int;
        let rest = lines.drop_first();
        assert forall|j: int| 0 <= j < n implies bytes[j] != 10 by {
            assert(bytes[j] == lines[0][j]);
        }
        assert(bytes[n] == 10);
        lemma_feed(bytes, n);
        assert(bytes.take(n) =~= lines[0]);
        assert(bytes.skip(n + 1) =~= with_feeds(rest) + open);
        assert forall|i: int, j: int|
            0 <= i < rest.len() && 0 <= j < rest[i].len() implies #[trigger] rest[i][j] != 10 by {
            assert(rest[i] == lines[i + 1]);
            assert(lines[i + 1][j] != 10);
        }
        lemma_cut(bytes.skip(n + 1), rest, open);
        lemma_without_end(text::lossy_text(lines[0]), '\r');
        let out = stream::complete_lines(bytes);
        assert forall|i: int| 0 <= i < lines.len() implies is_without_end(
            #[trigger] out[i],
            text::lossy_text(lines[i]),
            '\r',
        ) by {
            if i > 0 {
                assert(out[i] == stream::complete_lines(bytes.skip(n + 1))[i - 1]);
                assert(rest[i - 1] == lines[i]);
            }
        }
    }
}

proof fn lemma_bytes_of_pieces(pieces: Seq<Vec<u8>>)
    ensures
        stream::stream_bytes(pieces) == pieces.map_values(|p: Vec<u8>| p@).flatten(),
    decreases pieces.len(),
{
    let f = |p: Vec<u8>| p@;
    let parts = pieces.map_values(f);
    parts.lemma_flatten_and_flatten_alt_are_equivalent();
    if pieces.len() > 0 {
        let before = pieces.drop_last();
        lemma_bytes_of_pieces(before);
        before.map_values(f).lemma_flatten_and_flatten_alt_are_equivalent();
        assert(parts.drop_last() =~= before.map_values(f));
        assert(parts.last() == pieces.last()@);
    }
}

/// Whatever the pieces in which a stream comes: each of its lines comes out, in
/// its order, without its line feed and the carriage returns before it, an empty
/// one too; what stands behind the last line feed comes out last, as it is, where
/// there is any.
pub proof fn law_each_line_comes_out(
    pieces: &Vec<Vec<u8>>,
    lines: Seq<Seq<u8>>,
    open: Seq<u8>,
    r: Vec<String>,
)
    requires
        call_ensures(stream::bytes_to_lines, (pieces,), r),
        is_cut(pieces@.map_values(|p: Vec<u8>| p@).flatten(), lines, open),
    ensures
        r@.len() == lines.len() + if open.len() > 0 {
            1int
        } else {
            0
        },
        forall|i: int|
            0 <= i < lines.len() ==> is_without_end(
                (#[trigger] r@[i])@,
                text::lossy_text(lines[i]),
                '\r',
            ),
        open.len() > 0 ==> r@.last()@ == text::lossy_text(open),
{
    let bytes = stream::stream_bytes(pieces@);
    lemma_bytes_of_pieces(pieces@);
    lemma_cut(bytes, lines, open);
    let out = text::texts(r@);
    assert(out.len() == r@.len());
    assert forall|i: int| 0 <= i < lines.len() implies is_without_end(
        (#[trigger] r@[i])@,
        text::lossy_text(lines[i]),
        '\r',
    ) by {
        assert(out[i] == r@[i]@);
        assert(out[i] == stream::complete_lines(bytes)[i]);
    }
    if open.len() > 0 {
        assert(out[r@.len() - 1] == r@.last()@);
    }
}

/// A buffer starts empty and takes the pieces of a stream one behind the other; at
/// the end it gives what is left, as it is, where there is any.
pub proof fn law_buffers(
    fresh: LineBuffer,
    pushed: &mut LineBuffer,
    piece: &[u8],
    ended: &mut LineBuffer,
    r: Option<String>,
)
    requires
        call_ensures(LineBuffer::new, (), fresh),
        call_ensures(LineBuffer::push, (pushed, piece), ()),
        call_ensures(LineBuffer::finish, (ended,), r),
    ensures
        fresh@.len() == 0,
        final(pushed)@ == old(pushed)@ + piece@,
        r is Some <==> old(ended)@.len() > 0,
        r is Some ==> r.unwrap()@ == text::lossy_text(old(ended)@),
        final(ended)@.len() == 0,
{
}

/// The next line of a buffer is what stands before its first line feed, and what
/// stands behind it stays; without a line feed nothing comes out and all stays.
pub proof fn law_the_next_line(
    b: &mut LineBuffer,
    lines: Seq<Seq<u8>>,
    open: Seq<u8>,
    r: Option<String>,
)
    requires
        call_ensures(LineBuffer::next_line, (b,), r),
        is_cut(b@, lines, open),
    ensures
        r is Some <==> lines.len() > 0,
        r matches Some(s) ==> is_without_end(s@, text::lossy_text(lines[0]), '\r'),
        r is None ==> final(b)@ == old(b)@,
        r is Some ==> stream::complete_lines(final(b)@).len() + 1 == lines.len(),
        r is Some ==> forall|i: int|
            1 <= i < lines.len() ==> is_without_end(
                stream::complete_lines(final(b)@)[i - 1],
                text::lossy_text(#[trigger] lines[i]),
                '\r',
            ),
        stream::open_line(final(b)@) == open,
{
    lemma_cut(b@, lines, open);
    if r is Some {
        let all = stream::complete_lines(b@);
        let rest = stream::complete_lines(final(b)@);
        assert(all[0] == r.unwrap()@);
        assert forall|i: int| 1 <= i < lines.len() implies is_without_end(
            rest[i - 1],
            text::lossy_text(#[trigger] lines[i]),
            '\r',
        ) by {
            assert(all[i] == rest[i - 1]);
        }
    }
}

} // verus!
