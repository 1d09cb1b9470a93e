//! Laws of reading archives.

use vstd::prelude::*;

use crate::archive;
use crate::paths;
use crate::text;

verus! {

/// Whether a record of a PAX header is there and has the key `size`.
pub open spec fn is_size_record(r: Option<(Vec<u8>, Vec<u8>)>) -> bool {
    r is Some && r.unwrap().0@ == seq!['s' as u8, 'i' as u8, 'z' as u8, 'e' as u8]
}

proof fn lemma_size_in(records: Seq<Option<(Seq<u8>, Seq<u8>)>>, i: int)
    requires
        0 <= i <= records.len(),
        forall|j: int|
            0 <= j < i ==> (#[trigger] records[j]) is Some && records[j].unwrap().0 != seq![
                115u8,
                105u8,
                122u8,
                101u8,
            ],
        i < records.len() ==> records[i] is None || records[i].unwrap().0 == seq![
            115u8,
            105u8,
            122u8,
            101u8,
        ],
    ensures
        archive::size_in(records) == if i < records.len() && records[i] is Some {
            text::u64_of(paths::as_chars(records[i].unwrap().1))
        } else {
            None
        },
    decreases records.len(),
{
    if i > 0 {
        let rest = records.drop_first();
        assert(records[0] is Some);
        assert forall|j: int| 0 <= j < i - 1 implies (#[trigger] rest[j]) is Some
            && rest[j].unwrap().0 != seq![115u8, 105u8, 122u8, 101u8] by {
            assert(rest[j] == records[j + 1]);
        }
        if i < records.len() {
            assert(rest[i - 1] == records[i]);
        }
        lemma_size_in(rest, i - 1);
    }
}

/// The size that records give is that of the first record of that name, whatever
/// records of other names stand before it, unless one of them is malformed.
pub proof fn law_sizes_in_records(
    records: &Vec<Option<(Vec<u8>, Vec<u8>)>>,
    i: int,
    value: &str,
    n: Option<u64>,
    r: Option<u64>,
)
    requires
        call_ensures(archive::size_in_records, (records,), r),
        0 <= i <= records@.len(),
        forall|j: int|
            0 <= j < i ==> (#[trigger] records@[j]) is Some && !is_size_record(records@[j]),
        i < records@.len() ==> records@[i] is None || is_size_record(records@[i]),
        i < records@.len() && records@[i] is Some ==> value@ == paths::as_chars(
            records@[i].unwrap().1@,
        ),
        call_ensures(text::parse_u64, (value,), n),
    ensures
        i == records@.len() || records@[i] is None ==> r is None,
        i < records@.len() && records@[i] is Some ==> r == n,
{
    let all = archive::record_bytes(records@);
    assert(all.len() == records@.len());
    let key = seq![115u8, 105u8, 122u8, 101u8];
    assert(seq!['s' as u8, 'i' as u8, 'z' as u8, 'e' as u8] =~= key);
    assert forall|j: int| 0 <= j < i implies (#[trigger] all[j]) is Some && all[j].unwrap().0
        != key by {
        assert(records@[j] is Some && !is_size_record(records@[j]));
    }
    lemma_size_in(all, i);
}

/// Whether the block of an archive at a place is the header of a sparse member with
/// blocks of its map behind it: of the kind `S`, marked as one of GNU tar, and with
/// the byte that says so.
pub open spec fn is_long_sparse(blob: Seq<u8>, at: int) -> bool {
    &&& 0 <= at && at + 512 <= blob.len() && at % 512 == 0
    &&& blob[at + 156] == 'S' as u8
    &&& blob[at + 482] == 1
    &&& blob.subrange(at + 257, at + 265) == seq![
        'u' as u8,
        's' as u8,
        't' as u8,
        'a' as u8,
        'r' as u8,
        ' ' as u8,
        ' ' as u8,
        0u8,
    ]
}

proof fn lemma_overflow(blob: Seq<u8>, at: int, pax: Option<Seq<u8>>)
    requires
        0 <= at,
        at % 512 == 0,
    ensures
        archive::first_overflow(blob, at, pax) matches Some(end) ==> is_long_sparse(blob, end),
    decreases blob.len() - at,
{
    if at + 512 <= blob.len() {
        let header = archive::header_at(blob, at);
        if let Some(size) = archive::size_of(header, pax) {
            let next = archive::next_at(blob, at, size);
            if next > u64::MAX && archive::is_extended_sparse(header) {
                assert(header.subrange(257, 265) =~= blob.subrange(at + 257, at + 265));
                assert(seq![117u8, 115u8, 116u8, 97u8, 114u8, 32u8, 32u8, 0u8] =~= seq![
                    'u' as u8,
                    's' as u8,
                    't' as u8,
                    'a' as u8,
                    'r' as u8,
                    ' ' as u8,
                    ' ' as u8,
                    0u8,
                ]);
            } else if next <= blob.len() {
                assert(next % 512 == 0);
                lemma_overflow(blob, next, archive::pax_after(blob, at, size, pax));
            }
        }
    }
}

/// An archive is read whole, but for one that has the header of a sparse member with
/// blocks of its map behind it: such a one may be cut within that header.
pub proof fn law_archives_are_read_whole(blob: &[u8], r: usize)
    requires
        call_ensures(archive::readable_len, (blob,), r),
    ensures
        r <= blob@.len(),
        r == blob@.len() || is_long_sparse(blob@, r - 511),
{
    lemma_overflow(blob@, 0, None);
    archive::law_all_is_read_that_can_be(blob@);
    if archive::first_overflow(blob@, 0, None) is Some {
        assert(blob@.take(r as int).len() == r);
    } else {
        assert(blob@.take(r as int).len() == blob@.len());
    }
}

/// Whether the block of a map at a place says that there is one more.
pub open spec fn says_more(blob: Seq<u8>, at: int, k: int) -> bool {
    at + 512 * k + 512 <= blob.len() && blob[at + 512 * k + 504] == 1
}

/// Whether so many blocks are those of a map: each but the last says that there is
/// one more.
pub open spec fn blocks_of_map(blob: Seq<u8>, at: int, n: nat) -> bool {
    &&& n >= 1
    &&& forall|k: int| 0 <= k < n - 1 ==> #[trigger] says_more(blob, at, k)
    &&& !says_more(blob, at, n - 1)
}

proof fn lemma_blocks_of_map(blob: Seq<u8>, at: int, n: nat)
    requires
        0 <= at,
        blocks_of_map(blob, at, n),
    ensures
        archive::map_blocks(blob, at) == n,
    decreases n,
{
    if n > 1 {
        assert(says_more(blob, at, 0));
        let next = at + 512;
        assert forall|k: int| 0 <= k < n - 2 implies #[trigger] says_more(blob, next, k) by {
            assert(says_more(blob, at, k + 1));
        }
        assert(says_more(blob, next, n - 2) == says_more(blob, at, n - 1));
        lemma_blocks_of_map(blob, next, (n - 1) as nat);
    }
}

/// An archive whose first member is sparse, with a map of its own and so long that
/// no position could stand behind it, is cut within that header.
pub proof fn law_overlong_members_are_cut(blob: &[u8], size: u64, maps: nat, r: usize)
    requires
        call_ensures(archive::readable_len, (blob,), r),
        is_long_sparse(blob@, 0),
        archive::header_size(blob@.take(512)) == Some(size),
        blocks_of_map(blob@, 512, maps),
        512 + (size + 511) / 512 * 512 + 512 * maps > u64::MAX,
    ensures
        r == 511,
{
    let b = blob@;
    let header = archive::header_at(b, 0);
    assert(header =~= b.take(512));
    assert(header.subrange(257, 265) =~= b.subrange(257, 265));
    assert(seq![117u8, 115u8, 116u8, 97u8, 114u8, 32u8, 32u8, 0u8] =~= seq![
        'u' as u8,
        's' as u8,
        't' as u8,
        'a' as u8,
        'r' as u8,
        ' ' as u8,
        ' ' as u8,
        0u8,
    ]);
    lemma_blocks_of_map(b, 512, maps);
    assert(archive::first_overflow(b, 0, None) == Some(0int));
    assert(b.take(r as int).len() == r);
}

/// The members of an archive are those that the reader finds in what is read of it,
/// in their order.
pub proof fn law_members_are_those_that_are_read(
    blob: &[u8],
    n: usize,
    r: Vec<Option<Vec<u8>>>,
)
    requires
        call_ensures(archive::members, (blob,), r),
        call_ensures(archive::readable_len, (blob,), n),
    ensures
        ({
            let found = archive::tar_paths(blob@.take(n as int));
            &&& r@.len() == found.len()
            &&& forall|i: int|
                0 <= i < r@.len() ==> ((#[trigger] r@[i]) is Some <==> found[i] is Some)
            &&& forall|i: int|
                0 <= i < r@.len() && (#[trigger] r@[i]) is Some ==> r@[i].unwrap()@
                    == found[i].unwrap()
        }),
{
    let all = archive::optional_bytes(r@);
    assert(all.len() == r@.len());
    assert forall|i: int| 0 <= i < r@.len() implies ((#[trigger] r@[i]) is Some <==> all[i] is Some)
        && (r@[i] is Some ==> r@[i].unwrap()@ == all[i].unwrap()) by {}
}

} // verus!
