//! The members of a tar archive, as the `tar` crate reads them.
//!
//! The crate keeps its position in an archive in 64 bits. Behind the header of a
//! sparse member it adds the blocks of the member's map to that position without a
//! check, so that a size close to the largest number makes it overflow. The headers
//! are therefore walked through first, and an archive with such a header is read up
//! to it. What a header or a PAX record says is left to the crate.

use vstd::prelude::*;

use crate::paths;
use crate::text;

verus! {

// ---------------------------------------------------------------------------
// Headers
// ---------------------------------------------------------------------------

/// The size in a header, as the `tar` crate reads it: nothing where there is none,
/// so that no member can be read there.
pub uninterp spec fn header_size(header: Seq<u8>) -> Option<u64>;

/// The records of a PAX header, each a key and a value, as the `tar` crate reads
/// them: nothing stands for one that is malformed.
pub uninterp spec fn pax_records(data: Seq<u8>) -> Seq<Option<(Seq<u8>, Seq<u8>)>>;

/// The contents of a list of records.
pub open spec fn record_bytes(v: Seq<Option<(Vec<u8>, Vec<u8>)>>) -> Seq<
    Option<(Seq<u8>, Seq<u8>)>,
> {
    v.map_values(
        |r: Option<(Vec<u8>, Vec<u8>)>|
            match r {
                Some((key, value)) => Some((key@, value@)),
                None => None,
            },
    )
}

/// `tar::Header::entry_size`: the size in a header, named `header_size`. A header
/// has 512 bytes; of any other number `tar::Header::from_byte_slice` would panic.
#[verifier::external_body]
fn entry_size(header: &[u8]) -> (r: Option<u64>)
    requires
        header@.len() == 512,
    ensures
        r == header_size(header@),
{
    tar::Header::from_byte_slice(header).entry_size().ok()
}

/// `tar::PaxExtensions`: the records of a PAX header, named `pax_records`.
#[verifier::external_body]
fn records_of(data: &[u8]) -> (r: Vec<Option<(Vec<u8>, Vec<u8>)>>)
    ensures
        record_bytes(r@) == pax_records(data@),
{
    tar::PaxExtensions::new(data)
        .map(|r| r.ok().map(|e| (e.key_bytes().to_vec(), e.value_bytes().to_vec())))
        .collect()
}

/// The eight bytes at the place of a header where its format is marked.
pub open spec fn mark_of(header: Seq<u8>) -> Seq<u8> {
    header.subrange(257, 265)
}

/// Whether a header is in GNU's format: `ustar`, two spaces and a zero.
pub open spec fn is_gnu(header: Seq<u8>) -> bool {
    mark_of(header) == seq![117u8, 115u8, 116u8, 97u8, 114u8, 32u8, 32u8, 0u8]
}

/// Whether a header is in the standard's format: `ustar`, a zero and two digits.
pub open spec fn is_ustar(header: Seq<u8>) -> bool {
    mark_of(header) == seq![117u8, 115u8, 116u8, 97u8, 114u8, 0u8, 48u8, 48u8]
}

/// The byte of a header that tells what it describes.
pub open spec fn kind_of(header: Seq<u8>) -> u8 {
    header[156]
}

/// The header of a sparse member in GNU's format whose map goes on in the blocks
/// behind the header.
pub open spec fn is_extended_sparse(header: Seq<u8>) -> bool {
    kind_of(header) == 83 && is_gnu(header) && header[482] == 1
}

/// A long name or a long target of a link for the next member.
pub open spec fn is_long(header: Seq<u8>) -> bool {
    kind_of(header) == 76 || kind_of(header) == 75
}

/// PAX records for the next member.
pub open spec fn is_pax(header: Seq<u8>) -> bool {
    kind_of(header) == 120
}

/// Whether a header is never described by PAX records itself: a long name or
/// target, or a PAX header, of one member or of all.
pub open spec fn is_extension(header: Seq<u8>) -> bool {
    is_long(header) || is_pax(header) || kind_of(header) == 103
}

/// The size that PAX records give: that of the first record `size`, unless a
/// malformed one comes before it.
pub open spec fn size_in(records: Seq<Option<(Seq<u8>, Seq<u8>)>>) -> Option<u64>
    decreases records.len(),
{
    if records.len() == 0 {
        None
    } else {
        match records[0] {
            None => None,
            Some((key, value)) => if key == seq![115u8, 105u8, 122u8, 101u8] {
                text::u64_of(paths::as_chars(value))
            } else {
                size_in(records.drop_first())
            },
        }
    }
}

/// The size of what a header describes: the one that the PAX records in front of a
/// member give, or else the one in the header.
pub open spec fn size_of(header: Seq<u8>, pax: Option<Seq<u8>>) -> Option<u64> {
    match header_size(header) {
        None => None,
        Some(own) => match pax {
            Some(data) => match size_in(pax_records(data)) {
                Some(size) => if is_extension(header) {
                    Some(own)
                } else {
                    Some(size)
                },
                None => Some(own),
            },
            None => Some(own),
        },
    }
}

// ---------------------------------------------------------------------------
// The walk
// ---------------------------------------------------------------------------

/// The header at a place.
pub open spec fn header_at(blob: Seq<u8>, at: int) -> Seq<u8> {
    blob.subrange(at, at + 512)
}

/// The number of blocks of a sparse member's map from a place on: each tells whether
/// there is one more.
pub open spec fn map_blocks(blob: Seq<u8>, at: int) -> nat
    decreases blob.len() - at,
{
    if at + 512 <= blob.len() && blob[at + 504] == 1 {
        1 + map_blocks(blob, at + 512)
    } else {
        1
    }
}

/// The place of the header behind the one at a place, given the size of what that
/// one describes.
pub open spec fn next_at(blob: Seq<u8>, at: int, size: u64) -> int {
    let data = at + 512 + (size + 511) / 512 * 512;
    if is_extended_sparse(header_at(blob, at)) {
        data + 512 * map_blocks(blob, at + 512)
    } else {
        data
    }
}

/// The PAX records that stand in front of the header behind the one at a place.
pub open spec fn pax_after(blob: Seq<u8>, at: int, size: u64, pax: Option<Seq<u8>>) -> Option<
    Seq<u8>,
> {
    let header = header_at(blob, at);
    if !(is_gnu(header) || is_ustar(header)) {
        None
    } else if is_pax(header) {
        let end = at + 512 + size;
        Some(
            blob.subrange(
                at + 512,
                if end < blob.len() {
                    end
                } else {
                    blob.len() as int
                },
            ),
        )
    } else if is_long(header) {
        pax
    } else {
        None
    }
}

/// The place of the first header from a place on at which the reader's position
/// would overflow: that of a sparse member with blocks of its map behind it.
pub open spec fn first_overflow(blob: Seq<u8>, at: int, pax: Option<Seq<u8>>) -> Option<int>
    decreases blob.len() - at,
{
    if at < 0 || at + 512 > blob.len() {
        None
    } else {
        let header = header_at(blob, at);
        match size_of(header, pax) {
            None => None,
            Some(size) => {
                let next = next_at(blob, at, size);
                if next > u64::MAX && is_extended_sparse(header) {
                    Some(at)
                } else if next > blob.len() {
                    None
                } else {
                    first_overflow(blob, next, pax_after(blob, at, size, pax))
                }
            },
        }
    }
}

/// Whether the reader's position overflows nowhere in an archive.
pub open spec fn is_readable(blob: Seq<u8>) -> bool {
    first_overflow(blob, 0, None) is None
}

/// What can be read of an archive: all of it, or what comes before the last byte of
/// the first header at which the position would overflow, so that the reader meets a
/// block there that is torn.
pub open spec fn readable(blob: Seq<u8>) -> Seq<u8> {
    match first_overflow(blob, 0, None) {
        Some(at) => blob.take(at + 511),
        None => blob,
    }
}

fn has_mark(header: &[u8], mark: &[u8]) -> (r: bool)
    requires
        header@.len() == 512,
        mark@.len() == 8,
    ensures
        r == (mark_of(header@) == mark@),
{
    let ghost own = mark_of(header@);
    let mut i: usize = 0;
    while i < 8
        invariant
            i <= 8,
            header@.len() == 512,
            mark@.len() == 8,
            own == mark_of(header@),
            forall|j: int| 0 <= j < i ==> own[j] == mark@[j],
        decreases 8 - i,
    {
        assert(own[i as int] == header@[257 + i]);
        if header[257 + i] != mark[i] {
            return false;
        }
        i += 1;
    }
    assert(own =~= mark@);
    true
}

fn gnu(header: &[u8]) -> (r: bool)
    requires
        header@.len() == 512,
    ensures
        r == is_gnu(header@),
{
    let mark: [u8; 8] = [117, 115, 116, 97, 114, 32, 32, 0];
    assert(mark@ =~= seq![117u8, 115u8, 116u8, 97u8, 114u8, 32u8, 32u8, 0u8]);
    has_mark(header, &mark)
}

fn ustar(header: &[u8]) -> (r: bool)
    requires
        header@.len() == 512,
    ensures
        r == is_ustar(header@),
{
    let mark: [u8; 8] = [117, 115, 116, 97, 114, 0, 48, 48];
    assert(mark@ =~= seq![117u8, 115u8, 116u8, 97u8, 114u8, 0u8, 48u8, 48u8]);
    has_mark(header, &mark)
}

/// The size that PAX records give.
pub fn size_in_records(records: &Vec<Option<(Vec<u8>, Vec<u8>)>>) -> (r: Option<u64>)
    ensures
        r == size_in(record_bytes(records@)),
{
    let ghost all = record_bytes(records@);
    let mut i: usize = 0;
    assert(all.skip(0) =~= all);
    while i < records.len()
        invariant
            i <= records@.len(),
            all == record_bytes(records@),
            size_in(all) == size_in(all.skip(i as int)),
        decreases records.len() - i,
    {
        proof {
            assert(all.skip(i as int)[0] == all[i as int]);
            assert(all.skip(i as int).drop_first() =~= all.skip(i + 1));
        }
        match &records[i] {
            None => {
                return None;
            },
            Some((key, value)) => {
                let is_size = key.len() == 4 && key[0] == 115 && key[1] == 105 && key[2] == 122
                    && key[3] == 101;
                assert(is_size <==> key@ =~= seq![115u8, 105u8, 122u8, 101u8]);
                if is_size {
                    return text::parse_u64(paths::chars_of(value.as_slice()).as_str());
                }
            },
        }
        i += 1;
    }
    None
}

fn size_for(header: &[u8], pax: Option<&[u8]>) -> (r: Option<u64>)
    requires
        header@.len() == 512,
    ensures
        r == size_of(
            header@,
            match pax {
                Some(data) => Some(data@),
                None => None,
            },
        ),
{
    match entry_size(header) {
        None => None,
        Some(own) => match pax {
            Some(data) => match size_in_records(&records_of(data)) {
                Some(size) => {
                    let kind: u8 = header[156];
                    if kind == 76 || kind == 75 || kind == 120 || kind == 103 {
                        Some(own)
                    } else {
                        Some(size)
                    }
                },
                None => Some(own),
            },
            None => Some(own),
        },
    }
}

fn count_map_blocks(blob: &[u8], at: usize) -> (r: usize)
    requires
        at <= blob@.len(),
    ensures
        r == map_blocks(blob@, at as int),
        512 * r <= blob@.len() + 512,
{
    let mut n: usize = 1;
    let mut end: usize = at;
    while blob.len() - end >= 512 && blob[end + 504] == 1
        invariant
            at <= end <= blob@.len(),
            end - at == 512 * (n - 1),
            1 <= n,
            map_blocks(blob@, at as int) == n - 1 + map_blocks(blob@, end as int),
        decreases blob.len() - end,
    {
        end += 512;
        n += 1;
    }
    n
}

/// The bytes between two places of an archive, if there are such places.
pub open spec fn range_of(blob: Seq<u8>, range: Option<(usize, usize)>) -> Option<Seq<u8>> {
    match range {
        Some((from, to)) => Some(blob.subrange(from as int, to as int)),
        None => None,
    }
}

fn find_overflow(blob: &[u8]) -> (r: Option<usize>)
    ensures
        match r {
            Some(at) => first_overflow(blob@, 0, None) == Some(at as int),
            None => first_overflow(blob@, 0, None) is None,
        },
{
    let mut at: usize = 0;
    let mut pax: Option<(usize, usize)> = None;
    while blob.len() - at >= 512
        invariant
            at <= blob@.len(),
            pax matches Some((from, to)) ==> from <= to <= blob@.len(),
            first_overflow(blob@, 0, None) == first_overflow(
                blob@,
                at as int,
                range_of(blob@, pax),
            ),
        decreases blob.len() - at,
    {
        let header = vstd::slice::slice_subrange(blob, at, at + 512);
        let data: Option<&[u8]> = match pax {
            Some((from, to)) => Some(vstd::slice::slice_subrange(blob, from, to)),
            None => None,
        };
        let size: u64 = match size_for(header, data) {
            Some(size) => size,
            None => {
                return None;
            },
        };
        let marked = gnu(header);
        let sparse = header[156] == 83 && marked && header[482] == 1;
        let maps: usize = if sparse {
            count_map_blocks(blob, at + 512)
        } else {
            0
        };
        let next: u128 = at as u128 + 512 + (size as u128 + 511) / 512 * 512 + 512 * maps as u128;
        assert(next == next_at(blob@, at as int, size));
        if sparse && next > u64::MAX as u128 {
            return Some(at);
        }
        if next > blob.len() as u128 {
            return None;
        }
        let kind: u8 = header[156];
        let ghost before = range_of(blob@, pax);
        if !(marked || ustar(header)) {
            pax = None;
        } else if kind == 120 {
            let end: u128 = at as u128 + 512 + size as u128;
            let end: usize = if end < blob.len() as u128 {
                end as usize
            } else {
                blob.len()
            };
            pax = Some((at + 512, end));
        } else if !(kind == 76 || kind == 75) {
            pax = None;
        }
        assert(range_of(blob@, pax) == pax_after(blob@, at as int, size, before));
        at = next as usize;
    }
    None
}

proof fn lemma_map_in_part(blob: Seq<u8>, n: int, at: int)
    requires
        0 <= at,
        0 <= n <= blob.len(),
        at + 512 * map_blocks(blob, at) <= n,
    ensures
        map_blocks(blob.take(n), at) == map_blocks(blob, at),
    decreases blob.len() - at,
{
    if at + 512 <= blob.len() && blob[at + 504] == 1 {
        lemma_map_in_part(blob, n, at + 512);
    }
}

/// The walk through what comes before the end of the first header at which the
/// position would overflow meets no such header.
proof fn lemma_part_is_readable(blob: Seq<u8>, at: int, pax: Option<Seq<u8>>, end: int)
    requires
        first_overflow(blob, at, pax) == Some(end),
    ensures
        0 <= at <= end,
        end + 512 <= blob.len(),
        first_overflow(blob.take(end + 511), at, pax) is None,
    decreases blob.len() - at,
{
    let part = blob.take(end + 511);
    let header = header_at(blob, at);
    let size = size_of(header, pax).unwrap();
    let next = next_at(blob, at, size);
    if !(next > u64::MAX && is_extended_sparse(header)) {
        let after = pax_after(blob, at, size, pax);
        lemma_part_is_readable(blob, next, after, end);
        assert(header_at(part, at) =~= header);
        if is_extended_sparse(header) {
            lemma_map_in_part(blob, end + 511, at + 512);
        }
        assert(next_at(part, at, size) == next);
        let stop = at + 512 + size;
        assert(stop <= next);
        assert(part.subrange(at + 512, stop) =~= blob.subrange(at + 512, stop));
        assert(pax_after(part, at, size, pax) == after);
    }
}

/// How many bytes of an archive can be read.
pub fn readable_len(blob: &[u8]) -> (r: usize)
    ensures
        r <= blob@.len(),
        blob@.take(r as int) == readable(blob@),
        is_readable(readable(blob@)),
{
    match find_overflow(blob) {
        Some(at) => {
            proof {
                lemma_part_is_readable(blob@, 0, None, at as int);
                assert(blob.len() <= usize::MAX);
            }
            at + 511
        },
        None => {
            assert(blob@.take(blob@.len() as int) =~= blob@);
            blob.len()
        },
    }
}

// ---------------------------------------------------------------------------
// Members
// ---------------------------------------------------------------------------

/// The paths of the members of a tar archive in bytes, as the `tar` crate reads them
/// one by one: nothing stands for a member that cannot be read.
pub uninterp spec fn tar_paths(blob: Seq<u8>) -> Seq<Option<Seq<u8>>>;

/// The contents of a list of byte strings that may be missing.
pub open spec fn optional_bytes(v: Seq<Option<Vec<u8>>>) -> Seq<Option<Seq<u8>>> {
    v.map_values(
        |s: Option<Vec<u8>>|
            match s {
                Some(s) => Some(s@),
                None => None,
            },
    )
}

/// `tar::Archive::entries` and `tar::Entry::path_bytes`: the paths of the members,
/// named `tar_paths`. Where the reader's position overflowed, the call might panic.
#[verifier::external_body]
fn tar_members(blob: &[u8]) -> (r: Vec<Option<Vec<u8>>>)
    requires
        is_readable(blob@),
    ensures
        optional_bytes(r@) == tar_paths(blob@),
{
    match tar::Archive::new(blob).entries() {
        Ok(entries) => entries.map(|e| Some(e.ok()?.path_bytes().into_owned())).collect(),
        Err(_) => vec![None],
    }
}

/// The paths of the members in what can be read of an archive.
pub fn members(blob: &[u8]) -> (r: Vec<Option<Vec<u8>>>)
    ensures
        optional_bytes(r@) == tar_paths(readable(blob@)),
{
    let n: usize = readable_len(blob);
    let part = vstd::slice::slice_subrange(blob, 0, n);
    assert(part@ =~= blob@.take(n as int));
    tar_members(part)
}

/// An archive in which the reader's position overflows nowhere is read as a whole,
/// and of any other all that comes before the header at which it would.
pub proof fn law_all_is_read_that_can_be(blob: Seq<u8>)
    ensures
        is_readable(blob) ==> readable(blob) == blob,
        is_readable(readable(blob)),
        readable(blob).is_prefix_of(blob),
        first_overflow(blob, 0, None) matches Some(at) ==> readable(blob).len() == at + 511,
{
    if let Some(at) = first_overflow(blob, 0, None) {
        lemma_part_is_readable(blob, 0, None, at);
        assert(blob.take(at + 511).is_prefix_of(blob));
    } else {
        assert(blob.subrange(0, blob.len() as int) =~= blob);
    }
}

} // verus!
