//! `list`: the models in the local store.

use vstd::prelude::*;

use crate::clock;
use crate::cmd::ps;
use crate::cmd::table;
use crate::fmt;
use crate::text;

verus! {

/// The arguments of `list`; the store is a path of any type.
pub struct ListArgs<P> {
    /// The directory of the store, in place of the default.
    pub store: Option<P>,
}

/// A model of the store.
pub struct Image {
    pub reference: String,
    pub digest: String,
    pub size: u64,
    pub modified_at: Option<std::time::SystemTime>,
}

/// A row of the table.
pub open spec fn row(
    name: Seq<char>,
    id: Seq<char>,
    size: Seq<char>,
    modified: Seq<char>,
    name_w: nat,
) -> Seq<char> {
    table::padded(name, name_w) + "    "@ + table::padded(id, 16) + "    "@ + table::padded(size, 10)
        + "    "@ + modified
}

/// How the age of an image is shown at a point in time.
pub open spec fn modified_text(
    t: Option<std::time::SystemTime>,
    now: std::time::SystemTime,
) -> Seq<char> {
    match t {
        Some(t) => fmt::age_text(fmt::age_at(t, now)),
        None => "unknown"@,
    }
}

/// The row of an image at a point in time.
pub open spec fn image_row(i: Image, now: std::time::SystemTime, name_w: nat) -> Seq<char> {
    row(
        i.reference@,
        ps::id_text(i.digest@),
        fmt::size_text(i.size as nat),
        modified_text(i.modified_at, now),
        name_w,
    )
}

/// The rows of the table: none for an empty store, else a heading and a row for
/// each image, in the order of the store.
pub open spec fn table_rows(images: Seq<Image>, now: std::time::SystemTime) -> Seq<Seq<char>> {
    let name_w = table::column_width(images.map_values(|i: Image| i.reference@), 4);
    if images.len() == 0 {
        Seq::empty()
    } else {
        seq![row("NAME"@, "ID"@, "SIZE"@, "MODIFIED"@, name_w)] + images.map_values(
            |i: Image| image_row(i, now, name_w),
        )
    }
}

fn row_text(name: &str, id: &str, size: &str, modified: &str, name_w: usize) -> (r: String)
    ensures
        r@ == row(name@, id@, size@, modified@, name_w as nat),
{
    let mut s = table::pad(name, name_w);
    s.append("    ");
    s.append(table::pad(id, 16).as_str());
    s.append("    ");
    s.append(table::pad(size, 10).as_str());
    s.append("    ");
    s.append(modified);
    s
}

/// The lines of the table at a point in time.
pub fn list_table_at(images: &Vec<Image>, now: std::time::SystemTime) -> (r: Vec<String>)
    ensures
        text::texts(r@) == table_rows(images@, now),
{
    let mut out: Vec<String> = Vec::new();
    if images.len() == 0 {
        assert(text::texts(out@) =~= Seq::empty());
        return out;
    }
    let ghost names = images@.map_values(|i: Image| i.reference@);
    let mut name_w: usize = 4;
    let mut i: usize = 0;
    while i < images.len()
        invariant
            i <= images@.len(),
            names == images@.map_values(|i: Image| i.reference@),
            name_w == table::column_width(names.take(i as int), 4),
        decreases images.len() - i,
    {
        proof {
            assert(names.take(i + 1).drop_last() =~= names.take(i as int));
            assert(names.take(i + 1).last() == images@[i as int].reference@);
        }
        name_w = table::wider(name_w, table::byte_len(images[i].reference.as_str()));
        i += 1;
    }
    assert(names.take(i as int) =~= names);
    let heading = row_text("NAME", "ID", "SIZE", "MODIFIED", name_w);
    text::push_text(&mut out, heading.as_str());
    let ghost rows = images@.map_values(|i: Image| image_row(i, now, name_w as nat));
    let mut k: usize = 0;
    assert(text::texts(out@) =~= seq![heading@] + rows.take(0));
    while k < images.len()
        invariant
            k <= images@.len(),
            rows == images@.map_values(|i: Image| image_row(i, now, name_w as nat)),
            text::texts(out@) == seq![heading@] + rows.take(k as int),
        decreases images.len() - k,
    {
        let image = &images[k];
        let line = row_text(
            image.reference.as_str(),
            fmt::short_id(image.digest.as_str()).as_str(),
            fmt::human_size(image.size).as_str(),
            fmt::relative_time_at(image.modified_at, now).as_str(),
            name_w,
        );
        text::push_text(&mut out, line.as_str());
        proof {
            assert(rows[k as int] == line@);
            assert(seq![heading@] + rows.take(k + 1) =~= (seq![heading@] + rows.take(
                k as int,
            )).push(line@));
        }
        k += 1;
    }
    assert(rows.take(k as int) =~= rows);
    out
}

/// The lines of the table at a reading of the clock.
pub fn list_table(images: &Vec<Image>) -> (r: Vec<String>)
    ensures
        exists|now: std::time::SystemTime|
            clock::is_system_reading(now) && text::texts(r@) == #[trigger] table_rows(images@, now),
{
    list_table_at(images, clock::system_reading())
}

} // verus!
