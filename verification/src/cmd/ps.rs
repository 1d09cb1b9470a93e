//! `ps`: the models that a running server has loaded.

use vstd::prelude::*;

use crate::clock;
use crate::cmd::table;
use crate::fmt;
use crate::text;

verus! {

/// The arguments of `ps`.
pub struct PsArgs {
    /// Only models whose reference begins so are shown.
    pub prefix: Option<String>,
}

/// A loaded model as the server reports it.
pub struct PsModel {
    pub name: String,
    pub digest: String,
    pub size: u64,
    pub processor: String,
    pub context_length: Option<u64>,
    pub started_at: String,
}

/// The message where no server runs.
pub const NOT_RUNNING: &'static str = "llmman serve is not running (nothing is loaded) — start it with `llmman serve`";

/// Whether a text stands at or before another in the order of their characters.
pub open spec fn at_or_before(a: Seq<char>, b: Seq<char>) -> bool
    decreases a.len(),
{
    if a.len() == 0 {
        true
    } else if b.len() == 0 {
        false
    } else if a[0] != b[0] {
        a[0] < b[0]
    } else {
        at_or_before(a.drop_first(), b.drop_first())
    }
}

/// A list in which a model is put behind all that stand at or before it.
pub open spec fn inserted(sorted: Seq<PsModel>, m: PsModel) -> Seq<PsModel>
    decreases sorted.len(),
{
    if sorted.len() == 0 {
        seq![m]
    } else if at_or_before(sorted.last().name@, m.name@) {
        sorted.push(m)
    } else {
        inserted(sorted.drop_last(), m).push(sorted.last())
    }
}

/// Models in the order of their names; those of one name stay in their order.
pub open spec fn sorted(models: Seq<PsModel>) -> Seq<PsModel>
    decreases models.len(),
{
    if models.len() == 0 {
        Seq::empty()
    } else {
        inserted(sorted(models.drop_last()), models.last())
    }
}

/// Whether a model is shown.
pub open spec fn is_shown(m: PsModel, prefix: Option<Seq<char>>) -> bool {
    prefix matches Some(p) ==> p.is_prefix_of(m.name@)
}

/// The models that are shown, in the order in which they are.
pub open spec fn shown(models: Seq<PsModel>, prefix: Option<Seq<char>>) -> Seq<PsModel> {
    sorted(models.filter(|m: PsModel| is_shown(m, prefix)))
}

fn comes_first(a: &str, b: &str) -> (r: bool)
    ensures
        r == at_or_before(a@, b@),
{
    let x = text::to_chars(a);
    let y = text::to_chars(b);
    let mut i: usize = 0;
    assert(x@.skip(0) =~= a@);
    assert(y@.skip(0) =~= b@);
    while i < x.len()
        invariant
            i <= x@.len(),
            i <= y@.len(),
            at_or_before(a@, b@) == at_or_before(x@.skip(i as int), y@.skip(i as int)),
        decreases x.len() - i,
    {
        let ghost p = x@.skip(i as int);
        let ghost q = y@.skip(i as int);
        assert(p[0] == x@[i as int]);
        if i == y.len() {
            return false;
        }
        assert(q[0] == y@[i as int]);
        if x[i] != y[i] {
            return x[i] < y[i];
        }
        assert(p.drop_first() =~= x@.skip(i + 1));
        assert(q.drop_first() =~= y@.skip(i + 1));
        i += 1;
    }
    true
}

proof fn lemma_inserted(a: Seq<PsModel>, b: Seq<PsModel>, m: PsModel)
    requires
        forall|i: int| 0 <= i < b.len() ==> !at_or_before((#[trigger] b[i]).name@, m.name@),
        a.len() > 0 ==> at_or_before(a.last().name@, m.name@),
    ensures
        inserted(a + b, m) == a.push(m) + b,
    decreases b.len(),
{
    if b.len() == 0 {
        assert(a + b =~= a);
        assert(a.push(m) + b =~= a.push(m));
    } else {
        let c = b.drop_last();
        assert((a + b).last() == b[b.len() - 1]);
        assert((a + b).drop_last() =~= a + c);
        assert forall|i: int| 0 <= i < c.len() implies !at_or_before(
            (#[trigger] c[i]).name@,
            m.name@,
        ) by {
            assert(c[i] == b[i]);
        }
        lemma_inserted(a, c, m);
        assert((a.push(m) + c).push(b.last()) =~= a.push(m) + b);
    }
}

fn insert(sorted: &mut Vec<PsModel>, m: PsModel)
    ensures
        final(sorted)@ == inserted(old(sorted)@, m),
{
    let mut n: usize = sorted.len();
    while n > 0 && !comes_first(sorted[n - 1].name.as_str(), m.name.as_str())
        invariant
            n <= sorted@.len(),
            forall|i: int|
                n <= i < sorted@.len() ==> !at_or_before((#[trigger] sorted@[i]).name@, m.name@),
        decreases n,
    {
        n -= 1;
    }
    let ghost before = sorted@;
    proof {
        let a = before.take(n as int);
        let b = before.skip(n as int);
        assert(a + b =~= before);
        assert forall|i: int| 0 <= i < b.len() implies !at_or_before(
            (#[trigger] b[i]).name@,
            m.name@,
        ) by {
            assert(b[i] == before[n + i]);
        }
        assert(a.len() > 0 ==> a.last() == before[n - 1]);
        lemma_inserted(a, b, m);
    }
    sorted.insert(n, m);
    assert(sorted@ =~= before.take(n as int).push(m) + before.skip(n as int));
}

fn select(models: Vec<PsModel>, prefix: Option<&str>) -> (r: Vec<PsModel>)
    ensures
        r@ == shown(
            models@,
            text::opt_text(prefix),
        ),
{
    let ghost all = models@;
    let ghost p = text::opt_text(prefix);
    let ghost f = |m: PsModel| is_shown(m, p);
    let mut rest = models;
    let mut backwards: Vec<PsModel> = Vec::new();
    while rest.len() > 0
        invariant
            rest@ + backwards@.reverse() == all,
        decreases rest@.len(),
    {
        let ghost before = rest@;
        let ghost behind = backwards@;
        match rest.pop() {
            Some(m) => {
                backwards.push(m);
                assert(backwards@.reverse() =~= seq![m] + behind.reverse());
                assert(rest@ + backwards@.reverse() =~= before + behind.reverse());
            },
            None => {},
        }
    }
    assert(backwards@.reverse() =~= all);
    let mut out: Vec<PsModel> = Vec::new();
    let ghost mut k: int = 0;
    proof {
        reveal(Seq::filter);
        assert(all.take(0).filter(f) =~= Seq::empty());
        assert(backwards@.reverse() =~= all.skip(0));
    }
    while backwards.len() > 0
        invariant
            0 <= k <= all.len(),
            f == (|m: PsModel| is_shown(m, p)),
            p == text::opt_text(prefix),
            backwards@.reverse() == all.skip(k),
            out@ == sorted(all.take(k).filter(f)),
        decreases backwards@.len(),
    {
        let ghost before = backwards@;
        match backwards.pop() {
            Some(m) => {
                proof {
                    assert(before.reverse().len() == before.len());
                    assert(before.reverse()[0] == before[before.len() - 1]);
                    assert(all.skip(k)[0] == all[k]);
                    assert(backwards@.reverse() =~= before.reverse().drop_first());
                    assert(all.skip(k).drop_first() =~= all.skip(k + 1));
                    reveal(Seq::filter);
                    assert(all.take(k + 1).drop_last() =~= all.take(k));
                    assert(all.take(k + 1).last() == m);
                }
                let show = match prefix {
                    Some(p) => text::starts_with(m.name.as_str(), p),
                    None => true,
                };
                if show {
                    let ghost kept = all.take(k).filter(f);
                    insert(&mut out, m);
                    assert(kept.push(m).drop_last() =~= kept);
                }
                proof {
                    k = k + 1;
                }
            },
            None => {},
        }
    }
    assert(k == all.len());
    assert(all.take(k) =~= all);
    out
}

/// The text of a number that may be missing.
pub open spec fn number_text(n: Option<u64>) -> Seq<char> {
    match n {
        Some(c) => text::decimal(c as nat),
        None => Seq::empty(),
    }
}

/// A row of the table.
pub open spec fn row(
    name: Seq<char>,
    id: Seq<char>,
    size: Seq<char>,
    processor: Seq<char>,
    context: Seq<char>,
    started: Seq<char>,
    name_w: nat,
    proc_w: nat,
) -> Seq<char> {
    table::padded(name, name_w) + "    "@ + table::padded(id, 12) + "    "@ + table::padded(size, 10)
        + "    "@ + table::padded(processor, proc_w) + "    "@ + table::padded(context, 9) + "    "@
        + started
}

/// The first 12 characters of a model's digest.
pub open spec fn id_text(digest: Seq<char>) -> Seq<char> {
    let bare = fmt::bare_digest(digest);
    bare.take(
        if bare.len() < 12 {
            bare.len() as int
        } else {
            12
        },
    )
}

/// The row of a model at a point in time.
pub open spec fn model_row(m: PsModel, now: (i64, u32), name_w: nat, proc_w: nat) -> Seq<char> {
    row(
        m.name@,
        id_text(m.digest@),
        fmt::size_text(m.size as nat),
        m.processor@,
        number_text(m.context_length),
        fmt::known_age_text(fmt::timestamp_age(m.started_at@, now)),
        name_w,
        proc_w,
    )
}

/// The rows of the table, the heading first.
pub open spec fn table_rows(models: Seq<PsModel>, now: (i64, u32)) -> Seq<Seq<char>> {
    let name_w = table::column_width(models.map_values(|m: PsModel| m.name@), 4);
    let proc_w = table::column_width(models.map_values(|m: PsModel| m.processor@), 9);
    seq![row("NAME"@, "ID"@, "SIZE"@, "PROCESSOR"@, "CONTEXT"@, "STARTED"@, name_w, proc_w)]
        + models.map_values(|m: PsModel| model_row(m, now, name_w, proc_w))
}

/// Whether every model whose start is a timestamp has an age at a point in time
/// that is in range.
pub open spec fn tell_ages(models: Seq<PsModel>, now: (i64, u32)) -> bool {
    forall|i: int|
        0 <= i < models.len() ==> fmt::tells_age((#[trigger] models[i]).started_at@, now)
}

fn row_text(
    name: &str,
    id: &str,
    size: &str,
    processor: &str,
    context: &str,
    started: &str,
    name_w: usize,
    proc_w: usize,
) -> (r: String)
    ensures
        r@ == row(name@, id@, size@, processor@, context@, started@, name_w as nat, proc_w as nat),
{
    let mut s = table::pad(name, name_w);
    s.append("    ");
    s.append(table::pad(id, 12).as_str());
    s.append("    ");
    s.append(table::pad(size, 10).as_str());
    s.append("    ");
    s.append(table::pad(processor, proc_w).as_str());
    s.append("    ");
    s.append(table::pad(context, 9).as_str());
    s.append("    ");
    s.append(started);
    s
}

/// The lines of the table at a point in time: a heading in any case, and a row for
/// each model that is shown.
pub fn ps_table_at(models: Vec<PsModel>, prefix: Option<&str>, now: clock::Instant) -> (r: Vec<String>)
    ensures
        text::texts(r@) == table_rows(
            shown(
                models@,
                text::opt_text(prefix),
            ),
            now,
        ),
        tell_ages(shown(models@, text::opt_text(prefix)), now),
{
    let models = select(models, prefix);
    let ghost names = models@.map_values(|m: PsModel| m.name@);
    let ghost procs = models@.map_values(|m: PsModel| m.processor@);
    let mut name_w: usize = 4;
    let mut proc_w: usize = 9;
    let mut i: usize = 0;
    while i < models.len()
        invariant
            i <= models@.len(),
            names == models@.map_values(|m: PsModel| m.name@),
            procs == models@.map_values(|m: PsModel| m.processor@),
            name_w == table::column_width(names.take(i as int), 4),
            proc_w == table::column_width(procs.take(i as int), 9),
        decreases models.len() - i,
    {
        proof {
            assert(names.take(i + 1).drop_last() =~= names.take(i as int));
            assert(names.take(i + 1).last() == models@[i as int].name@);
            assert(procs.take(i + 1).drop_last() =~= procs.take(i as int));
            assert(procs.take(i + 1).last() == models@[i as int].processor@);
        }
        name_w = table::wider(name_w, table::byte_len(models[i].name.as_str()));
        proc_w = table::wider(proc_w, table::byte_len(models[i].processor.as_str()));
        i += 1;
    }
    assert(names.take(i as int) =~= names);
    assert(procs.take(i as int) =~= procs);
    let mut out: Vec<String> = Vec::new();
    let heading = row_text(
        "NAME",
        "ID",
        "SIZE",
        "PROCESSOR",
        "CONTEXT",
        "STARTED",
        name_w,
        proc_w,
    );
    text::push_text(&mut out, heading.as_str());
    let ghost rows = models@.map_values(
        |m: PsModel| model_row(m, now, name_w as nat, proc_w as nat),
    );
    let mut k: usize = 0;
    assert(text::texts(out@) =~= seq![heading@] + rows.take(0));
    while k < models.len()
        invariant
            k <= models@.len(),
            rows == models@.map_values(
                |m: PsModel| model_row(m, now, name_w as nat, proc_w as nat),
            ),
            text::texts(out@) == seq![heading@] + rows.take(k as int),
            forall|j: int|
                0 <= j < k ==> fmt::tells_age((#[trigger] models@[j]).started_at@, now),
        decreases models.len() - k,
    {
        let m = &models[k];
        let context = match m.context_length {
            Some(c) => text::decimal_str(c),
            None => String::new(),
        };
        assert(context@ =~= number_text(m.context_length));
        let line = row_text(
            m.name.as_str(),
            fmt::short_id(m.digest.as_str()).as_str(),
            fmt::human_size(m.size).as_str(),
            m.processor.as_str(),
            context.as_str(),
            fmt::relative_time_rfc3339_at(m.started_at.as_str(), now).as_str(),
            name_w,
            proc_w,
        );
        text::push_text(&mut out, line.as_str());
        proof {
            assert(rows[k as int] == line@);
            assert(rows.take(k + 1) =~= rows.take(k as int).push(rows[k as int]));
            assert(seq![heading@] + rows.take(k + 1) =~= (seq![heading@] + rows.take(
                k as int,
            )).push(line@));
        }
        k += 1;
    }
    assert(rows.take(k as int) =~= rows);
    out
}

/// The lines of the table at a reading of the clock. A model whose start is a
/// timestamp is shown with its age.
pub fn ps_table(models: Vec<PsModel>, prefix: Option<&str>) -> (r: Vec<String>)
    ensures
        exists|now: (i64, u32)|
            {
                &&& clock::is_utc_reading(now) && clock::is_clock_time(now)
                &&& text::texts(r@) == #[trigger] table_rows(
                    shown(
                        models@,
                        text::opt_text(prefix),
                    ),
                    now,
                )
                &&& tell_ages(shown(models@, text::opt_text(prefix)), now)
            },
{
    ps_table_at(models, prefix, clock::utc_reading())
}

// ---------------------------------------------------------------------------
// Laws
// ---------------------------------------------------------------------------

proof fn lemma_total(a: Seq<char>, b: Seq<char>)
    ensures
        at_or_before(a, b) || at_or_before(b, a),
    decreases a.len(),
{
    if a.len() > 0 && b.len() > 0 && a[0] == b[0] {
        lemma_total(a.drop_first(), b.drop_first());
    }
}

proof fn lemma_transitive(a: Seq<char>, b: Seq<char>, c: Seq<char>)
    requires
        at_or_before(a, b),
        at_or_before(b, c),
    ensures
        at_or_before(a, c),
    decreases a.len(),
{
    if a.len() > 0 && b.len() > 0 && c.len() > 0 && a[0] == b[0] && b[0] == c[0] {
        lemma_transitive(a.drop_first(), b.drop_first(), c.drop_first());
    }
}

/// Whether models stand in the order of their names.
pub open spec fn is_sorted(models: Seq<PsModel>) -> bool {
    forall|i: int, j: int|
        #![trigger models[i], models[j]]
        0 <= i < j < models.len() ==> at_or_before(models[i].name@, models[j].name@)
}

proof fn lemma_inserted_sorted(s: Seq<PsModel>, m: PsModel)
    requires
        is_sorted(s),
    ensures
        is_sorted(inserted(s, m)),
        inserted(s, m).to_multiset() == s.to_multiset().insert(m),
        forall|i: int|
            0 <= i < inserted(s, m).len() ==> (#[trigger] inserted(s, m)[i]) == m || s.contains(
                inserted(s, m)[i],
            ),
    decreases s.len(),
{
    broadcast use vstd::seq_lib::group_to_multiset_ensures;

    if s.len() == 0 {
        assert(s.push(m) =~= seq![m]);
    } else if at_or_before(s.last().name@, m.name@) {
        let r = s.push(m);
        assert forall|i: int, j: int|
            #![trigger r[i], r[j]]
            0 <= i < j < r.len() implies at_or_before(r[i].name@, r[j].name@) by {
            if j == s.len() {
                if i < s.len() - 1 {
                    assert(at_or_before(s[i].name@, s[s.len() - 1].name@));
                    lemma_transitive(s[i].name@, s.last().name@, m.name@);
                }
            } else {
                assert(at_or_before(s[i].name@, s[j].name@));
            }
        }
        assert forall|i: int| 0 <= i < r.len() implies (#[trigger] r[i]) == m || s.contains(r[i]) by {
            if i < s.len() {
                assert(s[i] == r[i]);
            }
        }
    } else {
        let t = s.drop_last();
        let l = s.last();
        assert forall|i: int, j: int|
            #![trigger t[i], t[j]]
            0 <= i < j < t.len() implies at_or_before(t[i].name@, t[j].name@) by {
            assert(at_or_before(s[i].name@, s[j].name@));
        }
        lemma_inserted_sorted(t, m);
        let u = inserted(t, m);
        let r = u.push(l);
        lemma_total(m.name@, l.name@);
        assert forall|i: int, j: int|
            #![trigger r[i], r[j]]
            0 <= i < j < r.len() implies at_or_before(r[i].name@, r[j].name@) by {
            if j < u.len() {
                assert(at_or_before(u[i].name@, u[j].name@));
            } else {
                assert(u[i] == m || t.contains(u[i]));
                if u[i] != m {
                    let k = choose|k: int| 0 <= k < t.len() && t[k] == u[i];
                    assert(at_or_before(s[k].name@, s[s.len() - 1].name@));
                }
            }
        }
        assert forall|i: int| 0 <= i < r.len() implies (#[trigger] r[i]) == m || s.contains(r[i]) by {
            if i < u.len() {
                assert(u[i] == r[i]);
                if u[i] != m {
                    let k = choose|k: int| 0 <= k < t.len() && t[k] == u[i];
                    assert(s[k] == r[i]);
                }
            } else {
                assert(s[s.len() - 1] == r[i]);
            }
        }
        assert(t.push(l) =~= s);
        assert(t.to_multiset().insert(l) =~= s.to_multiset());
        assert(r.to_multiset() =~= t.to_multiset().insert(m).insert(l));
        assert(r.to_multiset() =~= s.to_multiset().insert(m));
    }
}

proof fn lemma_sorted(models: Seq<PsModel>)
    ensures
        is_sorted(sorted(models)),
        sorted(models).to_multiset() == models.to_multiset(),
    decreases models.len(),
{
    broadcast use vstd::seq_lib::group_to_multiset_ensures;

    if models.len() > 0 {
        lemma_sorted(models.drop_last());
        lemma_inserted_sorted(sorted(models.drop_last()), models.last());
        assert(models.drop_last().push(models.last()) =~= models);
    } else {
        assert(models =~= Seq::empty());
    }
}

/// The models are shown in the order of their names, and exactly those are shown
/// whose names begin as asked.
pub proof fn law_shown_models(models: Seq<PsModel>, prefix: Option<Seq<char>>)
    ensures
        is_sorted(shown(models, prefix)),
        shown(models, prefix).to_multiset() == models.filter(
            |m: PsModel| is_shown(m, prefix),
        ).to_multiset(),
{
    lemma_sorted(models.filter(|m: PsModel| is_shown(m, prefix)));
}

} // verus!
