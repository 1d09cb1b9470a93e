//! Laws of the client's side of the server.

use vstd::prelude::*;

use crate::cmd::serve::start;
use crate::daemon;
use crate::daemon::{
    ByteOrder, Process, Progress, ProgressAction, ProgressLine, ServerPlan, StartStep, StopStep,
};
use crate::laws::engines::{lemma_strings, strings};
use crate::laws::texts;
use crate::text;

verus! {

/// A server that runs is used exactly where it says of which build it is and that is
/// this one; any other that runs is replaced, and where none runs one is started.
pub proof fn law_what_is_done_about_the_server(
    alive: bool,
    build: Option<&str>,
    own: &str,
    r: ServerPlan,
)
    requires
        call_ensures(daemon::server_plan, (alive, build, own), r),
    ensures
        r is Start <==> !alive,
        r is Reuse <==> alive && build is Some && build.unwrap()@.len() > 0 && build.unwrap()@
            == own@,
{
}

/// The server and its clients speak on one port of this host.
pub proof fn law_the_port_of_the_server()
    ensures
        daemon::SERVER@ == "http://127.0.0.1:17434"@,
        start::LISTEN_ADDRESS@ == "127.0.0.1:17434"@,
        daemon::PORT == 17434,
{
}

/// A server is started with the model that it is to load, and with none where none
/// is given.
pub proof fn law_how_the_server_is_started(model: &str, r: Vec<String>)
    requires
        call_ensures(daemon::serve_args, (model,), r),
    ensures
        model@.len() > 0 ==> strings(r@) == seq!["serve"@, model@],
        model@.len() == 0 ==> strings(r@) == seq!["serve"@],
{
    lemma_strings(r@);
}

/// A starting server is ready as soon as it answers, however long it took; it is
/// given up after a hundred and twenty looks, and not before.
pub proof fn law_looks_at_a_starting_server(polls: u32, alive: bool, r: StartStep)
    requires
        call_ensures(daemon::start_step, (polls, alive), r),
    ensures
        r is Ready <==> alive,
        r is GiveUp <==> !alive && polls >= 120,
{
}

/// A stopping server is gone as soon as it does not answer; it is killed at the
/// twentieth look, once, and left alone after sixty.
pub proof fn law_looks_at_a_stopping_server(polls: u32, alive: bool, r: StopStep)
    requires
        call_ensures(daemon::stop_step, (polls, alive), r),
    ensures
        r is GiveUp <==> polls >= 60,
        r is Stopped <==> polls < 60 && !alive,
        r is Kill <==> alive && polls == 19,
{
}

/// A model is pulled unless the server said that it has it.
pub proof fn law_what_is_pulled(shown: Option<bool>, pull: bool)
    requires
        call_ensures(daemon::ensure_model_pulled, (shown,), pull),
    ensures
        !pull <==> shown is Some && shown.unwrap(),
{
}

/// The mark of a build is the digest of all its bytes, two digits for each byte of
/// the digest and in their order.
pub proof fn law_marks_of_builds(bytes: &[u8], r: String)
    requires
        call_ensures(daemon::build_fingerprint, (bytes,), r),
    ensures
        r@.len() == 64,
        forall|k: int|
            #![trigger daemon::sha256(bytes@)[k]]
            0 <= k < 32 ==> r@[2 * k] == texts::hex_digit(
                daemon::sha256(bytes@)[k] as int / 16,
                false,
            ) && r@[2 * k + 1] == texts::hex_digit(daemon::sha256(bytes@)[k] as int % 16, false),
{
    let d = daemon::sha256(bytes@);
    assert(daemon::hex_of(d).len() == 64);
    assert forall|k: int|
        #![trigger d[k]]
        0 <= k < 32 implies r@[2 * k] == texts::hex_digit(d[k] as int / 16, false) && r@[2 * k + 1]
        == texts::hex_digit(d[k] as int % 16, false) by {
        let a = 2 * k;
        let b = 2 * k + 1;
        assert(a / 2 == k && a % 2 == 0 && b / 2 == k && b % 2 == 1);
        assert(daemon::hex_of(d)[a] == text::hex_char(d[k] as int / 16, false));
        assert(daemon::hex_of(d)[b] == text::hex_char(d[k] as int % 16, false));
    }
}

/// Whether two texts are the same but for the case of letters.
pub open spec fn same_but_case(a: Seq<char>, b: Seq<char>) -> bool {
    a.len() == b.len() && forall|i: int|
        0 <= i < a.len() ==> texts::same_letter(#[trigger] a[i], b[i])
}

/// The address 127.0.0.1 in the kernel's table.
pub open spec fn own_host(order: ByteOrder) -> Seq<char> {
    if order is Little {
        "0100007F"@
    } else {
        "7F000001"@
    }
}

/// Whether an address of the kernel's table is that of a port of this host: eight
/// digits, a colon and four digits.
pub open spec fn is_own_port(address: Seq<char>, order: ByteOrder, port: Seq<char>) -> bool {
    &&& address.len() == 9 + port.len()
    &&& same_but_case(address.take(8), own_host(order))
    &&& address[8] == ':'
    &&& same_but_case(address.skip(9), port)
}

/// The inode in the words of a line of the kernel's table, where it is the line of a
/// socket that listens on a port of this host.
pub open spec fn inode_on(
    words: Seq<Seq<char>>,
    order: ByteOrder,
    port: Seq<char>,
) -> Option<Seq<char>> {
    if words.len() >= 10 && words[3] == "0A"@ && is_own_port(words[1], order, port) {
        Some(words[9])
    } else {
        None
    }
}

proof fn lemma_case(a: Seq<char>, b: Seq<char>)
    ensures
        same_but_case(a, b) == text::eq_ignore_case_spec(a, b),
{
    assert forall|x: char, y: char| #[trigger]
        texts::same_letter(x, y) == (text::ascii_lower(x) == text::ascii_lower(y)) by {
        if 'A' <= x <= 'Z' {
            assert(((x as u32 + 32) as char) as u32 == x as u32 + 32);
        }
        if 'A' <= y <= 'Z' {
            assert(((y as u32 + 32) as char) as u32 == y as u32 + 32);
        }
    }
    if same_but_case(a, b) {
        assert forall|i: int| 0 <= i < a.len() implies text::ascii_lower(#[trigger] a[i])
            == text::ascii_lower(b[i]) by {
            assert(texts::same_letter(a[i], b[i]));
        }
    }
    if text::eq_ignore_case_spec(a, b) {
        assert forall|i: int| 0 <= i < a.len() implies texts::same_letter(#[trigger] a[i], b[i]) by {
            assert(text::ascii_lower(a[i]) == text::ascii_lower(b[i]));
        }
    }
}

proof fn lemma_line_inode(line: Seq<char>, order: ByteOrder, port: Seq<char>)
    ensures
        daemon::line_inode(line, daemon::localhost(order), port) == inode_on(
            text::words_spec(line),
            order,
            port,
        ),
{
    let words = text::words_spec(line);
    let host = daemon::localhost(order);
    reveal_strlit("0100007F");
    reveal_strlit("7F000001");
    if words.len() >= 10 {
        let address = words[1];
        let n = text::position(address, ':');
        text::lemma_position_bound(address, ':');
        lemma_case(address.take(n), host);
        lemma_case(address.skip(n + 1), port);
        if is_own_port(address, order, port) {
            let front = address.take(8);
            assert forall|j: int| 0 <= j < 8 implies address[j] != ':' by {
                assert(front[j] == address[j]);
                assert(texts::same_letter(front[j], host[j]));
            }
            text::lemma_position(address, ':', 8);
        }
    }
}

proof fn lemma_first_inode(lines: Seq<Seq<char>>, order: ByteOrder, port: Seq<char>, i: int)
    requires
        0 <= i <= lines.len(),
        forall|j: int|
            0 <= j < i ==> inode_on(text::words_spec(#[trigger] lines[j]), order, port) is None,
        i < lines.len() ==> inode_on(text::words_spec(lines[i]), order, port) is Some,
    ensures
        daemon::first_inode(lines, daemon::localhost(order), port) == if i < lines.len() {
            inode_on(text::words_spec(lines[i]), order, port)
        } else {
            None
        },
    decreases lines.len(),
{
    if lines.len() > 0 {
        lemma_line_inode(lines[0], order, port);
        if i > 0 {
            assert(inode_on(text::words_spec(lines[0]), order, port) is None);
            let rest = lines.drop_first();
            assert forall|j: int| 0 <= j < i - 1 implies inode_on(
                text::words_spec(#[trigger] rest[j]),
                order,
                port,
            ) is None by {
                assert(rest[j] == lines[j + 1]);
            }
            if i < lines.len() {
                assert(rest[i - 1] == lines[i]);
            }
            lemma_first_inode(rest, order, port, i - 1);
        }
    }
}

/// The inode of the socket that listens on a port is that of the first line behind
/// the heading which is the line of one; without such a line there is none.
pub proof fn law_sockets_are_found(
    table: &str,
    order: ByteOrder,
    port: u16,
    lines: Vec<String>,
    hex: String,
    i: int,
    r: Option<String>,
)
    requires
        call_ensures(daemon::listening_inode, (table, order, port), r),
        call_ensures(text::lines, (table,), lines),
        call_ensures(text::hex_str, (port as u128, 4usize, true), hex),
        1 <= i,
        i <= lines@.len() || lines@.len() == 0,
        forall|j: int|
            1 <= j < i && j < lines@.len() ==> inode_on(
                text::words_spec((#[trigger] lines@[j])@),
                order,
                hex@,
            ) is None,
        i < lines@.len() ==> inode_on(text::words_spec(lines@[i]@), order, hex@) is Some,
    ensures
        i >= lines@.len() ==> r is None,
        i < lines@.len() ==> r is Some && Some(r.unwrap()@) == inode_on(
            text::words_spec(lines@[i]@),
            order,
            hex@,
        ),
{
    let all = text::texts(lines@);
    assert(all.len() == lines@.len());
    if lines@.len() > 0 {
        let rest = all.drop_first();
        assert forall|j: int| 0 <= j < i - 1 implies inode_on(
            text::words_spec(#[trigger] rest[j]),
            order,
            hex@,
        ) is None by {
            assert(rest[j] == lines@[j + 1]@);
        }
        if i < lines@.len() {
            assert(rest[i - 1] == lines@[i]@);
        }
        lemma_first_inode(rest, order, hex@, i - 1);
    }
}

/// Whether a process is one, and holds the socket of an inode open.
pub open spec fn holds_socket(p: Process, inode: Seq<char>) -> bool {
    text::u32_of(p.name@) is Some && exists|k: int|
        0 <= k < p.links@.len() && (#[trigger] p.links@[k])@ == "socket:["@ + inode + "]"@
}

/// The process behind a port is the first that holds its socket open, whatever else
/// it holds; a port on which no socket listens, or whose socket no process holds,
/// has none.
pub proof fn law_processes_are_found(
    table: &str,
    order: ByteOrder,
    processes: &Vec<Process>,
    port: u16,
    inode: Option<String>,
    i: int,
    r: Option<u32>,
)
    requires
        call_ensures(daemon::pid_listening_on, (table, order, processes, port), r),
        call_ensures(daemon::listening_inode, (table, order, port), inode),
        0 <= i <= processes@.len(),
        inode is Some ==> forall|j: int|
            0 <= j < i ==> !holds_socket(#[trigger] processes@[j], inode.unwrap()@),
        inode is Some && i < processes@.len() ==> holds_socket(processes@[i], inode.unwrap()@),
    ensures
        inode is None || i == processes@.len() ==> r is None,
        inode is Some && i < processes@.len() ==> r is Some && r == text::u32_of(
            processes@[i].name@,
        ),
{
    if inode is Some {
        let all = processes@;
        let file = daemon::socket_file(inode.unwrap()@);
        assert forall|j: int| 0 <= j < all.len() implies #[trigger] daemon::holds(all[j], file)
            == holds_socket(all[j], inode.unwrap()@) by {
            let p = all[j];
            let links = text::texts(p.links@);
            if links.contains(file) {
                let k = choose|k: int| 0 <= k < links.len() && links[k] == file;
                assert(p.links@[k]@ == file);
            }
            if holds_socket(p, inode.unwrap()@) {
                let k = choose|k: int|
                    0 <= k < p.links@.len() && (#[trigger] p.links@[k])@ == "socket:["@
                        + inode.unwrap()@ + "]"@;
                assert(links[k] == file);
            }
        }
        assert(daemon::is_holder(all, file, r));
        if r is Some {
            let k = choose|k: int|
                0 <= k < all.len() && daemon::holds(#[trigger] all[k], file) && text::u32_of(
                    all[k].name@,
                ) == r && forall|j: int| 0 <= j < k ==> !daemon::holds(#[trigger] all[j], file);
            assert(holds_socket(all[k], inode.unwrap()@));
            if i < k {
                assert(!daemon::holds(all[i], file));
            }
        } else if i < all.len() {
            assert(!daemon::holds(all[i], file));
        }
    }
}

/// Whether a line reports an error.
pub open spec fn reports_error(l: ProgressLine) -> bool {
    l.error is Some && l.error.unwrap()@.len() > 0
}

/// Whether a line counts bytes.
pub open spec fn counts(l: ProgressLine) -> bool {
    !reports_error(l) && l.total is Some && l.total.unwrap() > 0
}

/// A line that is no report changes nothing and shows nothing.
pub proof fn law_other_lines_are_passed_over(p: &mut Progress, reference: &str, r: ProgressAction)
    requires
        call_ensures(Progress::on_line, (p, reference, None::<&ProgressLine>), r),
    ensures
        r is Skip,
        *final(p) == *old(p),
{
}

/// An error ends a transfer, whatever else its line says; its message is the error
/// as it is where it speaks of the reference, and else behind the reference.
pub proof fn law_errors_end_a_transfer(
    p: &mut Progress,
    reference: &str,
    l: ProgressLine,
    r: ProgressAction,
)
    requires
        call_ensures(Progress::on_line, (p, reference, Some(&l)), r),
        reports_error(l),
    ensures
        r is Fail,
        (exists|i: int| #[trigger] texts::stands_at(l.error.unwrap()@, reference@, i)) ==> r->Fail_0@
            == l.error.unwrap()@,
        !(exists|i: int| #[trigger] texts::stands_at(l.error.unwrap()@, reference@, i))
            ==> r->Fail_0@ == reference@ + ": "@ + l.error.unwrap()@,
        final(p).saw_success == old(p).saw_success,
        final(p).last_status@ == old(p).last_status@,
{
    texts::lemma_find(l.error.unwrap()@, reference@, 0);
    if text::find(l.error.unwrap()@, reference@) is Some {
        let i = text::find(l.error.unwrap()@, reference@).unwrap();
        assert(texts::stands_at(l.error.unwrap()@, reference@, i));
    }
}

/// A count of bytes moves the bar, to where the bytes are that have come and never
/// beyond its end, and takes the status as its message.
pub proof fn law_counts_move_the_bar(
    p: &mut Progress,
    reference: &str,
    l: ProgressLine,
    r: ProgressAction,
)
    requires
        call_ensures(Progress::on_line, (p, reference, Some(&l)), r),
        counts(l),
    ensures
        r is Bar,
        r->total == l.total.unwrap(),
        l.completed is None ==> r->position == 0,
        l.completed is Some && l.completed.unwrap() <= l.total.unwrap() ==> r->position
            == l.completed.unwrap(),
        l.completed is Some && l.completed.unwrap() > l.total.unwrap() ==> r->position
            == l.total.unwrap(),
        r->message == l.status,
        final(p).saw_success == old(p).saw_success,
        final(p).last_status@ == old(p).last_status@,
{
}

/// A status is printed exactly where it is a new one, and is then the last one; a
/// transfer has succeeded from the line on that says so, and stays so.
pub proof fn law_statuses_are_printed(
    p: &mut Progress,
    reference: &str,
    l: ProgressLine,
    r: ProgressAction,
)
    requires
        call_ensures(Progress::on_line, (p, reference, Some(&l)), r),
        !reports_error(l),
        !counts(l),
    ensures
        r is Status,
        ({
            let new = l.status is Some && l.status.unwrap()@.len() > 0 && l.status.unwrap()@
                != old(p).last_status@;
            &&& r->Status_0 is Some <==> new
            &&& new ==> r->Status_0.unwrap()@ == l.status.unwrap()@ && final(p).last_status@
                == l.status.unwrap()@
            &&& !new ==> final(p).last_status@ == old(p).last_status@
        }),
        old(p).saw_success ==> final(p).saw_success,
        l.status is Some && l.status.unwrap()@ == "success"@ ==> final(p).saw_success,
        final(p).saw_success && !old(p).saw_success ==> l.status is Some && final(p).last_status@
            == "success"@,
{
    reveal_strlit("success");
}

/// A transfer starts without a success and without a status.
pub proof fn law_transfers_start(r: Progress)
    requires
        call_ensures(Progress::new, (), r),
    ensures
        !r.saw_success,
        r.last_status@.len() == 0,
{
}

/// A stream that ended is a success exactly where one was seen, and else an error
/// that names the reference.
pub proof fn law_how_a_stream_ends(p: &Progress, reference: &str, r: Result<(), String>)
    requires
        call_ensures(Progress::finish, (p, reference), r),
    ensures
        r is Ok <==> p.saw_success,
        r is Err ==> r->Err_0@ == reference@ + ": stream ended without a success status"@,
{
}

} // verus!
