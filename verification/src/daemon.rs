//! The client's side of the server: finding it, starting it, replacing one that
//! is out of date, and following what it streams.

use vstd::prelude::*;

use crate::text;

verus! {

/// The address of the server.
pub const SERVER: &'static str = "http://127.0.0.1:17434";

/// The port of the server.
pub const PORT: u16 = 17434;

// ---------------------------------------------------------------------------
// Finding and starting the server
// ---------------------------------------------------------------------------

/// What is done about the server before it is used.
#[derive(Debug, Clone, Copy, PartialEq, Eq, Structural)]
pub enum ServerPlan {
    /// It runs, and is of this build.
    Reuse,
    /// It runs, and is of another build: it is stopped, and started anew.
    Replace,
    /// It does not run.
    Start,
}

/// Whether a server is of this build: it says of which build it is, and that is
/// this one.
pub open spec fn is_current(build: Option<Seq<char>>, own: Seq<char>) -> bool {
    build matches Some(b) && b.len() > 0 && b == own
}

/// What is done about the server: one that does not say of which build it is
/// counts as out of date.
pub fn server_plan(alive: bool, build: Option<&str>, own: &str) -> (r: ServerPlan)
    ensures
        r == if !alive {
            ServerPlan::Start
        } else if is_current(
            text::opt_text(build),
            own@,
        ) {
            ServerPlan::Reuse
        } else {
            ServerPlan::Replace
        },
{
    if !alive {
        return ServerPlan::Start;
    }
    match build {
        Some(b) => if !b.is_empty() && text::same(b, own) {
            ServerPlan::Reuse
        } else {
            ServerPlan::Replace
        },
        None => ServerPlan::Replace,
    }
}

/// The arguments that start the server, with a model to load at once where one
/// is given.
pub fn serve_args(preload_model: &str) -> (r: Vec<String>)
    ensures
        text::texts(r@) == if preload_model@.len() > 0 {
            seq!["serve"@, preload_model@]
        } else {
            seq!["serve"@]
        },
{
    let mut args: Vec<String> = Vec::new();
    text::push_text(&mut args, "serve");
    if !preload_model.is_empty() {
        text::push_text(&mut args, preload_model);
    }
    assert(text::texts(args@) =~= if preload_model@.len() > 0 {
        seq!["serve"@, preload_model@]
    } else {
        seq!["serve"@]
    });
    args
}

/// How often a starting server is looked for, half a second apart.
pub const START_POLLS: u32 = 120;

/// How often a stopping server is looked for before it is killed, and how often
/// afterwards, a quarter of a second apart.
pub const STOP_POLLS: u32 = 20;

pub const KILL_POLLS: u32 = 40;

/// What follows from a look at a starting server.
#[derive(Debug, Clone, Copy, PartialEq, Eq, Structural)]
pub enum StartStep {
    Ready,
    Wait,
    GiveUp,
}

/// What follows from the look at a starting server after which `polls` looks were
/// taken.
pub fn start_step(polls: u32, alive: bool) -> (r: StartStep)
    ensures
        r == if alive {
            StartStep::Ready
        } else if polls < START_POLLS {
            StartStep::Wait
        } else {
            StartStep::GiveUp
        },
{
    if alive {
        StartStep::Ready
    } else if polls < START_POLLS {
        StartStep::Wait
    } else {
        StartStep::GiveUp
    }
}

/// What follows from a look at a stopping server.
#[derive(Debug, Clone, Copy, PartialEq, Eq, Structural)]
pub enum StopStep {
    /// It is gone.
    Stopped,
    /// It is still there: the next look comes later.
    Wait,
    /// It is still there, and has to be killed before the next look.
    Kill,
    /// It is left alone.
    GiveUp,
}

/// What follows where a server is looked at that was asked to stop; `polls` is
/// the number of looks before this one.
pub fn stop_step(polls: u32, alive: bool) -> (r: StopStep)
    ensures
        r == if polls >= STOP_POLLS + KILL_POLLS {
            StopStep::GiveUp
        } else if !alive {
            StopStep::Stopped
        } else if polls == STOP_POLLS - 1 {
            StopStep::Kill
        } else {
            StopStep::Wait
        },
{
    if polls >= STOP_POLLS + KILL_POLLS {
        StopStep::GiveUp
    } else if !alive {
        StopStep::Stopped
    } else if polls == STOP_POLLS - 1 {
        StopStep::Kill
    } else {
        StopStep::Wait
    }
}

/// Whether a model has to be pulled, given what the server said when it was asked
/// for the model: nothing where it could not be asked.
pub fn ensure_model_pulled(shown: Option<bool>) -> (pull: bool)
    ensures
        pull == (shown != Some(true)),
{
    match shown {
        Some(b) => !b,
        None => true,
    }
}

// ---------------------------------------------------------------------------
// The build
// ---------------------------------------------------------------------------

/// The SHA-256 digest of bytes.
pub uninterp spec fn sha256(bytes: Seq<u8>) -> Seq<u8>;

/// `sha2::Sha256::digest`: 32 bytes, named `sha256`.
#[verifier::external_body]
fn digest(bytes: &[u8]) -> (r: Vec<u8>)
    ensures
        r@ == sha256(bytes@),
        r@.len() == 32,
{
    <sha2::Sha256 as sha2::Digest>::digest(bytes).to_vec()
}

/// Bytes as hexadecimal digits in lower case, two for each.
pub open spec fn hex_of(bytes: Seq<u8>) -> Seq<char> {
    Seq::new(
        2 * bytes.len(),
        |i: int|
            text::hex_char(
                if i % 2 == 0 {
                    bytes[i / 2] as int / 16
                } else {
                    bytes[i / 2] as int % 16
                },
                false,
            ),
    )
}

/// `hex::encode`: two hexadecimal digits in lower case for each byte.
#[verifier::external_body]
fn encode_hex(bytes: &[u8]) -> (r: String)
    ensures
        r@ == hex_of(bytes@),
{
    hex::encode(bytes)
}

/// The mark of a build: the digest of the program's bytes.
pub fn build_fingerprint(bytes: &[u8]) -> (r: String)
    ensures
        r@ == hex_of(sha256(bytes@)),
        r@.len() == 64,
{
    let d = digest(bytes);
    encode_hex(d.as_slice())
}

/// Bytes that differ have different digits, so that builds with different digests
/// have different marks.
pub proof fn law_hex_tells_bytes_apart(a: Seq<u8>, b: Seq<u8>)
    requires
        hex_of(a) == hex_of(b),
    ensures
        a == b,
{
    assert(hex_of(a).len() == 2 * a.len());
    assert(hex_of(b).len() == 2 * b.len());
    assert(a.len() == b.len());
    assert forall|i: int| 0 <= i < a.len() implies a[i] == b[i] by {
        assert((2 * i) % 2 == 0 && (2 * i) / 2 == i);
        assert((2 * i + 1) % 2 == 1 && (2 * i + 1) / 2 == i);
        assert(hex_of(a)[2 * i] == text::hex_char(a[i] as int / 16, false));
        assert(hex_of(b)[2 * i] == text::hex_char(b[i] as int / 16, false));
        assert(hex_of(a)[2 * i + 1] == text::hex_char(a[i] as int % 16, false));
        assert(hex_of(b)[2 * i + 1] == text::hex_char(b[i] as int % 16, false));
        assert(a[i] as int / 16 == b[i] as int / 16);
        assert(a[i] as int % 16 == b[i] as int % 16);
    }
    assert(a =~= b);
}

// ---------------------------------------------------------------------------
// The process behind a port
// ---------------------------------------------------------------------------

/// The order in which a machine keeps the bytes of a number.
#[derive(Debug, Clone, Copy, PartialEq, Eq, Structural)]
pub enum ByteOrder {
    Little,
    Big,
}

/// The address 127.0.0.1 as the kernel writes it: as a number of the machine, from
/// the bytes that a packet would have.
pub open spec fn localhost(order: ByteOrder) -> Seq<char> {
    match order {
        ByteOrder::Little => "0100007F"@,
        ByteOrder::Big => "7F000001"@,
    }
}

/// The inode that a line of the kernel's table of sockets gives for a port in
/// hexadecimal, if it is the line of a socket that listens there on a host.
pub open spec fn line_inode(line: Seq<char>, host: Seq<char>, port: Seq<char>) -> Option<
    Seq<char>,
> {
    let fields = text::words_spec(line);
    if fields.len() < 10 || fields[3] != "0A"@ {
        None
    } else {
        let address = fields[1];
        let n = text::position(address, ':');
        if n < address.len() && text::eq_ignore_case_spec(address.take(n), host)
            && text::eq_ignore_case_spec(address.skip(n + 1), port) {
            Some(fields[9])
        } else {
            None
        }
    }
}

/// The inode that the first of some lines gives which gives one.
pub open spec fn first_inode(
    lines: Seq<Seq<char>>,
    host: Seq<char>,
    port: Seq<char>,
) -> Option<Seq<char>>
    decreases lines.len(),
{
    if lines.len() == 0 {
        None
    } else {
        match line_inode(lines[0], host, port) {
            Some(inode) => Some(inode),
            None => first_inode(lines.drop_first(), host, port),
        }
    }
}

/// The inode of the socket that listens on a port of 127.0.0.1, by the kernel's
/// table, whose first line is a heading.
pub open spec fn inode_in(table: Seq<char>, order: ByteOrder, port: u16) -> Option<Seq<char>> {
    let lines = text::lines_spec(table);
    if lines.len() == 0 {
        None
    } else {
        first_inode(lines.drop_first(), localhost(order), text::hex(port as nat, 4, true))
    }
}

fn inode_of_line(line: &str, host: &str, port: &str) -> (r: Option<String>)
    ensures
        match r {
            Some(s) => line_inode(line@, host@, port@) == Some(s@),
            None => line_inode(line@, host@, port@) is None,
        },
{
    let fields = text::words(line);
    let ghost f = text::words_spec(line@);
    assert(f.len() == fields@.len());
    if fields.len() < 10 {
        return None;
    }
    assert(f[3] == fields@[3]@ && f[1] == fields@[1]@ && f[9] == fields@[9]@);
    if !text::same(fields[3].as_str(), "0A") {
        return None;
    }
    let v = text::to_chars(fields[1].as_str());
    let n: usize = text::index_of(&v, 0, ':');
    assert(v@.skip(0) =~= f[1]);
    if n == v.len() {
        return None;
    }
    let local_host = text::from_chars(&v, 0, n);
    let local_port = text::from_chars(&v, n + 1, v.len());
    assert(local_host@ =~= f[1].take(n as int));
    assert(local_port@ =~= f[1].skip(n + 1));
    if text::eq_ignore_case(local_host.as_str(), host) && text::eq_ignore_case(
        local_port.as_str(),
        port,
    ) {
        Some(fields[9].clone())
    } else {
        None
    }
}

/// The inode of the socket that listens on a port of 127.0.0.1, by the kernel's
/// table.
pub fn listening_inode(table: &str, order: ByteOrder, port: u16) -> (r: Option<String>)
    ensures
        match r {
            Some(s) => inode_in(table@, order, port) == Some(s@),
            None => inode_in(table@, order, port) is None,
        },
{
    let host = match order {
        ByteOrder::Little => "0100007F",
        ByteOrder::Big => "7F000001",
    };
    let hex_port = text::hex_str(port as u128, 4, true);
    let lines = text::lines(table);
    let ghost all = text::texts(lines@);
    if lines.len() == 0 {
        assert(all.len() == 0);
        return None;
    }
    let mut i: usize = 1;
    assert(all.skip(1) =~= all.drop_first());
    while i < lines.len()
        invariant
            1 <= i <= lines@.len(),
            all == text::texts(lines@),
            all == text::lines_spec(table@),
            hex_port@ == text::hex(port as nat, 4, true),
            host@ == localhost(order),
            inode_in(table@, order, port) == first_inode(all.skip(i as int), host@, hex_port@),
        decreases lines.len() - i,
    {
        proof {
            assert(all.skip(i as int)[0] == lines@[i as int]@);
            assert(all.skip(i as int).drop_first() =~= all.skip(i + 1));
        }
        if let Some(inode) = inode_of_line(lines[i].as_str(), host, hex_port.as_str()) {
            return Some(inode);
        }
        i += 1;
    }
    None
}

/// A process: the name of its directory, and the targets of its open files.
pub struct Process {
    pub name: String,
    pub links: Vec<String>,
}

/// Whether a process is one, and holds a file open.
pub open spec fn holds(p: Process, target: Seq<char>) -> bool {
    text::u32_of(p.name@) is Some && text::texts(p.links@).contains(target)
}

/// The number of the first process that holds a file open.
pub open spec fn is_holder(processes: Seq<Process>, target: Seq<char>, r: Option<u32>) -> bool {
    match r {
        Some(pid) => exists|i: int|
            0 <= i < processes.len() && holds(#[trigger] processes[i], target) && text::u32_of(
                processes[i].name@,
            ) == Some(pid) && forall|j: int| 0 <= j < i ==> !holds(#[trigger] processes[j], target),
        None => forall|j: int| 0 <= j < processes.len() ==> !holds(#[trigger] processes[j], target),
    }
}

fn has_link(links: &Vec<String>, target: &str) -> (r: bool)
    ensures
        r == text::texts(links@).contains(target@),
{
    let mut i: usize = 0;
    while i < links.len()
        invariant
            i <= links@.len(),
            forall|j: int| 0 <= j < i ==> (#[trigger] links@[j])@ != target@,
        decreases links.len() - i,
    {
        if text::same(links[i].as_str(), target) {
            assert(text::texts(links@)[i as int] == target@);
            return true;
        }
        i += 1;
    }
    proof {
        if text::texts(links@).contains(target@) {
            let j = choose|j: int| 0 <= j < links@.len() && text::texts(links@)[j] == target@;
            assert(links@[j]@ != target@);
        }
    }
    false
}

fn holder(processes: &Vec<Process>, target: &str) -> (r: Option<u32>)
    ensures
        is_holder(processes@, target@, r),
{
    let mut i: usize = 0;
    while i < processes.len()
        invariant
            i <= processes@.len(),
            forall|j: int| 0 <= j < i ==> !holds(#[trigger] processes@[j], target@),
        decreases processes.len() - i,
    {
        if let Some(pid) = text::parse_u32(processes[i].name.as_str()) {
            if has_link(&processes[i].links, target) {
                assert(holds(processes@[i as int], target@));
                return Some(pid);
            }
        }
        assert(!holds(processes@[i as int], target@));
        i += 1;
    }
    None
}

/// The file of a socket as the kernel names it.
pub open spec fn socket_file(inode: Seq<char>) -> Seq<char> {
    "socket:["@ + inode + "]"@
}

/// The number of the process that listens on a port of 127.0.0.1: the first one
/// that holds the socket open which the kernel's table gives for the port.
pub fn pid_listening_on(
    table: &str,
    order: ByteOrder,
    processes: &Vec<Process>,
    port: u16,
) -> (r: Option<u32>)
    ensures
        match inode_in(table@, order, port) {
            Some(inode) => is_holder(processes@, socket_file(inode), r),
            None => r is None,
        },
{
    match listening_inode(table, order, port) {
        None => None,
        Some(inode) => {
            let mut target = "socket:[".to_owned();
            target.append(inode.as_str());
            target.append("]");
            holder(processes, target.as_str())
        },
    }
}

// ---------------------------------------------------------------------------
// Progress
// ---------------------------------------------------------------------------

/// A line of a streamed transfer.
pub struct ProgressLine {
    pub status: Option<String>,
    pub error: Option<String>,
    pub total: Option<u64>,
    pub completed: Option<u64>,
}

/// What the terminal shows for a line.
pub enum ProgressAction {
    /// Nothing.
    Skip,
    /// The transfer failed; a bar stays as it was drawn.
    Fail(String),
    /// A bar is drawn or moved, and takes the message where there is one.
    Bar { total: u64, position: u64, message: Option<String> },
    /// A bar goes away, and the text is printed where there is one.
    Status(Option<String>),
}

/// A transfer as it goes on.
pub struct Progress {
    pub saw_success: bool,
    pub last_status: String,
}

/// The message of a failure: it names the reference, by itself or in front.
pub open spec fn failure(reference: Seq<char>, error: Seq<char>) -> Seq<char> {
    if text::find(error, reference) is Some {
        error
    } else {
        reference + ": "@ + error
    }
}

impl ProgressLine {
    /// Whether the line reports an error.
    pub open spec fn is_error(self) -> bool {
        self.error matches Some(e) && e@.len() > 0
    }

    /// Whether the line reports a success.
    pub open spec fn is_success(self) -> bool {
        &&& !self.is_error() && !self.is_count()
        &&& self.status matches Some(s) && s@ == "success"@
    }

    /// Whether the line counts bytes.
    pub open spec fn is_count(self) -> bool {
        !self.is_error() && (self.total matches Some(t) && t > 0)
    }
}

impl Progress {
    pub fn new() -> (r: Self)
        ensures
            !r.saw_success,
            r.last_status@.len() == 0,
    {
        Progress { saw_success: false, last_status: String::new() }
    }

    /// The status that counts as the last one after a line.
    pub open spec fn status_after(self, line: ProgressLine) -> Seq<char> {
        match line.status {
            Some(s) => if !line.is_error() && !line.is_count() && s@.len() > 0 {
                s@
            } else {
                self.last_status@
            },
            None => self.last_status@,
        }
    }

    /// Whether the transfer has succeeded after a line: it had before, or the line
    /// says so.
    pub open spec fn success_after(self, line: ProgressLine) -> bool {
        ||| self.saw_success
        ||| !line.is_error() && !line.is_count() && line.status is Some && self.status_after(line)
            == "success"@
    }

    /// Takes a line of the stream; one that is no report is passed over. An error
    /// ends the transfer; a count of bytes moves the bar; a status is printed
    /// where it is a new one, and the transfer has succeeded once one says so.
    pub fn on_line(&mut self, reference: &str, line: Option<&ProgressLine>) -> (r: ProgressAction)
        ensures
            match line {
                None => r is Skip && *final(self) == *old(self),
                Some(l) => {
                    &&& final(self).last_status@ == old(self).status_after(*l)
                    &&& final(self).saw_success == old(self).success_after(*l)
                    &&& match r {
                        ProgressAction::Skip => false,
                        ProgressAction::Fail(m) => l.is_error() && m@ == failure(
                            reference@,
                            l.error.unwrap()@,
                        ),
                        ProgressAction::Bar { total, position, message } => {
                            &&& l.is_count() && l.total == Some(total)
                            &&& position == match l.completed {
                                Some(c) => if c < total {
                                    c
                                } else {
                                    total
                                },
                                None => 0,
                            }
                            &&& message == l.status
                        },
                        ProgressAction::Status(printed) => {
                            &&& !l.is_error() && !l.is_count()
                            &&& match printed {
                                Some(s) => s@ == old(self).status_after(*l) && s@
                                    != old(self).last_status@,
                                None => old(self).status_after(*l) == old(self).last_status@,
                            }
                        },
                    }
                },
            },
    {
        let line = match line {
            Some(l) => l,
            None => {
                return ProgressAction::Skip;
            },
        };
        if let Some(e) = &line.error {
            if !e.as_str().is_empty() {
                if text::contains_str(e.as_str(), reference) {
                    return ProgressAction::Fail(e.clone());
                }
                let mut m = reference.to_owned();
                m.append(": ");
                m.append(e.as_str());
                return ProgressAction::Fail(m);
            }
        }
        if let Some(total) = line.total {
            if total > 0 {
                let position: u64 = match line.completed {
                    Some(c) => if c < total {
                        c
                    } else {
                        total
                    },
                    None => 0,
                };
                let message = match &line.status {
                    Some(s) => Some(s.clone()),
                    None => None,
                };
                return ProgressAction::Bar { total, position, message };
            }
        }
        let mut printed: Option<String> = None;
        if let Some(status) = &line.status {
            if !status.as_str().is_empty() && !text::same(
                status.as_str(),
                self.last_status.as_str(),
            ) {
                printed = Some(status.clone());
                self.last_status = status.clone();
            }
            if text::same(self.last_status.as_str(), "success") {
                self.saw_success = true;
            }
        }
        ProgressAction::Status(printed)
    }

    /// How the transfer ended, where the stream ended without an error: an error
    /// after all, unless a success was ever reported.
    pub fn finish(&self, reference: &str) -> (r: Result<(), String>)
        ensures
            match r {
                Ok(_) => self.saw_success,
                Err(m) => !self.saw_success && m@ == reference@
                    + ": stream ended without a success status"@,
            },
    {
        if self.saw_success {
            Ok(())
        } else {
            let mut m = reference.to_owned();
            m.append(": stream ended without a success status");
            Err(m)
        }
    }
}

/// The message of a failure always names the reference.
pub proof fn law_failure_names_the_reference(reference: Seq<char>, error: Seq<char>)
    ensures
        text::find(failure(reference, error), reference) is Some,
{
    if text::find(error, reference) is None {
        let m = reference + ": "@ + error;
        assert(m.subrange(0, reference.len() as int) =~= reference);
        assert(text::find_from(m, reference, 0) == Some(0int));
    }
}

/// The same line twice is printed once.
pub proof fn law_status_is_printed_once(p: Progress, line: ProgressLine)
    ensures
        forall|q: Progress| #[trigger] q.last_status@ == p.status_after(line) ==> q.status_after(line)
            == q.last_status@,
{
}

/// Whether a transfer went from its start through the states `states`, one line of
/// its stream after the other.
pub open spec fn is_run(states: Seq<Progress>, lines: Seq<ProgressLine>) -> bool {
    &&& states.len() == lines.len() + 1
    &&& !states[0].saw_success && states[0].last_status@.len() == 0
    &&& forall|i: int|
        0 <= i < lines.len() ==> {
            &&& states[i + 1].last_status@ == states[i].status_after(#[trigger] lines[i])
            &&& states[i + 1].saw_success == states[i].success_after(lines[i])
        }
}

/// A transfer has succeeded where any line of its stream reported a success,
/// whatever the lines behind that one say, and only there.
pub proof fn law_one_success_is_enough(states: Seq<Progress>, lines: Seq<ProgressLine>)
    requires
        is_run(states, lines),
    ensures
        states.last().saw_success <==> exists|i: int|
            0 <= i < lines.len() && (#[trigger] lines[i]).is_success(),
{
    reveal_strlit("success");
    lemma_success_up_to(states, lines, lines.len() as int);
}

proof fn lemma_success_up_to(states: Seq<Progress>, lines: Seq<ProgressLine>, n: int)
    requires
        is_run(states, lines),
        0 <= n <= lines.len(),
        "success"@.len() > 0,
    ensures
        states[n].last_status@ == "success"@ ==> states[n].saw_success,
        states[n].saw_success <==> exists|i: int|
            0 <= i < n && (#[trigger] lines[i]).is_success(),
    decreases n,
{
    if n > 0 {
        lemma_success_up_to(states, lines, n - 1);
        assert(states[n].saw_success == states[n - 1].success_after(lines[n - 1]));
        assert(states[n].last_status@ == states[n - 1].status_after(lines[n - 1]));
        if lines[n - 1].is_success() {
            assert(states[n - 1].status_after(lines[n - 1]) == "success"@);
        }
    }
}

} // verus!
