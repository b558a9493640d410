//! The streaming side of a job: the terminal chunk that reports its
//! outcome, and the relay that interleaves keep-alive chunks with it.
use vstd::prelude::*;
use crate::text::append_bytes;
use vstd::utf8::{encode_utf8, is_ascii_chars, is_ascii_chars_encode_utf8};
use crate::workspace::{StageError, fault_message};

verus! {

/// The base64 alphabet: `A-Z`, `a-z`, `0-9`, `+`, `/`, as byte values.
pub open spec fn b64_symbol(n: int) -> u8 {
    if n < 26 {
        (65 + n) as u8
    } else if n < 52 {
        (97 + n - 26) as u8
    } else if n < 62 {
        (48 + n - 52) as u8
    } else if n == 62 {
        43u8
    } else {
        47u8
    }
}

/// Standard base64 with `=` padding, three bytes to four symbols.
pub open spec fn base64_of(b: Seq<u8>) -> Seq<u8>
    decreases b.len(),
{
    if b.len() == 0 {
        Seq::empty()
    } else if b.len() == 1 {
        seq![b64_symbol((b[0] as int) / 4), b64_symbol(((b[0] as int) % 4) * 16), 61u8, 61u8]
    } else if b.len() == 2 {
        seq![
            b64_symbol((b[0] as int) / 4),
            b64_symbol(((b[0] as int) % 4) * 16 + (b[1] as int) / 16),
            b64_symbol(((b[1] as int) % 16) * 4),
            61u8,
        ]
    } else {
        seq![
            b64_symbol((b[0] as int) / 4),
            b64_symbol(((b[0] as int) % 4) * 16 + (b[1] as int) / 16),
            b64_symbol(((b[1] as int) % 16) * 4 + (b[2] as int) / 64),
            b64_symbol((b[2] as int) % 64),
        ] + base64_of(b.subrange(3, b.len() as int))
    }
}

fn b64_symbol_exec(n: u8) -> (r: u8)
    requires
        n < 64,
    ensures
        r == b64_symbol(n as int),
{
    if n < 26 {
        65 + n
    } else if n < 52 {
        97 + n - 26
    } else if n < 62 {
        48 + n - 52
    } else if n == 62 {
        43
    } else {
        47
    }
}

/// Encodes `b` as base64, so that binary output travels as printable text.
pub fn base64_encode(b: &[u8]) -> (r: Vec<u8>)
    ensures
        r@ == base64_of(b@),
{
    let n = b.len();
    let mut out: Vec<u8> = Vec::new();
    let mut i: usize = 0;
    assert(b@.subrange(0, n as int) =~= b@);
    assert(out@ + base64_of(b@) =~= base64_of(b@));
    while i < n
        invariant
            n == b@.len(),
            i <= n,
            out@ + base64_of(b@.subrange(i as int, n as int)) == base64_of(b@),
        decreases n - i,
    {
        let ghost rest = b@.subrange(i as int, n as int);
        let ghost out0 = out@;
        let b0 = b[i];
        assert(rest[0] == b0);
        if n - i == 1 {
            out.push(b64_symbol_exec(b0 / 4));
            out.push(b64_symbol_exec((b0 % 4) * 16));
            out.push(61);
            out.push(61);
            assert(b@.subrange(n as int, n as int).len() == 0);
            assert(out@ + base64_of(b@.subrange(n as int, n as int)) =~= out0 + base64_of(rest));
            i = n;
        } else if n - i == 2 {
            let b1 = b[i + 1];
            assert(rest[1] == b1);
            out.push(b64_symbol_exec(b0 / 4));
            out.push(b64_symbol_exec((b0 % 4) * 16 + b1 / 16));
            out.push(b64_symbol_exec((b1 % 16) * 4));
            out.push(61);
            assert(b@.subrange(n as int, n as int).len() == 0);
            assert(out@ + base64_of(b@.subrange(n as int, n as int)) =~= out0 + base64_of(rest));
            i = n;
        } else {
            let b1 = b[i + 1];
            let b2 = b[i + 2];
            assert(rest[1] == b1 && rest[2] == b2);
            out.push(b64_symbol_exec(b0 / 4));
            out.push(b64_symbol_exec((b0 % 4) * 16 + b1 / 16));
            out.push(b64_symbol_exec((b1 % 16) * 4 + b2 / 64));
            out.push(b64_symbol_exec(b2 % 64));
            assert(rest.subrange(3, rest.len() as int) =~= b@.subrange(i + 3, n as int));
            assert(out@ + base64_of(b@.subrange(i + 3, n as int)) =~= out0 + base64_of(rest));
            i = i + 3;
        }
    }
    assert(b@.subrange(n as int, n as int).len() == 0);
    assert(out@ + base64_of(b@.subrange(n as int, n as int)) =~= out@);
    out
}

/// The kind of command a job runs.
#[derive(Clone, Copy, Debug, PartialEq, Eq, Structural)]
pub enum JobKind {
    Build,
    Test,
    Interface,
}

pub open spec fn error_heading(kind: JobKind) -> Seq<char> {
    match kind {
        JobKind::Build => "Build Errors: \n"@,
        JobKind::Test => "Test Errors: \n"@,
        JobKind::Interface => "Interface Errors: \n"@,
    }
}

/// How a job ended.
pub enum Outcome {
    /// A text command succeeded with this standard output.
    Output(Vec<u8>),
    /// A build succeeded and produced this artifact.
    Artifact(Vec<u8>),
    /// The contained tool failed; its combined output.
    ToolFailure(Vec<u8>),
    /// Staging refused the job's input.
    Rejected(StageError),
    /// The workspace could not be written or the container could not start.
    Fault(String),
    /// The build succeeded but its artifact could not be read back.
    ArtifactUnreadable(String),
    /// The job did not finish before its deadline.
    TimedOut,
}

pub open spec fn artifact_start() -> Seq<char> {
    "<<<WASM_BASE64_START>>>\n"@
}

pub open spec fn artifact_end() -> Seq<char> {
    "\n<<<WASM_BASE64_END>>>\n"@
}

/// The single terminal chunk of a job.
pub open spec fn terminal_of(kind: JobKind, o: Outcome) -> Seq<u8> {
    match o {
        Outcome::Output(b) => b@,
        Outcome::Artifact(b) => encode_utf8(artifact_start()) + base64_of(b@) + encode_utf8(artifact_end()),
        Outcome::ToolFailure(e) => encode_utf8(error_heading(kind)) + e@ + seq![10u8],
        Outcome::Rejected(e) => encode_utf8(error_heading(kind)) + encode_utf8(fault_message(e@)) + seq![10u8],
        Outcome::Fault(m) => encode_utf8(error_heading(kind)) + encode_utf8(m@) + seq![10u8],
        Outcome::ArtifactUnreadable(m) => encode_utf8("Compile Error: "@) + encode_utf8(m@) + seq![10u8],
        Outcome::TimedOut => encode_utf8("Timeout Error: \n"@) + encode_utf8("job exceeded its deadline"@) + seq![10u8],
    }
}

/// A timeout is never reported as a failure of the tool: for every kind
/// of job, the chunk of a timeout differs from the chunk of any tool
/// failure, whatever output that failure carried.
pub proof fn lemma_timeout_is_distinct(kind: JobKind, e: Vec<u8>)
    ensures
        terminal_of(kind, Outcome::TimedOut) != terminal_of(kind, Outcome::ToolFailure(e)),
{
    let t = "Timeout Error: \n"@;
    let h = error_heading(kind);
    reveal_strlit("Timeout Error: \n");
    reveal_strlit("Build Errors: \n");
    reveal_strlit("Test Errors: \n");
    reveal_strlit("Interface Errors: \n");
    assert(is_ascii_chars(t));
    assert(is_ascii_chars(h));
    is_ascii_chars_encode_utf8(t);
    is_ascii_chars_encode_utf8(h);
    let a = terminal_of(kind, Outcome::TimedOut);
    let b = terminal_of(kind, Outcome::ToolFailure(e));
    assert(a[1] == encode_utf8(t)[1]);
    assert(b[1] == encode_utf8(h)[1]);
    assert(t[1] as u8 != h[1] as u8);
}

fn error_heading_exec(kind: JobKind) -> (r: &'static str)
    ensures
        r@ == error_heading(kind),
{
    match kind {
        JobKind::Build => "Build Errors: \n",
        JobKind::Test => "Test Errors: \n",
        JobKind::Interface => "Interface Errors: \n",
    }
}

fn error_block(heading: &str, body: &[u8]) -> (r: Vec<u8>)
    ensures
        r@ == encode_utf8(heading@) + body@ + seq![10u8],
{
    let mut r: Vec<u8> = Vec::new();
    append_bytes(&mut r, heading.as_bytes());
    append_bytes(&mut r, body);
    r.push(10);
    r
}

/// Frames how a job ended as its terminal chunk: text output as it is, an
/// artifact as base64 between sentinel lines (so the stream stays
/// printable), and every failure as a headed error block. A timeout has a
/// heading of its own, so it never reads like a failure of the tool.
pub fn terminal_chunk(kind: JobKind, o: Outcome) -> (r: Vec<u8>)
    ensures
        r@ == terminal_of(kind, o),
{
    match o {
        Outcome::Output(b) => b,
        Outcome::Artifact(b) => {
            let mut r: Vec<u8> = Vec::new();
            append_bytes(&mut r, "<<<WASM_BASE64_START>>>\n".as_bytes());
            let e = base64_encode(b.as_slice());
            append_bytes(&mut r, e.as_slice());
            append_bytes(&mut r, "\n<<<WASM_BASE64_END>>>\n".as_bytes());
            r
        },
        Outcome::ToolFailure(e) => error_block(error_heading_exec(kind), e.as_slice()),
        Outcome::Rejected(e) => {
            let m = e.message();
            error_block(error_heading_exec(kind), m.as_str().as_bytes())
        },
        Outcome::Fault(m) => error_block(error_heading_exec(kind), m.as_str().as_bytes()),
        Outcome::ArtifactUnreadable(m) => error_block("Compile Error: ", m.as_str().as_bytes()),
        Outcome::TimedOut => error_block("Timeout Error: \n", "job exceeded its deadline".as_bytes()),
    }
}

/// What the driver of a job reports to its relay.
pub enum RelayEvent {
    /// The heartbeat interval elapsed.
    Tick,
    /// A chunk could not be delivered: the client has gone.
    SendFailed,
    /// The job ended.
    Finished(Outcome),
}

/// What the driver does next.
pub enum RelayAction {
    /// Send the keep-alive chunk.
    Heartbeat,
    /// Send this terminal chunk, then close the channel.
    Emit(Vec<u8>),
    /// Stop relaying and close the channel.
    Stop,
}

/// An event as the relay's decisions see it.
#[derive(Clone, Copy, PartialEq, Eq, Structural)]
pub enum Signal {
    Tick,
    SendFailed,
    Finished,
}

/// An action as the relay's decisions see it.
#[derive(Clone, Copy, PartialEq, Eq, Structural)]
pub enum Act {
    Heartbeat,
    Emit,
    Stop,
}

pub open spec fn signal_of(ev: RelayEvent) -> Signal {
    match ev {
        RelayEvent::Tick => Signal::Tick,
        RelayEvent::SendFailed => Signal::SendFailed,
        RelayEvent::Finished(_) => Signal::Finished,
    }
}

pub open spec fn act_of(a: RelayAction) -> Act {
    match a {
        RelayAction::Heartbeat => Act::Heartbeat,
        RelayAction::Emit(_) => Act::Emit,
        RelayAction::Stop => Act::Stop,
    }
}

/// One decision of the relay: from whether it has finished and what
/// happened, whether it has finished afterwards and what it does.
pub open spec fn relay_step(done: bool, s: Signal) -> (bool, Act) {
    if done {
        (true, Act::Stop)
    } else {
        match s {
            Signal::Tick => (false, Act::Heartbeat),
            Signal::SendFailed => (true, Act::Stop),
            Signal::Finished => (true, Act::Emit),
        }
    }
}

/// The actions of a relay that meets `sigs` in turn.
pub open spec fn relay_run(done: bool, sigs: Seq<Signal>) -> Seq<Act>
    decreases sigs.len(),
{
    if sigs.len() == 0 {
        Seq::empty()
    } else {
        let (d, a) = relay_step(done, sigs[0]);
        seq![a] + relay_run(d, sigs.drop_first())
    }
}

proof fn lemma_finished_relay_stops(sigs: Seq<Signal>)
    ensures
        forall|j: int| 0 <= j < sigs.len() ==> #[trigger] relay_run(true, sigs)[j] == Act::Stop,
    decreases sigs.len(),
{
    if sigs.len() > 0 {
        lemma_finished_relay_stops(sigs.drop_first());
        lemma_run_len(true, sigs.drop_first());
        let r = relay_run(true, sigs);
        assert(r == seq![Act::Stop] + relay_run(true, sigs.drop_first()));
        assert forall|j: int| 0 <= j < sigs.len() implies #[trigger] r[j] == Act::Stop by {
            if j > 0 {
                assert(r[j] == relay_run(true, sigs.drop_first())[j - 1]);
            }
        }
    }
}

/// Over any run of events, a relay sends at most one terminal chunk and
/// nothing after it; every heartbeat comes before it, preceded only by
/// heartbeats.
pub proof fn lemma_single_terminal_chunk(sigs: Seq<Signal>)
    ensures
        relay_run(false, sigs).len() == sigs.len(),
        forall|i: int, j: int|
            0 <= i < j < sigs.len() && #[trigger] relay_run(false, sigs)[i] == Act::Emit
                ==> #[trigger] relay_run(false, sigs)[j] == Act::Stop,
        forall|i: int, j: int|
            0 <= i < j < sigs.len() && #[trigger] relay_run(false, sigs)[j] == Act::Heartbeat
                ==> #[trigger] relay_run(false, sigs)[i] == Act::Heartbeat,
    decreases sigs.len(),
{
    if sigs.len() > 0 {
        let rest = sigs.drop_first();
        let r = relay_run(false, sigs);
        lemma_single_terminal_chunk(rest);
        lemma_finished_relay_stops(rest);
        lemma_run_len(true, rest);
        lemma_run_len(false, rest);
        let (d, a) = relay_step(false, sigs[0]);
        assert(r == seq![a] + relay_run(d, rest));
        assert forall|i: int, j: int|
            0 <= i < j < sigs.len() && #[trigger] r[i] == Act::Emit implies #[trigger] r[j] == Act::Stop by {
            assert(r[j] == relay_run(d, rest)[j - 1]);
            if i > 0 {
                assert(r[i] == relay_run(d, rest)[i - 1]);
            }
        }
        assert forall|i: int, j: int|
            0 <= i < j < sigs.len() && #[trigger] r[j] == Act::Heartbeat implies #[trigger] r[i] == Act::Heartbeat by {
            assert(r[j] == relay_run(d, rest)[j - 1]);
            if i > 0 {
                assert(r[i] == relay_run(d, rest)[i - 1]);
            }
        }
    }
}

proof fn lemma_run_len(done: bool, sigs: Seq<Signal>)
    ensures
        relay_run(done, sigs).len() == sigs.len(),
    decreases sigs.len(),
{
    if sigs.len() > 0 {
        let (d, a) = relay_step(done, sigs[0]);
        lemma_run_len(d, sigs.drop_first());
    }
}

/// The keep-alive chunk: a single space.
pub fn heartbeat_chunk() -> (r: Vec<u8>)
    ensures
        r@ == seq![32u8],
{
    let mut r: Vec<u8> = Vec::new();
    r.push(32);
    r
}

/// The relay of one job's output: heartbeats while the job runs, then
/// exactly one terminal chunk. A closed channel ends it without one.
pub struct Relay {
    kind: JobKind,
    done: bool,
}

impl Relay {
    pub closed spec fn kind_of(&self) -> JobKind {
        self.kind
    }

    /// The relay has sent its terminal chunk or stopped.
    pub closed spec fn finished(&self) -> bool {
        self.done
    }

    pub fn new(kind: JobKind) -> (r: Relay)
        ensures
            !r.finished(),
            r.kind_of() == kind,
    {
        Relay { kind, done: false }
    }

    pub fn is_finished(&self) -> (r: bool)
        ensures
            r == self.finished(),
    {
        self.done
    }

    /// Decides the next action. Before the end every tick is a heartbeat;
    /// the job's end is one terminal chunk; after that, or once the client
    /// has gone, nothing more is sent.
    pub fn step(&mut self, ev: RelayEvent) -> (a: RelayAction)
        ensures
            final(self).kind_of() == old(self).kind_of(),
            (final(self).finished(), act_of(a)) == relay_step(old(self).finished(), signal_of(ev)),
            old(self).finished() ==> a is Stop && final(self).finished(),
            !old(self).finished() ==> match ev {
                RelayEvent::Tick => a is Heartbeat && !final(self).finished(),
                RelayEvent::SendFailed => a is Stop && final(self).finished(),
                RelayEvent::Finished(o) => (a matches RelayAction::Emit(c) && c@ == terminal_of(
                    old(self).kind_of(),
                    o,
                )) && final(self).finished(),
            },
    {
        if self.done {
            return RelayAction::Stop;
        }
        match ev {
            RelayEvent::Tick => RelayAction::Heartbeat,
            RelayEvent::SendFailed => {
                self.done = true;
                RelayAction::Stop
            },
            RelayEvent::Finished(o) => {
                self.done = true;
                RelayAction::Emit(terminal_chunk(self.kind, o))
            },
        }
    }
}

} // verus!
