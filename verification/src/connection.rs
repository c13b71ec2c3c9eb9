//! The byte transport of one connection.
//!
//! The socket itself is not here. The caller waits for readiness, makes one
//! attempt to read or to write, and reports what came of it as an event;
//! the functions of `Connection` say what follows. A report that the
//! attempt would block always means: wait and try again.

use vstd::prelude::*;
use vstd::string::*;
use crate::bindings::{string_from_utf8_lossy, utf8_lossy};

verus! {

/// The kind of socket under a connection.
#[derive(Debug, Clone, Copy, PartialEq, Eq, Structural)]
pub enum ConnectionType {
    /// A plain TCP socket.
    Plain,
    /// A socket wrapped in TLS.
    TLS,
}

/// What came of one attempt to read.
#[derive(Debug, PartialEq, Eq)]
pub enum ReadEvent {
    /// The attempt succeeded with these bytes; none at the end of the
    /// stream.
    Data(Vec<u8>),
    /// The socket was not ready after all.
    WouldBlock,
    /// The attempt, or the wait before it, failed.
    Failed,
}

/// What came of one attempt to write.
#[derive(Debug, Clone, Copy, PartialEq, Eq, Structural)]
pub enum WriteEvent {
    /// The socket accepted this many bytes.
    Written(usize),
    /// The socket was not ready after all.
    WouldBlock,
    /// The attempt, or the wait before it, failed.
    Failed,
}

/// What follows an attempt to read.
#[derive(Debug, PartialEq, Eq)]
pub enum ReadAction<T> {
    /// Wait until the socket is readable and try again.
    Retry,
    /// The read is complete, with this result.
    Deliver(T),
    /// The connection is to be given up.
    Abort,
}

/// What follows an attempt to write.
#[derive(Debug, Clone, Copy, PartialEq, Eq, Structural)]
pub enum WriteAction {
    /// Wait until the socket is writable and write what is left of the
    /// payload, from this offset on.
    Continue(usize),
    /// The whole payload has been accepted.
    Done,
    /// The connection is to be given up.
    Abort,
}

/// The transport of one connection: the kind of its socket and the size of
/// the buffer that one attempt to read may fill.
#[derive(Debug)]
pub struct Connection {
    connection_type: ConnectionType,
    read_buffer_size: usize,
}

/// A read event with the bytes as a sequence.
pub enum ReadSignal {
    Data(Seq<u8>),
    WouldBlock,
    Failed,
}

impl View for ReadEvent {
    type V = ReadSignal;

    open spec fn view(&self) -> ReadSignal {
        match self {
            ReadEvent::Data(bytes) => ReadSignal::Data(bytes@),
            ReadEvent::WouldBlock => ReadSignal::WouldBlock,
            ReadEvent::Failed => ReadSignal::Failed,
        }
    }
}

/// How a read stands after a series of attempts.
pub enum ReadOutcome {
    /// No attempt has succeeded or failed yet.
    Pending,
    /// The read is complete, with these bytes.
    Delivered(Seq<u8>),
    /// The connection is given up.
    Aborted,
}

/// How a write stands after a series of attempts.
pub enum WriteOutcome {
    /// This many bytes of the payload have been accepted, and more are
    /// left.
    Pending(nat),
    /// The whole payload has been accepted.
    Completed,
    /// The connection is given up.
    Aborted,
}

/// The test for a byte other than NUL.
pub open spec fn nonzero() -> spec_fn(u8) -> bool {
    |b: u8| b != 0
}

/// `bytes` without the NUL bytes among them.
pub open spec fn without_nul(bytes: Seq<u8>) -> Seq<u8> {
    bytes.filter(nonzero())
}

/// `s` without a single trailing line end: a line feed, with a carriage
/// return before it if there is one.
pub open spec fn without_line_end(s: Seq<char>) -> Seq<char> {
    if s.len() >= 2 && s[s.len() - 1] == '\n' && s[s.len() - 2] == '\r' {
        s.take(s.len() - 2)
    } else if s.len() >= 1 && s[s.len() - 1] == '\n' {
        s.take(s.len() - 1)
    } else {
        s
    }
}

/// The text that is made of the bytes read: the bytes without NUL, decoded
/// as UTF-8 with replacement of what is ill-formed, without a trailing line
/// end.
pub open spec fn text_read(bytes: Seq<u8>) -> Seq<char> {
    without_line_end(utf8_lossy(without_nul(bytes)))
}

/// How a read stands after one attempt: the bytes of a successful attempt
/// are delivered without their NUL bytes, a would-block report leaves the
/// read pending, and a failure gives the connection up.
pub open spec fn read_step(event: ReadSignal) -> ReadOutcome {
    match event {
        ReadSignal::Data(bytes) => ReadOutcome::Delivered(without_nul(bytes)),
        ReadSignal::WouldBlock => ReadOutcome::Pending,
        ReadSignal::Failed => ReadOutcome::Aborted,
    }
}

/// How a read stands after the attempts reported by `events`: the first
/// attempt that does not leave it pending decides.
pub open spec fn read_run(events: Seq<ReadSignal>) -> ReadOutcome
    decreases events.len(),
{
    if events.len() == 0 {
        ReadOutcome::Pending
    } else {
        match read_step(events.first()) {
            ReadOutcome::Pending => read_run(events.drop_first()),
            decided => decided,
        }
    }
}

/// How a read stands after the step that `action` ends.
pub open spec fn read_outcome(action: ReadAction<Vec<u8>>) -> ReadOutcome {
    match action {
        ReadAction::Retry => ReadOutcome::Pending,
        ReadAction::Deliver(bytes) => ReadOutcome::Delivered(bytes@),
        ReadAction::Abort => ReadOutcome::Aborted,
    }
}

/// What follows one attempt to write a payload of `len` bytes of which
/// `sent` were accepted before.
pub open spec fn write_step(len: nat, sent: nat, event: WriteEvent) -> WriteAction {
    match event {
        WriteEvent::Written(n) => if sent + n >= len {
            WriteAction::Done
        } else {
            WriteAction::Continue((sent + n) as usize)
        },
        WriteEvent::WouldBlock => WriteAction::Continue(sent as usize),
        WriteEvent::Failed => WriteAction::Abort,
    }
}

/// How the write of a payload of `len` bytes, of which `sent` were
/// accepted before, stands after the attempts reported by `events`.
pub open spec fn write_run(len: nat, sent: nat, events: Seq<WriteEvent>) -> WriteOutcome
    decreases events.len(),
{
    if events.len() == 0 {
        WriteOutcome::Pending(sent)
    } else {
        match write_step(len, sent, events.first()) {
            WriteAction::Continue(next) => write_run(len, next as nat, events.drop_first()),
            WriteAction::Done => WriteOutcome::Completed,
            WriteAction::Abort => WriteOutcome::Aborted,
        }
    }
}

/// The number of bytes that the socket accepted in the attempts reported
/// by `events`.
pub open spec fn accepted(events: Seq<WriteEvent>) -> nat
    decreases events.len(),
{
    if events.len() == 0 {
        0
    } else {
        let first: nat = match events.first() {
            WriteEvent::Written(n) => n as nat,
            _ => 0,
        };
        first + accepted(events.drop_first())
    }
}

/// The test for a read event other than a would-block report.
pub open spec fn read_decides() -> spec_fn(ReadSignal) -> bool {
    |e: ReadSignal| e != ReadSignal::WouldBlock
}

/// The test for a write event other than a would-block report.
pub open spec fn write_decides() -> spec_fn(WriteEvent) -> bool {
    |e: WriteEvent| e != WriteEvent::WouldBlock
}

/// Would-block reports do not show in the outcome of a read: the outcome
/// is that of the same attempts without them.
pub proof fn lemma_read_ignores_would_block(events: Seq<ReadSignal>)
    ensures
        read_run(events) == read_run(events.filter(read_decides())),
    decreases events.len(),
{
    if events.len() == 0 {
        assert(events.filter(read_decides()) =~= events) by {
            reveal(Seq::filter);
        }
    } else {
        let rest = events.drop_first();
        assert(events =~= seq![events.first()] + rest);
        rest.lemma_filter_prepend(events.first(), read_decides());
        lemma_read_ignores_would_block(rest);
        if events.first() != ReadSignal::WouldBlock {
            let kept = seq![events.first()] + rest.filter(read_decides());
            assert(kept.first() == events.first());
        } else {
            assert(Seq::<ReadSignal>::empty() + rest.filter(read_decides()) =~= rest.filter(
                read_decides(),
            ));
        }
    }
}

/// A read is given up only if an attempt failed.
pub proof fn lemma_read_aborts_on_failure_only(events: Seq<ReadSignal>)
    requires
        read_run(events) == ReadOutcome::Aborted,
    ensures
        events.contains(ReadSignal::Failed),
    decreases events.len(),
{
    if events.len() > 0 {
        if events.first() == ReadSignal::WouldBlock {
            lemma_read_aborts_on_failure_only(events.drop_first());
            let i = choose|i: int|
                0 <= i < events.drop_first().len() && events.drop_first()[i] == ReadSignal::Failed;
            assert(events[i + 1] == ReadSignal::Failed);
        } else {
            assert(events[0] == ReadSignal::Failed);
        }
    }
}

/// Would-block reports do not show in the outcome of a write: the outcome
/// is that of the same attempts without them.
pub proof fn lemma_write_ignores_would_block(len: nat, sent: nat, events: Seq<WriteEvent>)
    requires
        sent <= len <= usize::MAX,
    ensures
        write_run(len, sent, events) == write_run(len, sent, events.filter(write_decides())),
    decreases events.len(),
{
    if events.len() == 0 {
        assert(events.filter(write_decides()) =~= events) by {
            reveal(Seq::filter);
        }
    } else {
        let rest = events.drop_first();
        assert(events =~= seq![events.first()] + rest);
        rest.lemma_filter_prepend(events.first(), write_decides());
        if events.first() != WriteEvent::WouldBlock {
            let kept = seq![events.first()] + rest.filter(write_decides());
            assert(kept.first() == events.first());
            assert(kept.drop_first() =~= rest.filter(write_decides()));
            match write_step(len, sent, events.first()) {
                WriteAction::Continue(next) => {
                    lemma_write_ignores_would_block(len, next as nat, rest);
                },
                _ => {},
            }
        } else {
            assert(Seq::<WriteEvent>::empty() + rest.filter(write_decides()) =~= rest.filter(
                write_decides(),
            ));
            lemma_write_ignores_would_block(len, sent, rest);
        }
    }
}

/// A write goes on until the whole payload is accepted: while it is
/// pending, the offset is the number of bytes accepted so far, and it is
/// complete only when the socket has accepted as many bytes as the payload
/// has.
pub proof fn lemma_write_accepts_all(len: nat, sent: nat, events: Seq<WriteEvent>)
    requires
        sent <= len <= usize::MAX,
    ensures
        match write_run(len, sent, events) {
            WriteOutcome::Pending(now) => now == sent + accepted(events) && now <= len,
            WriteOutcome::Completed => sent + accepted(events) >= len,
            WriteOutcome::Aborted => true,
        },
    decreases events.len(),
{
    if events.len() > 0 {
        match write_step(len, sent, events.first()) {
            WriteAction::Continue(next) => {
                lemma_write_accepts_all(len, next as nat, events.drop_first());
            },
            _ => {},
        }
    }
}

/// A write is given up only if an attempt failed.
pub proof fn lemma_write_aborts_on_failure_only(len: nat, sent: nat, events: Seq<WriteEvent>)
    requires
        write_run(len, sent, events) == WriteOutcome::Aborted,
    ensures
        events.contains(WriteEvent::Failed),
    decreases events.len(),
{
    if events.len() > 0 {
        match write_step(len, sent, events.first()) {
            WriteAction::Continue(next) => {
                lemma_write_aborts_on_failure_only(len, next as nat, events.drop_first());
                let i = choose|i: int|
                    0 <= i < events.drop_first().len() && events.drop_first()[i]
                        == WriteEvent::Failed;
                assert(events[i + 1] == WriteEvent::Failed);
            },
            WriteAction::Done => {},
            WriteAction::Abort => {
                assert(events[0] == WriteEvent::Failed);
            },
        }
    }
}

impl Connection {
    /// The kind of socket under the connection.
    pub closed spec fn kind(&self) -> ConnectionType {
        self.connection_type
    }

    /// The size of the read buffer.
    pub closed spec fn buffer_size(&self) -> usize {
        self.read_buffer_size
    }

    /// The transport for a socket of the given kind.
    pub fn new(connection_type: ConnectionType, read_buffer_size: usize) -> (r: Self)
        ensures
            r.kind() == connection_type,
            r.buffer_size() == read_buffer_size,
    {
        Connection { connection_type, read_buffer_size }
    }

    /// Whether the connection runs over TLS.
    pub fn is_secure(&self) -> (b: bool)
        ensures
            b == (self.kind() == ConnectionType::TLS),
    {
        match self.connection_type {
            ConnectionType::TLS => true,
            ConnectionType::Plain => false,
        }
    }

    /// The size of the buffer that one attempt to read may fill.
    pub fn read_buffer_size(&self) -> (n: usize)
        ensures
            n == self.buffer_size(),
    {
        self.read_buffer_size
    }

    /// What follows an attempt to read: the bytes of a successful attempt
    /// are delivered without their NUL bytes, a would-block report asks for
    /// another attempt, and a failure gives the connection up.
    pub fn read_to_vec(&self, event: ReadEvent) -> (r: ReadAction<Vec<u8>>)
        ensures
            read_outcome(r) == read_step(event@),
    {
        match event {
            ReadEvent::Data(bytes) => ReadAction::Deliver(strip_nul(bytes.as_slice())),
            ReadEvent::WouldBlock => ReadAction::Retry,
            ReadEvent::Failed => ReadAction::Abort,
        }
    }

    /// What follows an attempt to read, with the bytes of a successful
    /// attempt delivered as text.
    pub fn read_to_string(&self, event: ReadEvent) -> (r: ReadAction<String>)
        ensures
            match event@ {
                ReadSignal::Data(bytes) => r matches ReadAction::Deliver(s) && s@ == text_read(
                    bytes,
                ),
                ReadSignal::WouldBlock => r is Retry,
                ReadSignal::Failed => r is Abort,
            },
    {
        match self.read_to_vec(event) {
            ReadAction::Deliver(bytes) => {
                let mut text = string_from_utf8_lossy(bytes.as_slice());
                trim_newline(&mut text);
                ReadAction::Deliver(text)
            },
            ReadAction::Retry => ReadAction::Retry,
            ReadAction::Abort => ReadAction::Abort,
        }
    }

    /// What follows an attempt to write `data`, of which `sent` bytes were
    /// accepted before: the write goes on until all of `data` is accepted,
    /// and a failure gives the connection up.
    pub fn write_bytes(&self, data: &[u8], sent: usize, event: WriteEvent) -> (r: WriteAction)
        ensures
            r == write_step(data@.len(), sent as nat, event),
    {
        match event {
            WriteEvent::Written(n) => {
                if sent >= data.len() || n >= data.len() - sent {
                    WriteAction::Done
                } else {
                    WriteAction::Continue(sent + n)
                }
            },
            WriteEvent::WouldBlock => WriteAction::Continue(sent),
            WriteEvent::Failed => WriteAction::Abort,
        }
    }

    /// What follows an attempt to write the bytes of `data`, of which
    /// `sent` were accepted before.
    pub fn write_string(&self, data: &str, sent: usize, event: WriteEvent) -> (r: WriteAction)
        ensures
            r == write_step(data.spec_bytes().len(), sent as nat, event),
    {
        self.write_bytes(data.as_bytes(), sent, event)
    }
}

/// A copy of `bytes` without the NUL bytes among them.
pub fn strip_nul(bytes: &[u8]) -> (r: Vec<u8>)
    ensures
        r@ == without_nul(bytes@),
{
    let mut r: Vec<u8> = Vec::new();
    let mut i: usize = 0;
    assert(bytes@.take(0).filter(nonzero()) =~= Seq::<u8>::empty()) by {
        reveal(Seq::filter);
        assert(bytes@.take(0) =~= Seq::<u8>::empty());
    }
    while i < bytes.len()
        invariant
            i <= bytes.len(),
            r@ == bytes@.take(i as int).filter(nonzero()),
        decreases bytes.len() - i,
    {
        proof {
            assert(bytes@.take(i + 1) =~= bytes@.take(i as int).push(bytes@[i as int]));
            bytes@.take(i as int).lemma_filter_push(bytes@[i as int], nonzero());
        }
        if bytes[i] != 0 {
            r.push(bytes[i]);
        }
        i += 1;
    }
    assert(bytes@.take(i as int) =~= bytes@);
    r
}

/// Removes a single trailing line end (`"\n"` or `"\r\n"`) from what was
/// read from the peer.
pub fn trim_newline(s: &mut String)
    ensures
        final(s)@ == without_line_end(old(s)@),
{
    match s.pop() {
        Some(last) => {
            if last == '\n' {
                match s.pop() {
                    Some(before) => {
                        if before != '\r' {
                            s.push(before);
                            assert(s@ =~= old(s)@.take(old(s)@.len() - 1));
                        } else {
                            assert(s@ =~= old(s)@.take(old(s)@.len() - 2));
                        }
                    },
                    None => {
                        assert(s@ =~= old(s)@.take(old(s)@.len() - 1));
                    },
                }
            } else {
                s.push(last);
                assert(s@ =~= old(s)@);
            }
        },
        None => {},
    }
}

} // verus!
