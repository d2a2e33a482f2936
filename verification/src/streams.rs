//! In-memory pipes addressed by stream id.
//!
//! A pipe is either buffered (a bounded FIFO byte queue with at most one
//! parked reader and one parked writer) or a proxy for one of the host's
//! standard streams. The registry [`Streams`] owns every pipe; an
//! [`AnonPipe`] is a non-owning handle that names one of them.
//!
//! Parked parties are represented by wake tokens of a caller-chosen type `W`.
//! An operation that ends a wait hands the token back; the caller wakes it.

use bytes::Buf;
use bytes::BytesMut;
use std::collections::HashMap;
use vstd::prelude::*;
use vstd::slice::slice_subrange;

verus! {

broadcast use vstd::std_specs::hash::group_hash_axioms;

/// The maximum number of bytes a buffered pipe holds at any time.
pub const MAX_LEN: usize = 4096;

/// Which of the host's standard streams a proxy pipe stands for.
#[derive(Clone, Copy, Debug, PartialEq, Eq, Structural)]
pub enum Inherit {
    /// Writes go to the host's standard output; reads report end of stream.
    Stdout,
    /// Writes go to the host's standard error; reads report end of stream.
    Stderr,
    /// Reads come from the host's standard input; writes accept nothing.
    Stdin,
}

/// `bytes::BytesMut`: a growable byte buffer. Nothing is known of a value
/// but what [`buffered`] says it holds.
#[verifier::external_type_specification]
#[verifier::external_body]
pub struct ExBytesMut(bytes::BytesMut);

/// The bytes held by a byte buffer, oldest first.
pub uninterp spec fn buffered(b: bytes::BytesMut) -> Seq<u8>;

/// `BytesMut::with_capacity`: a fresh buffer holds no bytes.
#[verifier::external_body]
fn buffer_new() -> (b: BytesMut)
    ensures
        buffered(b) == Seq::<u8>::empty(),
{
    BytesMut::with_capacity(512)
}

/// `BytesMut::len`: the number of bytes held.
#[verifier::external_body]
fn buffer_len(b: &BytesMut) -> (n: usize)
    ensures
        n == buffered(*b).len(),
{
    b.len()
}

/// `BytesMut::extend_from_slice`: appends `data` behind the bytes held.
#[verifier::external_body]
fn buffer_extend(b: &mut BytesMut, data: &[u8])
    requires
        buffered(*old(b)).len() + data@.len() <= MAX_LEN,
    ensures
        buffered(*final(b)) == buffered(*old(b)) + data@,
    no_unwind
{
    b.extend_from_slice(data)
}

/// `Buf::advance` on a `BytesMut`: drops the `cnt` oldest bytes. The call
/// panics when `cnt` exceeds the number of bytes held.
#[verifier::external_body]
fn buffer_advance(b: &mut BytesMut, cnt: usize)
    requires
        cnt <= buffered(*old(b)).len(),
    ensures
        buffered(*final(b)) == buffered(*old(b)).skip(cnt as int),
    no_unwind
{
    b.advance(cnt)
}

/// Indexing a `BytesMut` by `..n` through its `Deref` to a byte slice: a copy
/// of the `n` oldest bytes.
#[verifier::external_body]
fn buffer_front(b: &BytesMut, n: usize) -> (v: Vec<u8>)
    requires
        n <= buffered(*b).len(),
    ensures
        v@ == buffered(*b).take(n as int),
{
    b[..n].to_vec()
}

/// The mathematical state of one pipe.
pub struct PipeState<W> {
    /// `None` for a buffered pipe, otherwise the host stream proxied.
    pub inherit: Option<Inherit>,
    /// Bytes written and not yet read, oldest first. Empty for a proxy.
    pub buffer: Seq<u8>,
    /// Whether the pipe was closed. Never set for a proxy.
    pub closed: bool,
    /// The token of the parked reader, if any.
    pub reader: Option<W>,
    /// The token of the parked writer, if any.
    pub writer: Option<W>,
}

impl<W> PipeState<W> {
    /// A pipe as it is right after allocation.
    pub open spec fn fresh(inherit: Option<Inherit>) -> Self {
        PipeState { inherit, buffer: Seq::empty(), closed: false, reader: None, writer: None }
    }

    pub open spec fn is_normal(self) -> bool {
        self.inherit is None
    }

    /// The invariant of every pipe: the buffer is bounded, and a proxy
    /// carries no state of its own.
    pub open spec fn wf(self) -> bool {
        &&& self.buffer.len() <= MAX_LEN
        &&& self.inherit is Some ==> self == Self::fresh(self.inherit)
    }
}

/// How a write ended.
pub enum PollWrite<W> {
    /// `written` bytes were accepted. `wake` is the reader that was parked
    /// and must now be woken.
    Ready { written: usize, wake: Option<W> },
    /// Nothing was accepted and the writer is now parked.
    Pending,
    /// The pipe proxies a host output stream: the bytes belong to it.
    Host(Inherit),
}

/// How a read ended.
pub enum PollRead<W> {
    /// `data` was taken from the pipe; empty means end of stream unless an
    /// empty read was asked for. `wake` is the writer that was parked and
    /// must now be woken.
    Ready { data: Vec<u8>, wake: Option<W> },
    /// Nothing is buffered and the reader is now parked.
    Pending,
    /// The pipe proxies the host's standard input: read from it.
    Host(Inherit),
}

/// The parties to wake after a pipe was closed.
pub struct Woken<W> {
    pub reader: Option<W>,
    pub writer: Option<W>,
}

/// The number of bytes a write of `input_len` bytes adds to a buffer that
/// holds `buffered` bytes.
pub open spec fn spec_accepted(buffered: nat, input_len: nat) -> nat {
    let free = (MAX_LEN - buffered) as nat;
    if free <= input_len { free } else { input_len }
}

/// The number of bytes a read for at most `max` bytes takes from a buffer
/// that holds `buffered` bytes.
pub open spec fn spec_taken(buffered: nat, max: nat) -> nat {
    if buffered <= max { buffered } else { max }
}

/// The state after a write of `data` by the party `token`.
pub open spec fn spec_write_state<W>(s: PipeState<W>, token: W, data: Seq<u8>) -> PipeState<W> {
    let n = spec_accepted(s.buffer.len(), data.len());
    if !s.is_normal() || s.closed {
        s
    } else if n > 0 {
        PipeState { buffer: s.buffer + data.take(n as int), reader: None, ..s }
    } else {
        PipeState { writer: Some(token), ..s }
    }
}

/// Whether `r` is what a write of `data` on state `s` reports.
pub open spec fn spec_write_result<W>(s: PipeState<W>, data: Seq<u8>, r: PollWrite<W>) -> bool {
    let n = spec_accepted(s.buffer.len(), data.len());
    match s.inherit {
        Some(Inherit::Stdin) => r == (PollWrite::<W>::Ready { written: 0, wake: None }),
        Some(host) => r == PollWrite::<W>::Host(host),
        None => if s.closed {
            r == (PollWrite::<W>::Ready { written: 0, wake: None })
        } else if n > 0 {
            r == (PollWrite::Ready { written: n as usize, wake: s.reader })
        } else {
            r is Pending
        },
    }
}

/// The state after a read for at most `max` bytes by the party `token`.
pub open spec fn spec_read_state<W>(s: PipeState<W>, token: W, max: nat) -> PipeState<W> {
    let n = spec_taken(s.buffer.len(), max);
    if !s.is_normal() {
        s
    } else if s.buffer.len() > 0 {
        PipeState { buffer: s.buffer.skip(n as int), writer: None, ..s }
    } else if s.closed {
        s
    } else {
        PipeState { reader: Some(token), ..s }
    }
}

/// The bytes a read for at most `max` bytes on state `s` returns, if it
/// returns any.
pub open spec fn spec_read_data<W>(s: PipeState<W>, max: nat) -> Seq<u8> {
    s.buffer.take(spec_taken(s.buffer.len(), max) as int)
}

/// Whether `r` is what a read for at most `max` bytes on state `s` reports.
pub open spec fn spec_read_result<W>(s: PipeState<W>, max: nat, r: PollRead<W>) -> bool {
    match s.inherit {
        Some(Inherit::Stdin) => r == PollRead::<W>::Host(Inherit::Stdin),
        Some(_) => r matches PollRead::Ready { data, wake } && data@ == Seq::<u8>::empty()
            && wake is None,
        None => if s.buffer.len() > 0 {
            r matches PollRead::Ready { data, wake } && data@ == spec_read_data(s, max) && wake
                == s.writer
        } else if s.closed {
            r matches PollRead::Ready { data, wake } && data@ == Seq::<u8>::empty() && wake is None
        } else {
            r is Pending
        },
    }
}

/// The state after a close.
pub open spec fn spec_close_state<W>(s: PipeState<W>) -> PipeState<W> {
    if s.is_normal() {
        PipeState { closed: true, reader: None, writer: None, ..s }
    } else {
        s
    }
}

/// The parties a close on state `s` hands back to be woken.
pub open spec fn spec_close_woken<W>(s: PipeState<W>) -> Woken<W> {
    if s.is_normal() {
        Woken { reader: s.reader, writer: s.writer }
    } else {
        Woken { reader: None, writer: None }
    }
}

/// A FIFO byte queue of at most `MAX_LEN` bytes.
struct Queue {
    bytes: BytesMut,
}

impl Queue {
    #[verifier::type_invariant]
    spec fn inv(self) -> bool {
        buffered(self.bytes).len() <= MAX_LEN
    }

    spec fn held(self) -> Seq<u8> {
        buffered(self.bytes)
    }

    fn new() -> (q: Self)
        ensures
            q.held() == Seq::<u8>::empty(),
    {
        Queue { bytes: buffer_new() }
    }

    fn len(&self) -> (n: usize)
        ensures
            n == self.held().len(),
            n <= MAX_LEN,
    {
        proof {
            use_type_invariant(self);
        }
        buffer_len(&self.bytes)
    }

    fn append(&mut self, data: &[u8])
        requires
            old(self).held().len() + data@.len() <= MAX_LEN,
        ensures
            final(self).held() == old(self).held() + data@,
    {
        buffer_extend(&mut self.bytes, data);
    }

    fn take_front(&mut self, n: usize) -> (front: Vec<u8>)
        requires
            n <= old(self).held().len(),
        ensures
            front@ == old(self).held().take(n as int),
            final(self).held() == old(self).held().skip(n as int),
    {
        proof {
            use_type_invariant(&*self);
        }
        let front = buffer_front(&self.bytes, n);
        buffer_advance(&mut self.bytes, n);
        front
    }
}

/// The queue and the parked parties of a buffered pipe.
pub struct AnonPipeImpl<W> {
    buffer: Queue,
    closed: bool,
    write_waker: Option<W>,
    read_waker: Option<W>,
}

impl<W> AnonPipeImpl<W> {
    closed spec fn state(self) -> PipeState<W> {
        PipeState {
            inherit: None,
            buffer: self.buffer.held(),
            closed: self.closed,
            reader: self.read_waker,
            writer: self.write_waker,
        }
    }
}

/// One pipe: its backing and, for a buffered pipe, its queue and parked
/// parties.
pub enum Pipe<W> {
    Impl(AnonPipeImpl<W>),
    Stdout,
    Stderr,
    Stdin,
}

impl<W> View for Pipe<W> {
    type V = PipeState<W>;

    closed spec fn view(&self) -> PipeState<W> {
        match *self {
            Pipe::Impl(imp) => imp.state(),
            Pipe::Stdout => PipeState::fresh(Some(Inherit::Stdout)),
            Pipe::Stderr => PipeState::fresh(Some(Inherit::Stderr)),
            Pipe::Stdin => PipeState::fresh(Some(Inherit::Stdin)),
        }
    }
}

impl<W> Pipe<W> {
    /// A new pipe: buffered when `inherit` is `None`, otherwise a proxy.
    pub fn new(inherit: Option<Inherit>) -> (p: Self)
        ensures
            p@ == PipeState::<W>::fresh(inherit),
    {
        match inherit {
            None => Pipe::Impl(
                AnonPipeImpl {
                    buffer: Queue::new(),
                    closed: false,
                    write_waker: None,
                    read_waker: None,
                },
            ),
            Some(Inherit::Stdout) => Pipe::Stdout,
            Some(Inherit::Stderr) => Pipe::Stderr,
            Some(Inherit::Stdin) => Pipe::Stdin,
        }
    }

    /// Whether the pipe is buffered, that is, not a proxy. Every pipe that
    /// exists is well formed: its buffer holds at most `MAX_LEN` bytes.
    pub fn is_normal(&self) -> (b: bool)
        ensures
            b == self@.is_normal(),
            self@.wf(),
    {
        match self {
            Pipe::Impl(imp) => {
                proof {
                    use_type_invariant(&imp.buffer);
                }
                true
            },
            _ => false,
        }
    }

    /// Writes as much of `buf` as fits. `token` is parked as the writer when
    /// nothing was accepted from an open buffered pipe.
    pub fn poll_write(&mut self, token: W, buf: &[u8]) -> (r: PollWrite<W>)
        ensures
            final(self)@ == spec_write_state(old(self)@, token, buf@),
            spec_write_result(old(self)@, buf@, r),
            old(self)@.wf(),
            final(self)@.wf(),
    {
        match self {
            Pipe::Impl(imp) => {
                let held = imp.buffer.len();
                if imp.closed {
                    return PollWrite::Ready { written: 0, wake: None };
                }
                let free: usize = MAX_LEN - held;
                let to_write: usize = if free <= buf.len() { free } else { buf.len() };
                if to_write > 0 {
                    imp.buffer.append(slice_subrange(buf, 0, to_write));
                    let wake = imp.read_waker.take();
                    PollWrite::Ready { written: to_write, wake }
                } else {
                    imp.write_waker = Some(token);
                    PollWrite::Pending
                }
            },
            Pipe::Stdout => PollWrite::Host(Inherit::Stdout),
            Pipe::Stderr => PollWrite::Host(Inherit::Stderr),
            Pipe::Stdin => PollWrite::Ready { written: 0, wake: None },
        }
    }

    /// Reads at most `max` bytes. `token` is parked as the reader when an
    /// open buffered pipe holds nothing.
    pub fn poll_read(&mut self, token: W, max: usize) -> (r: PollRead<W>)
        ensures
            final(self)@ == spec_read_state(old(self)@, token, max as nat),
            spec_read_result(old(self)@, max as nat, r),
            old(self)@.wf(),
            final(self)@.wf(),
    {
        match self {
            Pipe::Impl(imp) => {
                let available = imp.buffer.len();
                if available > 0 {
                    let to_read: usize = if available <= max { available } else { max };
                    let data = imp.buffer.take_front(to_read);
                    proof {
                        use_type_invariant(&imp.buffer);
                    }
                    let wake = imp.write_waker.take();
                    PollRead::Ready { data, wake }
                } else if imp.closed {
                    PollRead::Ready { data: Vec::new(), wake: None }
                } else {
                    imp.read_waker = Some(token);
                    PollRead::Pending
                }
            },
            Pipe::Stdout => PollRead::Ready { data: Vec::new(), wake: None },
            Pipe::Stderr => PollRead::Ready { data: Vec::new(), wake: None },
            Pipe::Stdin => PollRead::Host(Inherit::Stdin),
        }
    }

    /// The host output stream that a flush of this pipe must flush, if any.
    /// A buffered pipe and a proxy of the standard input have nothing to
    /// flush.
    pub fn poll_flush(&self) -> (host: Option<Inherit>)
        ensures
            host == match self@.inherit {
                Some(Inherit::Stdout) => Some(Inherit::Stdout),
                Some(Inherit::Stderr) => Some(Inherit::Stderr),
                _ => None,
            },
    {
        match self {
            Pipe::Stdout => Some(Inherit::Stdout),
            Pipe::Stderr => Some(Inherit::Stderr),
            _ => None,
        }
    }

    /// Closes a buffered pipe and hands back both parked parties; does
    /// nothing to a proxy. Bytes already buffered stay readable.
    pub fn close(&mut self) -> (woken: Woken<W>)
        ensures
            final(self)@ == spec_close_state(old(self)@),
            woken == spec_close_woken(old(self)@),
            old(self)@.wf(),
            final(self)@.wf(),
    {
        match self {
            Pipe::Impl(imp) => {
                proof {
                    use_type_invariant(&imp.buffer);
                }
                imp.closed = true;
                let reader = imp.read_waker.take();
                let writer = imp.write_waker.take();
                Woken { reader, writer }
            },
            _ => Woken { reader: None, writer: None },
        }
    }
}

/// A handle that names a pipe of a registry. It owns nothing: it is good for
/// as long as the registry holds the pipe.
#[derive(Clone, Copy, Debug)]
pub struct AnonPipe {
    id: u32,
    normal: bool,
}

impl AnonPipe {
    /// The stream id of the pipe.
    pub closed spec fn spec_id(&self) -> u32 {
        self.id
    }

    /// Whether the pipe is buffered.
    pub closed spec fn spec_is_normal(&self) -> bool {
        self.normal
    }

    /// The stream id of the pipe.
    #[verifier::when_used_as_spec(spec_id)]
    pub fn id(&self) -> (id: u32)
        ensures
            id == self.spec_id(),
    {
        self.id
    }

    /// Whether the pipe is buffered, that is, not connected to a standard
    /// stream of the host.
    #[verifier::when_used_as_spec(spec_is_normal)]
    pub fn is_normal(&self) -> (b: bool)
        ensures
            b == self.spec_is_normal(),
    {
        self.normal
    }
}

/// The registry of pipes: a map from stream id to pipe, and the next id to
/// hand out.
pub struct Streams<W> {
    pipes: HashMap<u32, Pipe<W>>,
    next_id: u32,
}

impl<W> Streams<W> {
    /// The invariant of a registry: every id in use was handed out before.
    /// It holds of a new registry and every method keeps it.
    pub closed spec fn wf(&self) -> bool {
        forall|id: u32| self.pipes@.contains_key(id) ==> id < self.next_id
    }

    /// The state of every pipe held, by stream id.
    pub closed spec fn pipes(&self) -> Map<u32, PipeState<W>> {
        self.pipes@.map_values(|p: Pipe<W>| p@)
    }

    /// The id that the next allocation returns.
    pub closed spec fn spec_next_id(&self) -> u32 {
        self.next_id
    }

    /// An empty registry whose first id is 0.
    pub fn new() -> (s: Self)
        ensures
            s.wf(),
            s.pipes() == Map::<u32, PipeState<W>>::empty(),
            s.spec_next_id() == 0,
    {
        let s = Streams { pipes: HashMap::new(), next_id: 0 };
        assert(s.pipes() =~= Map::<u32, PipeState<W>>::empty());
        s
    }

    /// The id that the next allocation returns.
    #[verifier::when_used_as_spec(spec_next_id)]
    pub fn next_id(&self) -> (id: u32)
        ensures
            id == self.spec_next_id(),
    {
        self.next_id
    }

    /// In a well-formed registry every id in use is below the next id.
    pub proof fn lemma_ids_below_next(&self)
        requires
            self.wf(),
        ensures
            forall|id: u32| self.pipes().contains_key(id) ==> id < self.spec_next_id(),
    {
    }

    /// Allocates a pipe under the next id: buffered when `inherit` is
    /// `None`, otherwise a proxy of that host stream.
    pub fn allocate(&mut self, inherit: Option<Inherit>) -> (pipe: AnonPipe)
        requires
            old(self).wf(),
            old(self).spec_next_id() < u32::MAX,
        ensures
            final(self).wf(),
            pipe.id() == old(self).spec_next_id(),
            pipe.is_normal() == (inherit is None),
            !old(self).pipes().contains_key(pipe.id()),
            final(self).spec_next_id() == old(self).spec_next_id() + 1,
            final(self).pipes() == old(self).pipes().insert(
                pipe.id(),
                PipeState::<W>::fresh(inherit),
            ),
    {
        let id = self.next_id;
        let normal = inherit.is_none();
        let pipe: Pipe<W> = Pipe::new(inherit);
        self.pipes.insert(id, pipe);
        self.next_id = id + 1;
        assert(self.pipes() =~= old(self).pipes().insert(id, PipeState::<W>::fresh(inherit)));
        AnonPipe { id, normal }
    }

    /// Removes the pipe `id`, closing it if it is buffered, and hands back
    /// the parties that were parked on it. Does nothing for an unknown id.
    pub fn free(&mut self, id: u32) -> (woken: Woken<W>)
        requires
            old(self).wf(),
        ensures
            final(self).wf(),
            final(self).pipes() == old(self).pipes().remove(id),
            final(self).spec_next_id() == old(self).spec_next_id(),
            woken == if old(self).pipes().contains_key(id) {
                spec_close_woken(old(self).pipes()[id])
            } else {
                Woken { reader: None, writer: None }
            },
    {
        let removed = self.pipes.remove(&id);
        assert(self.pipes() =~= old(self).pipes().remove(id));
        match removed {
            Some(pipe) => {
                let mut pipe = pipe;
                pipe.close()
            },
            None => Woken { reader: None, writer: None },
        }
    }

    /// The handle of the pipe `id`, or `None` if the registry holds none.
    pub fn by_id(&self, id: u32) -> (pipe: Option<AnonPipe>)
        ensures
            pipe is Some <==> self.pipes().contains_key(id),
            pipe matches Some(p) ==> p.id() == id && p.is_normal() == self.pipes()[id].is_normal()
                && self.pipes()[id].wf(),
    {
        match self.pipes.get(&id) {
            Some(pipe) => Some(AnonPipe { id, normal: pipe.is_normal() }),
            None => None,
        }
    }

    /// Writes to the pipe `id` as [`Pipe::poll_write`] does; `None` if the
    /// registry holds no such pipe. No other pipe changes.
    pub fn poll_write(&mut self, id: u32, token: W, buf: &[u8]) -> (r: Option<PollWrite<W>>)
        requires
            old(self).wf(),
        ensures
            final(self).wf(),
            final(self).spec_next_id() == old(self).spec_next_id(),
            r is Some <==> old(self).pipes().contains_key(id),
            r is None ==> final(self).pipes() == old(self).pipes(),
            r matches Some(poll) ==> {
                &&& spec_write_result(old(self).pipes()[id], buf@, poll)
                &&& final(self).pipes() == old(self).pipes().insert(
                    id,
                    spec_write_state(old(self).pipes()[id], token, buf@),
                )
                &&& final(self).pipes()[id].wf()
            },
    {
        match self.pipes.remove(&id) {
            Some(pipe) => {
                let mut pipe = pipe;
                let poll = pipe.poll_write(token, buf);
                self.pipes.insert(id, pipe);
                assert(self.pipes() =~= old(self).pipes().insert(
                    id,
                    spec_write_state(old(self).pipes()[id], token, buf@),
                ));
                Some(poll)
            },
            None => {
                assert(self.pipes() =~= old(self).pipes());
                None
            },
        }
    }

    /// Reads from the pipe `id` as [`Pipe::poll_read`] does; `None` if the
    /// registry holds no such pipe. No other pipe changes.
    pub fn poll_read(&mut self, id: u32, token: W, max: usize) -> (r: Option<PollRead<W>>)
        requires
            old(self).wf(),
        ensures
            final(self).wf(),
            final(self).spec_next_id() == old(self).spec_next_id(),
            r is Some <==> old(self).pipes().contains_key(id),
            r is None ==> final(self).pipes() == old(self).pipes(),
            r matches Some(poll) ==> {
                &&& spec_read_result(old(self).pipes()[id], max as nat, poll)
                &&& final(self).pipes() == old(self).pipes().insert(
                    id,
                    spec_read_state(old(self).pipes()[id], token, max as nat),
                )
                &&& final(self).pipes()[id].wf()
            },
    {
        match self.pipes.remove(&id) {
            Some(pipe) => {
                let mut pipe = pipe;
                let poll = pipe.poll_read(token, max);
                self.pipes.insert(id, pipe);
                assert(self.pipes() =~= old(self).pipes().insert(
                    id,
                    spec_read_state(old(self).pipes()[id], token, max as nat),
                ));
                Some(poll)
            },
            None => {
                assert(self.pipes() =~= old(self).pipes());
                None
            },
        }
    }

    /// The host stream to flush for the pipe `id`, as [`Pipe::poll_flush`]
    /// gives it; the outer `None` if the registry holds no such pipe.
    pub fn poll_flush(&self, id: u32) -> (r: Option<Option<Inherit>>)
        ensures
            r is Some <==> self.pipes().contains_key(id),
            r matches Some(host) ==> host == match self.pipes()[id].inherit {
                Some(Inherit::Stdout) => Some(Inherit::Stdout),
                Some(Inherit::Stderr) => Some(Inherit::Stderr),
                _ => None,
            },
    {
        match self.pipes.get(&id) {
            Some(pipe) => Some(pipe.poll_flush()),
            None => None,
        }
    }

    /// Closes the pipe `id` as [`Pipe::close`] does and keeps it in the
    /// registry; `None` if the registry holds no such pipe.
    pub fn close(&mut self, id: u32) -> (r: Option<Woken<W>>)
        requires
            old(self).wf(),
        ensures
            final(self).wf(),
            final(self).spec_next_id() == old(self).spec_next_id(),
            r is Some <==> old(self).pipes().contains_key(id),
            r is None ==> final(self).pipes() == old(self).pipes(),
            r matches Some(woken) ==> {
                &&& woken == spec_close_woken(old(self).pipes()[id])
                &&& final(self).pipes() == old(self).pipes().insert(
                    id,
                    spec_close_state(old(self).pipes()[id]),
                )
            },
    {
        match self.pipes.remove(&id) {
            Some(pipe) => {
                let mut pipe = pipe;
                let woken = pipe.close();
                self.pipes.insert(id, pipe);
                assert(self.pipes() =~= old(self).pipes().insert(
                    id,
                    spec_close_state(old(self).pipes()[id]),
                ));
                Some(woken)
            },
            None => {
                assert(self.pipes() =~= old(self).pipes());
                None
            },
        }
    }
}

/// One operation on a pipe, as a history records it.
pub enum PipeOp<W> {
    Write { token: W, data: Seq<u8> },
    Read { token: W, max: nat },
    Close,
}

/// A pipe together with all bytes its writers were told were accepted and all
/// bytes its readers were handed, each in order.
pub struct Tally<W> {
    pub state: PipeState<W>,
    pub written: Seq<u8>,
    pub read: Seq<u8>,
}

/// The bytes of `data` that a write on state `s` reports as written into the
/// pipe.
pub open spec fn spec_write_taken<W>(s: PipeState<W>, data: Seq<u8>) -> Seq<u8> {
    if s.is_normal() && !s.closed {
        data.take(spec_accepted(s.buffer.len(), data.len()) as int)
    } else {
        Seq::empty()
    }
}

/// The bytes that a read for at most `max` bytes on state `s` hands out of
/// the pipe.
pub open spec fn spec_read_given<W>(s: PipeState<W>, max: nat) -> Seq<u8> {
    if s.is_normal() {
        spec_read_data(s, max)
    } else {
        Seq::empty()
    }
}

pub open spec fn spec_step<W>(t: Tally<W>, op: PipeOp<W>) -> Tally<W> {
    match op {
        PipeOp::Write { token, data } => Tally {
            state: spec_write_state(t.state, token, data),
            written: t.written + spec_write_taken(t.state, data),
            read: t.read,
        },
        PipeOp::Read { token, max } => Tally {
            state: spec_read_state(t.state, token, max),
            written: t.written,
            read: t.read + spec_read_given(t.state, max),
        },
        PipeOp::Close => Tally { state: spec_close_state(t.state), ..t },
    }
}

pub open spec fn spec_run<W>(t: Tally<W>, ops: Seq<PipeOp<W>>) -> Tally<W>
    decreases ops.len(),
{
    if ops.len() == 0 {
        t
    } else {
        spec_step(spec_run(t, ops.drop_last()), ops.last())
    }
}

/// Every operation keeps a well-formed pipe well formed: in particular a
/// buffered pipe never holds more than `MAX_LEN` bytes.
pub proof fn lemma_step_bounded<W>(s: PipeState<W>, op: PipeOp<W>)
    requires
        s.wf(),
    ensures
        spec_step(Tally { state: s, written: Seq::empty(), read: Seq::empty() }, op).state.wf(),
        spec_step(
            Tally { state: s, written: Seq::empty(), read: Seq::empty() },
            op,
        ).state.buffer.len() <= MAX_LEN,
{
}

/// Conservation: over any history of writes, reads and closes of a buffered
/// pipe, the bytes accepted from writers are exactly the bytes handed to
/// readers followed by the bytes still buffered, in order. A close drops
/// nothing.
pub proof fn lemma_pipe_conservation<W>(t: Tally<W>, ops: Seq<PipeOp<W>>)
    requires
        t.state.is_normal(),
        t.state.wf(),
        t.written == t.read + t.state.buffer,
    ensures
        spec_run(t, ops).state.is_normal(),
        spec_run(t, ops).state.wf(),
        spec_run(t, ops).written == spec_run(t, ops).read + spec_run(t, ops).state.buffer,
        spec_run(t, ops).written.len() == spec_run(t, ops).read.len() + spec_run(
            t,
            ops,
        ).state.buffer.len(),
    decreases ops.len(),
{
    if ops.len() > 0 {
        lemma_pipe_conservation(t, ops.drop_last());
        let before = spec_run(t, ops.drop_last());
        let after = spec_step(before, ops.last());
        match ops.last() {
            PipeOp::Write { token, data } => {
                assert(after.written =~= after.read + after.state.buffer);
            },
            PipeOp::Read { token, max } => {
                let n = spec_taken(before.state.buffer.len(), max) as int;
                assert(before.state.buffer =~= before.state.buffer.take(n)
                    + before.state.buffer.skip(n));
                assert(after.written =~= after.read + after.state.buffer);
            },
            PipeOp::Close => {},
        }
    }
}

/// A write to a closed buffered pipe reports zero bytes and changes nothing.
pub proof fn lemma_write_closed<W>(s: PipeState<W>, token: W, data: Seq<u8>, r: PollWrite<W>)
    requires
        s.is_normal(),
        s.closed,
        spec_write_result(s, data, r),
    ensures
        r == (PollWrite::<W>::Ready { written: 0, wake: None }),
        spec_write_state(s, token, data) == s,
{
}

/// A read from an empty closed buffered pipe reports end of stream.
pub proof fn lemma_read_closed_empty<W>(s: PipeState<W>, token: W, max: nat, r: PollRead<W>)
    requires
        s.is_normal(),
        s.closed,
        s.buffer.len() == 0,
        spec_read_result(s, max, r),
    ensures
        r matches PollRead::Ready { data, wake } && data@.len() == 0 && wake is None,
        spec_read_state(s, token, max) == s,
{
}

/// After a close, reads hand out every byte that was buffered, in order,
/// before they report end of stream.
pub proof fn lemma_close_keeps_buffer<W>(s: PipeState<W>, max: nat)
    requires
        s.is_normal(),
    ensures
        spec_close_state(s).buffer == s.buffer,
        spec_read_given(spec_close_state(s), max) == s.buffer.take(
            spec_taken(s.buffer.len(), max) as int,
        ),
{
}

/// A read from a proxy of the standard output or error reports end of stream
/// and a write to a proxy of the standard input reports zero bytes, whatever
/// else the pipe holds.
pub proof fn lemma_proxy_wrong_way<W>(
    s: PipeState<W>,
    token: W,
    data: Seq<u8>,
    max: nat,
    w: PollWrite<W>,
    r: PollRead<W>,
)
    requires
        s.inherit is Some,
        spec_write_result(s, data, w),
        spec_read_result(s, max, r),
    ensures
        s.inherit != Some(Inherit::Stdin) ==> (r matches PollRead::Ready { data: d, wake }
            && d@.len() == 0 && wake is None),
        s.inherit == Some(Inherit::Stdin) ==> w == (PollWrite::<W>::Ready {
            written: 0,
            wake: None,
        }),
        spec_write_state(s, token, data) == s,
        spec_read_state(s, token, max) == s,
        spec_close_state(s) == s,
{
}

/// One step of the history of a registry, as far as ids are concerned: an
/// allocation hands out the next id and raises it by one; every other
/// operation leaves the next id as it is.
pub enum RegistryOp {
    Allocate,
    Other,
}

/// The ids that the allocations among `ops` hand out, in order, when the
/// next id is `next_id` at the start.
pub open spec fn spec_ids(next_id: nat, ops: Seq<RegistryOp>) -> Seq<nat>
    decreases ops.len(),
{
    if ops.len() == 0 {
        Seq::empty()
    } else {
        let ids = spec_ids(next_id, ops.drop_last());
        match ops.last() {
            RegistryOp::Allocate => ids.push(next_id + ids.len()),
            RegistryOp::Other => ids,
        }
    }
}

/// The allocation at position `k` of a history hands out the id that lies
/// `k` above the first.
pub proof fn lemma_id_at(next_id: nat, ops: Seq<RegistryOp>, k: int)
    requires
        0 <= k < spec_ids(next_id, ops).len(),
    ensures
        spec_ids(next_id, ops)[k] == next_id + k,
    decreases ops.len(),
{
    if ops.len() > 0 {
        let ids = spec_ids(next_id, ops.drop_last());
        if k < ids.len() {
            lemma_id_at(next_id, ops.drop_last(), k);
        }
    }
}

/// No duplicate ids: over any history of a registry, the ids handed out are
/// strictly increasing, so none is handed out twice.
pub proof fn lemma_ids_strictly_increasing(next_id: nat, ops: Seq<RegistryOp>, i: int, j: int)
    requires
        0 <= i < j < spec_ids(next_id, ops).len(),
    ensures
        spec_ids(next_id, ops)[i] < spec_ids(next_id, ops)[j],
{
    lemma_id_at(next_id, ops, i);
    lemma_id_at(next_id, ops, j);
}

} // verus!
