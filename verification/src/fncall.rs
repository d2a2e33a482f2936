//! The dispatcher: the calls that the host makes on the worker, and the
//! reactions of the host to the frames that the worker sends.
//!
//! Nothing here waits. A call that needs an answer registers a waiter under
//! a fresh tag and hands back the frame to send; the reaction to the answer
//! hands the waiter back together with the answer. Sending, receiving and
//! waking are the caller's part.

use crate::jvm::command::Stdio;
use crate::streams::{
    spec_close_state, spec_close_woken, spec_read_result, spec_read_state, spec_write_result,
    spec_write_state, AnonPipe, Inherit, PipeState, PollRead, PollWrite, Streams, Woken,
};
use crate::structs::{
    Close, CloseResult, Duration, ErrorKind, Exec, ExecError, ExecResult, ExecView, FromJvm,
    IoError, IoErrorView, Read, ReadResult, ToJvm, ToJvmView, Wait, WaitResult, Write,
    WriteResult,
};
use crate::text::{clone_strings, decimal, spec_decimal};
use crate::wire::spec_texts;
use std::collections::HashMap;
use vstd::prelude::*;
use vstd::string::StringExecFns;

verus! {

broadcast use vstd::std_specs::hash::group_hash_axioms;

/// A callback registry: the waiters of the calls in flight, by tag.
pub struct AsyncQueue<S> {
    queue: HashMap<u32, S>,
}

impl<S> AsyncQueue<S> {
    /// The waiters registered and not yet fulfilled, by tag.
    pub closed spec fn pending(&self) -> Map<u32, S> {
        self.queue@
    }

    /// A registry without waiters.
    pub fn new() -> (q: Self)
        ensures
            q.pending() == Map::<u32, S>::empty(),
    {
        AsyncQueue { queue: HashMap::new() }
    }

    /// Registers `waiter` under `tag`, in place of any waiter that was
    /// registered under it.
    pub fn start_callback(&mut self, tag: u32, waiter: S)
        ensures
            final(self).pending() == old(self).pending().insert(tag, waiter),
    {
        self.queue.insert(tag, waiter);
    }

    /// Drops every waiter. A requester whose waiter was dropped observes
    /// that its call was abandoned.
    pub fn clear(&mut self)
        ensures
            final(self).pending() == Map::<u32, S>::empty(),
    {
        self.queue.clear();
    }

    /// Removes the waiter registered under `tag` and hands it back. An
    /// unknown tag gives `None` and changes nothing.
    pub fn finish_callback(&mut self, tag: u32) -> (waiter: Option<S>)
        ensures
            waiter == if old(self).pending().contains_key(tag) {
                Some(old(self).pending()[tag])
            } else {
                None
            },
            final(self).pending() == old(self).pending().remove(tag),
            !old(self).pending().contains_key(tag) ==> final(self).pending() == old(
                self,
            ).pending(),
    {
        let waiter = self.queue.remove(&tag);
        assert(!old(self).pending().contains_key(tag) ==> self.pending() =~= old(
            self,
        ).pending());
        waiter
    }
}

/// A response fulfils at most one waiter: once the waiter under a tag was
/// handed back, no waiter is left under that tag, and every other waiter
/// stays where it was.
pub proof fn lemma_finish_at_most_once<S>(pending: Map<u32, S>, tag: u32, other: u32)
    ensures
        !pending.remove(tag).contains_key(tag),
        pending.remove(tag).remove(tag) == pending.remove(tag),
        other != tag ==> pending.remove(tag).contains_key(other) == pending.contains_key(other),
        other != tag && pending.contains_key(other) ==> pending.remove(tag)[other]
            == pending[other],
{
    assert(pending.remove(tag).remove(tag) =~= pending.remove(tag));
}

/// The text of the error for a stream id that names no pipe.
pub open spec fn spec_invalid_stream(stream: u32) -> IoErrorView {
    IoErrorView {
        kind: ErrorKind::Other,
        message: "invalid stream id "@ + spec_decimal(stream as nat),
    }
}

/// The error for a stream id that names no pipe.
pub fn invalid_stream(stream: u32) -> (e: IoError)
    ensures
        e@ == spec_invalid_stream(stream),
{
    let number = decimal(stream as u64);
    IoError {
        kind: ErrorKind::Other,
        message: String::from_str("invalid stream id ").concat(number.as_str()),
    }
}

/// The handle of the pipe `stream`, or the error for an invalid stream id.
pub fn get_stream<W>(streams: &Streams<W>, stream: u32) -> (r: Result<AnonPipe, IoError>)
    ensures
        r is Ok <==> streams.pipes().contains_key(stream),
        r matches Ok(p) ==> p.id() == stream && p.is_normal() == streams.pipes()[stream].is_normal(),
        r matches Err(e) ==> e@ == spec_invalid_stream(stream),
{
    match streams.by_id(stream) {
        Some(p) => Ok(p),
        None => Err(invalid_stream(stream)),
    }
}

/// The frame that answers a write request.
pub fn write_response(tag: u32, result: Result<usize, IoError>) -> (frame: ToJvm)
    ensures
        frame == ToJvm::WriteResult(WriteResult { tag, result }),
{
    ToJvm::WriteResult(WriteResult { tag, result })
}

/// The frame that answers a read request: the bytes read, or the error.
pub fn read_response(tag: u32, result: Result<Vec<u8>, IoError>) -> (frame: ToJvm)
    ensures
        frame == ToJvm::ReadResult(ReadResult { tag, result }),
{
    ToJvm::ReadResult(ReadResult { tag, result })
}

/// The frame that answers a close request.
pub fn close_response(tag: u32, result: Result<(), IoError>) -> (frame: ToJvm)
    ensures
        frame == ToJvm::CloseResult(CloseResult { tag, result }),
{
    ToJvm::CloseResult(CloseResult { tag, result })
}

/// How serving a pipe request of the worker ended.
pub enum Served<W> {
    /// The request is done: send `frame`, and wake `wake` if there is one.
    Respond { frame: ToJvm, wake: Option<W> },
    /// The pipe cannot serve the request now. The token was parked: serve
    /// the request again when it is woken.
    Pending,
    /// The pipe proxies this host stream: do the operation on it, then
    /// answer with its result.
    Host(Inherit),
}

/// Serves a write request on the registry: looks up the pipe, writes the
/// data, and answers with the count written, or with the error for an
/// invalid stream id. No pipe but the one named changes.
pub fn serve_write<W>(streams: &mut Streams<W>, token: W, p: &Write) -> (r: Served<W>)
    requires
        old(streams).wf(),
    ensures
        final(streams).wf(),
        final(streams).spec_next_id() == old(streams).spec_next_id(),
        !old(streams).pipes().contains_key(p.stream) ==> {
            &&& final(streams).pipes() == old(streams).pipes()
            &&& r matches Served::Respond { frame, wake }
            &&& wake is None
            &&& frame matches ToJvm::WriteResult(w)
            &&& w.tag == p.tag
            &&& w.result matches Err(e)
            &&& e@ == spec_invalid_stream(p.stream)
        },
        old(streams).pipes().contains_key(p.stream) ==> {
            let before = old(streams).pipes()[p.stream];
            &&& final(streams).pipes() == old(streams).pipes().insert(
                p.stream,
                spec_write_state(before, token, p.data@),
            )
            &&& match r {
                Served::Respond { frame, wake } => frame matches ToJvm::WriteResult(w) && w.tag
                    == p.tag && (w.result matches Ok(n) && spec_write_result(
                    before,
                    p.data@,
                    PollWrite::Ready { written: n, wake },
                )),
                Served::Pending => spec_write_result(before, p.data@, PollWrite::<W>::Pending),
                Served::Host(host) => spec_write_result(before, p.data@, PollWrite::<W>::Host(host)),
            }
        },
{
    match streams.poll_write(p.stream, token, p.data.as_slice()) {
        None => Served::Respond {
            frame: write_response(p.tag, Err(invalid_stream(p.stream))),
            wake: None,
        },
        Some(PollWrite::Ready { written, wake }) => Served::Respond {
            frame: write_response(p.tag, Ok(written)),
            wake,
        },
        Some(PollWrite::Pending) => Served::Pending,
        Some(PollWrite::Host(host)) => Served::Host(host),
    }
}

/// Serves a read request on the registry: looks up the pipe, reads at most
/// `size` bytes, and answers with the bytes read, or with the error for an
/// invalid stream id. No pipe but the one named changes.
pub fn serve_read<W>(streams: &mut Streams<W>, token: W, p: &Read) -> (r: Served<W>)
    requires
        old(streams).wf(),
    ensures
        final(streams).wf(),
        final(streams).spec_next_id() == old(streams).spec_next_id(),
        !old(streams).pipes().contains_key(p.stream) ==> {
            &&& final(streams).pipes() == old(streams).pipes()
            &&& r matches Served::Respond { frame, wake }
            &&& wake is None
            &&& frame matches ToJvm::ReadResult(w)
            &&& w.tag == p.tag
            &&& w.result matches Err(e)
            &&& e@ == spec_invalid_stream(p.stream)
        },
        old(streams).pipes().contains_key(p.stream) ==> {
            let before = old(streams).pipes()[p.stream];
            &&& final(streams).pipes() == old(streams).pipes().insert(
                p.stream,
                spec_read_state(before, token, p.size as nat),
            )
            &&& match r {
                Served::Respond { frame, wake } => frame matches ToJvm::ReadResult(w) && w.tag
                    == p.tag && (w.result matches Ok(data) && spec_read_result(
                    before,
                    p.size as nat,
                    PollRead::Ready { data, wake },
                )),
                Served::Pending => spec_read_result(before, p.size as nat, PollRead::<W>::Pending),
                Served::Host(host) => spec_read_result(
                    before,
                    p.size as nat,
                    PollRead::<W>::Host(host),
                ),
            }
        },
{
    match streams.poll_read(p.stream, token, p.size as usize) {
        None => Served::Respond {
            frame: read_response(p.tag, Err(invalid_stream(p.stream))),
            wake: None,
        },
        Some(PollRead::Ready { data, wake }) => Served::Respond {
            frame: read_response(p.tag, Ok(data)),
            wake,
        },
        Some(PollRead::Pending) => Served::Pending,
        Some(PollRead::Host(host)) => Served::Host(host),
    }
}

/// Serves a close request on the registry: closes the pipe and answers
/// with success, or with the error for an invalid stream id. The parties
/// that were parked on the pipe are handed back to be woken.
pub fn serve_close<W>(streams: &mut Streams<W>, p: &Close) -> (r: (ToJvm, Woken<W>))
    requires
        old(streams).wf(),
    ensures
        final(streams).wf(),
        final(streams).spec_next_id() == old(streams).spec_next_id(),
        r.0 matches ToJvm::CloseResult(c) && c.tag == p.tag && (c.result is Ok <==> old(
            streams,
        ).pipes().contains_key(p.stream)) && (c.result matches Err(e) ==> e@
            == spec_invalid_stream(p.stream)),
        !old(streams).pipes().contains_key(p.stream) ==> final(streams).pipes() == old(
            streams,
        ).pipes() && r.1 == (Woken::<W> { reader: None, writer: None }),
        old(streams).pipes().contains_key(p.stream) ==> final(streams).pipes() == old(
            streams,
        ).pipes().insert(p.stream, spec_close_state(old(streams).pipes()[p.stream])) && r.1
            == spec_close_woken(old(streams).pipes()[p.stream]),
{
    match streams.close(p.stream) {
        None => (
            close_response(p.tag, Err(invalid_stream(p.stream))),
            Woken { reader: None, writer: None },
        ),
        Some(woken) => (close_response(p.tag, Ok(())), woken),
    }
}

/// The pipe that a stream configuration asks for: none for `Null`, a
/// buffered pipe for `Piped`, a proxy of the host stream `which` for
/// `Inherit`.
pub open spec fn spec_wanted_pipe<W>(stdio: Stdio, which: Inherit) -> Option<PipeState<W>> {
    match stdio {
        Stdio::Piped => Some(PipeState::fresh(None)),
        Stdio::Inherit => Some(PipeState::fresh(Some(which))),
        Stdio::Null => None,
    }
}

/// The number of pipes that a stream configuration asks for.
pub open spec fn spec_pipe_count(stdio: Stdio) -> nat {
    if stdio == Stdio::Null {
        0
    } else {
        1
    }
}

/// The registry after the pipe was allocated that `stdio` asks for, if any.
pub open spec fn spec_pipes_after<W>(
    pipes: Map<u32, PipeState<W>>,
    next_id: u32,
    stdio: Stdio,
    which: Inherit,
) -> Map<u32, PipeState<W>> {
    match spec_wanted_pipe::<W>(stdio, which) {
        Some(state) => pipes.insert(next_id, state),
        None => pipes,
    }
}

/// The stream id that a stream configuration gets when the next free id is
/// `next_id`.
pub open spec fn spec_stream_id(next_id: u32, stdio: Stdio) -> Option<u32> {
    if stdio == Stdio::Null {
        None
    } else {
        Some(next_id)
    }
}

/// Allocates the pipe that `stdio` asks for, if any.
pub fn maybe_alloc_pipe<W>(streams: &mut Streams<W>, stdio: Stdio, inherit_type: Inherit) -> (pipe:
    Option<AnonPipe>)
    requires
        old(streams).wf(),
        old(streams).spec_next_id() + spec_pipe_count(stdio) <= u32::MAX,
    ensures
        final(streams).wf(),
        final(streams).spec_next_id() == old(streams).spec_next_id() + spec_pipe_count(stdio),
        final(streams).pipes() == spec_pipes_after(
            old(streams).pipes(),
            old(streams).spec_next_id(),
            stdio,
            inherit_type,
        ),
        pipe is Some <==> stdio != Stdio::Null,
        pipe matches Some(p) ==> p.id() == old(streams).spec_next_id() && p.is_normal() == (stdio
            == Stdio::Piped),
{
    match stdio {
        Stdio::Piped => Some(streams.allocate(None)),
        Stdio::Inherit => Some(streams.allocate(Some(inherit_type))),
        Stdio::Null => None,
    }
}

/// The handle, if it names a buffered pipe.
pub open spec fn spec_if_normal(pipe: Option<AnonPipe>) -> Option<AnonPipe> {
    match pipe {
        Some(p) => if p.is_normal() {
            Some(p)
        } else {
            None
        },
        None => None,
    }
}

/// The handle, if it names a buffered pipe: only those are handed to the
/// caller of a launch.
pub fn if_normal(pipe: Option<AnonPipe>) -> (r: Option<AnonPipe>)
    ensures
        r == spec_if_normal(pipe),
{
    match pipe {
        Some(p) => if p.is_normal() {
            Some(p)
        } else {
            None
        },
        None => None,
    }
}

/// A launched task as the host sees it: the id that the worker gave it and
/// the host's ends of the streams that were piped.
#[derive(Clone, Copy, Debug)]
pub struct TaskData {
    pub task_id: u32,
    pub stdout: Option<AnonPipe>,
    pub stderr: Option<AnonPipe>,
    pub stdin: Option<AnonPipe>,
}

/// The pipes allocated for the streams of a task, proxies included.
#[derive(Clone, Copy, Debug)]
pub struct StdioPipes {
    pub stdout: Option<AnonPipe>,
    pub stderr: Option<AnonPipe>,
    pub stdin: Option<AnonPipe>,
}

/// A launch that was prepared: the frame to send and the pipes allocated for
/// the task.
pub struct ExecCall {
    pub packet: ToJvm,
    pub pipes: StdioPipes,
}

/// The host's state of one dispatcher session: the next tag, the registry of
/// pipes, and the callback registries of the two kinds of call. `W` is the
/// type of the wake tokens of pipes, `E` and `T` are the types of the waiters
/// for launch results and for wait results.
pub struct JvmInterface<W, E, T> {
    tag: u32,
    streams: Streams<W>,
    exec_queue: AsyncQueue<E>,
    wait_queue: AsyncQueue<T>,
}

/// Whether the session `after` and the prepared launch `call` are what
/// preparing a launch on the session `before` gives: the pipes that the
/// three stream configurations ask for were allocated in the order output,
/// error, input; the frame carries the tag of `before`, the class, the
/// arguments and the ids of those pipes; `waiter` is registered under that
/// tag; and the next tag follows it.
pub open spec fn spec_exec_call<W, E, T>(
    before: JvmInterface<W, E, T>,
    after: JvmInterface<W, E, T>,
    waiter: E,
    main_class: Seq<char>,
    params: Seq<Seq<char>>,
    stdout: Stdio,
    stderr: Stdio,
    stdin: Stdio,
    call: ExecCall,
) -> bool {
    let n0 = before.streams().spec_next_id();
    let n1 = (n0 + spec_pipe_count(stdout)) as u32;
    let n2 = (n1 + spec_pipe_count(stderr)) as u32;
    let m0 = before.streams().pipes();
    let m1 = spec_pipes_after(m0, n0, stdout, Inherit::Stdout);
    let m2 = spec_pipes_after(m1, n1, stderr, Inherit::Stderr);
    &&& after.tag() == spec_next_tag(before.tag())
    &&& after.exec_pending() == before.exec_pending().insert(before.tag(), waiter)
    &&& after.wait_pending() == before.wait_pending()
    &&& after.streams().spec_next_id() == n2 + spec_pipe_count(stdin)
    &&& after.streams().pipes() == spec_pipes_after(m2, n2, stdin, Inherit::Stdin)
    &&& call.packet@ == ToJvmView::Exec(
        ExecView {
            tag: before.tag(),
            main_class,
            params,
            stdout: spec_stream_id(n0, stdout),
            stderr: spec_stream_id(n1, stderr),
            stdin: spec_stream_id(n2, stdin),
        },
    )
    &&& call.pipes.stdout is Some <==> stdout != Stdio::Null
    &&& call.pipes.stderr is Some <==> stderr != Stdio::Null
    &&& call.pipes.stdin is Some <==> stdin != Stdio::Null
    &&& call.pipes.stdout matches Some(p) ==> p.id() == n0 && p.is_normal() == (stdout
        == Stdio::Piped)
    &&& call.pipes.stderr matches Some(p) ==> p.id() == n1 && p.is_normal() == (stderr
        == Stdio::Piped)
    &&& call.pipes.stdin matches Some(p) ==> p.id() == n2 && p.is_normal() == (stdin
        == Stdio::Piped)
}

/// The tag after `tag`: tags wrap around.
pub open spec fn spec_next_tag(tag: u32) -> u32 {
    if tag == u32::MAX {
        0
    } else {
        (tag + 1) as u32
    }
}

impl<W, E, T> JvmInterface<W, E, T> {
    /// The tag that the next call gets.
    pub closed spec fn tag(&self) -> u32 {
        self.tag
    }

    /// The registry of pipes.
    pub closed spec fn streams(&self) -> Streams<W> {
        self.streams
    }

    /// The waiters for launch results, by tag.
    pub closed spec fn exec_pending(&self) -> Map<u32, E> {
        self.exec_queue.pending()
    }

    /// The waiters for wait results, by tag.
    pub closed spec fn wait_pending(&self) -> Map<u32, T> {
        self.wait_queue.pending()
    }

    /// The invariant of a session: its registry of pipes is well formed. It
    /// holds of a new session and every method keeps it.
    pub open spec fn wf(&self) -> bool {
        self.streams().wf()
    }

    /// A new session: tag 0, no pipes, nothing in flight.
    pub fn new() -> (i: Self)
        ensures
            i.wf(),
            i.tag() == 0,
            i.streams().pipes() == Map::<u32, PipeState<W>>::empty(),
            i.streams().spec_next_id() == 0,
            i.exec_pending() == Map::<u32, E>::empty(),
            i.wait_pending() == Map::<u32, T>::empty(),
    {
        JvmInterface {
            tag: 0,
            streams: Streams::new(),
            exec_queue: AsyncQueue::new(),
            wait_queue: AsyncQueue::new(),
        }
    }

    /// The number of stream ids that are still free. A launch needs one for
    /// each stream that is not `Null`.
    pub fn free_stream_ids(&self) -> (n: u32)
        ensures
            n == u32::MAX - self.streams().spec_next_id(),
    {
        u32::MAX - self.streams.next_id()
    }

    /// Prepares the launch of `main_class`: allocates the pipes that the
    /// three stream configurations ask for, in the order output, error,
    /// input; draws a fresh tag; registers `waiter` for the result under it;
    /// and hands back the frame to send together with the pipes.
    pub fn exec(
        &mut self,
        waiter: E,
        main_class: &str,
        params: &[String],
        stdout: Stdio,
        stderr: Stdio,
        stdin: Stdio,
    ) -> (call: ExecCall)
        requires
            old(self).wf(),
            old(self).streams().spec_next_id() + spec_pipe_count(stdout) + spec_pipe_count(stderr)
                + spec_pipe_count(stdin) <= u32::MAX,
        ensures
            final(self).wf(),
            spec_exec_call(
                *old(self),
                *final(self),
                waiter,
                main_class@,
                spec_texts(params@),
                stdout,
                stderr,
                stdin,
                call,
            ),
    {
        let out = maybe_alloc_pipe(&mut self.streams, stdout, Inherit::Stdout);
        let err = maybe_alloc_pipe(&mut self.streams, stderr, Inherit::Stderr);
        let inp = maybe_alloc_pipe(&mut self.streams, stdin, Inherit::Stdin);
        let tag = self.tag;
        self.tag = if tag == u32::MAX { 0 } else { tag + 1 };
        let packet = ToJvm::Exec(
            Exec {
                tag,
                main_class: String::from_str(main_class),
                params: clone_strings(params),
                stdout: match &out {
                    Some(p) => Some(p.id()),
                    None => None,
                },
                stderr: match &err {
                    Some(p) => Some(p.id()),
                    None => None,
                },
                stdin: match &inp {
                    Some(p) => Some(p.id()),
                    None => None,
                },
            },
        );
        self.exec_queue.start_callback(tag, waiter);
        ExecCall { packet, pipes: StdioPipes { stdout: out, stderr: err, stdin: inp } }
    }

    /// Prepares a wait for the exit of `task`: draws a fresh tag, registers
    /// `waiter` for the result under it, and hands back the frame to send.
    pub fn wait(&mut self, waiter: T, task: u32, timeout: Option<Duration>) -> (packet: ToJvm)
        ensures
            final(self).tag() == spec_next_tag(old(self).tag()),
            final(self).streams() == old(self).streams(),
            final(self).exec_pending() == old(self).exec_pending(),
            final(self).wait_pending() == old(self).wait_pending().insert(old(self).tag(), waiter),
            packet == ToJvm::Wait(Wait { tag: old(self).tag(), task, timeout }),
    {
        let tag = self.tag;
        self.tag = if tag == u32::MAX { 0 } else { tag + 1 };
        self.wait_queue.start_callback(tag, waiter);
        ToJvm::Wait(Wait { tag, task, timeout })
    }

    /// Gives the session up after the transport failed or ended: drops
    /// every waiter of both kinds, so that each call in flight observes
    /// that it was abandoned. Pipes and tags stay as they are.
    pub fn abort(&mut self)
        ensures
            final(self).exec_pending() == Map::<u32, E>::empty(),
            final(self).wait_pending() == Map::<u32, T>::empty(),
            final(self).tag() == old(self).tag(),
            final(self).streams() == old(self).streams(),
    {
        self.exec_queue.clear();
        self.wait_queue.clear();
    }

    /// Serves a write request of the worker on the pipes of the session, as
    /// [`serve_write`] does. Nothing but the pipes changes.
    pub fn write(&mut self, token: W, p: &Write) -> (r: Served<W>)
        requires
            old(self).wf(),
        ensures
            final(self).wf(),
            final(self).tag() == old(self).tag(),
            final(self).exec_pending() == old(self).exec_pending(),
            final(self).wait_pending() == old(self).wait_pending(),
            final(self).streams().spec_next_id() == old(self).streams().spec_next_id(),
            r is Respond || old(self).streams().pipes().contains_key(p.stream),
            !old(self).streams().pipes().contains_key(p.stream) ==> {
                &&& final(self).streams().pipes() == old(self).streams().pipes()
                &&& r matches Served::Respond { frame, wake }
                &&& wake is None
                &&& frame matches ToJvm::WriteResult(w)
                &&& w.tag == p.tag
                &&& w.result matches Err(e)
                &&& e@ == spec_invalid_stream(p.stream)
            },
            old(self).streams().pipes().contains_key(p.stream) ==> {
                let before = old(self).streams().pipes()[p.stream];
                &&& final(self).streams().pipes() == old(self).streams().pipes().insert(
                    p.stream,
                    spec_write_state(before, token, p.data@),
                )
                &&& match r {
                    Served::Respond { frame, wake } => frame matches ToJvm::WriteResult(w) && w.tag
                        == p.tag && (w.result matches Ok(n) && spec_write_result(
                        before,
                        p.data@,
                        PollWrite::Ready { written: n, wake },
                    )),
                    Served::Pending => spec_write_result(before, p.data@, PollWrite::<W>::Pending),
                    Served::Host(host) => spec_write_result(
                        before,
                        p.data@,
                        PollWrite::<W>::Host(host),
                    ),
                }
            },
    {
        serve_write(&mut self.streams, token, p)
    }

    /// Serves a read request of the worker on the pipes of the session, as
    /// [`serve_read`] does. Nothing but the pipes changes.
    pub fn read(&mut self, token: W, p: &Read) -> (r: Served<W>)
        requires
            old(self).wf(),
        ensures
            final(self).wf(),
            final(self).tag() == old(self).tag(),
            final(self).exec_pending() == old(self).exec_pending(),
            final(self).wait_pending() == old(self).wait_pending(),
            final(self).streams().spec_next_id() == old(self).streams().spec_next_id(),
            !old(self).streams().pipes().contains_key(p.stream) ==> {
                &&& final(self).streams().pipes() == old(self).streams().pipes()
                &&& r matches Served::Respond { frame, wake }
                &&& wake is None
                &&& frame matches ToJvm::ReadResult(w)
                &&& w.tag == p.tag
                &&& w.result matches Err(e)
                &&& e@ == spec_invalid_stream(p.stream)
            },
            old(self).streams().pipes().contains_key(p.stream) ==> {
                let before = old(self).streams().pipes()[p.stream];
                &&& final(self).streams().pipes() == old(self).streams().pipes().insert(
                    p.stream,
                    spec_read_state(before, token, p.size as nat),
                )
                &&& match r {
                    Served::Respond { frame, wake } => frame matches ToJvm::ReadResult(w) && w.tag
                        == p.tag && (w.result matches Ok(data) && spec_read_result(
                        before,
                        p.size as nat,
                        PollRead::Ready { data, wake },
                    )),
                    Served::Pending => spec_read_result(
                        before,
                        p.size as nat,
                        PollRead::<W>::Pending,
                    ),
                    Served::Host(host) => spec_read_result(
                        before,
                        p.size as nat,
                        PollRead::<W>::Host(host),
                    ),
                }
            },
    {
        serve_read(&mut self.streams, token, p)
    }

    /// Serves a close request of the worker on the pipes of the session, as
    /// [`serve_close`] does. Nothing but the pipes changes.
    pub fn close(&mut self, p: &Close) -> (r: (ToJvm, Woken<W>))
        requires
            old(self).wf(),
        ensures
            final(self).wf(),
            final(self).tag() == old(self).tag(),
            final(self).exec_pending() == old(self).exec_pending(),
            final(self).wait_pending() == old(self).wait_pending(),
            final(self).streams().spec_next_id() == old(self).streams().spec_next_id(),
            r.0 matches ToJvm::CloseResult(c) && c.tag == p.tag && (c.result is Ok <==> old(
                self,
            ).streams().pipes().contains_key(p.stream)) && (c.result matches Err(e) ==> e@
                == spec_invalid_stream(p.stream)),
            !old(self).streams().pipes().contains_key(p.stream) ==> final(self).streams().pipes()
                == old(self).streams().pipes() && r.1 == (Woken::<W> { reader: None, writer: None }),
            old(self).streams().pipes().contains_key(p.stream) ==> final(self).streams().pipes()
                == old(self).streams().pipes().insert(
                p.stream,
                spec_close_state(old(self).streams().pipes()[p.stream]),
            ) && r.1 == spec_close_woken(old(self).streams().pipes()[p.stream]),
    {
        serve_close(&mut self.streams, p)
    }

    /// Writes from the host's end to the pipe behind a handle, as
    /// [`Streams::poll_write`] does.
    pub fn poll_write(&mut self, pipe: &AnonPipe, token: W, buf: &[u8]) -> (r: Option<
        PollWrite<W>,
    >)
        requires
            old(self).wf(),
        ensures
            final(self).wf(),
            final(self).tag() == old(self).tag(),
            final(self).exec_pending() == old(self).exec_pending(),
            final(self).wait_pending() == old(self).wait_pending(),
            final(self).streams().spec_next_id() == old(self).streams().spec_next_id(),
            r is Some <==> old(self).streams().pipes().contains_key(pipe.id()),
            r is None ==> final(self).streams().pipes() == old(self).streams().pipes(),
            r matches Some(poll) ==> {
                &&& spec_write_result(old(self).streams().pipes()[pipe.id()], buf@, poll)
                &&& final(self).streams().pipes() == old(self).streams().pipes().insert(
                    pipe.id(),
                    spec_write_state(old(self).streams().pipes()[pipe.id()], token, buf@),
                )
            },
    {
        self.streams.poll_write(pipe.id(), token, buf)
    }

    /// The host stream to flush for the pipe behind a handle, as
    /// [`Streams::poll_flush`] gives it.
    pub fn poll_flush(&self, pipe: &AnonPipe) -> (r: Option<Option<Inherit>>)
        ensures
            r is Some <==> self.streams().pipes().contains_key(pipe.id()),
            r matches Some(host) ==> host == match self.streams().pipes()[pipe.id()].inherit {
                Some(Inherit::Stdout) => Some(Inherit::Stdout),
                Some(Inherit::Stderr) => Some(Inherit::Stderr),
                _ => None,
            },
    {
        self.streams.poll_flush(pipe.id())
    }

    /// Closes the pipe behind a handle from the host's end, as
    /// [`Streams::close`] does.
    pub fn poll_close(&mut self, pipe: &AnonPipe) -> (r: Option<Woken<W>>)
        requires
            old(self).wf(),
        ensures
            final(self).wf(),
            final(self).tag() == old(self).tag(),
            final(self).exec_pending() == old(self).exec_pending(),
            final(self).wait_pending() == old(self).wait_pending(),
            final(self).streams().spec_next_id() == old(self).streams().spec_next_id(),
            r is Some <==> old(self).streams().pipes().contains_key(pipe.id()),
            r is None ==> final(self).streams().pipes() == old(self).streams().pipes(),
            r matches Some(woken) ==> {
                &&& woken == spec_close_woken(old(self).streams().pipes()[pipe.id()])
                &&& final(self).streams().pipes() == old(self).streams().pipes().insert(
                    pipe.id(),
                    spec_close_state(old(self).streams().pipes()[pipe.id()]),
                )
            },
    {
        self.streams.close(pipe.id())
    }

    /// Reads at the host's end from the pipe behind a handle, as
    /// [`Streams::poll_read`] does.
    pub fn poll_read(&mut self, pipe: &AnonPipe, token: W, max: usize) -> (r: Option<PollRead<W>>)
        requires
            old(self).wf(),
        ensures
            final(self).wf(),
            final(self).tag() == old(self).tag(),
            final(self).exec_pending() == old(self).exec_pending(),
            final(self).wait_pending() == old(self).wait_pending(),
            final(self).streams().spec_next_id() == old(self).streams().spec_next_id(),
            r is Some <==> old(self).streams().pipes().contains_key(pipe.id()),
            r is None ==> final(self).streams().pipes() == old(self).streams().pipes(),
            r matches Some(poll) ==> {
                &&& spec_read_result(old(self).streams().pipes()[pipe.id()], max as nat, poll)
                &&& final(self).streams().pipes() == old(self).streams().pipes().insert(
                    pipe.id(),
                    spec_read_state(old(self).streams().pipes()[pipe.id()], token, max as nat),
                )
            },
    {
        self.streams.poll_read(pipe.id(), token, max)
    }
}

/// What became of a launch, given the result that the worker sent: on
/// success the task with the host's ends of the buffered pipes only, since
/// proxies stay with the registry; else the worker's error.
pub fn exec_result(pipes: &StdioPipes, result: ExecResult) -> (r: Result<TaskData, ExecError>)
    ensures
        match result.result {
            Ok(info) => r matches Ok(task) && task == (TaskData {
                task_id: info.task_id,
                stdout: spec_if_normal(pipes.stdout),
                stderr: spec_if_normal(pipes.stderr),
                stdin: spec_if_normal(pipes.stdin),
            }),
            Err(e) => r == Err::<TaskData, ExecError>(e),
        },
{
    match result.result {
        Ok(ti) => Ok(
            TaskData {
                task_id: ti.task_id,
                stdin: if_normal(pipes.stdin),
                stdout: if_normal(pipes.stdout),
                stderr: if_normal(pipes.stderr),
            },
        ),
        Err(e) => Err(e),
    }
}

/// Why a call on the worker failed.
#[derive(Debug, PartialEq, Eq)]
pub enum CallError {
    /// The transport failed or ended before the answer came. Nothing can
    /// be done about it.
    Transport,
    /// The worker answered that it could not start the task.
    Exec(ExecError),
}

/// What became of a launch, given what its waiter received: the answer of
/// the worker, or nothing because the session was given up.
pub fn exec_answer(pipes: &StdioPipes, answer: Option<ExecResult>) -> (r: Result<
    TaskData,
    CallError,
>)
    ensures
        match answer {
            None => r == Err::<TaskData, CallError>(CallError::Transport),
            Some(result) => match result.result {
                Ok(info) => r matches Ok(task) && task == (TaskData {
                    task_id: info.task_id,
                    stdout: spec_if_normal(pipes.stdout),
                    stderr: spec_if_normal(pipes.stderr),
                    stdin: spec_if_normal(pipes.stdin),
                }),
                Err(e) => r == Err::<TaskData, CallError>(CallError::Exec(e)),
            },
        },
{
    match answer {
        None => Err(CallError::Transport),
        Some(result) => match exec_result(pipes, result) {
            Ok(task) => Ok(task),
            Err(e) => Err(CallError::Exec(e)),
        },
    }
}

/// What a wait returns, given what its waiter received: whether the time
/// ran out, or a transport error because the session was given up.
pub fn wait_answer(answer: Option<WaitResult>) -> (r: Result<bool, CallError>)
    ensures
        r == match answer {
            None => Err::<bool, CallError>(CallError::Transport),
            Some(result) => Ok(result.timeout),
        },
{
    match answer {
        None => Err(CallError::Transport),
        Some(result) => Ok(wait_result(result)),
    }
}

/// What a wait returns, given the result that the worker sent: whether the
/// time ran out before the task was seen to exit.
pub fn wait_result(result: WaitResult) -> (timeout: bool)
    ensures
        timeout == result.timeout,
{
    result.timeout
}

/// What the reactor has to do for one frame of the worker.
pub enum Reaction<E, T> {
    /// Deliver `result` to `waiter`, if there still is one.
    FinishExec { waiter: Option<E>, result: ExecResult },
    /// Deliver `result` to `waiter`, if there still is one.
    FinishWait { waiter: Option<T>, result: WaitResult },
    /// Serve the write request in a task of its own, so that a full pipe
    /// cannot hold up the reactor.
    Write(Write),
    /// Serve the read request in a task of its own.
    Read(Read),
    /// Serve the close request in a task of its own.
    Close(Close),
}

/// The reactor of a session: it takes the frames of the worker one by one,
/// in the order in which they arrive.
pub struct PacketHandler {}

impl PacketHandler {
    /// Reacts to one frame. A launch or wait result takes the waiter of its
    /// tag out of its registry, so that a later frame with the same tag
    /// finds none; an unknown tag finds none and changes nothing. A pipe
    /// request changes nothing yet: it is handed on to be served.
    pub fn run<W, E, T>(&self, interface: &mut JvmInterface<W, E, T>, frame: FromJvm) -> (r:
        Reaction<E, T>)
        ensures
            final(interface).tag() == old(interface).tag(),
            final(interface).streams() == old(interface).streams(),
            match frame {
                FromJvm::ExecResult(p) => {
                    &&& r == (Reaction::<E, T>::FinishExec {
                        waiter: if old(interface).exec_pending().contains_key(p.tag) {
                            Some(old(interface).exec_pending()[p.tag])
                        } else {
                            None
                        },
                        result: p,
                    })
                    &&& final(interface).exec_pending() == old(interface).exec_pending().remove(
                        p.tag,
                    )
                    &&& final(interface).wait_pending() == old(interface).wait_pending()
                },
                FromJvm::WaitResult(p) => {
                    &&& r == (Reaction::<E, T>::FinishWait {
                        waiter: if old(interface).wait_pending().contains_key(p.tag) {
                            Some(old(interface).wait_pending()[p.tag])
                        } else {
                            None
                        },
                        result: p,
                    })
                    &&& final(interface).wait_pending() == old(interface).wait_pending().remove(
                        p.tag,
                    )
                    &&& final(interface).exec_pending() == old(interface).exec_pending()
                },
                FromJvm::Write(p) => r == Reaction::<E, T>::Write(p) && *final(interface) == *old(
                    interface,
                ),
                FromJvm::Read(p) => r == Reaction::<E, T>::Read(p) && *final(interface) == *old(
                    interface,
                ),
                FromJvm::Close(p) => r == Reaction::<E, T>::Close(p) && *final(interface) == *old(
                    interface,
                ),
            },
    {
        match frame {
            FromJvm::ExecResult(p) => {
                let waiter = interface.exec_queue.finish_callback(p.tag);
                Reaction::FinishExec { waiter, result: p }
            },
            FromJvm::Write(p) => Reaction::Write(p),
            FromJvm::Read(p) => Reaction::Read(p),
            FromJvm::WaitResult(p) => {
                let waiter = interface.wait_queue.finish_callback(p.tag);
                Reaction::FinishWait { waiter, result: p }
            },
            FromJvm::Close(p) => Reaction::Close(p),
        }
    }
}

/// Makes the two ends of a session: the state that calls are made on, and
/// the reactor that feeds the frames of the worker into it.
pub fn create<W, E, T>() -> (r: (JvmInterface<W, E, T>, PacketHandler))
    ensures
        r.0.wf(),
        r.0.tag() == 0,
        r.0.streams().pipes() == Map::<u32, PipeState<W>>::empty(),
        r.0.streams().spec_next_id() == 0,
        r.0.exec_pending() == Map::<u32, E>::empty(),
        r.0.wait_pending() == Map::<u32, T>::empty(),
{
    (JvmInterface::new(), PacketHandler {  })
}

} // verus!
