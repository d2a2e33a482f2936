//! A facade that runs all tasks in one worker, the task dispatcher, over one
//! session. The library decides what to send and what an answer means;
//! starting the worker and moving frames is the caller's part.

use crate::fncall::{
    exec_result, spec_exec_call, spec_if_normal, CallError, ExecCall, JvmInterface, StdioPipes,
    TaskData,
};
use crate::jvm::async_command::JvmCommand;
use crate::jvm::command::Stdio;
use crate::jvm::process::{spec_stdio_or, stdio_or, ProcessJvm, ProcessJvmView};
use crate::jvm::{CommandView, Error, ErrorView, JvmCommandInner};
use crate::streams::{
    spec_read_result, spec_read_state, spec_write_result, spec_write_state, AnonPipe, PollRead,
    PollWrite,
};
use crate::structs::{
    ErrorKind, ExecError, ExecErrorView, ExecResult, IoError, ToJvm, Wait,
};
use vstd::string::StringExecFns;
use vstd::prelude::*;

verus! {

/// The main class of the task dispatcher.
pub const MAIN_CLASS: &'static str = "net.dblsaiko.origami.taskdispatcher.Main";

/// The host's end of the standard input of a task.
#[derive(Clone, Copy, Debug)]
pub struct Stdin {
    pub inner: AnonPipe,
}

/// The host's end of the standard output or error of a task.
#[derive(Clone, Copy, Debug)]
pub struct Stdout {
    pub inner: AnonPipe,
}

/// A task that was launched on the dispatcher.
#[derive(Clone, Copy, Debug)]
pub struct Task {
    pub id: u32,
    pub stdout: Option<Stdout>,
    pub stderr: Option<Stdout>,
    pub stdin: Option<Stdin>,
}

/// The host's end of an output stream on the pipe behind a handle.
pub open spec fn spec_stdout(pipe: Option<AnonPipe>) -> Option<Stdout> {
    match pipe {
        Some(inner) => Some(Stdout { inner }),
        None => None,
    }
}

/// The host's end of an input stream on the pipe behind a handle.
pub open spec fn spec_stdin(pipe: Option<AnonPipe>) -> Option<Stdin> {
    match pipe {
        Some(inner) => Some(Stdin { inner }),
        None => None,
    }
}

/// The error of a launch, for the error that the worker reported.
pub open spec fn spec_launch_error(e: ExecErrorView) -> ErrorView {
    match e {
        ExecErrorView::Failure(m) => ErrorView::Failure(m),
        ExecErrorView::InvalidClass(m) => ErrorView::InvalidClass(m),
        ExecErrorView::NoMainFn(m) => ErrorView::NoMainFn(m),
    }
}

/// The error of a call that the transport failed: an I/O error that tells
/// of a broken pipe.
pub open spec fn spec_is_transport_error(e: Error) -> bool {
    e matches Error::Io(io) && io.kind == ErrorKind::BrokenPipe && io.message@
        == "transport closed"@
}

/// The error of a call on the worker, for the facade.
pub fn call_error(e: CallError) -> (r: Error)
    ensures
        match e {
            CallError::Transport => spec_is_transport_error(r),
            CallError::Exec(x) => r@ == spec_launch_error(x@),
        },
{
    match e {
        CallError::Transport => Error::Io(
            IoError { kind: ErrorKind::BrokenPipe, message: String::from_str("transport closed") },
        ),
        CallError::Exec(x) => launch_error(x),
    }
}

/// The error of a launch, for the error that the worker reported.
pub fn launch_error(e: ExecError) -> (r: Error)
    ensures
        r@ == spec_launch_error(e@),
{
    match e {
        ExecError::Failure(msg) => Error::Failure(msg),
        ExecError::InvalidClass(msg) => Error::InvalidClass(msg),
        ExecError::NoMainFn(msg) => Error::NoMainFn(msg),
    }
}

impl Task {
    /// The task for the data of a successful launch.
    pub fn new(response: TaskData) -> (t: Task)
        ensures
            t == (Task {
                id: response.task_id,
                stdout: spec_stdout(response.stdout),
                stderr: spec_stdout(response.stderr),
                stdin: spec_stdin(response.stdin),
            }),
    {
        Task {
            id: response.task_id,
            stdout: match response.stdout {
                Some(inner) => Some(Stdout { inner }),
                None => None,
            },
            stderr: match response.stderr {
                Some(inner) => Some(Stdout { inner }),
                None => None,
            },
            stdin: match response.stdin {
                Some(inner) => Some(Stdin { inner }),
                None => None,
            },
        }
    }

    /// Prepares the wait for the exit of the task, without a timeout, as
    /// [`JvmInterface::wait`] does.
    pub fn wait<W, E, T>(&self, interface: &mut JvmInterface<W, E, T>, waiter: T) -> (packet: ToJvm)
        ensures
            final(interface).tag() == crate::fncall::spec_next_tag(old(interface).tag()),
            final(interface).streams() == old(interface).streams(),
            final(interface).exec_pending() == old(interface).exec_pending(),
            final(interface).wait_pending() == old(interface).wait_pending().insert(
                old(interface).tag(),
                waiter,
            ),
            packet == ToJvm::Wait(Wait { tag: old(interface).tag(), task: self.id, timeout: None }),
    {
        interface.wait(waiter, self.id, None)
    }
}

impl Stdin {
    /// Writes to the standard input of the task, as
    /// [`JvmInterface::poll_write`] does.
    pub fn write<W, E, T>(
        &self,
        interface: &mut JvmInterface<W, E, T>,
        token: W,
        buf: &[u8],
    ) -> (r: Option<PollWrite<W>>)
        requires
            old(interface).wf(),
        ensures
            final(interface).wf(),
            r is Some <==> old(interface).streams().pipes().contains_key(self.inner.id()),
            r is None ==> final(interface).streams().pipes() == old(interface).streams().pipes(),
            r matches Some(poll) ==> {
                let before = old(interface).streams().pipes()[self.inner.id()];
                &&& spec_write_result(before, buf@, poll)
                &&& final(interface).streams().pipes() == old(interface).streams().pipes().insert(
                    self.inner.id(),
                    spec_write_state(before, token, buf@),
                )
            },
    {
        interface.poll_write(&self.inner, token, buf)
    }
}

impl Stdout {
    /// Reads from the standard output or error of the task, as
    /// [`JvmInterface::poll_read`] does.
    pub fn read<W, E, T>(
        &self,
        interface: &mut JvmInterface<W, E, T>,
        token: W,
        max: usize,
    ) -> (r: Option<PollRead<W>>)
        requires
            old(interface).wf(),
        ensures
            final(interface).wf(),
            r is Some <==> old(interface).streams().pipes().contains_key(self.inner.id()),
            r is None ==> final(interface).streams().pipes() == old(interface).streams().pipes(),
            r matches Some(poll) ==> {
                let before = old(interface).streams().pipes()[self.inner.id()];
                &&& spec_read_result(before, max as nat, poll)
                &&& final(interface).streams().pipes() == old(interface).streams().pipes().insert(
                    self.inner.id(),
                    spec_read_state(before, token, max as nat),
                )
            },
    {
        interface.poll_read(&self.inner, token, max)
    }
}

/// The facade of a dispatcher session.
pub struct DirectJvm {}

impl DirectJvm {
    /// The command that starts the worker on `host`: previews enabled, the
    /// dispatcher's archive `lib_path` on the classpath, the dispatcher's
    /// main class, standard input and output piped for the transport, and
    /// the standard error shared with the host.
    pub fn spawn(host: ProcessJvm, lib_path: &str) -> (c: JvmCommand<ProcessJvm>)
        ensures
            c.spec_jvm()@ == (ProcessJvmView {
                java_args: host@.java_args.push("--enable-preview"@),
                classpath: host@.classpath.push(lib_path@),
                ..host@
            }),
            c@ == (CommandView {
                stdin: Some(Stdio::Piped),
                stdout: Some(Stdio::Piped),
                stderr: Some(Stdio::Inherit),
                ..CommandView::fresh(MAIN_CLASS@)
            }),
    {
        let ghost given = host@;
        let mut host = host;
        host.with_java_arg("--enable-preview");
        let paths: [&str; 1] = [lib_path];
        host.with_classpath(paths.as_slice());
        assert(crate::jvm::spec_str_texts(paths@) =~= seq![lib_path@]);
        assert(host@.classpath =~= given.classpath.push(lib_path@));
        let mut c = JvmCommand::new(host, MAIN_CLASS);
        c.stdin(Stdio::Piped);
        c.stdout(Stdio::Piped);
        c.stderr(Stdio::Inherit);
        c
    }

    /// Prepares the launch of the command `d` on the session, as
    /// [`JvmInterface::exec`] does, with `default_stdio` for each stream that
    /// `d` leaves unset.
    pub fn exec<W, E, T>(
        interface: &mut JvmInterface<W, E, T>,
        waiter: E,
        d: &JvmCommandInner,
        default_stdio: Stdio,
    ) -> (call: ExecCall)
        requires
            old(interface).wf(),
            old(interface).streams().spec_next_id() + 3 <= u32::MAX,
        ensures
            final(interface).wf(),
            spec_exec_call(
                *old(interface),
                *final(interface),
                waiter,
                d@.main_class,
                d@.args,
                spec_stdio_or(d@.stdout, default_stdio),
                spec_stdio_or(d@.stderr, default_stdio),
                spec_stdio_or(d@.stdin, default_stdio),
                call,
            ),
    {
        interface.exec(
            waiter,
            d.main_class(),
            d.args(),
            stdio_or(d.stdout(), default_stdio),
            stdio_or(d.stderr(), default_stdio),
            stdio_or(d.stdin(), default_stdio),
        )
    }

    /// What became of a launch, given the result that the worker sent: the
    /// task with the host's ends of its piped streams, or the error.
    pub fn launch(pipes: &StdioPipes, result: ExecResult) -> (r: Result<Task, Error>)
        ensures
            match result.result {
                Ok(info) => r matches Ok(task) && task == (Task {
                    id: info.task_id,
                    stdout: spec_stdout(spec_if_normal(pipes.stdout)),
                    stderr: spec_stdout(spec_if_normal(pipes.stderr)),
                    stdin: spec_stdin(spec_if_normal(pipes.stdin)),
                }),
                Err(e) => r matches Err(error) && error@ == spec_launch_error(e@),
            },
    {
        match exec_result(pipes, result) {
            Ok(data) => Ok(Task::new(data)),
            Err(e) => Err(launch_error(e)),
        }
    }
}

} // verus!
