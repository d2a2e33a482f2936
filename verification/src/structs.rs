//! The messages of the dispatch protocol and their byte encoding.
//!
//! The worker sends [`FromJvm`] messages and the host sends [`ToJvm`]
//! messages. A message is encoded as the index of its variant, as eight
//! bytes, followed by the fields of the variant in order. A `Result` is a tag
//! byte, 0 for `Ok` and 1 for `Err`, followed by the value. An I/O error is
//! the number of its kind followed by its description.

use crate::wire::{
    get_bool, get_bytes, get_opt_u32, get_string, get_strings, get_u32, get_u64, get_usize,
    get_u8, lemma_bool_roundtrip, lemma_bytes_roundtrip, lemma_opt_u32_roundtrip, put_u8,
    spec_parse_u8, spec_u8,
    lemma_string_roundtrip, lemma_strings_roundtrip, lemma_u32_roundtrip, lemma_u64_roundtrip,
    lemma_usize_roundtrip, put_bool, put_bytes, put_opt_u32, put_string, put_strings, put_u32,
    put_u64, put_usize, spec_bool, spec_bytes, spec_opt_u32, spec_parse_bool, spec_parse_bytes,
    spec_parse_opt_u32, spec_parse_string, spec_parse_strings, spec_parse_u32, spec_parse_u64,
    spec_parse_usize, spec_string, spec_strings, spec_texts, spec_u32, spec_u64, spec_usize,
    strings_fit, Parsed,
};
use vstd::prelude::*;
use vstd::utf8::encode_utf8;

verus! {

/// The kinds of I/O error that travel on the wire, in the order of their
/// numbers, 0 to 17.
#[derive(Clone, Copy, Debug, PartialEq, Eq, Structural)]
pub enum ErrorKind {
    Other,
    NotFound,
    PermissionDenied,
    ConnectionRefused,
    ConnectionReset,
    ConnectionAborted,
    NotConnected,
    AddrInUse,
    AddrNotAvailable,
    BrokenPipe,
    AlreadyExists,
    WouldBlock,
    InvalidInput,
    InvalidData,
    TimedOut,
    WriteZero,
    Interrupted,
    UnexpectedEof,
}

/// The number of an error kind.
pub open spec fn spec_kind_code(kind: ErrorKind) -> usize {
    match kind {
        ErrorKind::Other => 0,
        ErrorKind::NotFound => 1,
        ErrorKind::PermissionDenied => 2,
        ErrorKind::ConnectionRefused => 3,
        ErrorKind::ConnectionReset => 4,
        ErrorKind::ConnectionAborted => 5,
        ErrorKind::NotConnected => 6,
        ErrorKind::AddrInUse => 7,
        ErrorKind::AddrNotAvailable => 8,
        ErrorKind::BrokenPipe => 9,
        ErrorKind::AlreadyExists => 10,
        ErrorKind::WouldBlock => 11,
        ErrorKind::InvalidInput => 12,
        ErrorKind::InvalidData => 13,
        ErrorKind::TimedOut => 14,
        ErrorKind::WriteZero => 15,
        ErrorKind::Interrupted => 16,
        ErrorKind::UnexpectedEof => 17,
    }
}

/// The error kind of a number; a number that names no kind gives `Other`.
pub open spec fn spec_kind_of_code(code: usize) -> ErrorKind {
    if code == 1 {
        ErrorKind::NotFound
    } else if code == 2 {
        ErrorKind::PermissionDenied
    } else if code == 3 {
        ErrorKind::ConnectionRefused
    } else if code == 4 {
        ErrorKind::ConnectionReset
    } else if code == 5 {
        ErrorKind::ConnectionAborted
    } else if code == 6 {
        ErrorKind::NotConnected
    } else if code == 7 {
        ErrorKind::AddrInUse
    } else if code == 8 {
        ErrorKind::AddrNotAvailable
    } else if code == 9 {
        ErrorKind::BrokenPipe
    } else if code == 10 {
        ErrorKind::AlreadyExists
    } else if code == 11 {
        ErrorKind::WouldBlock
    } else if code == 12 {
        ErrorKind::InvalidInput
    } else if code == 13 {
        ErrorKind::InvalidData
    } else if code == 14 {
        ErrorKind::TimedOut
    } else if code == 15 {
        ErrorKind::WriteZero
    } else if code == 16 {
        ErrorKind::Interrupted
    } else if code == 17 {
        ErrorKind::UnexpectedEof
    } else {
        ErrorKind::Other
    }
}

impl ErrorKind {
    /// The number of this kind on the wire.
    pub fn code(self) -> (code: usize)
        ensures
            code == spec_kind_code(self),
            code <= 17,
    {
        match self {
            ErrorKind::Other => 0,
            ErrorKind::NotFound => 1,
            ErrorKind::PermissionDenied => 2,
            ErrorKind::ConnectionRefused => 3,
            ErrorKind::ConnectionReset => 4,
            ErrorKind::ConnectionAborted => 5,
            ErrorKind::NotConnected => 6,
            ErrorKind::AddrInUse => 7,
            ErrorKind::AddrNotAvailable => 8,
            ErrorKind::BrokenPipe => 9,
            ErrorKind::AlreadyExists => 10,
            ErrorKind::WouldBlock => 11,
            ErrorKind::InvalidInput => 12,
            ErrorKind::InvalidData => 13,
            ErrorKind::TimedOut => 14,
            ErrorKind::WriteZero => 15,
            ErrorKind::Interrupted => 16,
            ErrorKind::UnexpectedEof => 17,
        }
    }

    /// The kind that `code` names; `Other` for a number that names none.
    pub fn from_code(code: usize) -> (kind: ErrorKind)
        ensures
            kind == spec_kind_of_code(code),
            code > 17 ==> kind == ErrorKind::Other,
    {
        if code == 1 {
            ErrorKind::NotFound
        } else if code == 2 {
            ErrorKind::PermissionDenied
        } else if code == 3 {
            ErrorKind::ConnectionRefused
        } else if code == 4 {
            ErrorKind::ConnectionReset
        } else if code == 5 {
            ErrorKind::ConnectionAborted
        } else if code == 6 {
            ErrorKind::NotConnected
        } else if code == 7 {
            ErrorKind::AddrInUse
        } else if code == 8 {
            ErrorKind::AddrNotAvailable
        } else if code == 9 {
            ErrorKind::BrokenPipe
        } else if code == 10 {
            ErrorKind::AlreadyExists
        } else if code == 11 {
            ErrorKind::WouldBlock
        } else if code == 12 {
            ErrorKind::InvalidInput
        } else if code == 13 {
            ErrorKind::InvalidData
        } else if code == 14 {
            ErrorKind::TimedOut
        } else if code == 15 {
            ErrorKind::WriteZero
        } else if code == 16 {
            ErrorKind::Interrupted
        } else if code == 17 {
            ErrorKind::UnexpectedEof
        } else {
            ErrorKind::Other
        }
    }
}

/// Every kind is the kind of its own number.
pub proof fn lemma_kind_code_roundtrip(kind: ErrorKind)
    ensures
        spec_kind_of_code(spec_kind_code(kind)) == kind,
        spec_kind_code(kind) <= 17,
{
}

/// An I/O error of a pipe operation: its kind and a free-form description.
#[derive(Clone, Debug, PartialEq, Eq)]
pub struct IoError {
    pub kind: ErrorKind,
    pub message: String,
}

/// The mathematical value of an I/O error.
pub struct IoErrorView {
    pub kind: ErrorKind,
    pub message: Seq<char>,
}

impl View for IoError {
    type V = IoErrorView;

    open spec fn view(&self) -> IoErrorView {
        IoErrorView { kind: self.kind, message: self.message@ }
    }
}

/// Why the worker could not start a task.
#[derive(Clone, Debug, PartialEq, Eq)]
pub enum ExecError {
    /// A general error trying to launch the task.
    Failure(String),
    /// The class does not exist or could not be loaded.
    InvalidClass(String),
    /// The class has no main function.
    NoMainFn(String),
}

/// The mathematical value of a launch error.
pub enum ExecErrorView {
    Failure(Seq<char>),
    InvalidClass(Seq<char>),
    NoMainFn(Seq<char>),
}

impl View for ExecError {
    type V = ExecErrorView;

    open spec fn view(&self) -> ExecErrorView {
        match *self {
            ExecError::Failure(m) => ExecErrorView::Failure(m@),
            ExecError::InvalidClass(m) => ExecErrorView::InvalidClass(m@),
            ExecError::NoMainFn(m) => ExecErrorView::NoMainFn(m@),
        }
    }
}

impl ExecErrorView {
    pub open spec fn index(self) -> usize {
        match self {
            ExecErrorView::Failure(_) => 0,
            ExecErrorView::InvalidClass(_) => 1,
            ExecErrorView::NoMainFn(_) => 2,
        }
    }

    pub open spec fn message(self) -> Seq<char> {
        match self {
            ExecErrorView::Failure(m) => m,
            ExecErrorView::InvalidClass(m) => m,
            ExecErrorView::NoMainFn(m) => m,
        }
    }
}

/// The encoding of an I/O error.
pub open spec fn spec_io_error(v: IoErrorView) -> Seq<u8> {
    spec_usize(spec_kind_code(v.kind)) + spec_string(v.message)
}

/// Reads an I/O error from the front of `b`.
pub open spec fn spec_parse_io_error(b: Seq<u8>) -> Parsed<IoErrorView> {
    match spec_parse_usize(b) {
        Some((code, n)) => match spec_parse_string(b.skip(n)) {
            Some((message, m)) => Some(
                (IoErrorView { kind: spec_kind_of_code(code), message }, n + m),
            ),
            None => None,
        },
        None => None,
    }
}

/// The encoding of a launch error.
pub open spec fn spec_exec_error(v: ExecErrorView) -> Seq<u8> {
    spec_usize(v.index()) + spec_string(v.message())
}

/// Reads a launch error from the front of `b`.
pub open spec fn spec_parse_exec_error(b: Seq<u8>) -> Parsed<ExecErrorView> {
    match spec_parse_usize(b) {
        Some((index, n)) => match spec_parse_string(b.skip(n)) {
            Some((message, m)) => if index == 0 {
                Some((ExecErrorView::Failure(message), n + m))
            } else if index == 1 {
                Some((ExecErrorView::InvalidClass(message), n + m))
            } else if index == 2 {
                Some((ExecErrorView::NoMainFn(message), n + m))
            } else {
                None
            },
            None => None,
        },
        None => None,
    }
}

/// Whether a text is short enough to carry its length in eight bytes.
pub open spec fn text_fits(v: Seq<char>) -> bool {
    encode_utf8(v).len() <= u64::MAX
}

/// Reading the encoding of an I/O error gives it back, whatever follows.
pub proof fn lemma_io_error_roundtrip(v: IoErrorView, rest: Seq<u8>)
    requires
        text_fits(v.message),
    ensures
        spec_parse_io_error(spec_io_error(v) + rest) == Some((v, spec_io_error(v).len() as int)),
{
    let code = spec_kind_code(v.kind);
    lemma_kind_code_roundtrip(v.kind);
    lemma_usize_roundtrip(code, spec_string(v.message) + rest);
    lemma_string_roundtrip(v.message, rest);
    let b = spec_io_error(v) + rest;
    assert(b =~= spec_usize(code) + (spec_string(v.message) + rest));
    assert(b.skip(8) =~= spec_string(v.message) + rest);
}

/// Reading the encoding of a launch error gives it back, whatever follows.
pub proof fn lemma_exec_error_roundtrip(v: ExecErrorView, rest: Seq<u8>)
    requires
        text_fits(v.message()),
    ensures
        spec_parse_exec_error(spec_exec_error(v) + rest) == Some(
            (v, spec_exec_error(v).len() as int),
        ),
{
    lemma_usize_roundtrip(v.index(), spec_string(v.message()) + rest);
    lemma_string_roundtrip(v.message(), rest);
    let b = spec_exec_error(v) + rest;
    assert(b =~= spec_usize(v.index()) + (spec_string(v.message()) + rest));
    assert(b.skip(8) =~= spec_string(v.message()) + rest);
}

/// Appends the encoding of an I/O error to `out`.
pub fn put_io_error(out: &mut Vec<u8>, v: &IoError)
    ensures
        final(out)@ == old(out)@ + spec_io_error(v@),
        text_fits(v@.message),
{
    put_usize(out, v.kind.code());
    put_string(out, v.message.as_str());
    assert(out@ =~= old(out)@ + spec_io_error(v@));
}

/// Reads an I/O error at `pos`: the value and the position behind it, or `None`
/// where the bytes at `pos` are not its encoding.
pub fn get_io_error(b: &[u8], pos: usize) -> (r: Option<(IoError, usize)>)
    requires
        pos <= b@.len(),
    ensures
        r matches Some((v, next)) ==> spec_parse_io_error(b@.skip(pos as int)) == Some(
            (v@, next - pos),
        ) && pos <= next <= b@.len(),
        r is None ==> spec_parse_io_error(b@.skip(pos as int)) is None,
{
    match get_usize(b, pos) {
        Some((code, mid)) => {
            assert(b@.skip(pos as int).skip(mid - pos) =~= b@.skip(mid as int));
            match get_string(b, mid) {
                Some((message, next)) => Some(
                    (IoError { kind: ErrorKind::from_code(code), message }, next),
                ),
                None => None,
            }
        },
        None => None,
    }
}

/// Appends the encoding of a launch error to `out`.
pub fn put_exec_error(out: &mut Vec<u8>, v: &ExecError)
    ensures
        final(out)@ == old(out)@ + spec_exec_error(v@),
        text_fits(v@.message()),
{
    match v {
        ExecError::Failure(m) => {
            put_usize(out, 0);
            put_string(out, m.as_str());
        },
        ExecError::InvalidClass(m) => {
            put_usize(out, 1);
            put_string(out, m.as_str());
        },
        ExecError::NoMainFn(m) => {
            put_usize(out, 2);
            put_string(out, m.as_str());
        },
    }
    assert(out@ =~= old(out)@ + spec_exec_error(v@));
}

/// Reads a launch error at `pos`: the value and the position behind it, or `None`
/// where the bytes at `pos` are not its encoding.
pub fn get_exec_error(b: &[u8], pos: usize) -> (r: Option<(ExecError, usize)>)
    requires
        pos <= b@.len(),
    ensures
        r matches Some((v, next)) ==> spec_parse_exec_error(b@.skip(pos as int)) == Some(
            (v@, next - pos),
        ) && pos <= next <= b@.len(),
        r is None ==> spec_parse_exec_error(b@.skip(pos as int)) is None,
{
    match get_usize(b, pos) {
        Some((index, mid)) => {
            assert(b@.skip(pos as int).skip(mid - pos) =~= b@.skip(mid as int));
            match get_string(b, mid) {
                Some((message, next)) => if index == 0 {
                    Some((ExecError::Failure(message), next))
                } else if index == 1 {
                    Some((ExecError::InvalidClass(message), next))
                } else if index == 2 {
                    Some((ExecError::NoMainFn(message), next))
                } else {
                    None
                },
                None => None,
            }
        },
        None => None,
    }
}

/// What the worker knows of a task it started.
#[derive(Clone, Copy, Debug, PartialEq, Eq, Structural)]
pub struct TaskInfo {
    pub task_id: u32,
}

/// A span of time: whole seconds and the nanoseconds beyond them.
#[derive(Clone, Copy, Debug, PartialEq, Eq, Structural)]
pub struct Duration {
    pub secs: u64,
    pub nanos: u32,
}

/// Tells the worker to execute a main class.
#[derive(Clone, Debug, PartialEq, Eq)]
pub struct Exec {
    /// The tag that the response carries.
    pub tag: u32,
    /// The main class, with `.` between packages.
    pub main_class: String,
    /// The arguments of the main class.
    pub params: Vec<String>,
    /// The stream that takes the standard output; `None` discards it.
    pub stdout: Option<u32>,
    /// The stream that takes the standard error; `None` discards it.
    pub stderr: Option<u32>,
    /// The stream that feeds the standard input; `None` gives none.
    pub stdin: Option<u32>,
}

/// The mathematical value of a launch request.
pub struct ExecView {
    pub tag: u32,
    pub main_class: Seq<char>,
    pub params: Seq<Seq<char>>,
    pub stdout: Option<u32>,
    pub stderr: Option<u32>,
    pub stdin: Option<u32>,
}

impl View for Exec {
    type V = ExecView;

    open spec fn view(&self) -> ExecView {
        ExecView {
            tag: self.tag,
            main_class: self.main_class@,
            params: spec_texts(self.params@),
            stdout: self.stdout,
            stderr: self.stderr,
            stdin: self.stdin,
        }
    }
}

/// The response to [`Exec`].
#[derive(Debug, PartialEq, Eq)]
pub struct ExecResult {
    pub tag: u32,
    pub result: Result<TaskInfo, ExecError>,
}

/// The mathematical value of a launch result.
pub struct ExecResultView {
    pub tag: u32,
    pub result: Result<TaskInfo, ExecErrorView>,
}

impl View for ExecResult {
    type V = ExecResultView;

    open spec fn view(&self) -> ExecResultView {
        ExecResultView {
            tag: self.tag,
            result: view_exec_outcome(self.result),
        }
    }
}

/// Asks for at most `size` bytes of a stream.
#[derive(Clone, Copy, Debug, PartialEq, Eq, Structural)]
pub struct Read {
    pub tag: u32,
    pub stream: u32,
    pub size: u32,
}

/// The response to [`Read`]: the bytes read, or the error.
#[derive(Debug, PartialEq, Eq)]
pub struct ReadResult {
    pub tag: u32,
    pub result: Result<Vec<u8>, IoError>,
}

/// The mathematical value of a read result.
pub struct ReadResultView {
    pub tag: u32,
    pub result: Result<Seq<u8>, IoErrorView>,
}

impl View for ReadResult {
    type V = ReadResultView;

    open spec fn view(&self) -> ReadResultView {
        ReadResultView {
            tag: self.tag,
            result: view_read_outcome(self.result),
        }
    }
}

/// Writes bytes to a stream.
#[derive(Clone, Debug, PartialEq, Eq)]
pub struct Write {
    pub tag: u32,
    pub stream: u32,
    pub data: Vec<u8>,
}

/// The mathematical value of a write request.
pub struct WriteView {
    pub tag: u32,
    pub stream: u32,
    pub data: Seq<u8>,
}

impl View for Write {
    type V = WriteView;

    open spec fn view(&self) -> WriteView {
        WriteView { tag: self.tag, stream: self.stream, data: self.data@ }
    }
}

/// The response to [`Write`]: the number of bytes written, or the error.
#[derive(Debug, PartialEq, Eq)]
pub struct WriteResult {
    pub tag: u32,
    pub result: Result<usize, IoError>,
}

/// The mathematical value of a write result.
pub struct WriteResultView {
    pub tag: u32,
    pub result: Result<usize, IoErrorView>,
}

impl View for WriteResult {
    type V = WriteResultView;

    open spec fn view(&self) -> WriteResultView {
        WriteResultView {
            tag: self.tag,
            result: view_write_outcome(self.result),
        }
    }
}

/// Waits for a task to exit, for at most `timeout` if one is given.
#[derive(Clone, Copy, Debug, PartialEq, Eq, Structural)]
pub struct Wait {
    pub tag: u32,
    pub task: u32,
    pub timeout: Option<Duration>,
}

/// The response to [`Wait`]. `timeout` tells that the time ran out; the task
/// may or may not be running still.
#[derive(Clone, Copy, Debug, PartialEq, Eq, Structural)]
pub struct WaitResult {
    pub tag: u32,
    pub timeout: bool,
}

/// Closes a stream.
#[derive(Clone, Copy, Debug, PartialEq, Eq, Structural)]
pub struct Close {
    pub tag: u32,
    pub stream: u32,
}

/// The response to [`Close`].
#[derive(Debug, PartialEq, Eq)]
pub struct CloseResult {
    pub tag: u32,
    pub result: Result<(), IoError>,
}

/// The mathematical value of a close result.
pub struct CloseResultView {
    pub tag: u32,
    pub result: Result<(), IoErrorView>,
}

impl View for CloseResult {
    type V = CloseResultView;

    open spec fn view(&self) -> CloseResultView {
        CloseResultView {
            tag: self.tag,
            result: view_close_outcome(self.result),
        }
    }
}

/// The messages that the worker sends.
#[derive(Debug, PartialEq, Eq)]
pub enum FromJvm {
    ExecResult(ExecResult),
    Write(Write),
    Read(Read),
    WaitResult(WaitResult),
    Close(Close),
}

/// The mathematical value of a message of the worker.
pub enum FromJvmView {
    ExecResult(ExecResultView),
    Write(WriteView),
    Read(Read),
    WaitResult(WaitResult),
    Close(Close),
}

impl View for FromJvm {
    type V = FromJvmView;

    open spec fn view(&self) -> FromJvmView {
        match *self {
            FromJvm::ExecResult(p) => FromJvmView::ExecResult(p@),
            FromJvm::Write(p) => FromJvmView::Write(p@),
            FromJvm::Read(p) => FromJvmView::Read(p),
            FromJvm::WaitResult(p) => FromJvmView::WaitResult(p),
            FromJvm::Close(p) => FromJvmView::Close(p),
        }
    }
}

/// The messages that the host sends.
#[derive(Debug, PartialEq, Eq)]
pub enum ToJvm {
    Exec(Exec),
    WriteResult(WriteResult),
    ReadResult(ReadResult),
    Wait(Wait),
    CloseResult(CloseResult),
}

/// The mathematical value of a message of the host.
pub enum ToJvmView {
    Exec(ExecView),
    WriteResult(WriteResultView),
    ReadResult(ReadResultView),
    Wait(Wait),
    CloseResult(CloseResultView),
}

impl View for ToJvm {
    type V = ToJvmView;

    open spec fn view(&self) -> ToJvmView {
        match *self {
            ToJvm::Exec(p) => ToJvmView::Exec(p@),
            ToJvm::WriteResult(p) => ToJvmView::WriteResult(p@),
            ToJvm::ReadResult(p) => ToJvmView::ReadResult(p@),
            ToJvm::Wait(p) => ToJvmView::Wait(p),
            ToJvm::CloseResult(p) => ToJvmView::CloseResult(p@),
        }
    }
}

impl ExecView {
    /// Whether every text and list is short enough to carry its length in
    /// eight bytes.
    pub open spec fn fits(self) -> bool {
        &&& text_fits(self.main_class)
        &&& self.params.len() <= u64::MAX
        &&& strings_fit(self.params)
    }
}

/// The encoding of a launch request.
pub open spec fn spec_exec(v: ExecView) -> Seq<u8> {
    spec_u32(v.tag) + spec_string(v.main_class) + spec_strings(v.params) + spec_opt_u32(v.stdout)
        + spec_opt_u32(v.stderr) + spec_opt_u32(v.stdin)
}

/// Reads a launch request from the front of `b`.
pub open spec fn spec_parse_exec(b: Seq<u8>) -> Parsed<ExecView> {
    match spec_parse_u32(b) {
        Some((tag, n1)) => match spec_parse_string(b.skip(n1)) {
            Some((main_class, n2)) => match spec_parse_strings(b.skip(n1 + n2)) {
                Some((params, n3)) => match spec_parse_opt_u32(b.skip(n1 + n2 + n3)) {
                    Some((stdout, n4)) => match spec_parse_opt_u32(b.skip(n1 + n2 + n3 + n4)) {
                        Some((stderr, n5)) => match spec_parse_opt_u32(
                            b.skip(n1 + n2 + n3 + n4 + n5),
                        ) {
                            Some((stdin, n6)) => Some(
                                (
                                    ExecView { tag, main_class, params, stdout, stderr, stdin },
                                    n1 + n2 + n3 + n4 + n5 + n6,
                                ),
                            ),
                            None => None,
                        },
                        None => None,
                    },
                    None => None,
                },
                None => None,
            },
            None => None,
        },
        None => None,
    }
}

/// Reading the encoding of a launch request gives it back, whatever follows.
pub proof fn lemma_exec_roundtrip(v: ExecView, rest: Seq<u8>)
    requires
        v.fits(),
    ensures
        spec_parse_exec(spec_exec(v) + rest) == Some((v, spec_exec(v).len() as int)),
{
    let e1 = spec_u32(v.tag);
    let e2 = spec_string(v.main_class);
    let e3 = spec_strings(v.params);
    let e4 = spec_opt_u32(v.stdout);
    let e5 = spec_opt_u32(v.stderr);
    let e6 = spec_opt_u32(v.stdin);
    let s5 = e6 + rest;
    let s4 = e5 + s5;
    let s3 = e4 + s4;
    let s2 = e3 + s3;
    let s1 = e2 + s2;
    let b = spec_exec(v) + rest;
    assert(b =~= e1 + s1);
    lemma_u32_roundtrip(v.tag, s1);
    lemma_string_roundtrip(v.main_class, s2);
    lemma_strings_roundtrip(v.params, s3);
    lemma_opt_u32_roundtrip(v.stdout, s4);
    lemma_opt_u32_roundtrip(v.stderr, s5);
    lemma_opt_u32_roundtrip(v.stdin, rest);
    let n1 = e1.len() as int;
    let n2 = e2.len() as int;
    let n3 = e3.len() as int;
    let n4 = e4.len() as int;
    let n5 = e5.len() as int;
    assert(b.skip(n1) =~= s1);
    assert(b.skip(n1 + n2) =~= s2);
    assert(b.skip(n1 + n2 + n3) =~= s3);
    assert(b.skip(n1 + n2 + n3 + n4) =~= s4);
    assert(b.skip(n1 + n2 + n3 + n4 + n5) =~= s5);
}

/// Appends the encoding of a launch request to `out`.
pub fn put_exec(out: &mut Vec<u8>, v: &Exec)
    ensures
        final(out)@ == old(out)@ + spec_exec(v@),
        v@.fits(),
{
    put_u32(out, v.tag);
    put_string(out, v.main_class.as_str());
    put_strings(out, &v.params);
    put_opt_u32(out, v.stdout);
    put_opt_u32(out, v.stderr);
    put_opt_u32(out, v.stdin);
    assert(out@ =~= old(out)@ + spec_exec(v@));
}

/// Reads a launch request at `pos`: the value and the position behind it, or `None`
/// where the bytes at `pos` are not its encoding.
pub fn get_exec(b: &[u8], pos: usize) -> (r: Option<(Exec, usize)>)
    requires
        pos <= b@.len(),
    ensures
        r matches Some((v, next)) ==> spec_parse_exec(b@.skip(pos as int)) == Some(
            (v@, next - pos),
        ) && pos <= next <= b@.len(),
        r is None ==> spec_parse_exec(b@.skip(pos as int)) is None,
{
    let ghost base = b@.skip(pos as int);
    let (tag, p1) = match get_u32(b, pos) {
        Some(x) => x,
        None => { return None; },
    };
    assert(base.skip(p1 - pos) =~= b@.skip(p1 as int));
    let (main_class, p2) = match get_string(b, p1) {
        Some(x) => x,
        None => { return None; },
    };
    assert(base.skip(p2 - pos) =~= b@.skip(p2 as int));
    let (params, p3) = match get_strings(b, p2) {
        Some(x) => x,
        None => { return None; },
    };
    assert(base.skip(p3 - pos) =~= b@.skip(p3 as int));
    let (stdout, p4) = match get_opt_u32(b, p3) {
        Some(x) => x,
        None => { return None; },
    };
    assert(base.skip(p4 - pos) =~= b@.skip(p4 as int));
    let (stderr, p5) = match get_opt_u32(b, p4) {
        Some(x) => x,
        None => { return None; },
    };
    assert(base.skip(p5 - pos) =~= b@.skip(p5 as int));
    let (stdin, p6) = match get_opt_u32(b, p5) {
        Some(x) => x,
        None => { return None; },
    };
    Some((Exec { tag, main_class, params, stdout, stderr, stdin }, p6))
}

/// The mathematical value of the result of a launch.
pub open spec fn view_exec_outcome(r: Result<TaskInfo, ExecError>) -> Result<
    TaskInfo,
    ExecErrorView,
> {
    match r {
        Ok(x) => Ok(x),
        Err(e) => Err(e@),
    }
}

/// Whether every text and byte string of the result of a launch is short enough to carry its
/// length in eight bytes.
pub open spec fn exec_outcome_fits(r: Result<TaskInfo, ExecErrorView>) -> bool {
    match r {
        Ok(x) => true,
        Err(e) => text_fits(e.message()),
    }
}

/// The encoding of the result of a launch.
pub open spec fn spec_exec_outcome(r: Result<TaskInfo, ExecErrorView>) -> Seq<u8> {
    match r {
        Ok(x) => spec_u8(0) + spec_u32(x.task_id),
        Err(e) => spec_u8(1) + spec_exec_error(e),
    }
}

/// Reads the result of a launch from the front of `b`.
pub open spec fn spec_parse_exec_outcome(b: Seq<u8>) -> Parsed<Result<TaskInfo, ExecErrorView>> {
    match spec_parse_u8(b) {
        Some((t, n)) => if t == 0 {
            match spec_parse_u32(b.skip(n)) {
                Some((id, m)) => Some((Ok(TaskInfo { task_id: id }), n + m)),
                None => None,
            }
        } else if t == 1 {
            match spec_parse_exec_error(b.skip(n)) {
                Some((e, m)) => Some((Err(e), n + m)),
                None => None,
            }
        } else {
            None
        },
        None => None,
    }
}

/// Reading the encoding of the result of a launch gives it back, whatever follows.
pub proof fn lemma_exec_outcome_roundtrip(r: Result<TaskInfo, ExecErrorView>, rest: Seq<u8>)
    requires
        exec_outcome_fits(r),
    ensures
        spec_parse_exec_outcome(spec_exec_outcome(r) + rest) == Some(
            (r, spec_exec_outcome(r).len() as int),
        ),
{
    let b = spec_exec_outcome(r) + rest;
    match r {
        Ok(x) => {
            lemma_u32_roundtrip(x.task_id, rest);
            assert(b.skip(1) =~= spec_u32(x.task_id) + rest);
        },
        Err(e) => {
            lemma_exec_error_roundtrip(e, rest);
            assert(b.skip(1) =~= spec_exec_error(e) + rest);
        },
    }
}

/// Appends the encoding of the result of a launch to `out`.
pub fn put_exec_outcome(out: &mut Vec<u8>, r: &Result<TaskInfo, ExecError>)
    ensures
        final(out)@ == old(out)@ + spec_exec_outcome(view_exec_outcome(*r)),
        exec_outcome_fits(view_exec_outcome(*r)),
{
    match r {
        Ok(x) => {
            put_u8(out, 0);
            put_u32(out, x.task_id);
        },
        Err(e) => {
            put_u8(out, 1);
            put_exec_error(out, e);
        },
    }
    assert(out@ =~= old(out)@ + spec_exec_outcome(view_exec_outcome(*r)));
}

/// Reads the result of a launch at `pos`: the value and the position behind it, or `None`
/// where the bytes at `pos` are not its encoding.
pub fn get_exec_outcome(b: &[u8], pos: usize) -> (r: Option<(Result<TaskInfo, ExecError>, usize)>)
    requires
        pos <= b@.len(),
    ensures
        r matches Some((v, next)) ==> spec_parse_exec_outcome(b@.skip(pos as int)) == Some(
            (view_exec_outcome(v), next - pos),
        ) && pos <= next <= b@.len(),
        r is None ==> spec_parse_exec_outcome(b@.skip(pos as int)) is None,
{
    let (t, mid) = match get_u8(b, pos) {
        Some(x) => x,
        None => {
            return None;
        },
    };
    assert(b@.skip(pos as int).skip(mid - pos) =~= b@.skip(mid as int));
    if t == 0 {
        match get_u32(b, mid) {
            Some((id, next)) => Some((Ok(TaskInfo { task_id: id }), next)),
            None => None,
        }
    } else if t == 1 {
        match get_exec_error(b, mid) {
            Some((e, next)) => Some((Err(e), next)),
            None => None,
        }
    } else {
        None
    }
}

/// The mathematical value of the result of a read.
pub open spec fn view_read_outcome(r: Result<Vec<u8>, IoError>) -> Result<Seq<u8>, IoErrorView> {
    match r {
        Ok(x) => Ok(x@),
        Err(e) => Err(e@),
    }
}

/// Whether every text and byte string of the result of a read is short enough to carry its
/// length in eight bytes.
pub open spec fn read_outcome_fits(r: Result<Seq<u8>, IoErrorView>) -> bool {
    match r {
        Ok(x) => x.len() <= u64::MAX,
        Err(e) => text_fits(e.message),
    }
}

/// The encoding of the result of a read.
pub open spec fn spec_read_outcome(r: Result<Seq<u8>, IoErrorView>) -> Seq<u8> {
    match r {
        Ok(x) => spec_u8(0) + spec_bytes(x),
        Err(e) => spec_u8(1) + spec_io_error(e),
    }
}

/// Reads the result of a read from the front of `b`.
pub open spec fn spec_parse_read_outcome(b: Seq<u8>) -> Parsed<Result<Seq<u8>, IoErrorView>> {
    match spec_parse_u8(b) {
        Some((t, n)) => if t == 0 {
            match spec_parse_bytes(b.skip(n)) {
                Some((data, m)) => Some((Ok(data), n + m)),
                None => None,
            }
        } else if t == 1 {
            match spec_parse_io_error(b.skip(n)) {
                Some((e, m)) => Some((Err(e), n + m)),
                None => None,
            }
        } else {
            None
        },
        None => None,
    }
}

/// Reading the encoding of the result of a read gives it back, whatever follows.
pub proof fn lemma_read_outcome_roundtrip(r: Result<Seq<u8>, IoErrorView>, rest: Seq<u8>)
    requires
        read_outcome_fits(r),
    ensures
        spec_parse_read_outcome(spec_read_outcome(r) + rest) == Some(
            (r, spec_read_outcome(r).len() as int),
        ),
{
    let b = spec_read_outcome(r) + rest;
    match r {
        Ok(x) => {
            lemma_bytes_roundtrip(x, rest);
            assert(b.skip(1) =~= spec_bytes(x) + rest);
        },
        Err(e) => {
            lemma_io_error_roundtrip(e, rest);
            assert(b.skip(1) =~= spec_io_error(e) + rest);
        },
    }
}

/// Appends the encoding of the result of a read to `out`.
pub fn put_read_outcome(out: &mut Vec<u8>, r: &Result<Vec<u8>, IoError>)
    ensures
        final(out)@ == old(out)@ + spec_read_outcome(view_read_outcome(*r)),
        read_outcome_fits(view_read_outcome(*r)),
{
    match r {
        Ok(x) => {
            put_u8(out, 0);
            put_bytes(out, x.as_slice());
        },
        Err(e) => {
            put_u8(out, 1);
            put_io_error(out, e);
        },
    }
    assert(out@ =~= old(out)@ + spec_read_outcome(view_read_outcome(*r)));
}

/// Reads the result of a read at `pos`: the value and the position behind it, or `None`
/// where the bytes at `pos` are not its encoding.
pub fn get_read_outcome(b: &[u8], pos: usize) -> (r: Option<(Result<Vec<u8>, IoError>, usize)>)
    requires
        pos <= b@.len(),
    ensures
        r matches Some((v, next)) ==> spec_parse_read_outcome(b@.skip(pos as int)) == Some(
            (view_read_outcome(v), next - pos),
        ) && pos <= next <= b@.len(),
        r is None ==> spec_parse_read_outcome(b@.skip(pos as int)) is None,
{
    let (t, mid) = match get_u8(b, pos) {
        Some(x) => x,
        None => {
            return None;
        },
    };
    assert(b@.skip(pos as int).skip(mid - pos) =~= b@.skip(mid as int));
    if t == 0 {
        match get_bytes(b, mid) {
            Some((data, next)) => Some((Ok(data), next)),
            None => None,
        }
    } else if t == 1 {
        match get_io_error(b, mid) {
            Some((e, next)) => Some((Err(e), next)),
            None => None,
        }
    } else {
        None
    }
}

/// The mathematical value of the result of a write.
pub open spec fn view_write_outcome(r: Result<usize, IoError>) -> Result<usize, IoErrorView> {
    match r {
        Ok(x) => Ok(x),
        Err(e) => Err(e@),
    }
}

/// Whether every text and byte string of the result of a write is short enough to carry its
/// length in eight bytes.
pub open spec fn write_outcome_fits(r: Result<usize, IoErrorView>) -> bool {
    match r {
        Ok(x) => true,
        Err(e) => text_fits(e.message),
    }
}

/// The encoding of the result of a write.
pub open spec fn spec_write_outcome(r: Result<usize, IoErrorView>) -> Seq<u8> {
    match r {
        Ok(x) => spec_u8(0) + spec_usize(x),
        Err(e) => spec_u8(1) + spec_io_error(e),
    }
}

/// Reads the result of a write from the front of `b`.
pub open spec fn spec_parse_write_outcome(b: Seq<u8>) -> Parsed<Result<usize, IoErrorView>> {
    match spec_parse_u8(b) {
        Some((t, n)) => if t == 0 {
            match spec_parse_usize(b.skip(n)) {
                Some((count, m)) => Some((Ok(count), n + m)),
                None => None,
            }
        } else if t == 1 {
            match spec_parse_io_error(b.skip(n)) {
                Some((e, m)) => Some((Err(e), n + m)),
                None => None,
            }
        } else {
            None
        },
        None => None,
    }
}

/// Reading the encoding of the result of a write gives it back, whatever follows.
pub proof fn lemma_write_outcome_roundtrip(r: Result<usize, IoErrorView>, rest: Seq<u8>)
    requires
        write_outcome_fits(r),
    ensures
        spec_parse_write_outcome(spec_write_outcome(r) + rest) == Some(
            (r, spec_write_outcome(r).len() as int),
        ),
{
    let b = spec_write_outcome(r) + rest;
    match r {
        Ok(x) => {
            lemma_usize_roundtrip(x, rest);
            assert(b.skip(1) =~= spec_usize(x) + rest);
        },
        Err(e) => {
            lemma_io_error_roundtrip(e, rest);
            assert(b.skip(1) =~= spec_io_error(e) + rest);
        },
    }
}

/// Appends the encoding of the result of a write to `out`.
pub fn put_write_outcome(out: &mut Vec<u8>, r: &Result<usize, IoError>)
    ensures
        final(out)@ == old(out)@ + spec_write_outcome(view_write_outcome(*r)),
        write_outcome_fits(view_write_outcome(*r)),
{
    match r {
        Ok(x) => {
            put_u8(out, 0);
            put_usize(out, *x);
        },
        Err(e) => {
            put_u8(out, 1);
            put_io_error(out, e);
        },
    }
    assert(out@ =~= old(out)@ + spec_write_outcome(view_write_outcome(*r)));
}

/// Reads the result of a write at `pos`: the value and the position behind it, or `None`
/// where the bytes at `pos` are not its encoding.
pub fn get_write_outcome(b: &[u8], pos: usize) -> (r: Option<(Result<usize, IoError>, usize)>)
    requires
        pos <= b@.len(),
    ensures
        r matches Some((v, next)) ==> spec_parse_write_outcome(b@.skip(pos as int)) == Some(
            (view_write_outcome(v), next - pos),
        ) && pos <= next <= b@.len(),
        r is None ==> spec_parse_write_outcome(b@.skip(pos as int)) is None,
{
    let (t, mid) = match get_u8(b, pos) {
        Some(x) => x,
        None => {
            return None;
        },
    };
    assert(b@.skip(pos as int).skip(mid - pos) =~= b@.skip(mid as int));
    if t == 0 {
        match get_usize(b, mid) {
            Some((count, next)) => Some((Ok(count), next)),
            None => None,
        }
    } else if t == 1 {
        match get_io_error(b, mid) {
            Some((e, next)) => Some((Err(e), next)),
            None => None,
        }
    } else {
        None
    }
}

/// The mathematical value of the result of a close.
pub open spec fn view_close_outcome(r: Result<(), IoError>) -> Result<(), IoErrorView> {
    match r {
        Ok(x) => Ok(()),
        Err(e) => Err(e@),
    }
}

/// Whether every text and byte string of the result of a close is short enough to carry its
/// length in eight bytes.
pub open spec fn close_outcome_fits(r: Result<(), IoErrorView>) -> bool {
    match r {
        Ok(x) => true,
        Err(e) => text_fits(e.message),
    }
}

/// The encoding of the result of a close.
pub open spec fn spec_close_outcome(r: Result<(), IoErrorView>) -> Seq<u8> {
    match r {
        Ok(x) => spec_u8(0) + Seq::<u8>::empty(),
        Err(e) => spec_u8(1) + spec_io_error(e),
    }
}

/// Reads the result of a close from the front of `b`.
pub open spec fn spec_parse_close_outcome(b: Seq<u8>) -> Parsed<Result<(), IoErrorView>> {
    match spec_parse_u8(b) {
        Some((t, n)) => if t == 0 {
            Some((Ok(()), n))
        } else if t == 1 {
            match spec_parse_io_error(b.skip(n)) {
                Some((e, m)) => Some((Err(e), n + m)),
                None => None,
            }
        } else {
            None
        },
        None => None,
    }
}

/// Reading the encoding of the result of a close gives it back, whatever follows.
pub proof fn lemma_close_outcome_roundtrip(r: Result<(), IoErrorView>, rest: Seq<u8>)
    requires
        close_outcome_fits(r),
    ensures
        spec_parse_close_outcome(spec_close_outcome(r) + rest) == Some(
            (r, spec_close_outcome(r).len() as int),
        ),
{
    let b = spec_close_outcome(r) + rest;
    match r {
        Ok(x) => {
            assert(b =~= spec_u8(0) + rest);
        },
        Err(e) => {
            lemma_io_error_roundtrip(e, rest);
            assert(b.skip(1) =~= spec_io_error(e) + rest);
        },
    }
}

/// Appends the encoding of the result of a close to `out`.
pub fn put_close_outcome(out: &mut Vec<u8>, r: &Result<(), IoError>)
    ensures
        final(out)@ == old(out)@ + spec_close_outcome(view_close_outcome(*r)),
        close_outcome_fits(view_close_outcome(*r)),
{
    match r {
        Ok(x) => {
            put_u8(out, 0);
            
        },
        Err(e) => {
            put_u8(out, 1);
            put_io_error(out, e);
        },
    }
    assert(out@ =~= old(out)@ + spec_close_outcome(view_close_outcome(*r)));
}

/// Reads the result of a close at `pos`: the value and the position behind it, or `None`
/// where the bytes at `pos` are not its encoding.
pub fn get_close_outcome(b: &[u8], pos: usize) -> (r: Option<(Result<(), IoError>, usize)>)
    requires
        pos <= b@.len(),
    ensures
        r matches Some((v, next)) ==> spec_parse_close_outcome(b@.skip(pos as int)) == Some(
            (view_close_outcome(v), next - pos),
        ) && pos <= next <= b@.len(),
        r is None ==> spec_parse_close_outcome(b@.skip(pos as int)) is None,
{
    let (t, mid) = match get_u8(b, pos) {
        Some(x) => x,
        None => {
            return None;
        },
    };
    assert(b@.skip(pos as int).skip(mid - pos) =~= b@.skip(mid as int));
    if t == 0 {
        Some((Ok(()), mid))
    } else if t == 1 {
        match get_io_error(b, mid) {
            Some((e, next)) => Some((Err(e), next)),
            None => None,
        }
    } else {
        None
    }
}

/// The encoding of an optional span of time.
pub open spec fn spec_opt_duration(v: Option<Duration>) -> Seq<u8> {
    match v {
        None => spec_u8(0),
        Some(d) => spec_u8(1) + spec_u64(d.secs) + spec_u32(d.nanos),
    }
}

/// Reads an optional span of time from the front of `b`.
pub open spec fn spec_parse_opt_duration(b: Seq<u8>) -> Parsed<Option<Duration>> {
    match spec_parse_u8(b) {
        Some((t, n)) => if t == 0 {
            Some((None, n))
        } else if t == 1 {
            match spec_parse_u64(b.skip(n)) {
                Some((secs, m)) => match spec_parse_u32(b.skip(n + m)) {
                    Some((nanos, k)) => Some((Some(Duration { secs, nanos }), n + m + k)),
                    None => None,
                },
                None => None,
            }
        } else {
            None
        },
        None => None,
    }
}

/// Reading the encoding of an optional span of time gives it back, whatever follows.
pub proof fn lemma_opt_duration_roundtrip(v: Option<Duration>, rest: Seq<u8>)
    ensures
        spec_parse_opt_duration(spec_opt_duration(v) + rest) == Some(
            (v, spec_opt_duration(v).len() as int),
        ),
{
    let b = spec_opt_duration(v) + rest;
    match v {
        None => {},
        Some(d) => {
            lemma_u64_roundtrip(d.secs, spec_u32(d.nanos) + rest);
            lemma_u32_roundtrip(d.nanos, rest);
            assert(b.skip(1) =~= spec_u64(d.secs) + (spec_u32(d.nanos) + rest));
            assert(b.skip(9) =~= spec_u32(d.nanos) + rest);
        },
    }
}

/// Appends the encoding of an optional span of time to `out`.
pub fn put_opt_duration(out: &mut Vec<u8>, v: Option<Duration>)
    ensures
        final(out)@ == old(out)@ + spec_opt_duration(v),
{
    match v {
        None => {
            put_u8(out, 0);
        },
        Some(d) => {
            put_u8(out, 1);
            put_u64(out, d.secs);
            put_u32(out, d.nanos);
        },
    }
    assert(out@ =~= old(out)@ + spec_opt_duration(v));
}

/// Reads an optional span of time at `pos`: the value and the position behind it, or `None`
/// where the bytes at `pos` are not its encoding.
pub fn get_opt_duration(b: &[u8], pos: usize) -> (r: Option<(Option<Duration>, usize)>)
    requires
        pos <= b@.len(),
    ensures
        r matches Some((v, next)) ==> spec_parse_opt_duration(b@.skip(pos as int)) == Some(
            (v, next - pos),
        ) && pos <= next <= b@.len(),
        r is None ==> spec_parse_opt_duration(b@.skip(pos as int)) is None,
{
    let ghost base = b@.skip(pos as int);
    let (t, p1) = match get_u8(b, pos) {
        Some(x) => x,
        None => {
            return None;
        },
    };
    assert(base.skip(p1 - pos) =~= b@.skip(p1 as int));
    if t == 0 {
        Some((None, p1))
    } else if t == 1 {
        let (secs, p2) = match get_u64(b, p1) {
            Some(x) => x,
            None => {
                return None;
            },
        };
        assert(base.skip(p2 - pos) =~= b@.skip(p2 as int));
        let (nanos, p3) = match get_u32(b, p2) {
            Some(x) => x,
            None => {
                return None;
            },
        };
        Some((Some(Duration { secs, nanos }), p3))
    } else {
        None
    }
}

impl ExecResultView {
    /// Whether every text, byte string and list is short enough to carry its
    /// length in eight bytes.
    pub open spec fn fits(self) -> bool {
        &&& exec_outcome_fits(self.result)
    }
}

/// The encoding of a launch result.
pub open spec fn spec_exec_result(v: ExecResultView) -> Seq<u8> {
    spec_u32(v.tag) + spec_exec_outcome(v.result)
}

/// Reads a launch result from the front of `b`.
pub open spec fn spec_parse_exec_result(b: Seq<u8>) -> Parsed<ExecResultView> {
    match spec_parse_u32(b) {
        Some((tag, n1)) => match spec_parse_exec_outcome(b.skip(n1)) {
            Some((result, n2)) => Some((ExecResultView { tag, result }, n1 + n2)),
            None => None,
        },
        None => None,
    }
}

/// Reading the encoding of a launch result gives it back, whatever follows.
pub proof fn lemma_exec_result_roundtrip(v: ExecResultView, rest: Seq<u8>)
    requires
        v.fits(),
    ensures
        spec_parse_exec_result(spec_exec_result(v) + rest) == Some(
            (v, spec_exec_result(v).len() as int),
        ),
{
    let e1 = spec_u32(v.tag);
    let e2 = spec_exec_outcome(v.result);
    let s2 = rest;
    let s1 = e2 + s2;
    let b = spec_exec_result(v) + rest;
    assert(b =~= e1 + s1);
    lemma_u32_roundtrip(v.tag, s1);
    lemma_exec_outcome_roundtrip(v.result, s2);
    assert(b.skip((e1.len()) as int) =~= s1);
}

/// Appends the encoding of a launch result to `out`.
pub fn put_exec_result(out: &mut Vec<u8>, v: &ExecResult)
    ensures
        final(out)@ == old(out)@ + spec_exec_result(v@),
        v@.fits(),
{
    put_u32(out, v.tag);
    put_exec_outcome(out, &v.result);
    assert(out@ =~= old(out)@ + spec_exec_result(v@));
}

/// Reads a launch result at `pos`: the value and the position behind it, or `None`
/// where the bytes at `pos` are not its encoding.
pub fn get_exec_result(b: &[u8], pos: usize) -> (r: Option<(ExecResult, usize)>)
    requires
        pos <= b@.len(),
    ensures
        r matches Some((v, next)) ==> spec_parse_exec_result(b@.skip(pos as int)) == Some(
            (v@, next - pos),
        ) && pos <= next <= b@.len(),
        r is None ==> spec_parse_exec_result(b@.skip(pos as int)) is None,
{
    let ghost base = b@.skip(pos as int);
    let (tag, p1) = match get_u32(b, pos) {
        Some(x) => x,
        None => {
            return None;
        },
    };
    assert(base.skip(p1 - pos) =~= b@.skip(p1 as int));
    let (result, p2) = match get_exec_outcome(b, p1) {
        Some(x) => x,
        None => {
            return None;
        },
    };
    Some((ExecResult { tag, result }, p2))
}

/// The encoding of a read request.
pub open spec fn spec_read_req(v: Read) -> Seq<u8> {
    spec_u32(v.tag) + spec_u32(v.stream) + spec_u32(v.size)
}

/// Reads a read request from the front of `b`.
pub open spec fn spec_parse_read_req(b: Seq<u8>) -> Parsed<Read> {
    match spec_parse_u32(b) {
        Some((tag, n1)) => match spec_parse_u32(b.skip(n1)) {
            Some((stream, n2)) => match spec_parse_u32(b.skip(n1 + n2)) {
                Some((size, n3)) => Some((Read { tag, stream, size }, n1 + n2 + n3)),
                None => None,
            },
            None => None,
        },
        None => None,
    }
}

/// Reading the encoding of a read request gives it back, whatever follows.
pub proof fn lemma_read_req_roundtrip(v: Read, rest: Seq<u8>)
    ensures
        spec_parse_read_req(spec_read_req(v) + rest) == Some((v, spec_read_req(v).len() as int)),
{
    let e1 = spec_u32(v.tag);
    let e2 = spec_u32(v.stream);
    let e3 = spec_u32(v.size);
    let s3 = rest;
    let s2 = e3 + s3;
    let s1 = e2 + s2;
    let b = spec_read_req(v) + rest;
    assert(b =~= e1 + s1);
    lemma_u32_roundtrip(v.tag, s1);
    lemma_u32_roundtrip(v.stream, s2);
    lemma_u32_roundtrip(v.size, s3);
    assert(b.skip((e1.len()) as int) =~= s1);
    assert(b.skip((e1.len() + e2.len()) as int) =~= s2);
}

/// Appends the encoding of a read request to `out`.
pub fn put_read_req(out: &mut Vec<u8>, v: &Read)
    ensures
        final(out)@ == old(out)@ + spec_read_req(*v),
{
    put_u32(out, v.tag);
    put_u32(out, v.stream);
    put_u32(out, v.size);
    assert(out@ =~= old(out)@ + spec_read_req(*v));
}

/// Reads a read request at `pos`: the value and the position behind it, or `None`
/// where the bytes at `pos` are not its encoding.
pub fn get_read_req(b: &[u8], pos: usize) -> (r: Option<(Read, usize)>)
    requires
        pos <= b@.len(),
    ensures
        r matches Some((v, next)) ==> spec_parse_read_req(b@.skip(pos as int)) == Some(
            (v, next - pos),
        ) && pos <= next <= b@.len(),
        r is None ==> spec_parse_read_req(b@.skip(pos as int)) is None,
{
    let ghost base = b@.skip(pos as int);
    let (tag, p1) = match get_u32(b, pos) {
        Some(x) => x,
        None => {
            return None;
        },
    };
    assert(base.skip(p1 - pos) =~= b@.skip(p1 as int));
    let (stream, p2) = match get_u32(b, p1) {
        Some(x) => x,
        None => {
            return None;
        },
    };
    assert(base.skip(p2 - pos) =~= b@.skip(p2 as int));
    let (size, p3) = match get_u32(b, p2) {
        Some(x) => x,
        None => {
            return None;
        },
    };
    Some((Read { tag, stream, size }, p3))
}

impl ReadResultView {
    /// Whether every text, byte string and list is short enough to carry its
    /// length in eight bytes.
    pub open spec fn fits(self) -> bool {
        &&& read_outcome_fits(self.result)
    }
}

/// The encoding of a read result.
pub open spec fn spec_read_result(v: ReadResultView) -> Seq<u8> {
    spec_u32(v.tag) + spec_read_outcome(v.result)
}

/// Reads a read result from the front of `b`.
pub open spec fn spec_parse_read_result(b: Seq<u8>) -> Parsed<ReadResultView> {
    match spec_parse_u32(b) {
        Some((tag, n1)) => match spec_parse_read_outcome(b.skip(n1)) {
            Some((result, n2)) => Some((ReadResultView { tag, result }, n1 + n2)),
            None => None,
        },
        None => None,
    }
}

/// Reading the encoding of a read result gives it back, whatever follows.
pub proof fn lemma_read_result_roundtrip(v: ReadResultView, rest: Seq<u8>)
    requires
        v.fits(),
    ensures
        spec_parse_read_result(spec_read_result(v) + rest) == Some(
            (v, spec_read_result(v).len() as int),
        ),
{
    let e1 = spec_u32(v.tag);
    let e2 = spec_read_outcome(v.result);
    let s2 = rest;
    let s1 = e2 + s2;
    let b = spec_read_result(v) + rest;
    assert(b =~= e1 + s1);
    lemma_u32_roundtrip(v.tag, s1);
    lemma_read_outcome_roundtrip(v.result, s2);
    assert(b.skip((e1.len()) as int) =~= s1);
}

/// Appends the encoding of a read result to `out`.
pub fn put_read_result(out: &mut Vec<u8>, v: &ReadResult)
    ensures
        final(out)@ == old(out)@ + spec_read_result(v@),
        v@.fits(),
{
    put_u32(out, v.tag);
    put_read_outcome(out, &v.result);
    assert(out@ =~= old(out)@ + spec_read_result(v@));
}

/// Reads a read result at `pos`: the value and the position behind it, or `None`
/// where the bytes at `pos` are not its encoding.
pub fn get_read_result(b: &[u8], pos: usize) -> (r: Option<(ReadResult, usize)>)
    requires
        pos <= b@.len(),
    ensures
        r matches Some((v, next)) ==> spec_parse_read_result(b@.skip(pos as int)) == Some(
            (v@, next - pos),
        ) && pos <= next <= b@.len(),
        r is None ==> spec_parse_read_result(b@.skip(pos as int)) is None,
{
    let ghost base = b@.skip(pos as int);
    let (tag, p1) = match get_u32(b, pos) {
        Some(x) => x,
        None => {
            return None;
        },
    };
    assert(base.skip(p1 - pos) =~= b@.skip(p1 as int));
    let (result, p2) = match get_read_outcome(b, p1) {
        Some(x) => x,
        None => {
            return None;
        },
    };
    Some((ReadResult { tag, result }, p2))
}

impl WriteView {
    /// Whether every text, byte string and list is short enough to carry its
    /// length in eight bytes.
    pub open spec fn fits(self) -> bool {
        &&& self.data.len() <= u64::MAX
    }
}

/// The encoding of a write request.
pub open spec fn spec_write_req(v: WriteView) -> Seq<u8> {
    spec_u32(v.tag) + spec_u32(v.stream) + spec_bytes(v.data)
}

/// Reads a write request from the front of `b`.
pub open spec fn spec_parse_write_req(b: Seq<u8>) -> Parsed<WriteView> {
    match spec_parse_u32(b) {
        Some((tag, n1)) => match spec_parse_u32(b.skip(n1)) {
            Some((stream, n2)) => match spec_parse_bytes(b.skip(n1 + n2)) {
                Some((data, n3)) => Some((WriteView { tag, stream, data }, n1 + n2 + n3)),
                None => None,
            },
            None => None,
        },
        None => None,
    }
}

/// Reading the encoding of a write request gives it back, whatever follows.
pub proof fn lemma_write_req_roundtrip(v: WriteView, rest: Seq<u8>)
    requires
        v.fits(),
    ensures
        spec_parse_write_req(spec_write_req(v) + rest) == Some((v, spec_write_req(v).len() as int)),
{
    let e1 = spec_u32(v.tag);
    let e2 = spec_u32(v.stream);
    let e3 = spec_bytes(v.data);
    let s3 = rest;
    let s2 = e3 + s3;
    let s1 = e2 + s2;
    let b = spec_write_req(v) + rest;
    assert(b =~= e1 + s1);
    lemma_u32_roundtrip(v.tag, s1);
    lemma_u32_roundtrip(v.stream, s2);
    lemma_bytes_roundtrip(v.data, s3);
    assert(b.skip((e1.len()) as int) =~= s1);
    assert(b.skip((e1.len() + e2.len()) as int) =~= s2);
}

/// Appends the encoding of a write request to `out`.
pub fn put_write_req(out: &mut Vec<u8>, v: &Write)
    ensures
        final(out)@ == old(out)@ + spec_write_req(v@),
        v@.fits(),
{
    put_u32(out, v.tag);
    put_u32(out, v.stream);
    put_bytes(out, v.data.as_slice());
    assert(out@ =~= old(out)@ + spec_write_req(v@));
}

/// Reads a write request at `pos`: the value and the position behind it, or `None`
/// where the bytes at `pos` are not its encoding.
pub fn get_write_req(b: &[u8], pos: usize) -> (r: Option<(Write, usize)>)
    requires
        pos <= b@.len(),
    ensures
        r matches Some((v, next)) ==> spec_parse_write_req(b@.skip(pos as int)) == Some(
            (v@, next - pos),
        ) && pos <= next <= b@.len(),
        r is None ==> spec_parse_write_req(b@.skip(pos as int)) is None,
{
    let ghost base = b@.skip(pos as int);
    let (tag, p1) = match get_u32(b, pos) {
        Some(x) => x,
        None => {
            return None;
        },
    };
    assert(base.skip(p1 - pos) =~= b@.skip(p1 as int));
    let (stream, p2) = match get_u32(b, p1) {
        Some(x) => x,
        None => {
            return None;
        },
    };
    assert(base.skip(p2 - pos) =~= b@.skip(p2 as int));
    let (data, p3) = match get_bytes(b, p2) {
        Some(x) => x,
        None => {
            return None;
        },
    };
    Some((Write { tag, stream, data }, p3))
}

impl WriteResultView {
    /// Whether every text, byte string and list is short enough to carry its
    /// length in eight bytes.
    pub open spec fn fits(self) -> bool {
        &&& write_outcome_fits(self.result)
    }
}

/// The encoding of a write result.
pub open spec fn spec_write_result(v: WriteResultView) -> Seq<u8> {
    spec_u32(v.tag) + spec_write_outcome(v.result)
}

/// Reads a write result from the front of `b`.
pub open spec fn spec_parse_write_result(b: Seq<u8>) -> Parsed<WriteResultView> {
    match spec_parse_u32(b) {
        Some((tag, n1)) => match spec_parse_write_outcome(b.skip(n1)) {
            Some((result, n2)) => Some((WriteResultView { tag, result }, n1 + n2)),
            None => None,
        },
        None => None,
    }
}

/// Reading the encoding of a write result gives it back, whatever follows.
pub proof fn lemma_write_result_roundtrip(v: WriteResultView, rest: Seq<u8>)
    requires
        v.fits(),
    ensures
        spec_parse_write_result(spec_write_result(v) + rest) == Some(
            (v, spec_write_result(v).len() as int),
        ),
{
    let e1 = spec_u32(v.tag);
    let e2 = spec_write_outcome(v.result);
    let s2 = rest;
    let s1 = e2 + s2;
    let b = spec_write_result(v) + rest;
    assert(b =~= e1 + s1);
    lemma_u32_roundtrip(v.tag, s1);
    lemma_write_outcome_roundtrip(v.result, s2);
    assert(b.skip((e1.len()) as int) =~= s1);
}

/// Appends the encoding of a write result to `out`.
pub fn put_write_result(out: &mut Vec<u8>, v: &WriteResult)
    ensures
        final(out)@ == old(out)@ + spec_write_result(v@),
        v@.fits(),
{
    put_u32(out, v.tag);
    put_write_outcome(out, &v.result);
    assert(out@ =~= old(out)@ + spec_write_result(v@));
}

/// Reads a write result at `pos`: the value and the position behind it, or `None`
/// where the bytes at `pos` are not its encoding.
pub fn get_write_result(b: &[u8], pos: usize) -> (r: Option<(WriteResult, usize)>)
    requires
        pos <= b@.len(),
    ensures
        r matches Some((v, next)) ==> spec_parse_write_result(b@.skip(pos as int)) == Some(
            (v@, next - pos),
        ) && pos <= next <= b@.len(),
        r is None ==> spec_parse_write_result(b@.skip(pos as int)) is None,
{
    let ghost base = b@.skip(pos as int);
    let (tag, p1) = match get_u32(b, pos) {
        Some(x) => x,
        None => {
            return None;
        },
    };
    assert(base.skip(p1 - pos) =~= b@.skip(p1 as int));
    let (result, p2) = match get_write_outcome(b, p1) {
        Some(x) => x,
        None => {
            return None;
        },
    };
    Some((WriteResult { tag, result }, p2))
}

/// The encoding of a wait request.
pub open spec fn spec_wait_req(v: Wait) -> Seq<u8> {
    spec_u32(v.tag) + spec_u32(v.task) + spec_opt_duration(v.timeout)
}

/// Reads a wait request from the front of `b`.
pub open spec fn spec_parse_wait_req(b: Seq<u8>) -> Parsed<Wait> {
    match spec_parse_u32(b) {
        Some((tag, n1)) => match spec_parse_u32(b.skip(n1)) {
            Some((task, n2)) => match spec_parse_opt_duration(b.skip(n1 + n2)) {
                Some((timeout, n3)) => Some((Wait { tag, task, timeout }, n1 + n2 + n3)),
                None => None,
            },
            None => None,
        },
        None => None,
    }
}

/// Reading the encoding of a wait request gives it back, whatever follows.
pub proof fn lemma_wait_req_roundtrip(v: Wait, rest: Seq<u8>)
    ensures
        spec_parse_wait_req(spec_wait_req(v) + rest) == Some((v, spec_wait_req(v).len() as int)),
{
    let e1 = spec_u32(v.tag);
    let e2 = spec_u32(v.task);
    let e3 = spec_opt_duration(v.timeout);
    let s3 = rest;
    let s2 = e3 + s3;
    let s1 = e2 + s2;
    let b = spec_wait_req(v) + rest;
    assert(b =~= e1 + s1);
    lemma_u32_roundtrip(v.tag, s1);
    lemma_u32_roundtrip(v.task, s2);
    lemma_opt_duration_roundtrip(v.timeout, s3);
    assert(b.skip((e1.len()) as int) =~= s1);
    assert(b.skip((e1.len() + e2.len()) as int) =~= s2);
}

/// Appends the encoding of a wait request to `out`.
pub fn put_wait_req(out: &mut Vec<u8>, v: &Wait)
    ensures
        final(out)@ == old(out)@ + spec_wait_req(*v),
{
    put_u32(out, v.tag);
    put_u32(out, v.task);
    put_opt_duration(out, v.timeout);
    assert(out@ =~= old(out)@ + spec_wait_req(*v));
}

/// Reads a wait request at `pos`: the value and the position behind it, or `None`
/// where the bytes at `pos` are not its encoding.
pub fn get_wait_req(b: &[u8], pos: usize) -> (r: Option<(Wait, usize)>)
    requires
        pos <= b@.len(),
    ensures
        r matches Some((v, next)) ==> spec_parse_wait_req(b@.skip(pos as int)) == Some(
            (v, next - pos),
        ) && pos <= next <= b@.len(),
        r is None ==> spec_parse_wait_req(b@.skip(pos as int)) is None,
{
    let ghost base = b@.skip(pos as int);
    let (tag, p1) = match get_u32(b, pos) {
        Some(x) => x,
        None => {
            return None;
        },
    };
    assert(base.skip(p1 - pos) =~= b@.skip(p1 as int));
    let (task, p2) = match get_u32(b, p1) {
        Some(x) => x,
        None => {
            return None;
        },
    };
    assert(base.skip(p2 - pos) =~= b@.skip(p2 as int));
    let (timeout, p3) = match get_opt_duration(b, p2) {
        Some(x) => x,
        None => {
            return None;
        },
    };
    Some((Wait { tag, task, timeout }, p3))
}

/// The encoding of a wait result.
pub open spec fn spec_wait_result(v: WaitResult) -> Seq<u8> {
    spec_u32(v.tag) + spec_bool(v.timeout)
}

/// Reads a wait result from the front of `b`.
pub open spec fn spec_parse_wait_result(b: Seq<u8>) -> Parsed<WaitResult> {
    match spec_parse_u32(b) {
        Some((tag, n1)) => match spec_parse_bool(b.skip(n1)) {
            Some((timeout, n2)) => Some((WaitResult { tag, timeout }, n1 + n2)),
            None => None,
        },
        None => None,
    }
}

/// Reading the encoding of a wait result gives it back, whatever follows.
pub proof fn lemma_wait_result_roundtrip(v: WaitResult, rest: Seq<u8>)
    ensures
        spec_parse_wait_result(spec_wait_result(v) + rest) == Some(
            (v, spec_wait_result(v).len() as int),
        ),
{
    let e1 = spec_u32(v.tag);
    let e2 = spec_bool(v.timeout);
    let s2 = rest;
    let s1 = e2 + s2;
    let b = spec_wait_result(v) + rest;
    assert(b =~= e1 + s1);
    lemma_u32_roundtrip(v.tag, s1);
    lemma_bool_roundtrip(v.timeout, s2);
    assert(b.skip((e1.len()) as int) =~= s1);
}

/// Appends the encoding of a wait result to `out`.
pub fn put_wait_result(out: &mut Vec<u8>, v: &WaitResult)
    ensures
        final(out)@ == old(out)@ + spec_wait_result(*v),
{
    put_u32(out, v.tag);
    put_bool(out, v.timeout);
    assert(out@ =~= old(out)@ + spec_wait_result(*v));
}

/// Reads a wait result at `pos`: the value and the position behind it, or `None`
/// where the bytes at `pos` are not its encoding.
pub fn get_wait_result(b: &[u8], pos: usize) -> (r: Option<(WaitResult, usize)>)
    requires
        pos <= b@.len(),
    ensures
        r matches Some((v, next)) ==> spec_parse_wait_result(b@.skip(pos as int)) == Some(
            (v, next - pos),
        ) && pos <= next <= b@.len(),
        r is None ==> spec_parse_wait_result(b@.skip(pos as int)) is None,
{
    let ghost base = b@.skip(pos as int);
    let (tag, p1) = match get_u32(b, pos) {
        Some(x) => x,
        None => {
            return None;
        },
    };
    assert(base.skip(p1 - pos) =~= b@.skip(p1 as int));
    let (timeout, p2) = match get_bool(b, p1) {
        Some(x) => x,
        None => {
            return None;
        },
    };
    Some((WaitResult { tag, timeout }, p2))
}

/// The encoding of a close request.
pub open spec fn spec_close_req(v: Close) -> Seq<u8> {
    spec_u32(v.tag) + spec_u32(v.stream)
}

/// Reads a close request from the front of `b`.
pub open spec fn spec_parse_close_req(b: Seq<u8>) -> Parsed<Close> {
    match spec_parse_u32(b) {
        Some((tag, n1)) => match spec_parse_u32(b.skip(n1)) {
            Some((stream, n2)) => Some((Close { tag, stream }, n1 + n2)),
            None => None,
        },
        None => None,
    }
}

/// Reading the encoding of a close request gives it back, whatever follows.
pub proof fn lemma_close_req_roundtrip(v: Close, rest: Seq<u8>)
    ensures
        spec_parse_close_req(spec_close_req(v) + rest) == Some((v, spec_close_req(v).len() as int)),
{
    let e1 = spec_u32(v.tag);
    let e2 = spec_u32(v.stream);
    let s2 = rest;
    let s1 = e2 + s2;
    let b = spec_close_req(v) + rest;
    assert(b =~= e1 + s1);
    lemma_u32_roundtrip(v.tag, s1);
    lemma_u32_roundtrip(v.stream, s2);
    assert(b.skip((e1.len()) as int) =~= s1);
}

/// Appends the encoding of a close request to `out`.
pub fn put_close_req(out: &mut Vec<u8>, v: &Close)
    ensures
        final(out)@ == old(out)@ + spec_close_req(*v),
{
    put_u32(out, v.tag);
    put_u32(out, v.stream);
    assert(out@ =~= old(out)@ + spec_close_req(*v));
}

/// Reads a close request at `pos`: the value and the position behind it, or `None`
/// where the bytes at `pos` are not its encoding.
pub fn get_close_req(b: &[u8], pos: usize) -> (r: Option<(Close, usize)>)
    requires
        pos <= b@.len(),
    ensures
        r matches Some((v, next)) ==> spec_parse_close_req(b@.skip(pos as int)) == Some(
            (v, next - pos),
        ) && pos <= next <= b@.len(),
        r is None ==> spec_parse_close_req(b@.skip(pos as int)) is None,
{
    let ghost base = b@.skip(pos as int);
    let (tag, p1) = match get_u32(b, pos) {
        Some(x) => x,
        None => {
            return None;
        },
    };
    assert(base.skip(p1 - pos) =~= b@.skip(p1 as int));
    let (stream, p2) = match get_u32(b, p1) {
        Some(x) => x,
        None => {
            return None;
        },
    };
    Some((Close { tag, stream }, p2))
}

impl CloseResultView {
    /// Whether every text, byte string and list is short enough to carry its
    /// length in eight bytes.
    pub open spec fn fits(self) -> bool {
        &&& close_outcome_fits(self.result)
    }
}

/// The encoding of a close result.
pub open spec fn spec_close_result(v: CloseResultView) -> Seq<u8> {
    spec_u32(v.tag) + spec_close_outcome(v.result)
}

/// Reads a close result from the front of `b`.
pub open spec fn spec_parse_close_result(b: Seq<u8>) -> Parsed<CloseResultView> {
    match spec_parse_u32(b) {
        Some((tag, n1)) => match spec_parse_close_outcome(b.skip(n1)) {
            Some((result, n2)) => Some((CloseResultView { tag, result }, n1 + n2)),
            None => None,
        },
        None => None,
    }
}

/// Reading the encoding of a close result gives it back, whatever follows.
pub proof fn lemma_close_result_roundtrip(v: CloseResultView, rest: Seq<u8>)
    requires
        v.fits(),
    ensures
        spec_parse_close_result(spec_close_result(v) + rest) == Some(
            (v, spec_close_result(v).len() as int),
        ),
{
    let e1 = spec_u32(v.tag);
    let e2 = spec_close_outcome(v.result);
    let s2 = rest;
    let s1 = e2 + s2;
    let b = spec_close_result(v) + rest;
    assert(b =~= e1 + s1);
    lemma_u32_roundtrip(v.tag, s1);
    lemma_close_outcome_roundtrip(v.result, s2);
    assert(b.skip((e1.len()) as int) =~= s1);
}

/// Appends the encoding of a close result to `out`.
pub fn put_close_result(out: &mut Vec<u8>, v: &CloseResult)
    ensures
        final(out)@ == old(out)@ + spec_close_result(v@),
        v@.fits(),
{
    put_u32(out, v.tag);
    put_close_outcome(out, &v.result);
    assert(out@ =~= old(out)@ + spec_close_result(v@));
}

/// Reads a close result at `pos`: the value and the position behind it, or `None`
/// where the bytes at `pos` are not its encoding.
pub fn get_close_result(b: &[u8], pos: usize) -> (r: Option<(CloseResult, usize)>)
    requires
        pos <= b@.len(),
    ensures
        r matches Some((v, next)) ==> spec_parse_close_result(b@.skip(pos as int)) == Some(
            (v@, next - pos),
        ) && pos <= next <= b@.len(),
        r is None ==> spec_parse_close_result(b@.skip(pos as int)) is None,
{
    let ghost base = b@.skip(pos as int);
    let (tag, p1) = match get_u32(b, pos) {
        Some(x) => x,
        None => {
            return None;
        },
    };
    assert(base.skip(p1 - pos) =~= b@.skip(p1 as int));
    let (result, p2) = match get_close_outcome(b, p1) {
        Some(x) => x,
        None => {
            return None;
        },
    };
    Some((CloseResult { tag, result }, p2))
}

impl FromJvmView {
    /// Whether every text, byte string and list in the message is short
    /// enough to carry its length in eight bytes.
    pub open spec fn fits(self) -> bool {
        match self {
            FromJvmView::ExecResult(p) => p.fits(),
            FromJvmView::Write(p) => p.fits(),
            FromJvmView::Read(p) => true,
            FromJvmView::WaitResult(p) => true,
            FromJvmView::Close(p) => true,
        }
    }

    /// The index of the variant on the wire.
    pub open spec fn index(self) -> usize {
        match self {
            FromJvmView::ExecResult(_) => 0,
            FromJvmView::Write(_) => 1,
            FromJvmView::Read(_) => 2,
            FromJvmView::WaitResult(_) => 3,
            FromJvmView::Close(_) => 4,
        }
    }

    /// The encoding of the fields of the variant.
    pub open spec fn body(self) -> Seq<u8> {
        match self {
            FromJvmView::ExecResult(p) => spec_exec_result(p),
            FromJvmView::Write(p) => spec_write_req(p),
            FromJvmView::Read(p) => spec_read_req(p),
            FromJvmView::WaitResult(p) => spec_wait_result(p),
            FromJvmView::Close(p) => spec_close_req(p),
        }
    }
}

/// The encoding of a message of the worker.
pub open spec fn spec_from_jvm(v: FromJvmView) -> Seq<u8> {
    spec_usize(v.index()) + v.body()
}

/// Reads a message of the worker from the front of `b`.
pub open spec fn spec_parse_from_jvm(b: Seq<u8>) -> Parsed<FromJvmView> {
    match spec_parse_usize(b) {
        Some((index, n)) => {
            if index == 0 {
                match spec_parse_exec_result(b.skip(n)) {
                    Some((p, m)) => Some((FromJvmView::ExecResult(p), n + m)),
                    None => None,
                }
            } else if index == 1 {
                match spec_parse_write_req(b.skip(n)) {
                    Some((p, m)) => Some((FromJvmView::Write(p), n + m)),
                    None => None,
                }
            } else if index == 2 {
                match spec_parse_read_req(b.skip(n)) {
                    Some((p, m)) => Some((FromJvmView::Read(p), n + m)),
                    None => None,
                }
            } else if index == 3 {
                match spec_parse_wait_result(b.skip(n)) {
                    Some((p, m)) => Some((FromJvmView::WaitResult(p), n + m)),
                    None => None,
                }
            } else if index == 4 {
                match spec_parse_close_req(b.skip(n)) {
                    Some((p, m)) => Some((FromJvmView::Close(p), n + m)),
                    None => None,
                }
            } else {
                None
            }
        },
        None => None,
    }
}

/// Reading the encoding of a message of the worker gives it back, whatever follows.
pub proof fn lemma_from_jvm_roundtrip(v: FromJvmView, rest: Seq<u8>)
    requires
        v.fits(),
    ensures
        spec_parse_from_jvm(spec_from_jvm(v) + rest) == Some((v, spec_from_jvm(v).len() as int)),
{
    let b = spec_from_jvm(v) + rest;
    lemma_usize_roundtrip(v.index(), v.body() + rest);
    assert(b =~= spec_usize(v.index()) + (v.body() + rest));
    assert(b.skip(8) =~= v.body() + rest);
    match v {
        FromJvmView::ExecResult(p) => {
            lemma_exec_result_roundtrip(p, rest);
        },
        FromJvmView::Write(p) => {
            lemma_write_req_roundtrip(p, rest);
        },
        FromJvmView::Read(p) => {
            lemma_read_req_roundtrip(p, rest);
        },
        FromJvmView::WaitResult(p) => {
            lemma_wait_result_roundtrip(p, rest);
        },
        FromJvmView::Close(p) => {
            lemma_close_req_roundtrip(p, rest);
        },
    }
}

/// Appends the encoding of a message to `out`.
pub fn put_from_jvm(out: &mut Vec<u8>, v: &FromJvm)
    ensures
        final(out)@ == old(out)@ + spec_from_jvm(v@),
        v@.fits(),
{
    match v {
        FromJvm::ExecResult(p) => {
            put_usize(out, 0);
            put_exec_result(out, p);
        },
        FromJvm::Write(p) => {
            put_usize(out, 1);
            put_write_req(out, p);
        },
        FromJvm::Read(p) => {
            put_usize(out, 2);
            put_read_req(out, p);
        },
        FromJvm::WaitResult(p) => {
            put_usize(out, 3);
            put_wait_result(out, p);
        },
        FromJvm::Close(p) => {
            put_usize(out, 4);
            put_close_req(out, p);
        },
    }
    assert(out@ =~= old(out)@ + spec_from_jvm(v@));
}

/// Reads a message at `pos`: the message and the position behind it, or
/// `None` where the bytes at `pos` are not the encoding of a message.
pub fn get_from_jvm(b: &[u8], pos: usize) -> (r: Option<(FromJvm, usize)>)
    requires
        pos <= b@.len(),
    ensures
        r matches Some((v, next)) ==> spec_parse_from_jvm(b@.skip(pos as int)) == Some(
            (v@, next - pos),
        ) && pos <= next <= b@.len(),
        r is None ==> spec_parse_from_jvm(b@.skip(pos as int)) is None,
{
    let (index, mid) = match get_usize(b, pos) {
        Some(x) => x,
        None => {
            return None;
        },
    };
    assert(b@.skip(pos as int).skip(mid - pos) =~= b@.skip(mid as int));
    if index == 0 {
        match get_exec_result(b, mid) {
            Some((p, next)) => Some((FromJvm::ExecResult(p), next)),
            None => None,
        }
    } else if index == 1 {
        match get_write_req(b, mid) {
            Some((p, next)) => Some((FromJvm::Write(p), next)),
            None => None,
        }
    } else if index == 2 {
        match get_read_req(b, mid) {
            Some((p, next)) => Some((FromJvm::Read(p), next)),
            None => None,
        }
    } else if index == 3 {
        match get_wait_result(b, mid) {
            Some((p, next)) => Some((FromJvm::WaitResult(p), next)),
            None => None,
        }
    } else if index == 4 {
        match get_close_req(b, mid) {
            Some((p, next)) => Some((FromJvm::Close(p), next)),
            None => None,
        }
    } else {
        None
    }
}

impl ToJvmView {
    /// Whether every text, byte string and list in the message is short
    /// enough to carry its length in eight bytes.
    pub open spec fn fits(self) -> bool {
        match self {
            ToJvmView::Exec(p) => p.fits(),
            ToJvmView::WriteResult(p) => p.fits(),
            ToJvmView::ReadResult(p) => p.fits(),
            ToJvmView::Wait(p) => true,
            ToJvmView::CloseResult(p) => p.fits(),
        }
    }

    /// The index of the variant on the wire.
    pub open spec fn index(self) -> usize {
        match self {
            ToJvmView::Exec(_) => 0,
            ToJvmView::WriteResult(_) => 1,
            ToJvmView::ReadResult(_) => 2,
            ToJvmView::Wait(_) => 3,
            ToJvmView::CloseResult(_) => 4,
        }
    }

    /// The encoding of the fields of the variant.
    pub open spec fn body(self) -> Seq<u8> {
        match self {
            ToJvmView::Exec(p) => spec_exec(p),
            ToJvmView::WriteResult(p) => spec_write_result(p),
            ToJvmView::ReadResult(p) => spec_read_result(p),
            ToJvmView::Wait(p) => spec_wait_req(p),
            ToJvmView::CloseResult(p) => spec_close_result(p),
        }
    }
}

/// The encoding of a message of the host.
pub open spec fn spec_to_jvm(v: ToJvmView) -> Seq<u8> {
    spec_usize(v.index()) + v.body()
}

/// Reads a message of the host from the front of `b`.
pub open spec fn spec_parse_to_jvm(b: Seq<u8>) -> Parsed<ToJvmView> {
    match spec_parse_usize(b) {
        Some((index, n)) => {
            if index == 0 {
                match spec_parse_exec(b.skip(n)) {
                    Some((p, m)) => Some((ToJvmView::Exec(p), n + m)),
                    None => None,
                }
            } else if index == 1 {
                match spec_parse_write_result(b.skip(n)) {
                    Some((p, m)) => Some((ToJvmView::WriteResult(p), n + m)),
                    None => None,
                }
            } else if index == 2 {
                match spec_parse_read_result(b.skip(n)) {
                    Some((p, m)) => Some((ToJvmView::ReadResult(p), n + m)),
                    None => None,
                }
            } else if index == 3 {
                match spec_parse_wait_req(b.skip(n)) {
                    Some((p, m)) => Some((ToJvmView::Wait(p), n + m)),
                    None => None,
                }
            } else if index == 4 {
                match spec_parse_close_result(b.skip(n)) {
                    Some((p, m)) => Some((ToJvmView::CloseResult(p), n + m)),
                    None => None,
                }
            } else {
                None
            }
        },
        None => None,
    }
}

/// Reading the encoding of a message of the host gives it back, whatever follows.
pub proof fn lemma_to_jvm_roundtrip(v: ToJvmView, rest: Seq<u8>)
    requires
        v.fits(),
    ensures
        spec_parse_to_jvm(spec_to_jvm(v) + rest) == Some((v, spec_to_jvm(v).len() as int)),
{
    let b = spec_to_jvm(v) + rest;
    lemma_usize_roundtrip(v.index(), v.body() + rest);
    assert(b =~= spec_usize(v.index()) + (v.body() + rest));
    assert(b.skip(8) =~= v.body() + rest);
    match v {
        ToJvmView::Exec(p) => {
            lemma_exec_roundtrip(p, rest);
        },
        ToJvmView::WriteResult(p) => {
            lemma_write_result_roundtrip(p, rest);
        },
        ToJvmView::ReadResult(p) => {
            lemma_read_result_roundtrip(p, rest);
        },
        ToJvmView::Wait(p) => {
            lemma_wait_req_roundtrip(p, rest);
        },
        ToJvmView::CloseResult(p) => {
            lemma_close_result_roundtrip(p, rest);
        },
    }
}

/// Appends the encoding of a message to `out`.
pub fn put_to_jvm(out: &mut Vec<u8>, v: &ToJvm)
    ensures
        final(out)@ == old(out)@ + spec_to_jvm(v@),
        v@.fits(),
{
    match v {
        ToJvm::Exec(p) => {
            put_usize(out, 0);
            put_exec(out, p);
        },
        ToJvm::WriteResult(p) => {
            put_usize(out, 1);
            put_write_result(out, p);
        },
        ToJvm::ReadResult(p) => {
            put_usize(out, 2);
            put_read_result(out, p);
        },
        ToJvm::Wait(p) => {
            put_usize(out, 3);
            put_wait_req(out, p);
        },
        ToJvm::CloseResult(p) => {
            put_usize(out, 4);
            put_close_result(out, p);
        },
    }
    assert(out@ =~= old(out)@ + spec_to_jvm(v@));
}

/// Reads a message at `pos`: the message and the position behind it, or
/// `None` where the bytes at `pos` are not the encoding of a message.
pub fn get_to_jvm(b: &[u8], pos: usize) -> (r: Option<(ToJvm, usize)>)
    requires
        pos <= b@.len(),
    ensures
        r matches Some((v, next)) ==> spec_parse_to_jvm(b@.skip(pos as int)) == Some(
            (v@, next - pos),
        ) && pos <= next <= b@.len(),
        r is None ==> spec_parse_to_jvm(b@.skip(pos as int)) is None,
{
    let (index, mid) = match get_usize(b, pos) {
        Some(x) => x,
        None => {
            return None;
        },
    };
    assert(b@.skip(pos as int).skip(mid - pos) =~= b@.skip(mid as int));
    if index == 0 {
        match get_exec(b, mid) {
            Some((p, next)) => Some((ToJvm::Exec(p), next)),
            None => None,
        }
    } else if index == 1 {
        match get_write_result(b, mid) {
            Some((p, next)) => Some((ToJvm::WriteResult(p), next)),
            None => None,
        }
    } else if index == 2 {
        match get_read_result(b, mid) {
            Some((p, next)) => Some((ToJvm::ReadResult(p), next)),
            None => None,
        }
    } else if index == 3 {
        match get_wait_req(b, mid) {
            Some((p, next)) => Some((ToJvm::Wait(p), next)),
            None => None,
        }
    } else if index == 4 {
        match get_close_result(b, mid) {
            Some((p, next)) => Some((ToJvm::CloseResult(p), next)),
            None => None,
        }
    } else {
        None
    }
}

/// A number that names no error kind reads as `Other`.
pub proof fn lemma_unknown_kind_is_other(code: usize, message: Seq<char>, rest: Seq<u8>)
    requires
        code > 17,
        text_fits(message),
    ensures
        spec_parse_io_error(spec_usize(code) + spec_string(message) + rest) == Some(
            (
                IoErrorView { kind: ErrorKind::Other, message },
                (spec_usize(code) + spec_string(message)).len() as int,
            ),
        ),
{
    lemma_usize_roundtrip(code, spec_string(message) + rest);
    lemma_string_roundtrip(message, rest);
    let b = spec_usize(code) + spec_string(message) + rest;
    assert(b =~= spec_usize(code) + (spec_string(message) + rest));
    assert(b.skip(8) =~= spec_string(message) + rest);
}

} // verus!
