//! The facade through which tasks are launched: what a launch asks for, and
//! what a virtual machine that runs tasks has to offer.

use crate::jvm::command::Stdio;
use crate::structs::IoError;
use crate::wire::spec_texts;
use vstd::prelude::*;
use vstd::string::StringExecFns;

pub mod async_command;
pub mod command;
pub mod direct;
pub mod process;

verus! {

/// The texts of a list of string slices.
pub open spec fn spec_str_texts(v: Seq<&str>) -> Seq<Seq<char>> {
    Seq::new(v.len(), |i: int| v[i]@)
}

/// Why a task could not be launched.
#[derive(Debug)]
pub enum Error {
    /// The launch failed with an I/O error.
    Io(IoError),
    /// The main class does not exist or could not be loaded.
    InvalidClass(String),
    /// The class has no main function.
    NoMainFn(String),
    /// Any other failure.
    Failure(String),
}

pub enum ErrorView {
    Io(Seq<char>),
    InvalidClass(Seq<char>),
    NoMainFn(Seq<char>),
    Failure(Seq<char>),
}

impl View for Error {
    type V = ErrorView;

    open spec fn view(&self) -> ErrorView {
        match *self {
            Error::Io(e) => ErrorView::Io(e.message@),
            Error::InvalidClass(m) => ErrorView::InvalidClass(m@),
            Error::NoMainFn(m) => ErrorView::NoMainFn(m@),
            Error::Failure(m) => ErrorView::Failure(m@),
        }
    }
}

/// The text that describes an error: a prefix that names the kind, then the
/// detail.
pub open spec fn spec_error_text(e: ErrorView) -> Seq<char> {
    match e {
        ErrorView::Io(m) => "I/O error: "@ + m,
        ErrorView::InvalidClass(m) => "Invalid main class: "@ + m,
        ErrorView::NoMainFn(m) => "Class does not have a main function: "@ + m,
        ErrorView::Failure(m) => "General error: "@ + m,
    }
}

impl Error {
    /// The text that describes this error.
    pub fn to_string(&self) -> (text: String)
        ensures
            text@ == spec_error_text(self@),
    {
        match self {
            Error::Io(e) => String::from_str("I/O error: ").concat(e.message.as_str()),
            Error::InvalidClass(m) => String::from_str("Invalid main class: ").concat(m.as_str()),
            Error::NoMainFn(m) => String::from_str("Class does not have a main function: ").concat(
                m.as_str(),
            ),
            Error::Failure(m) => String::from_str("General error: ").concat(m.as_str()),
        }
    }
}

/// The options that a command builder has gathered.
pub struct JvmCommandInner {
    main_class: String,
    args: Vec<String>,
    stdout: Option<Stdio>,
    stderr: Option<Stdio>,
    stdin: Option<Stdio>,
}

/// What a launch asks for. An unset stream means "use the default of the
/// facade".
pub struct CommandView {
    pub main_class: Seq<char>,
    pub args: Seq<Seq<char>>,
    pub stdout: Option<Stdio>,
    pub stderr: Option<Stdio>,
    pub stdin: Option<Stdio>,
}

impl CommandView {
    /// The options of a builder that was just made for `main_class`.
    pub open spec fn fresh(main_class: Seq<char>) -> CommandView {
        CommandView { main_class, args: Seq::empty(), stdout: None, stderr: None, stdin: None }
    }
}

impl View for JvmCommandInner {
    type V = CommandView;

    closed spec fn view(&self) -> CommandView {
        CommandView {
            main_class: self.main_class@,
            args: spec_texts(self.args@),
            stdout: self.stdout,
            stderr: self.stderr,
            stdin: self.stdin,
        }
    }
}

impl JvmCommandInner {
    /// The Java class to execute, with `.` between packages.
    pub fn main_class(&self) -> (r: &str)
        ensures
            r@ == self@.main_class,
    {
        self.main_class.as_str()
    }

    /// The arguments to pass to the main class.
    pub fn args(&self) -> (r: &[String])
        ensures
            spec_texts(r@) == self@.args,
    {
        self.args.as_slice()
    }

    /// How the standard output is connected; `None` means unset.
    pub fn stdout(&self) -> (r: Option<Stdio>)
        ensures
            r == self@.stdout,
    {
        self.stdout
    }

    /// How the standard error is connected; `None` means unset.
    pub fn stderr(&self) -> (r: Option<Stdio>)
        ensures
            r == self@.stderr,
    {
        self.stderr
    }

    /// How the standard input is connected; `None` means unset.
    pub fn stdin(&self) -> (r: Option<Stdio>)
        ensures
            r == self@.stdin,
    {
        self.stdin
    }
}

/// A virtual machine that tasks can be executed on.
pub trait Jvm {
    type Task;

    /// Whether `r` is an outcome of launching `d` on this machine with
    /// `default_stdio` for the streams that `d` leaves unset. A machine that
    /// says nothing of its launches allows every outcome.
    open spec fn launches(
        &self,
        d: CommandView,
        default_stdio: Stdio,
        r: Result<Self::Task, Error>,
    ) -> bool {
        true
    }

    /// Executes the given command. Do not call directly: use a command
    /// builder.
    fn exec(&self, d: &JvmCommandInner, default_stdio: Stdio) -> (r: Result<Self::Task, Error>)
        ensures
            self.launches(d@, default_stdio, r),
    ;
}

impl<T: Jvm> Jvm for &T {
    type Task = T::Task;

    open spec fn launches(
        &self,
        d: CommandView,
        default_stdio: Stdio,
        r: Result<Self::Task, Error>,
    ) -> bool {
        (**self).launches(d, default_stdio, r)
    }

    fn exec(&self, d: &JvmCommandInner, default_stdio: Stdio) -> (r: Result<Self::Task, Error>) {
        (*self).exec(d, default_stdio)
    }
}

/// A task that was launched.
pub trait JvmTask {
    type Stdout;

    type Stderr;

    type Stdin;

    type ExitStatus;

    /// Waits for the task to exit.
    fn wait(&mut self) -> Result<Self::ExitStatus, IoError>;

    /// The standard output of the task, if it was piped.
    fn stdout(&mut self) -> &mut Option<Self::Stdout>;

    /// The standard error of the task, if it was piped.
    fn stderr(&mut self) -> &mut Option<Self::Stderr>;

    /// The standard input of the task, if it was piped.
    fn stdin(&mut self) -> &mut Option<Self::Stdin>;
}

} // verus!
