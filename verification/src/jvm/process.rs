//! A facade that runs each task in a process of its own, as calling `java`
//! directly would. The library assembles the command line; starting the
//! process is the caller's part.

use crate::javacli::{jvm_args, spec_jvm_args};
use crate::jvm::command::Stdio;
use crate::jvm::{spec_str_texts, JvmCommandInner};
use crate::text::push_all;
use crate::wire::spec_texts;
use vstd::prelude::*;
use vstd::string::StringExecFns;

verus! {

/// The settings of a facade that starts one process per task.
#[derive(Debug)]
pub struct ProcessJvm {
    java_path: String,
    java_args: Vec<String>,
    classpath: Vec<String>,
}

pub struct ProcessJvmView {
    pub java_path: Seq<char>,
    pub java_args: Seq<Seq<char>>,
    pub classpath: Seq<Seq<char>>,
}

impl View for ProcessJvm {
    type V = ProcessJvmView;

    closed spec fn view(&self) -> ProcessJvmView {
        ProcessJvmView {
            java_path: self.java_path@,
            java_args: spec_texts(self.java_args@),
            classpath: spec_texts(self.classpath@),
        }
    }
}

/// A process to start: the program, its arguments, and how each of its
/// standard streams is connected.
#[derive(Debug)]
pub struct Launch {
    pub program: String,
    pub args: Vec<String>,
    pub stdout: Stdio,
    pub stderr: Stdio,
    pub stdin: Stdio,
}

/// The configuration of a stream, or the default where it is unset.
pub open spec fn spec_stdio_or(stdio: Option<Stdio>, default_stdio: Stdio) -> Stdio {
    match stdio {
        Some(s) => s,
        None => default_stdio,
    }
}

/// The configuration of a stream, or the default where it is unset.
pub fn stdio_or(stdio: Option<Stdio>, default_stdio: Stdio) -> (r: Stdio)
    ensures
        r == spec_stdio_or(stdio, default_stdio),
{
    match stdio {
        Some(s) => s,
        None => default_stdio,
    }
}

/// Appends the texts of `items` to `out`, in order.
fn push_strs(out: &mut Vec<String>, items: &[&str])
    ensures
        spec_texts(final(out)@) == spec_texts(old(out)@) + spec_str_texts(items@),
{
    let mut i: usize = 0;
    assert(spec_texts(out@) =~= spec_texts(old(out)@) + spec_str_texts(items@).take(0));
    while i < items.len()
        invariant
            i <= items@.len(),
            spec_texts(out@) == spec_texts(old(out)@) + spec_str_texts(items@).take(i as int),
        decreases items@.len() - i,
    {
        let ghost before = spec_texts(out@);
        out.push(String::from_str(items[i]));
        assert(spec_texts(out@) =~= before.push(items@[i as int]@));
        i += 1;
        assert(spec_texts(out@) =~= spec_texts(old(out)@) + spec_str_texts(items@).take(i as int));
    }
    assert(spec_str_texts(items@).take(i as int) =~= spec_str_texts(items@));
}

impl ProcessJvm {
    /// The default settings: the executable `java`, no extra arguments, an
    /// empty classpath.
    pub fn new() -> (jvm: Self)
        ensures
            jvm@ == (ProcessJvmView {
                java_path: "java"@,
                java_args: Seq::empty(),
                classpath: Seq::empty(),
            }),
    {
        let jvm = ProcessJvm {
            java_path: String::from_str("java"),
            java_args: Vec::new(),
            classpath: Vec::new(),
        };
        assert(jvm@.java_args =~= Seq::empty());
        assert(jvm@.classpath =~= Seq::empty());
        jvm
    }

    /// Sets the java executable to `path`.
    pub fn with_java_executable(&mut self, path: &str) -> (r: &mut Self)
        ensures
            r@ == (ProcessJvmView { java_path: path@, ..old(self)@ }),
            *final(r) == *final(self),
    {
        self.java_path = String::from_str(path);
        self
    }

    /// The path to the java executable used to launch the program.
    pub fn java_executable(&self) -> (r: &str)
        ensures
            r@ == self@.java_path,
    {
        self.java_path.as_str()
    }

    /// Adds the `paths` to the classpath, behind those it holds.
    pub fn with_classpath(&mut self, paths: &[&str]) -> (r: &mut Self)
        ensures
            r@ == (ProcessJvmView {
                classpath: old(self)@.classpath + spec_str_texts(paths@),
                ..old(self)@
            }),
            *final(r) == *final(self),
    {
        push_strs(&mut self.classpath, paths);
        self
    }

    /// The classpath used to launch the program.
    pub fn classpath(&self) -> (r: &[String])
        ensures
            spec_texts(r@) == self@.classpath,
    {
        self.classpath.as_slice()
    }

    /// Adds an argument for the virtual machine itself, not for the program
    /// launched.
    pub fn with_java_arg(&mut self, arg: &str) -> (r: &mut Self)
        ensures
            r@ == (ProcessJvmView { java_args: old(self)@.java_args.push(arg@), ..old(self)@ }),
            *final(r) == *final(self),
    {
        self.java_args.push(String::from_str(arg));
        assert(self@.java_args =~= old(self)@.java_args.push(arg@));
        self
    }

    /// Adds arguments for the virtual machine itself, in order.
    pub fn with_java_args(&mut self, args: &[&str]) -> (r: &mut Self)
        ensures
            r@ == (ProcessJvmView {
                java_args: old(self)@.java_args + spec_str_texts(args@),
                ..old(self)@
            }),
            *final(r) == *final(self),
    {
        push_strs(&mut self.java_args, args);
        self
    }

    /// The process to start for the command `d`: the java executable; then
    /// the extra arguments, the `-classpath` pair unless the classpath is
    /// empty, the main class and the program's arguments; with each stream
    /// connected as `d` says, or as `default_stdio` says where `d` leaves it
    /// unset.
    pub fn command_line(&self, d: &JvmCommandInner, default_stdio: Stdio, sep: &str) -> (l: Launch)
        ensures
            l.program@ == self@.java_path,
            spec_texts(l.args@) == self@.java_args + spec_jvm_args(
                self@.classpath,
                sep@,
                d@.main_class,
            ) + d@.args,
            l.stdout == spec_stdio_or(d@.stdout, default_stdio),
            l.stderr == spec_stdio_or(d@.stderr, default_stdio),
            l.stdin == spec_stdio_or(d@.stdin, default_stdio),
    {
        let mut args: Vec<String> = Vec::new();
        assert(spec_texts(args@) =~= Seq::empty());
        push_all(&mut args, self.java_args.as_slice());
        let launcher = jvm_args(self.classpath.as_slice(), sep, d.main_class());
        push_all(&mut args, launcher.as_slice());
        push_all(&mut args, d.args());
        assert(spec_texts(args@) =~= self@.java_args + spec_jvm_args(
            self@.classpath,
            sep@,
            d@.main_class,
        ) + d@.args);
        Launch {
            program: self.java_path.clone(),
            args,
            stdout: stdio_or(d.stdout(), default_stdio),
            stderr: stdio_or(d.stderr(), default_stdio),
            stdin: stdio_or(d.stdin(), default_stdio),
        }
    }
}

} // verus!
