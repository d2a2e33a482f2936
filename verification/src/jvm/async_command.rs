//! The builder of a task launch on a facade that launches without blocking.
//!
//! Launching there waits on the transport, so this builder only gathers the
//! options; the caller hands them to the facade.

use crate::jvm::command::Stdio;
use crate::jvm::{spec_str_texts, CommandView, JvmCommandInner};
use vstd::prelude::*;
use vstd::string::StringExecFns;

verus! {

/// A builder for executing Java programs on the facade `jvm`.
pub struct JvmCommand<T> {
    jvm: T,
    inner: JvmCommandInner,
}

impl<T> View for JvmCommand<T> {
    type V = CommandView;

    /// The options gathered so far.
    closed spec fn view(&self) -> CommandView {
        self.inner@
    }
}

impl<T> JvmCommand<T> {
    /// The facade that the command launches on.
    pub closed spec fn spec_jvm(&self) -> T {
        self.jvm
    }

    /// Constructs a new builder for launching `main_class`: no arguments, no
    /// stream set.
    pub fn new(jvm: T, main_class: &str) -> (c: Self)
        ensures
            c.spec_jvm() == jvm,
            c@ == CommandView::fresh(main_class@),
    {
        let c = JvmCommand {
            jvm,
            inner: JvmCommandInner {
                main_class: String::from_str(main_class),
                args: Vec::new(),
                stdout: None,
                stderr: None,
                stdin: None,
            },
        };
        assert(c@.args =~= Seq::empty());
        c
    }

    /// Adds a single argument to pass to the program.
    pub fn arg(&mut self, arg: &str) -> (r: &mut Self)
        ensures
            r.spec_jvm() == old(self).spec_jvm(),
            r@ == (CommandView { args: old(self)@.args.push(arg@), ..old(self)@ }),
            *final(r) == *final(self),
    {
        self.inner.args.push(String::from_str(arg));
        assert(self@.args =~= old(self)@.args.push(arg@));
        self
    }

    /// Adds multiple arguments to pass to the program, in order.
    pub fn args(&mut self, args: &[&str]) -> (r: &mut Self)
        ensures
            r.spec_jvm() == old(self).spec_jvm(),
            r@ == (CommandView { args: old(self)@.args + spec_str_texts(args@), ..old(self)@ }),
            *final(r) == *final(self),
    {
        let mut i: usize = 0;
        while i < args.len()
            invariant
                i <= args@.len(),
                self.spec_jvm() == old(self).spec_jvm(),
                self@ == (CommandView {
                    args: old(self)@.args + spec_str_texts(args@).take(i as int),
                    ..old(self)@
                }),
            decreases args@.len() - i,
        {
            let ghost before = self@.args;
            self.inner.args.push(String::from_str(args[i]));
            assert(self@.args =~= before.push(args@[i as int]@));
            i += 1;
            assert(self@.args =~= old(self)@.args + spec_str_texts(args@).take(i as int));
        }
        assert(spec_str_texts(args@).take(i as int) =~= spec_str_texts(args@));
        self
    }

    /// Configures the standard output of the new task.
    pub fn stdout(&mut self, cfg: Stdio) -> (r: &mut Self)
        ensures
            r.spec_jvm() == old(self).spec_jvm(),
            r@ == (CommandView { stdout: Some(cfg), ..old(self)@ }),
            *final(r) == *final(self),
    {
        self.inner.stdout = Some(cfg);
        self
    }

    /// Configures the standard error of the new task.
    pub fn stderr(&mut self, cfg: Stdio) -> (r: &mut Self)
        ensures
            r.spec_jvm() == old(self).spec_jvm(),
            r@ == (CommandView { stderr: Some(cfg), ..old(self)@ }),
            *final(r) == *final(self),
    {
        self.inner.stderr = Some(cfg);
        self
    }

    /// Configures the standard input of the new task.
    pub fn stdin(&mut self, cfg: Stdio) -> (r: &mut Self)
        ensures
            r.spec_jvm() == old(self).spec_jvm(),
            r@ == (CommandView { stdin: Some(cfg), ..old(self)@ }),
            *final(r) == *final(self),
    {
        self.inner.stdin = Some(cfg);
        self
    }

    /// The arguments that will be passed to the program.
    pub fn get_args(&self) -> (r: &[String])
        ensures
            crate::wire::spec_texts(r@) == self@.args,
    {
        self.inner.args()
    }
}

impl<T> JvmCommand<T> {
    /// The facade that the command launches on.
    pub fn jvm(&self) -> (r: &T)
        ensures
            *r == self.spec_jvm(),
    {
        &self.jvm
    }

    /// The options gathered so far, as the facade takes them.
    pub fn inner(&self) -> (r: &JvmCommandInner)
        ensures
            r@ == self@,
    {
        &self.inner
    }
}

} // verus!
