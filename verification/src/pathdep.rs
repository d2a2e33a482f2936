//! The files that a build step depends on: one file, or the files of a
//! directory that match a pattern.
//!
//! Paths are texts. How a path falls into components is the business of the
//! standard library: the library asks it and reasons about the answers.

use std::path::Path;
use vstd::prelude::*;
use vstd::string::StringExecFns;

verus! {

/// Whether two texts name the same path, component by component.
pub uninterp spec fn spec_path_eq(a: Seq<char>, b: Seq<char>) -> bool;

/// What is left of the path `path` behind the prefix `base`, or `None`
/// where `base` is no prefix of it.
pub uninterp spec fn spec_strip_prefix(path: Seq<char>, base: Seq<char>) -> Option<Seq<char>>;

/// Whether the path has a parent, that is, does not end in a root or
/// prefix and is not empty.
pub uninterp spec fn spec_has_parent(path: Seq<char>) -> bool;

/// The extension of the file name of the path, if it has one.
pub uninterp spec fn spec_extension(path: Seq<char>) -> Option<Seq<char>>;

/// `Path::eq`: whether the two paths have the same components.
#[verifier::external_body]
fn path_eq(a: &str, b: &str) -> (r: bool)
    ensures
        r == spec_path_eq(a@, b@),
{
    Path::new(a) == Path::new(b)
}

/// `Path::strip_prefix`, with the rest handed back as a text where it is
/// one.
#[verifier::external_body]
fn path_strip_prefix(path: &str, base: &str) -> (r: Option<String>)
    ensures
        r is Some <==> spec_strip_prefix(path@, base@) is Some,
        r matches Some(rest) ==> spec_strip_prefix(path@, base@) == Some(rest@),
{
    Path::new(path).strip_prefix(base).ok().and_then(|p| p.to_str()).map(String::from)
}

/// `Path::parent`: whether the path has one.
#[verifier::external_body]
fn path_has_parent(path: &str) -> (r: bool)
    ensures
        r == spec_has_parent(path@),
{
    Path::new(path).parent().is_some()
}

/// `Path::extension`, as a text where it is one.
#[verifier::external_body]
fn path_extension(path: &str) -> (r: Option<String>)
    ensures
        r is Some <==> spec_extension(path@) is Some,
        r matches Some(ext) ==> spec_extension(path@) == Some(ext@),
{
    Path::new(path).extension().and_then(|e| e.to_str()).map(String::from)
}

/// What kind of thing a build step depends on.
#[derive(Debug, Clone, Eq, PartialEq)]
pub enum DepType {
    /// The file at the base path itself.
    File,
    /// The files below the base path whose names match the pattern, in the
    /// directory itself or, if `recursive`, anywhere below it.
    Dir { recursive: bool, pattern: String },
}

/// Something on disk that a build step depends on.
#[derive(Debug, Clone, Eq, PartialEq)]
pub struct PathDep {
    base: String,
    optional: bool,
    dt: DepType,
}

/// The mathematical value of a dependency on a path.
pub struct PathDepView {
    pub base: Seq<char>,
    pub optional: bool,
    /// `None` for a single file, else whether the directory is searched
    /// recursively, and the pattern.
    pub dir: Option<(bool, Seq<char>)>,
}

impl View for PathDep {
    type V = PathDepView;

    closed spec fn view(&self) -> PathDepView {
        PathDepView {
            base: self.base@,
            optional: self.optional,
            dir: match self.dt {
                DepType::File => None,
                DepType::Dir { recursive, pattern } => Some((recursive, pattern@)),
            },
        }
    }
}

/// Whether the dependency `d` covers the path `path`: a file covers the
/// path that equals its base; a directory covers the paths below its base,
/// directly below unless it is recursive, whose extension is `class`.
pub open spec fn spec_path_matches(d: PathDepView, path: Seq<char>) -> bool {
    match d.dir {
        None => spec_path_eq(d.base, path),
        Some((recursive, pattern)) => match spec_strip_prefix(path, d.base) {
            None => false,
            Some(stripped) => if !recursive && spec_has_parent(stripped) {
                false
            } else {
                spec_extension(stripped) == Some("class"@)
            },
        },
    }
}

/// Whether the pattern of the dependency is one that matching knows: a
/// single file has none, and a directory must ask for `*.class`.
pub open spec fn spec_known_pattern(d: PathDepView) -> bool {
    d.dir matches Some((_, pattern)) ==> pattern == "*.class"@
}

/// Something that can stand for a dependency on a path.
pub trait PathDepLike {
    /// The dependency that this stands for.
    spec fn spec_path_dep(&self) -> PathDepView;

    /// The dependency that this stands for.
    fn to_path_dep(&self) -> (d: PathDep)
        ensures
            d@ == self.spec_path_dep(),
    ;

    /// The base path.
    fn base(&self) -> (r: &str)
        ensures
            r@ == self.spec_path_dep().base,
    ;

    /// Whether the build goes on when nothing is found.
    fn optional(&self) -> (b: bool)
        ensures
            b == self.spec_path_dep().optional,
    ;

    /// Whether the dependency covers `path`.
    fn path_matches(&self, path: &str) -> (b: bool)
        requires
            spec_known_pattern(self.spec_path_dep()),
        ensures
            b == spec_path_matches(self.spec_path_dep(), path@),
    ;
}

impl PathDep {
    /// A dependency on the single file `buf`, which must exist.
    pub fn new(buf: String) -> (d: Self)
        ensures
            d@ == (PathDepView { base: buf@, optional: false, dir: None }),
    {
        PathDep { base: buf, optional: false, dt: DepType::File }
    }

    /// The same dependency, but the build goes on when nothing is found.
    pub fn with_optional(self) -> (d: Self)
        ensures
            d@ == (PathDepView { optional: true, ..self@ }),
    {
        let mut d = self;
        d.optional = true;
        d
    }

    /// The same base as a directory whose files match `matches`.
    pub fn with_dir(self, recursive: bool, matches: &str) -> (d: Self)
        ensures
            d@ == (PathDepView { dir: Some((recursive, matches@)), ..self@ }),
    {
        let mut d = self;
        d.dt = DepType::Dir { recursive, pattern: String::from_str(matches) };
        d
    }

    /// The base path.
    pub fn base(&self) -> (r: &str)
        ensures
            r@ == self@.base,
    {
        self.base.as_str()
    }

    /// Whether the directory is searched recursively; `None` for a single
    /// file.
    pub fn recursive(&self) -> (r: Option<bool>)
        ensures
            r == match self@.dir {
                Some((recursive, _)) => Some(recursive),
                None => None,
            },
    {
        match &self.dt {
            DepType::File => None,
            DepType::Dir { recursive, pattern } => Some(*recursive),
        }
    }

    /// Whether matching knows the pattern of this dependency.
    pub fn known_pattern(&self) -> (b: bool)
        ensures
            b == spec_known_pattern(self@),
    {
        match &self.dt {
            DepType::File => true,
            DepType::Dir { recursive, pattern } => {
                let wanted = String::from_str("*.class");
                *pattern == wanted
            },
        }
    }
}

impl PathDepLike for PathDep {
    open spec fn spec_path_dep(&self) -> PathDepView {
        self@
    }

    fn to_path_dep(&self) -> (d: PathDep) {
        let dt = match &self.dt {
            DepType::File => DepType::File,
            DepType::Dir { recursive, pattern } => DepType::Dir {
                recursive: *recursive,
                pattern: pattern.clone(),
            },
        };
        PathDep { base: self.base.clone(), optional: self.optional, dt }
    }

    fn base(&self) -> (r: &str) {
        self.base.as_str()
    }

    fn optional(&self) -> (b: bool) {
        self.optional
    }

    fn path_matches(&self, path: &str) -> (b: bool) {
        match &self.dt {
            DepType::File => path_eq(self.base.as_str(), path),
            DepType::Dir { recursive, pattern } => {
                let stripped = match path_strip_prefix(path, self.base.as_str()) {
                    Some(p) => p,
                    None => {
                        return false;
                    },
                };
                if !*recursive && path_has_parent(stripped.as_str()) {
                    return false;
                }
                match path_extension(stripped.as_str()) {
                    Some(ext) => {
                        let class = String::from_str("class");
                        ext == class
                    },
                    None => false,
                }
            },
        }
    }
}

impl PathDepLike for String {
    open spec fn spec_path_dep(&self) -> PathDepView {
        PathDepView { base: self@, optional: false, dir: None }
    }

    fn to_path_dep(&self) -> (d: PathDep) {
        PathDep::new(self.clone())
    }

    fn base(&self) -> (r: &str) {
        self.as_str()
    }

    fn optional(&self) -> (b: bool) {
        false
    }

    fn path_matches(&self, path: &str) -> (b: bool) {
        path_eq(self.as_str(), path)
    }
}

} // verus!
