//! Maven coordinates and the metadata that a repository publishes.

use crate::wire::spec_texts;
use vstd::prelude::*;

pub mod gen;
pub mod specifier;

verus! {

/// The scope of a dependency of a Maven artifact.
#[derive(Debug, Clone, Copy, PartialEq, Eq, Structural)]
pub enum DepScope {
    Compile,
    Runtime,
    Provided,
    Test,
    System,
    Import,
}

/// One dependency of a version of an artifact.
#[derive(Debug, Clone)]
pub struct DepInfo {
    pub group: String,
    pub artifact: String,
    pub version: String,
    pub scope: DepScope,
}

pub struct DepInfoView {
    pub group: Seq<char>,
    pub artifact: Seq<char>,
    pub version: Seq<char>,
    pub scope: DepScope,
}

impl View for DepInfo {
    type V = DepInfoView;

    open spec fn view(&self) -> DepInfoView {
        DepInfoView {
            group: self.group@,
            artifact: self.artifact@,
            version: self.version@,
            scope: self.scope,
        }
    }
}

/// The dependencies of a version of an artifact, in the order in which the
/// metadata lists them.
#[derive(Default, Debug, Clone)]
pub struct Dependencies {
    dependency: Vec<DepInfo>,
}

impl View for Dependencies {
    type V = Seq<DepInfoView>;

    closed spec fn view(&self) -> Seq<DepInfoView> {
        Seq::new(self.dependency@.len(), |i: int| self.dependency@[i]@)
    }
}

impl Dependencies {
    /// The dependencies `dependency`.
    pub fn new(dependency: Vec<DepInfo>) -> (d: Self)
        ensures
            d@ == Seq::new(dependency@.len(), |i: int| dependency@[i]@),
    {
        Dependencies { dependency }
    }

    /// The dependencies as a slice.
    pub fn as_slice(&self) -> (r: &[DepInfo])
        ensures
            r@.len() == self@.len(),
            forall|i: int| 0 <= i < r@.len() ==> r@[i]@ == self@[i],
    {
        self.dependency.as_slice()
    }
}

/// The metadata of one version of an artifact.
#[derive(Debug, Clone)]
pub struct VersionMetadata {
    pub group: String,
    pub artifact: String,
    pub version: String,
    pub dependencies: Dependencies,
}

/// The versions that a repository has of an artifact.
#[derive(Debug)]
pub struct Versions {
    version: Vec<String>,
}

impl View for Versions {
    type V = Seq<Seq<char>>;

    closed spec fn view(&self) -> Seq<Seq<char>> {
        spec_texts(self.version@)
    }
}

impl Versions {
    /// The versions `version`.
    pub fn new(version: Vec<String>) -> (v: Self)
        ensures
            v@ == spec_texts(version@),
    {
        Versions { version }
    }

    /// The versions as a slice.
    pub fn as_slice(&self) -> (r: &[String])
        ensures
            spec_texts(r@) == self@,
    {
        self.version.as_slice()
    }
}

/// What a repository says of the versions of an artifact.
#[derive(Debug)]
pub struct Versioning {
    pub latest: Option<String>,
    pub release: Option<String>,
    pub versions: Versions,
    pub last_updated: usize,
}

/// The metadata of an artifact.
#[derive(Debug)]
pub struct ArtifactMetadata {
    pub versioning: Versioning,
}

} // verus!
