//! The result of indexing a project: the project, the files it is made of,
//! and the projects it depends on, which were indexed in turn.

use crate::list::spec_views;
use crate::lockfile::{
    spec_put_package, spec_sorted, Dependency, DependencyView, Package, PackageView, RemoteFile,
    RemoteFileView, WorkspaceLock,
};
use crate::config::{
    DependencyData, ProjectConfig, RemoteDependency, RemoteDependencyView, WorkspaceConfig,
};
use crate::maven::gen::build_origami_project;
use crate::maven::specifier::{
    spec_is_path, spec_path_of, spec_url_join, spec_url_parse, ArtifactPath, ArtifactVersion,
    Located, UrlError,
};
use crate::maven::VersionMetadata;
use crate::vercmp::Style;
use sha2::Digest;
use std::sync::Arc;
use vstd::prelude::*;
use vstd::string::StringExecFns;

verus! {

/// An indexed project. The dependencies form a directed acyclic graph: a
/// project that several others depend on is shared among them.
#[derive(Debug)]
pub struct IndexedProject {
    name: String,
    version: String,
    sources: Vec<RemoteFile>,
    dependencies: Vec<Arc<IndexedProject>>,
}

impl IndexedProject {
    pub closed spec fn spec_name(&self) -> Seq<char> {
        self.name@
    }

    pub closed spec fn spec_version(&self) -> Seq<char> {
        self.version@
    }

    pub closed spec fn spec_sources(&self) -> Seq<RemoteFileView> {
        spec_views(self.sources@)
    }

    pub closed spec fn spec_dependencies(&self) -> Seq<Arc<IndexedProject>> {
        self.dependencies@
    }

    /// An indexed project made of its parts.
    pub fn new(
        name: String,
        version: String,
        sources: Vec<RemoteFile>,
        dependencies: Vec<Arc<IndexedProject>>,
    ) -> (p: Self)
        ensures
            p.spec_name() == name@,
            p.spec_version() == version@,
            p.spec_sources() == spec_views(sources@),
            p.spec_dependencies() == dependencies@,
    {
        IndexedProject { name, version, sources, dependencies }
    }

    /// The name of the project.
    pub fn name(&self) -> (r: &str)
        ensures
            r@ == self.spec_name(),
    {
        self.name.as_str()
    }

    /// The version of the project.
    pub fn version(&self) -> (r: &str)
        ensures
            r@ == self.spec_version(),
    {
        self.version.as_str()
    }

    /// The files that the project is made of.
    pub fn sources(&self) -> (r: &[RemoteFile])
        ensures
            spec_views(r@) == self.spec_sources(),
    {
        self.sources.as_slice()
    }

    /// The projects that the project depends on.
    pub fn dependencies(&self) -> (r: &[Arc<IndexedProject>])
        ensures
            r@ == self.spec_dependencies(),
    {
        self.dependencies.as_slice()
    }
}

/// The project that `project` depends on at position `i`.
pub open spec fn spec_dependency(project: IndexedProject, i: int) -> IndexedProject {
    *project.spec_dependencies()[i]
}

/// The reference to a project, as a package that depends on it records it.
pub open spec fn spec_ref(project: IndexedProject) -> DependencyView {
    DependencyView { name: project.spec_name(), version: project.spec_version() }
}

/// The package that records a project in a lock.
pub open spec fn spec_package(project: IndexedProject) -> PackageView {
    PackageView {
        name: project.spec_name(),
        version: project.spec_version(),
        sources: project.spec_sources(),
        dependencies: Seq::new(
            project.spec_dependencies().len(),
            |i: int| spec_ref(*project.spec_dependencies()[i]),
        ),
    }
}

/// The reference to a project.
pub fn to_ref(project: &IndexedProject) -> (d: Dependency)
    ensures
        d@ == spec_ref(*project),
{
    Dependency { name: project.name.clone(), version: project.version.clone() }
}

/// A copy of a file record.
pub fn clone_remote_file(file: &RemoteFile) -> (copy: RemoteFile)
    ensures
        copy@ == file@,
{
    match file {
        RemoteFile::Http { source, checksum, size } => RemoteFile::Http {
            source: source.clone(),
            checksum: *checksum,
            size: *size,
        },
    }
}

/// The package that records a project in a lock: its name, version and
/// files, and a reference to each project it depends on, in order.
pub fn to_package(project: &IndexedProject) -> (package: Package)
    ensures
        package@ == spec_package(*project),
{
    let mut sources: Vec<RemoteFile> = Vec::new();
    let mut i: usize = 0;
    while i < project.sources.len()
        invariant
            i <= project.sources@.len(),
            sources@.len() == i,
            forall|k: int| 0 <= k < i ==> sources@[k]@ == project.sources@[k]@,
        decreases project.sources@.len() - i,
    {
        sources.push(clone_remote_file(&project.sources[i]));
        i += 1;
    }
    let mut dependencies: Vec<Dependency> = Vec::new();
    let mut j: usize = 0;
    while j < project.dependencies.len()
        invariant
            j <= project.dependencies@.len(),
            dependencies@.len() == j,
            forall|k: int| 0 <= k < j ==> dependencies@[k]@ == spec_ref(*project.dependencies@[k]),
        decreases project.dependencies@.len() - j,
    {
        dependencies.push(to_ref(&project.dependencies[j]));
        j += 1;
    }
    let package = Package {
        name: project.name.clone(),
        version: project.version.clone(),
        sources,
        dependencies,
    };
    assert(package@.sources =~= spec_package(*project).sources);
    assert(package@.dependencies =~= spec_package(*project).dependencies);
    package
}

/// The lock after `project` and, depth first and in order, every project
/// that it depends on was put into it.
pub closed spec fn spec_populate(v: Seq<PackageView>, project: IndexedProject) -> Seq<PackageView>
    decreases project, project.spec_dependencies().len() + 1,
{
    spec_populate_from(spec_put_package(v, spec_package(project)), project, 0)
}

/// The lock after the dependencies of `project` from the one at `from` on
/// were put into it.
pub closed spec fn spec_populate_from(
    v: Seq<PackageView>,
    project: IndexedProject,
    from: nat,
) -> Seq<PackageView>
    decreases project, project.spec_dependencies().len() - from,
{
    if from >= project.spec_dependencies().len() {
        v
    } else {
        spec_populate_from(
            spec_populate(v, *project.spec_dependencies()[from as int]),
            project,
            from + 1,
        )
    }
}

/// What populating means, step by step: the project is put first, then its
/// dependencies one after the other.
pub proof fn lemma_populate_unfold(v: Seq<PackageView>, project: IndexedProject, from: nat)
    ensures
        spec_populate(v, project) == spec_populate_from(
            spec_put_package(v, spec_package(project)),
            project,
            0,
        ),
        from >= project.spec_dependencies().len() ==> spec_populate_from(v, project, from) == v,
        from < project.spec_dependencies().len() ==> spec_populate_from(v, project, from)
            == spec_populate_from(
            spec_populate(v, *project.spec_dependencies()[from as int]),
            project,
            from + 1,
        ),
{
}

/// Populating a sorted lock leaves it sorted.
pub proof fn lemma_populate_sorted(v: Seq<PackageView>, project: IndexedProject)
    requires
        spec_sorted(v),
    ensures
        spec_sorted(spec_populate(v, project)),
    decreases project, project.spec_dependencies().len() + 1,
{
    crate::lockfile::lemma_put_package_sorted(v, spec_package(project));
    lemma_populate_from_sorted(spec_put_package(v, spec_package(project)), project, 0);
}

proof fn lemma_populate_from_sorted(v: Seq<PackageView>, project: IndexedProject, from: nat)
    requires
        spec_sorted(v),
    ensures
        spec_sorted(spec_populate_from(v, project, from)),
    decreases project, project.spec_dependencies().len() - from,
{
    if from < project.spec_dependencies().len() {
        lemma_populate_sorted(v, spec_dependency(project, from as int));
        lemma_populate_from_sorted(
            spec_populate(v, spec_dependency(project, from as int)),
            project,
            from + 1,
        );
    }
}

/// Puts `project` into the lock, then, depth first and in order, every
/// project that it depends on. A package that the lock holds under the same
/// name and version is replaced. A sorted lock stays sorted.
pub fn populate_lock(lock: &mut WorkspaceLock, project: &IndexedProject)
    ensures
        final(lock)@ == spec_populate(old(lock)@, *project),
        spec_sorted(old(lock)@) ==> spec_sorted(final(lock)@),
    decreases project,
{
    proof {
        if spec_sorted(lock@) {
            lemma_populate_sorted(lock@, *project);
        }
    }
    let package = to_package(project);
    lock.put(package);
    let mut i: usize = 0;
    while i < project.dependencies.len()
        invariant
            i <= project.dependencies@.len(),
            spec_populate_from(lock@, *project, i as nat) == spec_populate(old(lock)@, *project),
        decreases project.dependencies@.len() - i,
    {
        populate_lock(lock, &project.dependencies[i]);
        i += 1;
    }
}

/// `Arc::clone`: another handle to the same shared value.
#[verifier::external_body]
fn arc_clone<T>(a: &Arc<T>) -> (r: Arc<T>)
    ensures
        r == *a,
{
    Arc::clone(a)
}

/// Where a project comes from.
#[derive(Debug, Clone, Eq, PartialEq, Hash)]
pub enum ProjectSource {
    /// A directory on this machine.
    Local(String),
    /// A version of a Maven artifact in a repository.
    Maven(Located<ArtifactVersion>),
}

impl ProjectSource {
    /// Whether the project comes from this machine.
    pub fn is_local(&self) -> (b: bool)
        ensures
            b == (self is Local),
    {
        match self {
            ProjectSource::Local(_) => true,
            _ => false,
        }
    }
}

/// How the dependencies of a project are looked up: whether local paths
/// count, and the workspace whose repositories are searched.
#[derive(Debug, Clone, Eq, PartialEq, Hash)]
pub struct RequestContext {
    local: bool,
    ws_config: Arc<WorkspaceConfig>,
}

impl RequestContext {
    pub closed spec fn spec_local(&self) -> bool {
        self.local
    }

    pub closed spec fn spec_ws_config(&self) -> Arc<WorkspaceConfig> {
        self.ws_config
    }

    /// A context with the given parts.
    pub fn new(local: bool, ws_config: Arc<WorkspaceConfig>) -> (rc: Self)
        ensures
            rc.spec_local() == local,
            rc.spec_ws_config() == ws_config,
    {
        RequestContext { local, ws_config }
    }

    /// The context of the root of a resolution: local paths count, and no
    /// repository is known yet.
    pub fn default() -> (rc: Self)
        ensures
            rc.spec_local(),
            rc.spec_ws_config().repositories is None,
    {
        RequestContext {
            local: true,
            ws_config: Arc::new(WorkspaceConfig { repositories: None }),
        }
    }

    /// Whether local paths count.
    pub fn local(&self) -> (b: bool)
        ensures
            b == self.spec_local(),
    {
        self.local
    }

    /// The workspace whose repositories are searched.
    pub fn ws_config(&self) -> (r: &Arc<WorkspaceConfig>)
        ensures
            *r == self.spec_ws_config(),
    {
        &self.ws_config
    }
}

/// A project that is being indexed: its configuration, where it comes from,
/// and how its dependencies are looked up.
#[derive(Debug, Clone)]
pub struct ProjectContext {
    config: ProjectConfig,
    source: ProjectSource,
    req: RequestContext,
}

impl ProjectContext {
    pub closed spec fn spec_config(&self) -> ProjectConfig {
        self.config
    }

    pub closed spec fn spec_source(&self) -> ProjectSource {
        self.source
    }

    pub closed spec fn spec_req(&self) -> RequestContext {
        self.req
    }

    /// A context with the given parts.
    pub fn new(config: ProjectConfig, source: ProjectSource, req: RequestContext) -> (ctx: Self)
        ensures
            ctx.spec_config() == config,
            ctx.spec_source() == source,
            ctx.spec_req() == req,
    {
        ProjectContext { config, source, req }
    }

    /// The workspace whose repositories are searched.
    pub fn ws_config(&self) -> (r: &Arc<WorkspaceConfig>)
        ensures
            *r == self.spec_req().spec_ws_config(),
    {
        &self.req.ws_config
    }

    /// The configuration of the project.
    pub fn config(&self) -> (r: &ProjectConfig)
        ensures
            *r == self.spec_config(),
    {
        &self.config
    }

    /// Where the project comes from.
    pub fn source(&self) -> (r: &ProjectSource)
        ensures
            *r == self.spec_source(),
    {
        &self.source
    }

    /// The context of a project that was read from a directory: it is
    /// looked up as its parent was, in the workspace that its own
    /// configuration describes.
    pub fn local(
        config: ProjectConfig,
        ws_config: WorkspaceConfig,
        source: ProjectSource,
        rc: &RequestContext,
    ) -> (ctx: Self)
        ensures
            ctx.spec_config() == config,
            ctx.spec_source() == source,
            ctx.spec_req().spec_local() == rc.spec_local(),
            *ctx.spec_req().spec_ws_config() == ws_config,
    {
        ProjectContext {
            config,
            source,
            req: RequestContext { local: rc.local, ws_config: Arc::new(ws_config) },
        }
    }

    /// The context of a Maven artifact with the metadata `meta`: its
    /// configuration is made from the metadata, local paths do not count
    /// for it, and it is looked up in the repositories of its parent.
    pub fn maven(meta: &VersionMetadata, source: ProjectSource, rc: &RequestContext) -> (ctx: Self)
        ensures
            ctx.spec_config().project.name@ == meta.artifact@,
            ctx.spec_config().project.version@ == meta.version@,
            ctx.spec_config().project.authors@.len() == 0,
            ctx.spec_config().dependencies matches Some(d) && d@
                == crate::maven::gen::spec_dependencies(meta.dependencies@),
            ctx.spec_source() == source,
            !ctx.spec_req().spec_local(),
            ctx.spec_req().spec_ws_config() == rc.spec_ws_config(),
    {
        ProjectContext {
            config: build_origami_project(meta),
            source,
            req: RequestContext { local: false, ws_config: arc_clone(&rc.ws_config) },
        }
    }

    /// How the dependencies of the project are looked up: local paths count
    /// only if they counted for the project and the project itself is
    /// local.
    pub fn dependency_context(&self) -> (rc: RequestContext)
        ensures
            rc.spec_local() == (self.spec_req().spec_local() && self.spec_source() is Local),
            rc.spec_ws_config() == self.spec_req().spec_ws_config(),
    {
        RequestContext {
            local: self.req.local && self.source.is_local(),
            ws_config: arc_clone(&self.req.ws_config),
        }
    }
}

/// Where to look for a dependency.
#[derive(Debug)]
pub enum SourcePlan {
    /// The dependency lies in this directory.
    Local(String),
    /// The dependency is this version of a Maven artifact; it has to be
    /// located in a repository.
    Maven(ArtifactVersion),
    /// The dependency names a Maven artifact by a text that is no
    /// coordinate `group:artifact`.
    BadArtifact,
    /// Nothing says where the dependency comes from.
    Nowhere,
}

/// Decides where to look for a dependency: in its local path, if local
/// paths count and it has one; else as the Maven artifact that it names, if
/// it names one.
pub fn plan_source(rc: &RequestContext, dd: DependencyData) -> (plan: SourcePlan)
    ensures
        match plan {
            SourcePlan::Local(path) => rc.spec_local() && dd@.path == Some(path@),
            SourcePlan::Maven(v) => !(rc.spec_local() && dd@.path is Some) && (
            dd@.remote_dependency matches Some(RemoteDependencyView::Maven { artifact, version })
                && spec_path_of(artifact, v@.path) && v@.version == version),
            SourcePlan::BadArtifact => !(rc.spec_local() && dd@.path is Some) && (
            dd@.remote_dependency matches Some(RemoteDependencyView::Maven { artifact, version })
                && !spec_is_path(artifact)),
            SourcePlan::Nowhere => !(rc.spec_local() && dd@.path is Some)
                && dd@.remote_dependency is None,
        },
{
    if rc.local {
        match dd.path {
            Some(path) => {
                return SourcePlan::Local(path);
            },
            None => {},
        }
    }
    match dd.remote_dependency {
        None => SourcePlan::Nowhere,
        Some(RemoteDependency::Maven { version, artifact }) => match ArtifactPath::parse(
            artifact.as_str(),
        ) {
            Some(path) => SourcePlan::Maven(path.with_version(version.as_str())),
            None => SourcePlan::BadArtifact,
        },
    }
}

/// The position of the first of `artifacts` that is the version that
/// `artifact` asks for, if there is one.
pub fn find_matching_version(
    artifact: &ArtifactVersion,
    artifacts: &[Located<ArtifactVersion>],
) -> (r: Option<usize>)
    ensures
        r matches Some(i) ==> i < artifacts@.len() && artifacts@[i as int].spec_inner()@.version
            == artifact@.version && forall|j: int|
            0 <= j < i ==> artifacts@[j].spec_inner()@.version != artifact@.version,
        r is None ==> forall|j: int|
            0 <= j < artifacts@.len() ==> artifacts@[j].spec_inner()@.version != artifact@.version,
{
    let mut i: usize = 0;
    while i < artifacts.len()
        invariant
            i <= artifacts@.len(),
            forall|j: int|
                0 <= j < i ==> artifacts@[j].spec_inner()@.version != artifact@.version,
        decreases artifacts@.len() - i,
    {
        if Style::Maven.matches(artifact.version(), artifacts[i].inner().version()) {
            return Some(i);
        }
        i += 1;
    }
    None
}

/// The SHA-256 checksum of a byte string: 32 bytes.
pub uninterp spec fn spec_sha256(data: Seq<u8>) -> Seq<u8>;

/// `Sha256::digest`: the SHA-256 checksum of `data`.
#[verifier::external_body]
fn sha256(data: &[u8]) -> (sum: [u8; 32])
    ensures
        sum@ == spec_sha256(data@),
{
    let output = sha2::Sha256::digest(data);
    let mut arr = [0u8; 32];
    arr.copy_from_slice(&output);
    arr
}

/// The record of a file that was fetched from `url` with the content
/// `data`: the URL, the SHA-256 checksum of the content, and its size.
pub fn to_remote_file(url: &str, data: &[u8]) -> (file: RemoteFile)
    ensures
        file@ == (RemoteFileView::Http {
            source: url@,
            checksum: spec_sha256(data@),
            size: data@.len() as usize,
        }),
{
    RemoteFile::Http { source: String::from_str(url), checksum: sha256(data), size: data.len() }
}

/// The URLs of the files that a project is made of: none for a local
/// project; the metadata and the archive for a version of a Maven artifact,
/// or an error where either has no URL.
pub fn required_urls(source: &ProjectSource) -> (r: Result<Vec<String>, UrlError>)
    ensures
        source is Local ==> (r matches Ok(urls) && urls@.len() == 0),
        source matches ProjectSource::Maven(l) ==> match r {
            Ok(urls) => urls@.len() == 2 && (spec_url_parse(l.spec_url_text()) matches Some(dir)
                && Some(urls@[0]@) == spec_url_join(dir, l.spec_file_name(None, ".pom"@)) && Some(
                urls@[1]@,
            ) == spec_url_join(dir, l.spec_file_name(None, ".jar"@))),
            Err(_) => !(spec_url_parse(l.spec_url_text()) matches Some(dir) && spec_url_join(
                dir,
                l.spec_file_name(None, ".pom"@),
            ) is Some && spec_url_join(dir, l.spec_file_name(None, ".jar"@)) is Some),
        },
{
    let mut urls: Vec<String> = Vec::new();
    match source {
        ProjectSource::Local(_) => {},
        ProjectSource::Maven(l) => {
            let metadata = match l.metadata_url() {
                Ok(u) => u,
                Err(e) => {
                    return Err(e);
                },
            };
            let jar = match l.jar_url(None) {
                Ok(u) => u,
                Err(e) => {
                    return Err(e);
                },
            };
            urls.push(metadata);
            urls.push(jar);
        },
    }
    Ok(urls)
}

} // verus!
