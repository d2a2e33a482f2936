//! The configuration of a project: what it is and what it depends on.

use linked_hash_map::LinkedHashMap;
use vstd::prelude::*;
use vstd::string::StringExecFns;

verus! {

/// Where a dependency comes from when it is not found locally.
#[derive(Debug, Clone, PartialEq, Eq)]
pub enum RemoteDependency {
    /// A Maven artifact `group:artifact` in one version.
    Maven { artifact: String, version: String },
}

pub enum RemoteDependencyView {
    Maven { artifact: Seq<char>, version: Seq<char> },
}

impl View for RemoteDependency {
    type V = RemoteDependencyView;

    open spec fn view(&self) -> RemoteDependencyView {
        match *self {
            RemoteDependency::Maven { artifact, version } => RemoteDependencyView::Maven {
                artifact: artifact@,
                version: version@,
            },
        }
    }
}

/// What a project says of one dependency.
#[derive(Debug, Clone, PartialEq, Eq)]
pub struct DependencyData {
    /// Where the dependency comes from when it is not found locally.
    pub remote_dependency: Option<RemoteDependency>,
    /// Whether the dependency is exported to whatever depends on the
    /// project itself.
    pub export: bool,
    /// Where the dependency lies locally.
    pub path: Option<String>,
}

pub struct DependencyDataView {
    pub remote_dependency: Option<RemoteDependencyView>,
    pub export: bool,
    pub path: Option<Seq<char>>,
}

impl View for DependencyData {
    type V = DependencyDataView;

    open spec fn view(&self) -> DependencyDataView {
        DependencyDataView {
            remote_dependency: match self.remote_dependency {
                Some(r) => Some(r@),
                None => None,
            },
            export: self.export,
            path: match self.path {
                Some(p) => Some(p@),
                None => None,
            },
        }
    }
}

/// The dependencies of a project by name, no name twice.
#[derive(Debug, Clone, Default)]
pub struct DependenciesConfig(pub Vec<(String, DependencyData)>);

/// The entries of a list of dependencies: name and data.
pub open spec fn spec_entries(v: Seq<(String, DependencyData)>) -> Seq<
    (Seq<char>, DependencyDataView),
> {
    Seq::new(v.len(), |i: int| (v[i].0@, v[i].1@))
}

impl View for DependenciesConfig {
    type V = Seq<(Seq<char>, DependencyDataView)>;

    open spec fn view(&self) -> Seq<(Seq<char>, DependencyDataView)> {
        spec_entries(self.0@)
    }
}

/// The position of the first entry named `name`, or the number of entries
/// if there is none.
pub open spec fn spec_position(v: Seq<(Seq<char>, DependencyDataView)>, name: Seq<char>) -> int
    decreases v.len(),
{
    if v.len() == 0 {
        0
    } else if v[0].0 == name {
        0
    } else {
        1 + spec_position(v.skip(1), name)
    }
}

/// The entries after `data` was recorded under `name`: in place of the
/// entry of that name if there is one, else behind all entries.
pub open spec fn spec_insert(
    v: Seq<(Seq<char>, DependencyDataView)>,
    name: Seq<char>,
    data: DependencyDataView,
) -> Seq<(Seq<char>, DependencyDataView)> {
    let at = spec_position(v, name);
    if at < v.len() {
        v.update(at, (name, data))
    } else {
        v.push((name, data))
    }
}

pub proof fn lemma_position(v: Seq<(Seq<char>, DependencyDataView)>, name: Seq<char>)
    ensures
        0 <= spec_position(v, name) <= v.len(),
        spec_position(v, name) < v.len() ==> v[spec_position(v, name)].0 == name,
        forall|i: int| 0 <= i < spec_position(v, name) ==> (#[trigger] v[i]).0 != name,
    decreases v.len(),
{
    if v.len() > 0 && v[0].0 != name {
        let tail = v.skip(1);
        lemma_position(tail, name);
        assert forall|i: int| 0 <= i < spec_position(v, name) implies (#[trigger] v[i]).0
            != name by {
            if i > 0 {
                assert(v[i] == tail[i - 1]);
            }
        }
    }
}

pub proof fn lemma_position_is(v: Seq<(Seq<char>, DependencyDataView)>, name: Seq<char>, at: int)
    requires
        0 <= at <= v.len(),
        at < v.len() ==> v[at].0 == name,
        forall|i: int| 0 <= i < at ==> (#[trigger] v[i]).0 != name,
    ensures
        spec_position(v, name) == at,
{
    lemma_position(v, name);
    let p = spec_position(v, name);
    if p < at {
        assert(v[p].0 == name);
    } else if p > at {
        assert(v[at].0 == name);
    }
}

impl DependenciesConfig {
    /// No dependencies.
    pub fn new() -> (c: Self)
        ensures
            c@ == Seq::<(Seq<char>, DependencyDataView)>::empty(),
    {
        let c = DependenciesConfig(Vec::new());
        assert(c@ =~= Seq::<(Seq<char>, DependencyDataView)>::empty());
        c
    }

    /// The position of the entry named `name`, or the number of entries.
    pub fn position(&self, name: &str) -> (at: usize)
        ensures
            at == spec_position(self@, name@),
            at <= self@.len(),
    {
        let wanted = String::from_str(name);
        let mut i: usize = 0;
        while i < self.0.len()
            invariant
                i <= self.0@.len(),
                wanted@ == name@,
                forall|j: int| 0 <= j < i ==> (#[trigger] self@[j]).0 != name@,
            decreases self.0@.len() - i,
        {
            if self.0[i].0 == wanted {
                proof {
                    lemma_position_is(self@, name@, i as int);
                }
                return i;
            }
            i += 1;
        }
        proof {
            lemma_position_is(self@, name@, i as int);
        }
        i
    }

    /// The data recorded under `name`, if any.
    pub fn get(&self, name: &str) -> (r: Option<&DependencyData>)
        ensures
            r is Some <==> spec_position(self@, name@) < self@.len(),
            r matches Some(data) ==> data@ == self@[spec_position(self@, name@)].1,
    {
        let at = self.position(name);
        if at < self.0.len() {
            Some(&self.0[at].1)
        } else {
            None
        }
    }

    /// Records `data` under `name`, in place of what was recorded under it.
    pub fn insert(&mut self, name: String, data: DependencyData)
        ensures
            final(self)@ == spec_insert(old(self)@, name@, data@),
    {
        let at = self.position(name.as_str());
        if at < self.0.len() {
            self.0[at] = (name, data);
            assert(self@ =~= spec_insert(old(self)@, name@, data@));
        } else {
            self.0.push((name, data));
            assert(self@ =~= spec_insert(old(self)@, name@, data@));
        }
    }
}

/// What a project says of itself.
#[derive(Debug, Clone, PartialEq, Eq)]
pub struct Project {
    pub name: String,
    pub version: String,
    pub authors: Vec<String>,
}

/// The configuration of a project.
#[derive(Debug, Clone)]
pub struct ProjectConfig {
    pub project: Project,
    pub dependencies: Option<DependenciesConfig>,
}

/// `linked_hash_map::LinkedHashMap`: a map that keeps its entries in the
/// order in which they were inserted. Nothing is known of a value but what
/// [`spec_repositories`] says it holds.
#[verifier::external_type_specification]
#[verifier::external_body]
#[verifier::reject_recursive_types(K)]
#[verifier::reject_recursive_types(V)]
#[verifier::reject_recursive_types(S)]
pub struct ExLinkedHashMap<K, V, S>(linked_hash_map::LinkedHashMap<K, V, S>);

/// The entries of a map of repositories, name and URL, oldest first.
pub uninterp spec fn spec_repositories(m: LinkedHashMap<String, String>) -> Seq<
    (Seq<char>, Seq<char>),
>;

/// The entries without the one named `name`.
pub open spec fn spec_without(v: Seq<(Seq<char>, Seq<char>)>, name: Seq<char>) -> Seq<
    (Seq<char>, Seq<char>),
> {
    v.filter(|e: (Seq<char>, Seq<char>)| e.0 != name)
}

/// The URLs of the entries, in order.
pub open spec fn spec_urls(v: Seq<(Seq<char>, Seq<char>)>) -> Seq<Seq<char>> {
    Seq::new(v.len(), |i: int| v[i].1)
}

/// `LinkedHashMap::new`: a map without entries.
#[verifier::external_body]
fn repositories_new() -> (m: LinkedHashMap<String, String>)
    ensures
        spec_repositories(m) == Seq::<(Seq<char>, Seq<char>)>::empty(),
{
    LinkedHashMap::new()
}

/// `LinkedHashMap::insert`: the entry becomes the newest; an entry that the
/// map held under the same name is gone.
#[verifier::external_body]
fn repositories_insert(m: &mut LinkedHashMap<String, String>, name: String, url: String)
    ensures
        spec_repositories(*final(m)) == spec_without(spec_repositories(*old(m)), name@).push(
            (name@, url@),
        ),
{
    m.insert(name, url);
}

/// `LinkedHashMap::clone`: a map with the same entries in the same order.
#[verifier::external_body]
fn repositories_clone(m: &LinkedHashMap<String, String>) -> (c: LinkedHashMap<String, String>)
    ensures
        spec_repositories(c) == spec_repositories(*m),
{
    m.clone()
}

/// `LinkedHashMap::values`: copies of the values, oldest entry first.
#[verifier::external_body]
fn repositories_values(m: &LinkedHashMap<String, String>) -> (urls: Vec<String>)
    ensures
        crate::wire::spec_texts(urls@) == spec_urls(spec_repositories(*m)),
{
    m.values().map(|url| url.clone()).collect()
}

/// The repositories of a workspace by name, in the order in which they were
/// written down; each is the text of a URL.
#[derive(Debug, Default, PartialEq, Eq, Hash)]
pub struct RepositoriesConfig(pub LinkedHashMap<String, String>);

impl Clone for RepositoriesConfig {
    fn clone(&self) -> (c: Self)
        ensures
            c@ == self@,
    {
        RepositoriesConfig(repositories_clone(&self.0))
    }
}

impl View for RepositoriesConfig {
    type V = Seq<(Seq<char>, Seq<char>)>;

    open spec fn view(&self) -> Seq<(Seq<char>, Seq<char>)> {
        spec_repositories(self.0)
    }
}

impl RepositoriesConfig {
    /// No repositories.
    pub fn new() -> (c: Self)
        ensures
            c@ == Seq::<(Seq<char>, Seq<char>)>::empty(),
    {
        RepositoriesConfig(repositories_new())
    }

    /// Records the repository at `url` under `name` as the last one, in
    /// place of any that was recorded under the name.
    pub fn insert(&mut self, name: String, url: String)
        ensures
            final(self)@ == spec_without(old(self)@, name@).push((name@, url@)),
    {
        repositories_insert(&mut self.0, name, url);
    }

    /// The URLs of the repositories, in order.
    pub fn urls(&self) -> (urls: Vec<String>)
        ensures
            crate::wire::spec_texts(urls@) == spec_urls(self@),
    {
        repositories_values(&self.0)
    }
}

/// The configuration of a workspace.
#[derive(Debug, Clone, Default, PartialEq, Eq, Hash)]
pub struct WorkspaceConfig {
    pub repositories: Option<RepositoriesConfig>,
}

impl WorkspaceConfig {
    /// The URLs of the repositories of the workspace, in order; none where
    /// the workspace names no repositories.
    pub fn repository_urls(&self) -> (urls: Vec<String>)
        ensures
            crate::wire::spec_texts(urls@) == match self.repositories {
                Some(r) => spec_urls(r@),
                None => Seq::empty(),
            },
    {
        match &self.repositories {
            Some(r) => r.urls(),
            None => {
                let urls: Vec<String> = Vec::new();
                assert(crate::wire::spec_texts(urls@) =~= Seq::empty());
                urls
            },
        }
    }
}

} // verus!
