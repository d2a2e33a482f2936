//! The project configuration that stands for a Maven artifact.

use crate::config::{
    spec_insert, DependenciesConfig, DependencyData, DependencyDataView, Project, ProjectConfig,
    RemoteDependency, RemoteDependencyView,
};
use crate::maven::{DepInfoView, DepScope, VersionMetadata};
use vstd::prelude::*;
use vstd::string::StringExecFns;

verus! {

/// Whether a dependency of the given scope is exported to whatever depends
/// on the artifact: all but runtime and test dependencies are.
pub open spec fn spec_export(scope: DepScope) -> bool {
    scope != DepScope::Runtime && scope != DepScope::Test
}

/// Whether a dependency of the given scope is exported.
pub fn export(scope: DepScope) -> (b: bool)
    ensures
        b == spec_export(scope),
{
    match scope {
        DepScope::Compile => true,
        DepScope::Runtime => false,
        DepScope::Provided => true,
        DepScope::Test => false,
        DepScope::System => true,
        DepScope::Import => true,
    }
}

/// What the configuration records for a dependency of an artifact: the
/// coordinate `group:artifact` and the version, no local path.
pub open spec fn spec_dependency_data(d: DepInfoView) -> DependencyDataView {
    DependencyDataView {
        remote_dependency: Some(
            RemoteDependencyView::Maven {
                artifact: d.group + seq![':'] + d.artifact,
                version: d.version,
            },
        ),
        export: spec_export(d.scope),
        path: None,
    }
}

/// The dependencies of the configuration: each dependency of the artifact
/// recorded under its name, in order, a later one in place of an earlier
/// one of the same name.
pub open spec fn spec_dependencies(deps: Seq<DepInfoView>) -> Seq<(Seq<char>, DependencyDataView)>
    decreases deps.len(),
{
    if deps.len() == 0 {
        Seq::empty()
    } else {
        spec_insert(
            spec_dependencies(deps.drop_last()),
            deps.last().artifact,
            spec_dependency_data(deps.last()),
        )
    }
}

/// The project configuration that stands for the version of an artifact
/// that `pom` describes: named by the artifact, in its version, without
/// authors, and with its dependencies.
pub fn build_origami_project(pom: &VersionMetadata) -> (config: ProjectConfig)
    ensures
        config.project.name@ == pom.artifact@,
        config.project.version@ == pom.version@,
        config.project.authors@.len() == 0,
        config.dependencies matches Some(d) && d@ == spec_dependencies(pom.dependencies@),
{
    let mut dependencies = DependenciesConfig::new();
    let deps = pom.dependencies.as_slice();
    let mut i: usize = 0;
    while i < deps.len()
        invariant
            i <= deps@.len(),
            deps@.len() == pom.dependencies@.len(),
            forall|k: int| 0 <= k < deps@.len() ==> deps@[k]@ == pom.dependencies@[k],
            dependencies@ == spec_dependencies(pom.dependencies@.take(i as int)),
        decreases deps@.len() - i,
    {
        let dependency = &deps[i];
        proof {
            reveal_strlit(":");
        }
        let mut artifact = dependency.group.clone();
        artifact.append(":");
        artifact.append(dependency.artifact.as_str());
        assert(artifact@ =~= dependency@.group + seq![':'] + dependency@.artifact);
        dependencies.insert(
            dependency.artifact.clone(),
            DependencyData {
                remote_dependency: Some(
                    RemoteDependency::Maven { artifact, version: dependency.version.clone() },
                ),
                export: export(dependency.scope),
                path: None,
            },
        );
        i += 1;
        assert(pom.dependencies@.take(i as int).drop_last() =~= pom.dependencies@.take(i - 1));
    }
    assert(pom.dependencies@.take(i as int) =~= pom.dependencies@);
    ProjectConfig {
        project: Project {
            name: pom.artifact.clone(),
            version: pom.version.clone(),
            authors: Vec::new(),
        },
        dependencies: Some(dependencies),
    }
}

} // verus!
