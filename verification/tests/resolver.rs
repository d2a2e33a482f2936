use origami::config::{DependenciesConfig, DependencyData, RemoteDependency, RepositoriesConfig, WorkspaceConfig};
use origami::indexer::{
    clone_remote_file, find_matching_version, plan_source, populate_lock, required_urls,
    to_package, to_ref, to_remote_file, IndexedProject, ProjectContext, ProjectSource,
    RequestContext, SourcePlan,
};
use origami::lockfile::{
    order_bytes, order_key, Dependency, LockError, Order, Package, RemoteFile, WorkspaceLock,
};
use origami::maven::gen::{build_origami_project, export};
use origami::maven::specifier::{ArtifactPath, ArtifactVersion, Located, UrlError};
use origami::maven::{DepInfo, DepScope, Dependencies, VersionMetadata};
use origami::vercmp::{components, CharType, Component, Style};
use std::sync::Arc;

fn package(name: &str, version: &str) -> Package {
    Package {
        name: name.to_string(),
        version: version.to_string(),
        sources: vec![],
        dependencies: vec![],
    }
}

fn keys(lock: &WorkspaceLock) -> Vec<(String, String)> {
    lock.packages.iter().map(|p| (p.name.clone(), p.version.clone())).collect()
}

fn pair(a: &str, b: &str) -> (String, String) {
    (a.to_string(), b.to_string())
}

fn file(source: &str, fill: u8, size: usize) -> RemoteFile {
    RemoteFile::Http { source: source.to_string(), checksum: [fill; 32], size }
}

#[test]
fn bytes_are_ordered_like_strings() {
    let samples = ["", "a", "ab", "b", "B", "a\u{e9}", "aa", "abc", "\u{10348}"];
    for x in samples {
        for y in samples {
            let expected = match x.cmp(y) {
                std::cmp::Ordering::Less => Order::Less,
                std::cmp::Ordering::Equal => Order::Equal,
                std::cmp::Ordering::Greater => Order::Greater,
            };
            assert_eq!(order_bytes(x.as_bytes(), y.as_bytes()), expected);
        }
    }
}

#[test]
fn keys_are_ordered_by_name_then_version() {
    let p = package("m", "2");
    assert_eq!(order_key(&p, "m", "2"), Order::Equal);
    assert_eq!(order_key(&p, "n", "1"), Order::Less);
    assert_eq!(order_key(&p, "m", "3"), Order::Less);
    assert_eq!(order_key(&p, "l", "9"), Order::Greater);
    assert_eq!(order_key(&p, "m", "1"), Order::Greater);
}

#[test]
fn put_keeps_the_lock_sorted_and_replaces_in_place() {
    let mut lock = WorkspaceLock::new();
    for (n, v) in [("m", "1"), ("a", "2"), ("z", "0"), ("m", "0"), ("a", "1")] {
        lock.put(package(n, v));
    }
    assert_eq!(
        keys(&lock),
        vec![pair("a", "1"), pair("a", "2"), pair("m", "0"), pair("m", "1"), pair("z", "0")]
    );
    let mut replacement = package("m", "0");
    replacement.sources.push(file("http://x/y", 1, 2));
    lock.put(replacement);
    assert_eq!(lock.packages.len(), 5);
    assert_eq!(lock.packages[2].sources.len(), 1);
    assert_eq!(lock.packages[3].sources.len(), 0);
}

#[test]
fn lock_round_trips_through_its_bytes() {
    let mut lock = WorkspaceLock::new();
    let mut p = package("app", "1.0");
    p.sources.push(file("http://repo/app-1.0.pom", 0xAB, 1234));
    p.sources.push(file("http://repo/app-1.0.jar", 0x01, usize::MAX));
    p.dependencies.push(Dependency { name: "lib".to_string(), version: "2".to_string() });
    lock.put(p);
    lock.put(package("lib", "2"));
    let mut bytes = Vec::new();
    lock.write(&mut bytes);
    assert_eq!(&bytes[..8], &[2, 0, 0, 0, 0, 0, 0, 0]);
    assert_eq!(WorkspaceLock::read(&bytes), Ok(lock));
}

#[test]
fn empty_lock_is_eight_zero_bytes() {
    let mut bytes = Vec::new();
    WorkspaceLock::new().write(&mut bytes);
    assert_eq!(bytes, vec![0u8; 8]);
    assert_eq!(WorkspaceLock::read(&bytes), Ok(WorkspaceLock::new()));
}

#[test]
fn file_record_has_the_documented_layout() {
    let mut lock = WorkspaceLock::new();
    let mut p = package("a", "b");
    p.sources.push(file("u", 7, 3));
    lock.put(p);
    let mut bytes = Vec::new();
    lock.write(&mut bytes);
    let mut expected: Vec<u8> = vec![1, 0, 0, 0, 0, 0, 0, 0];
    expected.extend_from_slice(&[1, 0, 0, 0, 0, 0, 0, 0, b'a']);
    expected.extend_from_slice(&[1, 0, 0, 0, 0, 0, 0, 0, b'b']);
    expected.extend_from_slice(&[1, 0, 0, 0, 0, 0, 0, 0]);
    expected.extend_from_slice(&[0; 8]);
    expected.extend_from_slice(&[1, 0, 0, 0, 0, 0, 0, 0, b'u']);
    expected.extend_from_slice(&[7; 32]);
    expected.extend_from_slice(&[3, 0, 0, 0, 0, 0, 0, 0]);
    expected.extend_from_slice(&[0; 8]);
    assert_eq!(bytes, expected);
}

#[test]
fn malformed_lock_is_rejected() {
    assert_eq!(WorkspaceLock::read(&[]), Err(LockError::Malformed));
    assert_eq!(WorkspaceLock::read(&[1, 0, 0, 0, 0, 0, 0, 0]), Err(LockError::Malformed));
    let mut lock = WorkspaceLock::new();
    let mut p = package("a", "b");
    p.sources.push(file("u", 7, 3));
    lock.put(p);
    let mut bytes = Vec::new();
    lock.write(&mut bytes);
    for cut in 0..bytes.len() {
        assert_eq!(WorkspaceLock::read(&bytes[..cut]), Err(LockError::Malformed));
    }
    let mut bad_variant = bytes.clone();
    bad_variant[34] = 1;
    assert_eq!(WorkspaceLock::read(&bad_variant), Err(LockError::Malformed));
}

fn project(name: &str, version: &str, deps: Vec<Arc<IndexedProject>>) -> IndexedProject {
    IndexedProject::new(
        name.to_string(),
        version.to_string(),
        vec![file(&format!("http://r/{}", name), 1, 1)],
        deps,
    )
}

#[test]
fn indexed_project_hands_out_its_parts() {
    let leaf = Arc::new(project("leaf", "1", vec![]));
    let root = project("root", "2", vec![leaf.clone()]);
    assert_eq!(root.name(), "root");
    assert_eq!(root.version(), "2");
    assert_eq!(root.sources().len(), 1);
    assert_eq!(root.dependencies().len(), 1);
    assert_eq!(root.dependencies()[0].name(), "leaf");
    assert_eq!(to_ref(&root), Dependency { name: "root".to_string(), version: "2".to_string() });
    let p = to_package(&root);
    assert_eq!(p.name, "root");
    assert_eq!(p.version, "2");
    assert_eq!(p.sources, vec![file("http://r/root", 1, 1)]);
    assert_eq!(p.dependencies, vec![Dependency { name: "leaf".to_string(), version: "1".to_string() }]);
    assert_eq!(clone_remote_file(&p.sources[0]), p.sources[0]);
}

#[test]
fn populate_records_the_whole_graph_once_per_package() {
    let shared = Arc::new(project("shared", "1", vec![]));
    let left = Arc::new(project("left", "1", vec![shared.clone()]));
    let right = Arc::new(project("right", "1", vec![shared.clone()]));
    let root = project("app", "3", vec![right, left]);
    let mut lock = WorkspaceLock::new();
    populate_lock(&mut lock, &root);
    assert_eq!(
        keys(&lock),
        vec![pair("app", "3"), pair("left", "1"), pair("right", "1"), pair("shared", "1")]
    );
    assert_eq!(lock.packages[0].dependencies.len(), 2);
    assert_eq!(lock.packages[0].dependencies[0].name, "right");
    populate_lock(&mut lock, &root);
    assert_eq!(lock.packages.len(), 4);
}

#[test]
fn coordinates_parse_and_print() {
    let p = ArtifactPath::parse("org.example:lib").expect("a coordinate");
    assert_eq!(p, ArtifactPath::new("org.example", "lib"));
    assert_eq!(p.to_string(), "org.example:lib");
    assert_eq!(p.to_url_part(), "org/example/lib");
    assert_eq!(ArtifactPath::parse("nocolon"), None);
    assert_eq!(ArtifactPath::parse("a:b:c"), None);
    assert_eq!(ArtifactPath::parse(":"), Some(ArtifactPath::new("", "")));
    let v = ArtifactVersion::parse("org.example:lib:1.2.3").expect("a coordinate");
    assert_eq!(v.path(), &p);
    assert_eq!(v.version(), "1.2.3");
    assert_eq!(v.to_string(), "org.example:lib:1.2.3");
    assert_eq!(v.to_url_part(), "org/example/lib/1.2.3");
    assert_eq!(v, p.clone().with_version("1.2.3"));
    assert_eq!(ArtifactVersion::parse("a:b"), None);
    assert_eq!(ArtifactVersion::parse("a"), None);
    assert_eq!(ArtifactVersion::parse("a:b:c:d"), None);
}

#[test]
fn located_artifact_urls() {
    let l = Located::new(
        "https://repo.example.com/maven2".to_string(),
        ArtifactPath::new("org.example", "lib"),
    );
    assert_eq!(l.repository(), "https://repo.example.com/maven2");
    assert_eq!(l.inner(), &ArtifactPath::new("org.example", "lib"));
    assert_eq!(
        l.try_to_url(),
        Ok("https://repo.example.com/maven2/org/example/lib/".to_string())
    );
    assert_eq!(l.to_url(), "https://repo.example.com/maven2/org/example/lib/");
    assert_eq!(
        l.metadata_url(),
        Ok("https://repo.example.com/maven2/org/example/lib/maven-metadata.xml".to_string())
    );
    assert_eq!(l.into_inner(), ArtifactPath::new("org.example", "lib"));
}

#[test]
fn urls_are_normalised_by_the_parser() {
    let l = Located::new(
        "HTTP://Repo.Example.com:80/a/../maven2".to_string(),
        ArtifactPath::new("g", "a"),
    );
    assert_eq!(l.try_to_url(), Ok("http://repo.example.com/maven2/g/a/".to_string()));
}

#[test]
fn located_version_urls() {
    let v = ArtifactPath::new("org.example", "lib").with_version("1.0");
    let l = Located::new("https://repo.example.com/m2".to_string(), v);
    assert_eq!(l.prefix(), "lib-1.0");
    assert_eq!(l.try_to_url(), Ok("https://repo.example.com/m2/org/example/lib/1.0/".to_string()));
    assert_eq!(
        l.metadata_url(),
        Ok("https://repo.example.com/m2/org/example/lib/1.0/lib-1.0.pom".to_string())
    );
    assert_eq!(
        l.jar_url(None),
        Ok("https://repo.example.com/m2/org/example/lib/1.0/lib-1.0.jar".to_string())
    );
    assert_eq!(
        l.jar_url(Some("sources")),
        Ok("https://repo.example.com/m2/org/example/lib/1.0/lib-1.0-sources.jar".to_string())
    );
}

#[test]
fn a_repository_that_is_no_url_gives_an_error() {
    let l = Located::new("not a url".to_string(), ArtifactPath::new("g", "a"));
    assert_eq!(l.try_to_url(), Err(UrlError::Invalid));
    assert_eq!(l.metadata_url(), Err(UrlError::Invalid));
    let lv = Located::new("".to_string(), ArtifactPath::new("g", "a").with_version("1"));
    assert_eq!(lv.try_to_url(), Err(UrlError::Invalid));
    assert_eq!(lv.jar_url(None), Err(UrlError::Invalid));
    assert_eq!(
        required_urls(&ProjectSource::Maven(lv)).expect_err("no url"),
        UrlError::Invalid
    );
}

#[test]
fn required_files_of_a_project() {
    assert_eq!(required_urls(&ProjectSource::Local(".".to_string())), Ok(vec![]));
    let l = Located::new(
        "https://r.example/m".to_string(),
        ArtifactPath::new("g", "a").with_version("1"),
    );
    assert_eq!(
        required_urls(&ProjectSource::Maven(l)),
        Ok(vec![
            "https://r.example/m/g/a/1/a-1.pom".to_string(),
            "https://r.example/m/g/a/1/a-1.jar".to_string()
        ])
    );
}

#[test]
fn remote_file_carries_the_sha256_of_its_content() {
    let f = to_remote_file("https://r.example/x.jar", b"abc");
    let expected: [u8; 32] = [
        0xba, 0x78, 0x16, 0xbf, 0x8f, 0x01, 0xcf, 0xea, 0x41, 0x41, 0x40, 0xde, 0x5d, 0xae, 0x22,
        0x23, 0xb0, 0x03, 0x61, 0xa3, 0x96, 0x17, 0x7a, 0x9c, 0xb4, 0x10, 0xff, 0x61, 0xf2, 0x00,
        0x15, 0xad,
    ];
    assert_eq!(
        f,
        RemoteFile::Http {
            source: "https://r.example/x.jar".to_string(),
            checksum: expected,
            size: 3
        }
    );
    let empty = to_remote_file("u", b"");
    match empty {
        RemoteFile::Http { checksum, size, .. } => {
            assert_eq!(size, 0);
            assert_eq!(&checksum[..4], &[0xe3, 0xb0, 0xc4, 0x42]);
        }
    }
}

#[test]
fn repositories_keep_their_order_and_move_a_renewed_one_last() {
    let mut r = RepositoriesConfig::new();
    assert!(r.urls().is_empty());
    r.insert("central".to_string(), "https://c/".to_string());
    r.insert("local".to_string(), "https://l/".to_string());
    r.insert("extra".to_string(), "https://e/".to_string());
    assert_eq!(r.urls(), vec!["https://c/", "https://l/", "https://e/"]);
    r.insert("central".to_string(), "https://c2/".to_string());
    assert_eq!(r.urls(), vec!["https://l/", "https://e/", "https://c2/"]);
    let ws = WorkspaceConfig { repositories: Some(r) };
    assert_eq!(ws.repository_urls(), vec!["https://l/", "https://e/", "https://c2/"]);
    let none = WorkspaceConfig { repositories: None };
    assert!(none.repository_urls().is_empty());
}

fn data(export: bool) -> DependencyData {
    DependencyData { remote_dependency: None, export, path: None }
}

#[test]
fn dependencies_are_recorded_once_per_name() {
    let mut d = DependenciesConfig::new();
    d.insert("a".to_string(), data(true));
    d.insert("b".to_string(), data(false));
    d.insert("a".to_string(), data(false));
    assert_eq!(d.0.len(), 2);
    assert_eq!(d.position("a"), 0);
    assert_eq!(d.position("b"), 1);
    assert_eq!(d.position("c"), 2);
    assert_eq!(d.get("a"), Some(&data(false)));
    assert_eq!(d.get("c"), None);
}

fn dep(group: &str, artifact: &str, version: &str, scope: DepScope) -> DepInfo {
    DepInfo {
        group: group.to_string(),
        artifact: artifact.to_string(),
        version: version.to_string(),
        scope,
    }
}

#[test]
fn scopes_decide_the_export() {
    assert!(export(DepScope::Compile));
    assert!(!export(DepScope::Runtime));
    assert!(export(DepScope::Provided));
    assert!(!export(DepScope::Test));
    assert!(export(DepScope::System));
    assert!(export(DepScope::Import));
}

#[test]
fn project_of_a_maven_artifact() {
    let pom = VersionMetadata {
        group: "org.example".to_string(),
        artifact: "app".to_string(),
        version: "1.0".to_string(),
        dependencies: Dependencies::new(vec![
            dep("org.a", "lib", "1", DepScope::Compile),
            dep("org.b", "junit", "4", DepScope::Test),
            dep("org.c", "lib", "2", DepScope::Runtime),
        ]),
    };
    let config = build_origami_project(&pom);
    assert_eq!(config.project.name, "app");
    assert_eq!(config.project.version, "1.0");
    assert!(config.project.authors.is_empty());
    let deps = config.dependencies.expect("always there");
    assert_eq!(deps.0.len(), 2);
    assert_eq!(
        deps.get("lib"),
        Some(&DependencyData {
            remote_dependency: Some(RemoteDependency::Maven {
                artifact: "org.c:lib".to_string(),
                version: "2".to_string()
            }),
            export: false,
            path: None,
        })
    );
    assert_eq!(deps.get("junit").map(|d| d.export), Some(false));
    assert_eq!(deps.position("lib"), 0);
}

#[test]
fn source_of_a_dependency() {
    let local = RequestContext::default();
    assert!(local.local());
    let remote = RequestContext::new(false, local.ws_config().clone());
    let maven = RemoteDependency::Maven { artifact: "g:a".to_string(), version: "1".to_string() };
    let both = DependencyData {
        remote_dependency: Some(maven.clone()),
        export: true,
        path: Some("../a".to_string()),
    };
    assert!(matches!(plan_source(&local, both.clone()), SourcePlan::Local(p) if p == "../a"));
    match plan_source(&remote, both) {
        SourcePlan::Maven(v) => assert_eq!(v.to_string(), "g:a:1"),
        other => panic!("unexpected plan {:?}", other),
    }
    let only_remote = DependencyData { remote_dependency: Some(maven), export: true, path: None };
    assert!(matches!(plan_source(&local, only_remote), SourcePlan::Maven(_)));
    assert!(matches!(plan_source(&local, data(true)), SourcePlan::Nowhere));
    let bad = DependencyData {
        remote_dependency: Some(RemoteDependency::Maven {
            artifact: "nocolon".to_string(),
            version: "1".to_string(),
        }),
        export: true,
        path: None,
    };
    assert!(matches!(plan_source(&remote, bad), SourcePlan::BadArtifact));
}

#[test]
fn first_matching_version_wins() {
    let wanted = ArtifactPath::new("g", "a").with_version("2");
    let at = |repo: &str, v: &str| {
        Located::new(repo.to_string(), ArtifactPath::new("g", "a").with_version(v))
    };
    let found = vec![at("r1", "1"), at("r1", "2"), at("r2", "2"), at("r2", "3")];
    assert_eq!(find_matching_version(&wanted, &found), Some(1));
    assert_eq!(find_matching_version(&wanted, &found[2..]), Some(0));
    assert_eq!(find_matching_version(&wanted, &found[3..]), None);
    assert_eq!(find_matching_version(&wanted, &[]), None);
}

#[test]
fn contexts_of_projects() {
    let root = RequestContext::default();
    let pom = VersionMetadata {
        group: "g".to_string(),
        artifact: "a".to_string(),
        version: "1".to_string(),
        dependencies: Dependencies::new(vec![]),
    };
    let source = ProjectSource::Maven(Located::new(
        "https://r/".to_string(),
        ArtifactPath::new("g", "a").with_version("1"),
    ));
    assert!(!source.is_local());
    let ctx = ProjectContext::maven(&pom, source, &root);
    assert_eq!(ctx.config().project.name, "a");
    assert!(!ctx.dependency_context().local());
    assert!(Arc::ptr_eq(ctx.ws_config(), root.ws_config()));
    let here = ProjectSource::Local(".".to_string());
    assert!(here.is_local());
    let config = build_origami_project(&pom);
    let ws = WorkspaceConfig { repositories: None };
    let local = ProjectContext::local(config, ws, here, &root);
    assert!(local.dependency_context().local());
    assert!(matches!(local.source(), ProjectSource::Local(p) if p == "."));
    let not_local = RequestContext::new(false, root.ws_config().clone());
    let config = build_origami_project(&pom);
    let ws = WorkspaceConfig { repositories: None };
    let nested = ProjectContext::local(config, ws, ProjectSource::Local("x".to_string()), &not_local);
    assert!(!nested.dependency_context().local());
}

#[test]
fn maven_requirements_name_one_version() {
    assert!(Style::Maven.matches("1.0", "1.0"));
    assert!(!Style::Maven.matches("1.0", "1.0.0"));
    assert!(!Style::Maven.matches("1.0", "1.1"));
}

#[test]
fn characters_of_versions() {
    for c in "0123456789".chars() {
        assert_eq!(CharType::get(c), CharType::Digit);
    }
    assert_eq!(CharType::get('.'), CharType::Decimal);
    for c in ['a', '-', ' ', '\u{0660}'] {
        assert_eq!(CharType::get(c), CharType::Other);
    }
}

#[test]
fn repositories_copy_with_their_order() {
    let mut r = RepositoriesConfig::new();
    r.insert("b".to_string(), "https://b/".to_string());
    r.insert("a".to_string(), "https://a/".to_string());
    let copy = r.clone();
    r.insert("c".to_string(), "https://c/".to_string());
    assert_eq!(copy.urls(), vec!["https://b/", "https://a/"]);
    assert_eq!(r.urls(), vec!["https://b/", "https://a/", "https://c/"]);
}

#[test]
fn versions_fall_into_numbers_points_and_the_rest() {
    let mut c = components("1.20.03-beta10x");
    let mut parts = Vec::new();
    while c.fits() {
        match c.next() {
            Some(part) => parts.push(part),
            None => break,
        }
    }
    assert_eq!(
        parts,
        vec![
            Component::Number(1),
            Component::Decimal,
            Component::Number(20),
            Component::Decimal,
            Component::Number(3),
            Component::Other("-beta".to_string()),
            Component::Number(10),
            Component::Other("x".to_string()),
        ]
    );
    assert!(c.fits());
    assert_eq!(c.next(), None);
}

#[test]
fn empty_version_has_no_parts() {
    let mut c = components("");
    assert!(c.fits());
    assert_eq!(c.next(), None);
}

#[test]
fn a_number_too_large_for_the_machine_does_not_fit() {
    let c = components("340282366920938463463374607431768211456.1");
    assert!(!c.fits());
    let mut d = components("18446744073709551615");
    if usize::MAX as u128 == u64::MAX as u128 {
        assert!(d.fits());
        assert_eq!(d.next(), Some(Component::Number(usize::MAX)));
    }
    let e = components("18446744073709551616");
    if usize::MAX as u128 == u64::MAX as u128 {
        assert!(!e.fits());
    }
}
