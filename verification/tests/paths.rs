use origami::pathdep::{PathDep, PathDepLike};

#[test]
fn a_file_covers_its_own_path() {
    let d = PathDep::new("out/A.class".to_string());
    assert!(d.known_pattern());
    assert_eq!(d.recursive(), None);
    assert_eq!(PathDep::base(&d), "out/A.class");
    assert!(!d.optional());
    assert!(d.path_matches("out/A.class"));
    assert!(d.path_matches("out//A.class"));
    assert!(!d.path_matches("out/B.class"));
    assert!(d.clone().with_optional().optional());
}

#[test]
fn a_directory_covers_class_files_below_it() {
    let d = PathDep::new("out".to_string()).with_dir(true, "*.class");
    assert!(d.known_pattern());
    assert!(d.path_matches("out/A.class"));
    assert!(d.path_matches("out/pkg/B.class"));
    assert!(!d.path_matches("out/pkg/B.java"));
    assert!(!d.path_matches("out/noext"));
    assert!(!d.path_matches("other/A.class"));
    assert!(!d.path_matches("out.class"));
}

#[test]
fn a_flat_directory_covers_nothing_that_has_a_parent() {
    let d = PathDep::new("out".to_string()).with_dir(false, "*.class");
    assert_eq!(d.recursive(), Some(false));
    assert!(!d.path_matches("out/pkg/B.class"));
    assert!(!d.path_matches("out/A.class"));
    assert!(!d.path_matches("out"));
}

#[test]
fn other_patterns_are_not_known() {
    let d = PathDep::new("src".to_string()).with_dir(true, "*.java");
    assert!(!d.known_pattern());
}

#[test]
fn a_plain_path_stands_for_a_file() {
    let p = "a/b".to_string();
    assert_eq!(p.to_path_dep(), PathDep::new("a/b".to_string()));
    assert_eq!(PathDepLike::base(&p), "a/b");
    assert!(!p.optional());
    assert!(p.path_matches("a/b"));
    assert!(!p.path_matches("a/c"));
    let d = PathDep::new("x".to_string()).with_dir(true, "*.class").with_optional();
    assert_eq!(d.to_path_dep(), d);
}
