use origami::common_args::{exit_code, javac_arguments, CommonProps};
use origami::javacli::{build_classpath, jvm_args, path_separator};
use origami::jvm::command::{JvmCommand, Stdio};
use origami::jvm::process::{stdio_or, ProcessJvm};
use origami::jvm::{Error, Jvm, JvmCommandInner};
use origami::plugin::{javac_command, register, ClassPathEntry, JavaData};
use origami::structs::{ErrorKind, IoError};
use origami::text::{clone_strings, decimal, find_char, push_all, replace_char};

fn strings(v: &[&str]) -> Vec<String> {
    v.iter().map(|s| s.to_string()).collect()
}

struct Recorder;

impl Jvm for Recorder {
    type Task = (String, Vec<String>, Stdio, [Option<Stdio>; 3]);

    fn exec(&self, d: &JvmCommandInner, default_stdio: Stdio) -> Result<Self::Task, Error> {
        if d.main_class().is_empty() {
            return Err(Error::InvalidClass(String::new()));
        }
        Ok((
            d.main_class().to_string(),
            d.args().to_vec(),
            default_stdio,
            [d.stdout(), d.stderr(), d.stdin()],
        ))
    }
}

#[test]
fn separator_depends_on_the_host_family() {
    assert_eq!(path_separator(true), ";");
    assert_eq!(path_separator(false), ":");
}

#[test]
fn empty_classpath_gives_no_argument() {
    assert_eq!(build_classpath(&[], ":"), None);
    assert_eq!(jvm_args(&[], ":", "Main"), strings(&["Main"]));
}

#[test]
fn classpath_of_one_path_has_no_separator() {
    assert_eq!(build_classpath(&strings(&["a.jar"]), ":"), Some("a.jar".to_string()));
}

#[test]
fn classpath_joins_with_one_separator_less_than_paths() {
    let paths = strings(&["a.jar", "lib/b.jar", "c"]);
    let joined = build_classpath(&paths, ":").expect("not empty");
    assert_eq!(joined, "a.jar:lib/b.jar:c");
    assert_eq!(joined.matches(':').count(), paths.len() - 1);
    assert!(!joined.starts_with(':'));
    assert!(!joined.ends_with(':'));
    assert_eq!(build_classpath(&paths, ";"), Some("a.jar;lib/b.jar;c".to_string()));
}

#[test]
fn jvm_args_put_the_classpath_before_the_main_class() {
    assert_eq!(
        jvm_args(&strings(&["a", "b"]), ":", "pkg.Main"),
        strings(&["-classpath", "a:b", "pkg.Main"])
    );
}

#[test]
fn builder_starts_empty_and_gathers_in_order() {
    let mut cmd = JvmCommand::new(Recorder, "pkg.Main");
    assert!(cmd.get_args().is_empty());
    cmd.arg("one").args(&["two", "three"]).arg("four");
    assert_eq!(cmd.get_args(), &strings(&["one", "two", "three", "four"])[..]);
    let (class, args, default_stdio, stdio) = cmd.spawn().expect("launched");
    assert_eq!(class, "pkg.Main");
    assert_eq!(args, strings(&["one", "two", "three", "four"]));
    assert_eq!(default_stdio, Stdio::Inherit);
    assert_eq!(stdio, [None, None, None]);
}

#[test]
fn builder_records_each_stream() {
    let mut cmd = JvmCommand::new(Recorder, "M");
    cmd.stdout(Stdio::Piped).stderr(Stdio::Null).stdin(Stdio::Inherit);
    let (_, _, _, stdio) = cmd.spawn().expect("launched");
    assert_eq!(stdio, [Some(Stdio::Piped), Some(Stdio::Null), Some(Stdio::Inherit)]);
    cmd.stdout(Stdio::Null);
    let (_, _, _, stdio) = cmd.spawn().expect("launched");
    assert_eq!(stdio[0], Some(Stdio::Null));
}

#[test]
fn builder_launches_on_a_borrowed_facade() {
    let jvm = Recorder;
    let cmd = JvmCommand::new(&jvm, "");
    assert!(matches!(cmd.spawn(), Err(Error::InvalidClass(_))));
}

#[test]
fn errors_describe_themselves() {
    let io = Error::Io(IoError { kind: ErrorKind::NotFound, message: "no java".to_string() });
    assert_eq!(io.to_string(), "I/O error: no java");
    assert_eq!(Error::InvalidClass("X".to_string()).to_string(), "Invalid main class: X");
    assert_eq!(
        Error::NoMainFn("X".to_string()).to_string(),
        "Class does not have a main function: X"
    );
    assert_eq!(Error::Failure("x".to_string()).to_string(), "General error: x");
}

#[test]
fn unset_streams_take_the_default() {
    assert_eq!(stdio_or(None, Stdio::Inherit), Stdio::Inherit);
    assert_eq!(stdio_or(Some(Stdio::Null), Stdio::Inherit), Stdio::Null);
}

#[test]
fn process_command_line_is_as_documented() {
    let mut jvm = ProcessJvm::new();
    assert_eq!(jvm.java_executable(), "java");
    assert!(jvm.classpath().is_empty());
    jvm.with_java_executable("/opt/jdk/bin/java")
        .with_java_arg("-Xmx1g")
        .with_java_args(&["-ea", "-Xdebug"])
        .with_classpath(&["a.jar", "b.jar"]);
    assert_eq!(jvm.classpath(), &strings(&["a.jar", "b.jar"])[..]);
    let mut cmd = JvmCommand::new((), "pkg.Main");
    cmd.args(&["x", "y"]).stdout(Stdio::Piped);
    let holder = origami::jvm::async_command::JvmCommand::new((), "pkg.Main");
    let _ = holder;
    let mut inner_cmd = origami::jvm::async_command::JvmCommand::new((), "pkg.Main");
    inner_cmd.args(&["x", "y"]).stdout(Stdio::Piped);
    let launch = jvm.command_line(inner_cmd.inner(), Stdio::Null, ":");
    assert_eq!(launch.program, "/opt/jdk/bin/java");
    assert_eq!(
        launch.args,
        strings(&["-Xmx1g", "-ea", "-Xdebug", "-classpath", "a.jar:b.jar", "pkg.Main", "x", "y"])
    );
    assert_eq!(launch.stdout, Stdio::Piped);
    assert_eq!(launch.stderr, Stdio::Null);
    assert_eq!(launch.stdin, Stdio::Null);
}

#[test]
fn process_command_line_without_classpath_has_no_pair() {
    let jvm = ProcessJvm::new();
    let cmd = origami::jvm::async_command::JvmCommand::new((), "Main");
    let launch = jvm.command_line(cmd.inner(), Stdio::Inherit, ";");
    assert_eq!(launch.program, "java");
    assert_eq!(launch.args, strings(&["Main"]));
    assert_eq!(launch.stdout, Stdio::Inherit);
}

#[test]
fn decimal_numerals() {
    assert_eq!(decimal(0), "0");
    assert_eq!(decimal(9), "9");
    assert_eq!(decimal(10), "10");
    assert_eq!(decimal(4096), "4096");
    assert_eq!(decimal(3735928559), "3735928559");
    assert_eq!(decimal(u64::MAX), "18446744073709551615");
}

#[test]
fn text_helpers() {
    assert_eq!(find_char("a:b:c", ':'), Some(1));
    assert_eq!(find_char("abc", ':'), None);
    assert_eq!(find_char("\u{e9}:", ':'), Some(1));
    assert_eq!(replace_char("a.b.c", '.', '/'), "a/b/c");
    assert_eq!(replace_char("", '.', '/'), "");
    let mut v = strings(&["a"]);
    push_all(&mut v, &strings(&["b", "c"]));
    assert_eq!(v, strings(&["a", "b", "c"]));
    assert_eq!(clone_strings(&v), v);
}

fn props() -> CommonProps {
    CommonProps {
        in_files: strings(&["A.java", "B.java"]),
        include_paths: vec![],
        link: vec![],
        out_dir: None,
        package_root: None,
        debug: false,
        release: None,
        write_deps: None,
        write_makedeps: None,
        ap_args: vec![],
        no_ap: false,
        no_class_gen: false,
    }
}

#[test]
fn compiler_arguments_with_nothing_set() {
    assert_eq!(
        javac_arguments(&props(), ":"),
        strings(&["-implicit:none", "A.java", "B.java", ".", "1", "2", "", ""])
    );
}

#[test]
fn compiler_arguments_with_everything_set() {
    let mut p = props();
    p.include_paths = strings(&["src", "gen"]);
    p.link = strings(&["lib/a.jar", "out"]);
    p.out_dir = Some("build".to_string());
    p.debug = true;
    p.release = Some("17".to_string());
    p.ap_args = strings(&["k=v", "flag"]);
    p.no_ap = true;
    p.write_deps = Some("deps.txt".to_string());
    p.write_makedeps = Some("deps.mk".to_string());
    assert_eq!(
        javac_arguments(&p, ":"),
        strings(&[
            "-implicit:none",
            "-sourcepath",
            "src:gen",
            "-d",
            "build",
            "-g",
            "--release",
            "17",
            "-Ak=v",
            "-Aflag",
            "-proc:none",
            "A.java",
            "B.java",
            "lib/a.jar:out",
            "11",
            "2",
            "deps.txt",
            "deps.mk",
        ])
    );
    p.no_ap = false;
    p.no_class_gen = true;
    assert!(javac_arguments(&p, ":").contains(&"-proc:only".to_string()));
}

#[test]
fn exit_code_defaults_to_ten() {
    assert_eq!(exit_code(Some(0)), 0);
    assert_eq!(exit_code(Some(3)), 3);
    assert_eq!(exit_code(None), 10);
}

#[test]
fn java_plugin_defaults_and_command() {
    let (_plugin, ext) = register(JavaData::new(None, None));
    assert!(ext.class_path().is_empty());
    let (program, args) = ext.exec_javac("src/A.java", "out");
    assert_eq!(program, "/usr/bin/javac");
    assert_eq!(args, strings(&["-d", "out", "src/A.java"]));
    let entries = vec![
        ClassPathEntry::Dir("classes".to_string()),
        ClassPathEntry::File("x.jar".to_string()),
    ];
    assert_eq!(
        javac_command(&entries, "A.java", "."),
        strings(&["--class-path", "classes", "--class-path", "x.jar", "-d", ".", "A.java"])
    );
}
