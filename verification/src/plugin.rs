//! The Java plugin of the build tool: where sources lie, where output goes,
//! and the command line of the compiler.

use crate::wire::spec_texts;
use std::rc::Rc;
use vstd::prelude::*;
use vstd::string::StringExecFns;

verus! {

/// The settings of the Java plugin.
#[derive(Debug)]
pub struct JavaData {
    inputs: Vec<String>,
    output_root: String,
    javac_path: String,
}

pub struct JavaDataView {
    pub inputs: Seq<Seq<char>>,
    pub output_root: Seq<char>,
    pub javac_path: Seq<char>,
}

impl View for JavaData {
    type V = JavaDataView;

    closed spec fn view(&self) -> JavaDataView {
        JavaDataView {
            inputs: spec_texts(self.inputs@),
            output_root: self.output_root@,
            javac_path: self.javac_path@,
        }
    }
}

impl JavaData {
    /// The settings for the given build settings: the sources default to
    /// the directory `src`, the output to the current directory, and the
    /// compiler is `/usr/bin/javac`.
    pub fn new(sources: Option<Vec<String>>, output: Option<String>) -> (d: Self)
        ensures
            d@.inputs == match sources {
                Some(s) => spec_texts(s@),
                None => seq!["src"@],
            },
            d@.output_root == match output {
                Some(o) => o@,
                None => "."@,
            },
            d@.javac_path == "/usr/bin/javac"@,
    {
        let inputs = match sources {
            Some(s) => s,
            None => {
                let mut v: Vec<String> = Vec::new();
                v.push(String::from_str("src"));
                assert(spec_texts(v@) =~= seq!["src"@]);
                v
            },
        };
        let output_root = match output {
            Some(o) => o,
            None => String::from_str("."),
        };
        JavaData { inputs, output_root, javac_path: String::from_str("/usr/bin/javac") }
    }
}

/// The plugin that makes the compile tasks of a project.
pub struct JavaPlugin {
    data: Rc<JavaData>,
}

/// What the plugin offers to the tasks of a project.
pub struct JavaExtension {
    data: Rc<JavaData>,
}

/// One entry of the class path of the compiler.
#[derive(Debug)]
pub enum ClassPathEntry {
    File(String),
    Dir(String),
}

impl ClassPathEntry {
    /// The path of the entry.
    pub open spec fn spec_path(self) -> Seq<char> {
        match self {
            ClassPathEntry::File(p) => p@,
            ClassPathEntry::Dir(p) => p@,
        }
    }
}

/// The options that put the entries on the class path: `--class-path` and
/// the path, for each entry.
pub open spec fn spec_class_path_options(entries: Seq<ClassPathEntry>) -> Seq<Seq<char>>
    decreases entries.len(),
{
    if entries.len() == 0 {
        Seq::empty()
    } else {
        spec_class_path_options(entries.drop_last()) + seq![
            "--class-path"@,
            entries.last().spec_path(),
        ]
    }
}

/// The plugin and the extension for the settings `data`.
pub fn register(data: JavaData) -> (r: (JavaPlugin, JavaExtension))
    ensures
        r.0.spec_data() == data@,
        r.1.spec_data() == data@,
{
    let d = Rc::new(data);
    let plugin = JavaPlugin { data: Rc::clone(&d) };
    let ext = JavaExtension { data: d };
    (plugin, ext)
}

impl JavaPlugin {
    /// The settings of the plugin.
    pub closed spec fn spec_data(&self) -> JavaDataView {
        (*self.data)@
    }
}

impl JavaExtension {
    /// The settings of the plugin.
    pub closed spec fn spec_data(&self) -> JavaDataView {
        (*self.data)@
    }

    /// The class path of the compiler: nothing is on it.
    pub fn class_path(&self) -> (v: Vec<ClassPathEntry>)
        ensures
            v@.len() == 0,
    {
        Vec::new()
    }

    /// The command line that compiles `input` into `output_root`: the
    /// compiler, and its arguments as [`javac_command`] gives them for the
    /// class path of the extension.
    pub fn exec_javac(&self, input: &str, output_root: &str) -> (r: (String, Vec<String>))
        ensures
            r.0@ == self.spec_data().javac_path,
            spec_texts(r.1@) == seq!["-d"@, output_root@, input@],
    {
        let entries = self.class_path();
        let args = javac_command(entries.as_slice(), input, output_root);
        assert(spec_class_path_options(entries@) =~= Seq::<Seq<char>>::empty());
        assert(spec_texts(args@) =~= seq!["-d"@, output_root@, input@]);
        (self.data.javac_path.clone(), args)
    }
}

/// The arguments of the compiler: the class path options for `entries`,
/// `-d` with the output root, and the input.
pub fn javac_command(entries: &[ClassPathEntry], input: &str, output_root: &str) -> (args: Vec<
    String,
>)
    ensures
        spec_texts(args@) == spec_class_path_options(entries@) + seq![
            "-d"@,
            output_root@,
            input@,
        ],
{
    let mut args: Vec<String> = Vec::new();
    let mut i: usize = 0;
    assert(spec_texts(args@) =~= spec_class_path_options(entries@.take(0)));
    while i < entries.len()
        invariant
            i <= entries@.len(),
            spec_texts(args@) == spec_class_path_options(entries@.take(i as int)),
        decreases entries@.len() - i,
    {
        let ghost before = spec_texts(args@);
        args.push(String::from_str("--class-path"));
        let path = match &entries[i] {
            ClassPathEntry::File(path) => path.clone(),
            ClassPathEntry::Dir(path) => path.clone(),
        };
        args.push(path);
        i += 1;
        assert(entries@.take(i as int).drop_last() =~= entries@.take(i - 1));
        assert(spec_texts(args@) =~= before + seq![
            "--class-path"@,
            entries@[i - 1].spec_path(),
        ]);
    }
    assert(entries@.take(i as int) =~= entries@);
    let ghost options = spec_texts(args@);
    args.push(String::from_str("-d"));
    args.push(String::from_str(output_root));
    args.push(String::from_str(input));
    assert(spec_texts(args@) =~= options + seq!["-d"@, output_root@, input@]);
    args
}

} // verus!
