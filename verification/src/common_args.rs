//! The options that the compiler front ends share, and the arguments that
//! they hand to the compiler.

use crate::javacli::{build_classpath, spec_join};
use crate::text::{decimal, push_all, spec_decimal};
use crate::wire::spec_texts;
use vstd::prelude::*;
use vstd::string::StringExecFns;

verus! {

/// A command line definition that the shared options can be added to.
pub trait AppExt {
    /// Adds the options that all compiler front ends accept.
    fn add_javac_common_args(self) -> Self;
}

/// The shared options as they were given on the command line.
#[derive(Debug)]
pub struct CommonProps {
    /// The source files to be compiled.
    pub in_files: Vec<String>,
    /// The directories in which the compiler looks for source files that
    /// the input files refer to.
    pub include_paths: Vec<String>,
    /// The directories or archives in which the compiler looks for class
    /// files that the input files refer to.
    pub link: Vec<String>,
    /// The directory to place compiled files in.
    pub out_dir: Option<String>,
    pub package_root: Option<String>,
    /// Whether to put debug information in the compiled files.
    pub debug: bool,
    /// The release to compile for.
    pub release: Option<String>,
    /// Where to write the manifest of input and output files, if at all.
    pub write_deps: Option<String>,
    /// Where to write that manifest in make format, if at all.
    pub write_makedeps: Option<String>,
    pub ap_args: Vec<String>,
    pub no_ap: bool,
    pub no_class_gen: bool,
}

pub struct CommonPropsView {
    pub in_files: Seq<Seq<char>>,
    pub include_paths: Seq<Seq<char>>,
    pub link: Seq<Seq<char>>,
    pub out_dir: Option<Seq<char>>,
    pub package_root: Option<Seq<char>>,
    pub debug: bool,
    pub release: Option<Seq<char>>,
    pub write_deps: Option<Seq<char>>,
    pub write_makedeps: Option<Seq<char>>,
    pub ap_args: Seq<Seq<char>>,
    pub no_ap: bool,
    pub no_class_gen: bool,
}

/// The text of an optional string.
pub open spec fn spec_opt_text(v: Option<String>) -> Option<Seq<char>> {
    match v {
        Some(s) => Some(s@),
        None => None,
    }
}

impl View for CommonProps {
    type V = CommonPropsView;

    open spec fn view(&self) -> CommonPropsView {
        CommonPropsView {
            in_files: spec_texts(self.in_files@),
            include_paths: spec_texts(self.include_paths@),
            link: spec_texts(self.link@),
            out_dir: spec_opt_text(self.out_dir),
            package_root: spec_opt_text(self.package_root),
            debug: self.debug,
            release: spec_opt_text(self.release),
            write_deps: spec_opt_text(self.write_deps),
            write_makedeps: spec_opt_text(self.write_makedeps),
            ap_args: spec_texts(self.ap_args@),
            no_ap: self.no_ap,
            no_class_gen: self.no_class_gen,
        }
    }
}

/// The option `-A` for each definition.
pub open spec fn spec_ap_options(ap_args: Seq<Seq<char>>) -> Seq<Seq<char>> {
    Seq::new(ap_args.len(), |i: int| "-A"@ + ap_args[i])
}

/// The options for the compiler: implicit compilation off, then the source
/// path, the output directory, debugging, the release, the options for
/// annotation processors, and which of class generation and annotation
/// processing is left out.
pub open spec fn spec_javac_options(p: CommonPropsView, sep: Seq<char>) -> Seq<Seq<char>> {
    seq!["-implicit:none"@] + (if p.include_paths.len() > 0 {
        seq!["-sourcepath"@, spec_join(p.include_paths, sep)]
    } else {
        Seq::empty()
    }) + (match p.out_dir {
        Some(d) => seq!["-d"@, d],
        None => Seq::empty(),
    }) + (if p.debug {
        seq!["-g"@]
    } else {
        Seq::empty()
    }) + (match p.release {
        Some(r) => seq!["--release"@, r],
        None => Seq::empty(),
    }) + spec_ap_options(p.ap_args) + (if p.no_class_gen {
        seq!["-proc:only"@]
    } else if p.no_ap {
        seq!["-proc:none"@]
    } else {
        Seq::empty()
    })
}

/// The text, or the empty text where there is none.
pub open spec fn spec_or_empty(v: Option<Seq<char>>) -> Seq<char> {
    match v {
        Some(s) => s,
        None => Seq::empty(),
    }
}

/// The arguments for the compiler front end: the options, the input files,
/// then the link path or `.`, the number of options, the number of input
/// files, and the two manifest paths, empty where none was asked for.
pub open spec fn spec_javac_arguments(p: CommonPropsView, sep: Seq<char>) -> Seq<Seq<char>> {
    let options = spec_javac_options(p, sep);
    options + p.in_files + seq![
        if p.link.len() > 0 {
            spec_join(p.link, sep)
        } else {
            "."@
        },
        spec_decimal(options.len()),
        spec_decimal(p.in_files.len()),
        spec_or_empty(p.write_deps),
        spec_or_empty(p.write_makedeps),
    ]
}

/// The arguments for the compiler front end. Leaving out both class
/// generation and annotation processing is not an option.
pub fn javac_arguments(props: &CommonProps, sep: &str) -> (args: Vec<String>)
    requires
        !(props.no_ap && props.no_class_gen),
    ensures
        spec_texts(args@) == spec_javac_arguments(props@, sep@),
{
    let ghost p = props@;
    let mut args: Vec<String> = Vec::new();
    args.push(String::from_str("-implicit:none"));
    let ghost g1 = seq!["-implicit:none"@];
    assert(spec_texts(args@) =~= g1);
    let sourcepath = build_classpath(props.include_paths.as_slice(), sep);
    let link = build_classpath(props.link.as_slice(), sep);
    match sourcepath {
        Some(path) => {
            args.push(String::from_str("-sourcepath"));
            args.push(path);
        },
        None => {},
    }
    let ghost g2 = g1 + (if p.include_paths.len() > 0 {
        seq!["-sourcepath"@, spec_join(p.include_paths, sep@)]
    } else {
        Seq::empty()
    });
    assert(spec_texts(args@) =~= g2);
    match &props.out_dir {
        Some(out_dir) => {
            args.push(String::from_str("-d"));
            args.push(out_dir.clone());
        },
        None => {},
    }
    let ghost g3 = g2 + (match p.out_dir {
        Some(d) => seq!["-d"@, d],
        None => Seq::empty(),
    });
    assert(spec_texts(args@) =~= g3);
    if props.debug {
        args.push(String::from_str("-g"));
    }
    let ghost g4 = g3 + (if p.debug {
        seq!["-g"@]
    } else {
        Seq::empty()
    });
    assert(spec_texts(args@) =~= g4);
    match &props.release {
        Some(release) => {
            args.push(String::from_str("--release"));
            args.push(release.clone());
        },
        None => {},
    }
    let ghost g5 = g4 + (match p.release {
        Some(r) => seq!["--release"@, r],
        None => Seq::empty(),
    });
    assert(spec_texts(args@) =~= g5);
    let ghost before_ap = spec_texts(args@);
    let mut i: usize = 0;
    assert(spec_ap_options(props@.ap_args).take(0) =~= Seq::<Seq<char>>::empty());
    assert(spec_texts(args@) =~= before_ap + spec_ap_options(props@.ap_args).take(0));
    while i < props.ap_args.len()
        invariant
            i <= props.ap_args@.len(),
            spec_texts(args@) == before_ap + spec_ap_options(props@.ap_args).take(i as int),
        decreases props.ap_args@.len() - i,
    {
        let ghost so_far = spec_texts(args@);
        let option = String::from_str("-A").concat(props.ap_args[i].as_str());
        args.push(option);
        assert(spec_texts(args@) =~= so_far.push("-A"@ + props.ap_args@[i as int]@));
        i += 1;
        assert(spec_texts(args@) =~= before_ap + spec_ap_options(props@.ap_args).take(i as int));
    }
    assert(spec_ap_options(props@.ap_args).take(i as int) =~= spec_ap_options(props@.ap_args));
    let ghost g6 = g5 + spec_ap_options(p.ap_args);
    assert(spec_texts(args@) =~= g6);
    if props.no_class_gen {
        args.push(String::from_str("-proc:only"));
    } else if props.no_ap {
        args.push(String::from_str("-proc:none"));
    }
    let ghost options = spec_javac_options(p, sep@);
    assert(spec_texts(args@) =~= options);
    let javac_options_len = args.len();
    push_all(&mut args, props.in_files.as_slice());
    assert(spec_texts(args@) =~= options + p.in_files);
    let inputs_len = props.in_files.len();
    args.push(
        match link {
            Some(path) => path,
            None => String::from_str("."),
        },
    );
    args.push(decimal(javac_options_len as u64));
    args.push(decimal(inputs_len as u64));
    args.push(
        match &props.write_deps {
            Some(p) => p.clone(),
            None => String::new(),
        },
    );
    args.push(
        match &props.write_makedeps {
            Some(p) => p.clone(),
            None => String::new(),
        },
    );
    assert(spec_texts(args@) =~= spec_javac_arguments(props@, sep@));
    args
}

/// The exit code of a compiler front end: the exit code of the compiler it
/// wraps, or 10 where that cannot be determined.
pub fn exit_code(status: Option<i32>) -> (code: i32)
    ensures
        code == match status {
            Some(c) => c,
            None => 10,
        },
{
    match status {
        Some(c) => c,
        None => 10,
    }
}

} // verus!
