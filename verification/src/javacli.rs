//! The command line of a `java`-like launcher.

use crate::wire::spec_texts;
use vstd::prelude::*;
use vstd::string::StringExecFns;

verus! {

/// The classpath separator of the host: `;` on Windows-family and Redox
/// hosts, `:` elsewhere.
pub open spec fn spec_path_separator(windows_family: bool) -> Seq<char> {
    if windows_family {
        seq![';']
    } else {
        seq![':']
    }
}

/// The classpath separator of the host.
pub fn path_separator(windows_family: bool) -> (sep: &'static str)
    ensures
        sep@ == spec_path_separator(windows_family),
{
    proof {
        reveal_strlit(";");
        reveal_strlit(":");
    }
    let sep = if windows_family { ";" } else { ":" };
    assert(sep@ =~= spec_path_separator(windows_family));
    sep
}

/// The paths joined with the separator between each two neighbours.
pub open spec fn spec_join(paths: Seq<Seq<char>>, sep: Seq<char>) -> Seq<char>
    decreases paths.len(),
{
    if paths.len() == 0 {
        Seq::empty()
    } else if paths.len() == 1 {
        paths[0]
    } else {
        spec_join(paths.drop_last(), sep) + sep + paths.last()
    }
}

/// Builds the argument to the `-classpath` option. If the classpath is
/// empty, returns `None`.
pub fn build_classpath(classpath: &[String], sep: &str) -> (r: Option<String>)
    ensures
        r is None <==> classpath@.len() == 0,
        r matches Some(joined) ==> joined@ == spec_join(spec_texts(classpath@), sep@),
{
    if classpath.len() == 0 {
        return None;
    }
    let ghost paths = spec_texts(classpath@);
    let mut acc = classpath[0].clone();
    assert(paths.take(1) =~= seq![paths[0]]);
    let mut i: usize = 1;
    while i < classpath.len()
        invariant
            1 <= i <= classpath@.len(),
            paths == spec_texts(classpath@),
            acc@ == spec_join(paths.take(i as int), sep@),
        decreases classpath@.len() - i,
    {
        acc.append(sep);
        acc.append(classpath[i].as_str());
        i += 1;
        assert(paths.take(i as int).drop_last() =~= paths.take(i - 1));
        assert(acc@ =~= spec_join(paths.take(i as int), sep@));
    }
    assert(paths.take(i as int) =~= paths);
    Some(acc)
}

/// The arguments that launch `main_class` with the given classpath.
pub open spec fn spec_jvm_args(
    classpath: Seq<Seq<char>>,
    sep: Seq<char>,
    main_class: Seq<char>,
) -> Seq<Seq<char>> {
    if classpath.len() == 0 {
        seq![main_class]
    } else {
        seq!["-classpath"@, spec_join(classpath, sep), main_class]
    }
}

/// Returns the arguments to pass to the java process for the given
/// classpath and main class: the `-classpath` pair, unless the classpath is
/// empty, then the main class.
pub fn jvm_args(classpath: &[String], sep: &str, main_class: &str) -> (out: Vec<String>)
    ensures
        spec_texts(out@) == spec_jvm_args(spec_texts(classpath@), sep@, main_class@),
{
    let mut out: Vec<String> = Vec::new();
    match build_classpath(classpath, sep) {
        Some(cp_str) => {
            out.push(String::from_str("-classpath"));
            out.push(cp_str);
        },
        None => {},
    }
    out.push(String::from_str(main_class));
    assert(spec_texts(out@) =~= spec_jvm_args(spec_texts(classpath@), sep@, main_class@));
    out
}

/// How often `c` occurs in `s`.
pub open spec fn spec_count(s: Seq<char>, c: char) -> nat
    decreases s.len(),
{
    if s.len() == 0 {
        0
    } else {
        spec_count(s.drop_last(), c) + if s.last() == c { 1nat } else { 0nat }
    }
}

pub proof fn lemma_count_concat(a: Seq<char>, b: Seq<char>, c: char)
    ensures
        spec_count(a + b, c) == spec_count(a, c) + spec_count(b, c),
    decreases b.len(),
{
    if b.len() == 0 {
        assert(a + b =~= a);
    } else {
        assert((a + b).drop_last() =~= a + b.drop_last());
        lemma_count_concat(a, b.drop_last(), c);
    }
}

/// Joining `n` paths, none of which is empty or holds the separator
/// character, gives a text with exactly `n - 1` separators that neither
/// starts nor ends with one.
pub proof fn lemma_join_separators(paths: Seq<Seq<char>>, c: char)
    requires
        paths.len() >= 1,
        forall|i: int| 0 <= i < paths.len() ==> (#[trigger] paths[i]).len() > 0,
        forall|i: int| 0 <= i < paths.len() ==> spec_count(#[trigger] paths[i], c) == 0,
    ensures
        spec_count(spec_join(paths, seq![c]), c) == paths.len() - 1,
        spec_join(paths, seq![c]).len() > 0,
        spec_join(paths, seq![c]).first() != c,
        spec_join(paths, seq![c]).last() != c,
    decreases paths.len(),
{
    let sep = seq![c];
    lemma_count_nonzero(paths[0], c, 0);
    lemma_count_nonzero(paths.last(), c, paths.last().len() - 1);
    if paths.len() > 1 {
        let init = paths.drop_last();
        assert forall|i: int| 0 <= i < init.len() implies (#[trigger] init[i]).len() > 0 by {
            assert(init[i] == paths[i]);
        }
        assert forall|i: int| 0 <= i < init.len() implies spec_count(#[trigger] init[i], c)
            == 0 by {
            assert(init[i] == paths[i]);
        }
        lemma_join_separators(init, c);
        let j = spec_join(init, sep);
        lemma_count_concat(j + sep, paths.last(), c);
        lemma_count_concat(j, sep, c);
        assert(sep.drop_last() =~= Seq::<char>::empty());
        assert(spec_count(sep.drop_last(), c) == 0);
        assert(spec_count(sep, c) == 1);
    }
}

/// A text in which `c` does not occur holds `c` at no position.
pub proof fn lemma_count_nonzero(s: Seq<char>, c: char, i: int)
    requires
        0 <= i < s.len(),
        spec_count(s, c) == 0,
    ensures
        s[i] != c,
    decreases s.len(),
{
    if i < s.len() - 1 {
        lemma_count_nonzero(s.drop_last(), c, i);
    }
}

} // verus!
