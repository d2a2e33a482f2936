//! Maven coordinates: `group:artifact` names an artifact, and
//! `group:artifact:version` names one version of it.

use crate::cache::CacheKey;
use crate::text::{find_char, replace_char, spec_replace};
use vstd::prelude::*;
use vstd::string::StrSliceExecFns;
use vstd::string::StringExecFns;

verus! {

/// Whether `c` occurs nowhere in `s`.
pub open spec fn spec_free_of(s: Seq<char>, c: char) -> bool {
    forall|i: int| 0 <= i < s.len() ==> s[i] != c
}

/// An artifact: a group and a name within it.
#[derive(Debug, Hash, Eq, PartialEq, Clone)]
pub struct ArtifactPath {
    group: String,
    artifact: String,
}

pub struct ArtifactPathView {
    pub group: Seq<char>,
    pub artifact: Seq<char>,
}

impl View for ArtifactPath {
    type V = ArtifactPathView;

    closed spec fn view(&self) -> ArtifactPathView {
        ArtifactPathView { group: self.group@, artifact: self.artifact@ }
    }
}

impl ArtifactPathView {
    /// The part of a repository URL that leads to the artifact: the group
    /// with `/` for each `.`, then `/` and the name.
    pub open spec fn url_part(self) -> Seq<char> {
        spec_replace(self.group, '.', '/') + seq!['/'] + self.artifact
    }

    /// The coordinate as a text: `group:artifact`.
    pub open spec fn text(self) -> Seq<char> {
        self.group + seq![':'] + self.artifact
    }
}

impl CacheKey for ArtifactPath {
    fn same(&self, other: &Self) -> (b: bool) {
        self.group == other.group && self.artifact == other.artifact
    }
}

/// One version of an artifact.
#[derive(Debug, Hash, Eq, PartialEq, Clone)]
pub struct ArtifactVersion {
    path: ArtifactPath,
    version: String,
}

pub struct ArtifactVersionView {
    pub path: ArtifactPathView,
    pub version: Seq<char>,
}

impl View for ArtifactVersion {
    type V = ArtifactVersionView;

    closed spec fn view(&self) -> ArtifactVersionView {
        ArtifactVersionView { path: self.path@, version: self.version@ }
    }
}

impl ArtifactVersionView {
    /// The part of a repository URL that leads to the version: the part of
    /// the artifact, then `/` and the version.
    pub open spec fn url_part(self) -> Seq<char> {
        self.path.url_part() + seq!['/'] + self.version
    }

    /// The coordinate as a text: `group:artifact:version`.
    pub open spec fn text(self) -> Seq<char> {
        self.path.text() + seq![':'] + self.version
    }
}

/// Whether `s` is the coordinate of the artifact `p`: the group, `:`, the
/// name, neither of which holds a `:`.
pub open spec fn spec_path_of(s: Seq<char>, p: ArtifactPathView) -> bool {
    p.text() == s && spec_free_of(p.group, ':') && spec_free_of(p.artifact, ':')
}

/// Whether `s` is the coordinate of an artifact.
pub open spec fn spec_is_path(s: Seq<char>) -> bool {
    exists|p: ArtifactPathView| spec_path_of(s, p)
}

/// Whether `s` is the coordinate of the version `v`: the group, `:`, the
/// name, `:`, the version, none of which holds a `:`.
pub open spec fn spec_version_of(s: Seq<char>, v: ArtifactVersionView) -> bool {
    v.text() == s && spec_free_of(v.path.group, ':') && spec_free_of(v.path.artifact, ':')
        && spec_free_of(v.version, ':')
}

/// Whether `s` is the coordinate of a version of an artifact.
pub open spec fn spec_is_version(s: Seq<char>) -> bool {
    exists|v: ArtifactVersionView| spec_version_of(s, v)
}

/// Splits `s` at its first `:`, if it has one.
fn split_colon(s: &str) -> (r: Option<(&str, &str)>)
    ensures
        r is None <==> spec_free_of(s@, ':'),
        r matches Some((head, tail)) ==> s@ == head@ + seq![':'] + tail@ && spec_free_of(head@, ':'),
{
    match find_char(s, ':') {
        Some(i) => {
            let n = s.unicode_len();
            let head = s.substring_char(0, i);
            let tail = s.substring_char(i + 1, n);
            assert(s@ =~= head@ + seq![':'] + tail@);
            Some((head, tail))
        },
        None => None,
    }
}

impl ArtifactPath {
    /// The artifact `artifact` of the group `group`.
    pub fn new(group: &str, artifact: &str) -> (p: Self)
        ensures
            p@ == (ArtifactPathView { group: group@, artifact: artifact@ }),
    {
        ArtifactPath { group: String::from_str(group), artifact: String::from_str(artifact) }
    }

    /// The part of a repository URL that leads to the artifact.
    pub fn to_url_part(&self) -> (r: String)
        ensures
            r@ == self@.url_part(),
    {
        proof {
            reveal_strlit("/");
        }
        let mut r = replace_char(self.group.as_str(), '.', '/');
        r.append("/");
        r.append(self.artifact.as_str());
        assert(r@ =~= self@.url_part());
        r
    }

    /// This artifact in the version `version`.
    pub fn with_version(self, version: &str) -> (v: ArtifactVersion)
        ensures
            v@ == (ArtifactVersionView { path: self@, version: version@ }),
    {
        ArtifactVersion { path: self, version: String::from_str(version) }
    }

    /// The coordinate as a text: `group:artifact`.
    pub fn to_string(&self) -> (r: String)
        ensures
            r@ == self@.text(),
    {
        proof {
            reveal_strlit(":");
        }
        let mut r = self.group.clone();
        r.append(":");
        r.append(self.artifact.as_str());
        assert(r@ =~= self@.text());
        r
    }

    /// Reads a coordinate `group:artifact`. The text must hold exactly one
    /// `:`; what stands before it is the group and what stands behind it is
    /// the name.
    pub fn parse(s: &str) -> (r: Option<Self>)
        ensures
            r is Some <==> spec_is_path(s@),
            r matches Some(p) ==> spec_path_of(s@, p@),
    {
        match split_colon(s) {
            Some((group, artifact)) => {
                match find_char(artifact, ':') {
                    Some(k) => {
                        assert forall|p: ArtifactPathView| !spec_path_of(s@, p) by {
                            if spec_path_of(s@, p) {
                                lemma_split_unique(p.group, p.artifact, group@, artifact@);
                                assert(p.artifact[k as int] == ':');
                            }
                        }
                        None
                    },
                    None => {
                        let r = ArtifactPath::new(group, artifact);
                        assert(spec_path_of(s@, r@));
                        Some(r)
                    },
                }
            },
            None => {
                assert forall|p: ArtifactPathView| !spec_path_of(s@, p) by {
                    if spec_path_of(s@, p) {
                        assert(p.text()[p.group.len() as int] == ':');
                    }
                }
                None
            },
        }
    }
}

/// A text splits at its first `:` in one way only.
pub proof fn lemma_split_unique(g1: Seq<char>, a1: Seq<char>, g2: Seq<char>, a2: Seq<char>)
    requires
        spec_free_of(g1, ':'),
        spec_free_of(g2, ':'),
        g1 + seq![':'] + a1 == g2 + seq![':'] + a2,
    ensures
        g1 == g2,
        a1 == a2,
{
    let s1 = g1 + seq![':'] + a1;
    let s2 = g2 + seq![':'] + a2;
    if g1.len() < g2.len() {
        assert(s1[g1.len() as int] == ':');
        assert(s2[g1.len() as int] == g2[g1.len() as int]);
    } else if g2.len() < g1.len() {
        assert(s2[g2.len() as int] == ':');
        assert(s1[g2.len() as int] == g1[g2.len() as int]);
    }
    assert(g1 =~= s1.take(g1.len() as int));
    assert(g2 =~= s2.take(g2.len() as int));
    assert(a1 =~= s1.skip(g1.len() as int + 1));
    assert(a2 =~= s2.skip(g2.len() as int + 1));
}

impl ArtifactVersion {
    /// The part of a repository URL that leads to the version.
    pub fn to_url_part(&self) -> (r: String)
        ensures
            r@ == self@.url_part(),
    {
        proof {
            reveal_strlit("/");
        }
        let mut r = self.path.to_url_part();
        r.append("/");
        r.append(self.version.as_str());
        assert(r@ =~= self@.url_part());
        r
    }

    /// The artifact.
    pub fn path(&self) -> (r: &ArtifactPath)
        ensures
            r@ == self@.path,
    {
        &self.path
    }

    /// The version.
    pub fn version(&self) -> (r: &str)
        ensures
            r@ == self@.version,
    {
        self.version.as_str()
    }

    /// The coordinate as a text: `group:artifact:version`.
    pub fn to_string(&self) -> (r: String)
        ensures
            r@ == self@.text(),
    {
        proof {
            reveal_strlit(":");
        }
        let mut r = self.path.to_string();
        r.append(":");
        r.append(self.version.as_str());
        assert(r@ =~= self@.text());
        r
    }

    /// Reads a coordinate `group:artifact:version`. The text must hold
    /// exactly two `:`.
    pub fn parse(s: &str) -> (r: Option<Self>)
        ensures
            r is Some <==> spec_is_version(s@),
            r matches Some(v) ==> spec_version_of(s@, v@),
    {
        let (group, rest) = match split_colon(s) {
            Some(x) => x,
            None => {
                assert forall|v: ArtifactVersionView| !spec_version_of(s@, v) by {
                    if spec_version_of(s@, v) {
                        assert(v.text()[v.path.group.len() as int] == ':');
                    }
                }
                return None;
            },
        };
        let (artifact, version) = match split_colon(rest) {
            Some(x) => x,
            None => {
                assert forall|v: ArtifactVersionView| !spec_version_of(s@, v) by {
                    if spec_version_of(s@, v) {
                        let tail = v.path.artifact + seq![':'] + v.version;
                        assert(v.text() =~= v.path.group + seq![':'] + tail);
                        lemma_split_unique(v.path.group, tail, group@, rest@);
                        assert(rest@[v.path.artifact.len() as int] == ':');
                    }
                }
                return None;
            },
        };
        match find_char(version, ':') {
            Some(k) => {
                assert forall|v: ArtifactVersionView| !spec_version_of(s@, v) by {
                    if spec_version_of(s@, v) {
                        let tail = v.path.artifact + seq![':'] + v.version;
                        assert(v.text() =~= v.path.group + seq![':'] + tail);
                        lemma_split_unique(v.path.group, tail, group@, rest@);
                        lemma_split_unique(v.path.artifact, v.version, artifact@, version@);
                        assert(v.version[k as int] == ':');
                    }
                }
                None
            },
            None => {
                let r = ArtifactPath::new(group, artifact).with_version(version);
                assert(r@.text() =~= s@);
                assert(spec_version_of(s@, r@));
                Some(r)
            },
        }
    }
}

/// Something that lies in a repository: the URL of the repository, as a
/// text, and the thing.
#[derive(Debug, Hash, Eq, PartialEq, Clone)]
pub struct Located<T> {
    repository: String,
    inner: T,
}

impl<T> Located<T> {
    /// The URL of the repository.
    pub closed spec fn spec_repository(&self) -> Seq<char> {
        self.repository@
    }

    /// The thing located.
    pub closed spec fn spec_inner(&self) -> T {
        self.inner
    }

    /// `inner` in the repository at `repository`.
    pub fn new(repository: String, inner: T) -> (l: Self)
        ensures
            l.spec_repository() == repository@,
            l.spec_inner() == inner,
    {
        Located { repository, inner }
    }

    /// The URL of the repository.
    pub fn repository(&self) -> (r: &str)
        ensures
            r@ == self.spec_repository(),
    {
        self.repository.as_str()
    }

    /// The thing located.
    pub fn inner(&self) -> (r: &T)
        ensures
            *r == self.spec_inner(),
    {
        &self.inner
    }

    /// The thing located, without its repository.
    pub fn into_inner(self) -> (r: T)
        ensures
            r == self.spec_inner(),
    {
        self.inner
    }
}

/// `url::ParseError`: why a text is no URL. Carried through, never looked
/// into.
#[verifier::external_type_specification]
#[verifier::external_body]
pub struct ExParseError(url::ParseError);

/// The serialization of the URL that the text `input` parses to, or `None`
/// where the text is no URL.
pub uninterp spec fn spec_url_parse(input: Seq<char>) -> Option<Seq<char>>;

/// The serialization of the URL that `input` gives relative to the URL with
/// the text `base`, or `None` where there is none.
pub uninterp spec fn spec_url_join(base: Seq<char>, input: Seq<char>) -> Option<Seq<char>>;

/// `Url::parse`, with the URL handed back as its serialization.
#[verifier::external_body]
fn url_parse(input: &str) -> (r: Result<String, url::ParseError>)
    ensures
        r is Ok <==> spec_url_parse(input@) is Some,
        r matches Ok(text) ==> spec_url_parse(input@) == Some(text@),
{
    url::Url::parse(input).map(String::from)
}

/// `Url::join` on the URL that `base` parses to, with the URL handed back as
/// its serialization.
#[verifier::external_body]
fn url_join(base: &str, input: &str) -> (r: Result<String, url::ParseError>)
    ensures
        r is Ok <==> spec_url_join(base@, input@) is Some,
        r matches Ok(text) ==> spec_url_join(base@, input@) == Some(text@),
{
    url::Url::parse(base)?.join(input).map(String::from)
}

/// Why a URL could not be made.
#[derive(Clone, Copy, Debug, PartialEq, Eq, Structural)]
pub enum UrlError {
    /// The text is no URL, or gives none relative to its base.
    Invalid,
}

/// The text of the directory of a thing in a repository: the URL of the
/// repository, `/`, the part that leads to the thing, `/`.
pub open spec fn spec_directory(repository: Seq<char>, url_part: Seq<char>) -> Seq<char> {
    repository + seq!['/'] + url_part + seq!['/']
}

fn directory(repository: &str, url_part: &str) -> (r: String)
    ensures
        r@ == spec_directory(repository@, url_part@),
{
    proof {
        reveal_strlit("/");
    }
    let mut r = String::from_str(repository);
    r.append("/");
    r.append(url_part);
    r.append("/");
    assert(r@ =~= spec_directory(repository@, url_part@));
    r
}

impl Located<ArtifactPath> {
    /// The text that the URL of the artifact is parsed from.
    pub open spec fn spec_url_text(&self) -> Seq<char> {
        spec_directory(self.spec_repository(), self.spec_inner()@.url_part())
    }

    /// The URL of the directory of the artifact. The text of the URL must
    /// be one: see [`Located::try_to_url`].
    pub fn to_url(&self) -> (r: String)
        requires
            spec_url_parse(self.spec_url_text()) is Some,
        ensures
            Some(r@) == spec_url_parse(self.spec_url_text()),
    {
        let part = self.inner.to_url_part();
        let text = directory(self.repository.as_str(), part.as_str());
        match url_parse(text.as_str()) {
            Ok(url) => url,
            Err(_) => text,
        }
    }

    /// The URL of the directory of the artifact, or an error where the
    /// repository and the artifact give no URL.
    pub fn try_to_url(&self) -> (r: Result<String, UrlError>)
        ensures
            r is Ok <==> spec_url_parse(self.spec_url_text()) is Some,
            r matches Ok(url) ==> Some(url@) == spec_url_parse(self.spec_url_text()),
    {
        let part = self.inner.to_url_part();
        let text = directory(self.repository.as_str(), part.as_str());
        match url_parse(text.as_str()) {
            Ok(_) => Ok(self.to_url()),
            Err(_) => Err(UrlError::Invalid),
        }
    }

    /// The URL of the metadata of the artifact: `maven-metadata.xml` in its
    /// directory, or an error where there is no such URL.
    pub fn metadata_url(&self) -> (r: Result<String, UrlError>)
        ensures
            r matches Ok(url) ==> (spec_url_parse(self.spec_url_text()) matches Some(dir)
                && Some(url@) == spec_url_join(dir, "maven-metadata.xml"@)),
            r is Err <==> !(spec_url_parse(self.spec_url_text()) matches Some(dir)
                && spec_url_join(dir, "maven-metadata.xml"@) is Some),
    {
        match self.try_to_url() {
            Ok(dir) => match url_join(dir.as_str(), "maven-metadata.xml") {
                Ok(url) => Ok(url),
                Err(_) => Err(UrlError::Invalid),
            },
            Err(e) => Err(e),
        }
    }
}

impl Located<ArtifactVersion> {
    /// The text that the URL of the version is parsed from.
    pub open spec fn spec_url_text(&self) -> Seq<char> {
        spec_directory(self.spec_repository(), self.spec_inner()@.url_part())
    }

    /// The name that the files of the version start with: the name of the
    /// artifact, `-`, the version.
    pub open spec fn spec_prefix(&self) -> Seq<char> {
        self.spec_inner()@.path.artifact + seq!['-'] + self.spec_inner()@.version
    }

    /// The name that the files of the version start with.
    pub fn prefix(&self) -> (r: String)
        ensures
            r@ == self.spec_prefix(),
    {
        proof {
            reveal_strlit("-");
        }
        let mut r = self.inner.path.artifact.clone();
        r.append("-");
        r.append(self.inner.version.as_str());
        assert(r@ =~= self.spec_prefix());
        r
    }

    /// The URL of the directory of the version. The text of the URL must be
    /// one: see [`Located::try_to_url`].
    pub fn to_url(&self) -> (r: String)
        requires
            spec_url_parse(self.spec_url_text()) is Some,
        ensures
            Some(r@) == spec_url_parse(self.spec_url_text()),
    {
        let part = self.inner.to_url_part();
        let text = directory(self.repository.as_str(), part.as_str());
        match url_parse(text.as_str()) {
            Ok(url) => url,
            Err(_) => text,
        }
    }

    /// The URL of the directory of the version, or an error where the
    /// repository and the version give no URL.
    pub fn try_to_url(&self) -> (r: Result<String, UrlError>)
        ensures
            r is Ok <==> spec_url_parse(self.spec_url_text()) is Some,
            r matches Ok(url) ==> Some(url@) == spec_url_parse(self.spec_url_text()),
    {
        let part = self.inner.to_url_part();
        let text = directory(self.repository.as_str(), part.as_str());
        match url_parse(text.as_str()) {
            Ok(_) => Ok(self.to_url()),
            Err(_) => Err(UrlError::Invalid),
        }
    }

    /// The name of a file of the version: the prefix, the classifier behind
    /// a `-` if there is one, and the extension.
    pub open spec fn spec_file_name(&self, classifier: Option<Seq<char>>, extension: Seq<char>) -> Seq<
        char,
    > {
        match classifier {
            None => self.spec_prefix() + extension,
            Some(c) => self.spec_prefix() + seq!['-'] + c + extension,
        }
    }

    /// The URL of the metadata of the version: the file `.pom` in its
    /// directory, or an error where there is no such URL.
    pub fn metadata_url(&self) -> (r: Result<String, UrlError>)
        ensures
            r matches Ok(url) ==> (spec_url_parse(self.spec_url_text()) matches Some(dir)
                && Some(url@) == spec_url_join(dir, self.spec_file_name(None, ".pom"@))),
            r is Err <==> !(spec_url_parse(self.spec_url_text()) matches Some(dir)
                && spec_url_join(dir, self.spec_file_name(None, ".pom"@)) is Some),
    {
        match self.try_to_url() {
            Ok(dir) => {
                let mut name = self.prefix();
                name.append(".pom");
                match url_join(dir.as_str(), name.as_str()) {
                    Ok(url) => Ok(url),
                    Err(_) => Err(UrlError::Invalid),
                }
            },
            Err(e) => Err(e),
        }
    }

    /// The URL of the archive of the version, with the classifier if one is
    /// given: the file `.jar` in its directory, or an error where there is
    /// no such URL.
    pub fn jar_url(&self, classifier: Option<&str>) -> (r: Result<String, UrlError>)
        ensures
            ({
                let c = match classifier {
                    Some(c) => Some(c@),
                    None => None,
                };
                &&& r matches Ok(url) ==> (spec_url_parse(self.spec_url_text()) matches Some(dir)
                    && Some(url@) == spec_url_join(dir, self.spec_file_name(c, ".jar"@)))
                &&& r is Err <==> !(spec_url_parse(self.spec_url_text()) matches Some(dir)
                    && spec_url_join(dir, self.spec_file_name(c, ".jar"@)) is Some)
            }),
    {
        match self.try_to_url() {
            Ok(dir) => {
                proof {
                    reveal_strlit("-");
                }
                let mut name = self.prefix();
                match classifier {
                    Some(c) => {
                        name.append("-");
                        name.append(c);
                    },
                    None => {},
                }
                name.append(".jar");
                let ghost c = match classifier {
                    Some(c) => Some(c@),
                    None => None,
                };
                assert(name@ =~= self.spec_file_name(c, ".jar"@));
                match url_join(dir.as_str(), name.as_str()) {
                    Ok(url) => Ok(url),
                    Err(_) => Err(UrlError::Invalid),
                }
            },
            Err(e) => Err(e),
        }
    }
}

} // verus!
