//! The lock of a workspace: the packages that a resolution found, sorted by
//! name and version, and its byte encoding.

use crate::list::{
    get_list, lemma_list_roundtrip, put_list, spec_items_fit, spec_list, spec_parse_list,
    spec_views, Wire,
};
use crate::structs::text_fits;
use crate::wire::{
    get_string, get_usize, lemma_parse_string_bounds, lemma_string_roundtrip,
    lemma_usize_roundtrip, put_string, put_usize, spec_parse_string, spec_parse_u64,
    spec_parse_usize, spec_string, spec_usize, Parsed,
};
use vstd::prelude::*;
use vstd::string::StringSliceAdditionalSpecFns;
use vstd::utf8::encode_utf8;

verus! {

/// A package that another package depends on, by name and version.
#[derive(Debug, Clone, PartialEq, Eq)]
pub struct Dependency {
    pub name: String,
    pub version: String,
}

pub struct DependencyView {
    pub name: Seq<char>,
    pub version: Seq<char>,
}

impl View for Dependency {
    type V = DependencyView;

    open spec fn view(&self) -> DependencyView {
        DependencyView { name: self.name@, version: self.version@ }
    }
}

/// A file of a package and where it comes from.
#[derive(Debug, Clone, PartialEq, Eq)]
pub enum RemoteFile {
    /// A file fetched over HTTP: its URL, its SHA-256 checksum, and its size
    /// in bytes.
    Http { source: String, checksum: [u8; 32], size: usize },
}

pub enum RemoteFileView {
    Http { source: Seq<char>, checksum: Seq<u8>, size: usize },
}

impl View for RemoteFile {
    type V = RemoteFileView;

    open spec fn view(&self) -> RemoteFileView {
        match *self {
            RemoteFile::Http { source, checksum, size } => RemoteFileView::Http {
                source: source@,
                checksum: checksum@,
                size,
            },
        }
    }
}

/// One package of a lock.
#[derive(Debug, PartialEq, Eq)]
pub struct Package {
    pub name: String,
    pub version: String,
    pub sources: Vec<RemoteFile>,
    pub dependencies: Vec<Dependency>,
}

pub struct PackageView {
    pub name: Seq<char>,
    pub version: Seq<char>,
    pub sources: Seq<RemoteFileView>,
    pub dependencies: Seq<DependencyView>,
}

impl View for Package {
    type V = PackageView;

    open spec fn view(&self) -> PackageView {
        PackageView {
            name: self.name@,
            version: self.version@,
            sources: spec_views(self.sources@),
            dependencies: spec_views(self.dependencies@),
        }
    }
}

/// The lock of a workspace.
#[derive(Debug, PartialEq, Eq)]
pub struct WorkspaceLock {
    pub packages: Vec<Package>,
}

impl View for WorkspaceLock {
    type V = Seq<PackageView>;

    open spec fn view(&self) -> Seq<PackageView> {
        spec_views(self.packages@)
    }
}

impl Wire for Dependency {
    open spec fn spec_fits(v: DependencyView) -> bool {
        text_fits(v.name) && text_fits(v.version)
    }

    open spec fn spec_put(v: DependencyView) -> Seq<u8> {
        spec_string(v.name) + spec_string(v.version)
    }

    open spec fn spec_get(b: Seq<u8>) -> Parsed<DependencyView> {
        match spec_parse_string(b) {
            Some((name, n)) => match spec_parse_string(b.skip(n)) {
                Some((version, m)) => Some((DependencyView { name, version }, n + m)),
                None => None,
            },
            None => None,
        }
    }

    proof fn lemma_roundtrip(v: DependencyView, rest: Seq<u8>) {
        let b = Self::spec_put(v) + rest;
        lemma_string_roundtrip(v.name, spec_string(v.version) + rest);
        lemma_string_roundtrip(v.version, rest);
        assert(b =~= spec_string(v.name) + (spec_string(v.version) + rest));
        assert(b.skip(spec_string(v.name).len() as int) =~= spec_string(v.version) + rest);
    }

    proof fn lemma_bounds(b: Seq<u8>) {
        lemma_parse_string_bounds(b);
        match spec_parse_string(b) {
            Some((name, n)) => {
                lemma_parse_string_bounds(b.skip(n));
            },
            None => {},
        }
    }

    fn put(&self, out: &mut Vec<u8>) {
        put_string(out, self.name.as_str());
        put_string(out, self.version.as_str());
        assert(out@ =~= old(out)@ + Self::spec_put(self@));
    }

    fn get(b: &[u8], pos: usize) -> (r: Option<(Self, usize)>) {
        let (name, p1) = match get_string(b, pos) {
            Some(x) => x,
            None => {
                return None;
            },
        };
        assert(b@.skip(pos as int).skip(p1 - pos) =~= b@.skip(p1 as int));
        let (version, p2) = match get_string(b, p1) {
            Some(x) => x,
            None => {
                return None;
            },
        };
        Some((Dependency { name, version }, p2))
    }
}

/// The byte encoding of a file: the index of its variant, the source, the
/// 32 bytes of the checksum, the size.
pub open spec fn spec_remote_file(v: RemoteFileView) -> Seq<u8> {
    match v {
        RemoteFileView::Http { source, checksum, size } => spec_usize(0) + spec_string(source)
            + checksum + spec_usize(size),
    }
}

pub open spec fn spec_parse_remote_file(b: Seq<u8>) -> Parsed<RemoteFileView> {
    match spec_parse_usize(b) {
        Some((index, n1)) => if index == 0 {
            match spec_parse_string(b.skip(n1)) {
                Some((source, n2)) => if b.len() - n1 - n2 >= 32 {
                    match spec_parse_usize(b.skip(n1 + n2 + 32)) {
                        Some((size, n3)) => Some(
                            (
                                RemoteFileView::Http {
                                    source,
                                    checksum: b.subrange(n1 + n2, n1 + n2 + 32),
                                    size,
                                },
                                n1 + n2 + 32 + n3,
                            ),
                        ),
                        None => None,
                    }
                } else {
                    None
                },
                None => None,
            }
        } else {
            None
        },
        None => None,
    }
}

proof fn lemma_parse_usize_bounds(b: Seq<u8>)
    ensures
        spec_parse_usize(b) matches Some((_, n)) ==> n == 8 && 8 <= b.len(),
{
    reveal(spec_parse_usize);
    reveal(spec_parse_u64);
}

impl Wire for RemoteFile {
    open spec fn spec_fits(v: RemoteFileView) -> bool {
        v matches RemoteFileView::Http { source, checksum, size } && text_fits(source)
            && checksum.len() == 32
    }

    open spec fn spec_put(v: RemoteFileView) -> Seq<u8> {
        spec_remote_file(v)
    }

    open spec fn spec_get(b: Seq<u8>) -> Parsed<RemoteFileView> {
        spec_parse_remote_file(b)
    }

    proof fn lemma_roundtrip(v: RemoteFileView, rest: Seq<u8>) {
        match v {
            RemoteFileView::Http { source, checksum, size } => {
                let b = spec_remote_file(v) + rest;
                let s3 = spec_usize(size) + rest;
                let s2 = checksum + s3;
                let s1 = spec_string(source) + s2;
                lemma_usize_roundtrip(0, s1);
                lemma_string_roundtrip(source, s2);
                lemma_usize_roundtrip(size, rest);
                assert(b =~= spec_usize(0) + s1);
                assert(b.skip(8) =~= s1);
                let n2 = spec_string(source).len() as int;
                assert(b.skip(8 + n2 + 32) =~= s3);
                assert(b.subrange(8 + n2, 8 + n2 + 32) =~= checksum);
            },
        }
    }

    proof fn lemma_bounds(b: Seq<u8>) {
        lemma_parse_usize_bounds(b);
        match spec_parse_usize(b) {
            Some((index, n1)) => {
                lemma_parse_string_bounds(b.skip(n1));
                match spec_parse_string(b.skip(n1)) {
                    Some((source, n2)) => {
                        if b.len() - n1 - n2 >= 32 {
                            lemma_parse_usize_bounds(b.skip(n1 + n2 + 32));
                        }
                    },
                    None => {},
                }
            },
            None => {},
        }
    }

    fn put(&self, out: &mut Vec<u8>) {
        match self {
            RemoteFile::Http { source, checksum, size } => {
                put_usize(out, 0);
                put_string(out, source.as_str());
                out.extend_from_slice(checksum.as_slice());
                put_usize(out, *size);
            },
        }
        assert(out@ =~= old(out)@ + spec_remote_file(self@));
    }

    fn get(b: &[u8], pos: usize) -> (r: Option<(Self, usize)>) {
        let ghost base = b@.skip(pos as int);
        let (index, p1) = match get_usize(b, pos) {
            Some(x) => x,
            None => {
                return None;
            },
        };
        if index != 0 {
            return None;
        }
        assert(base.skip(p1 - pos) =~= b@.skip(p1 as int));
        let (source, p2) = match get_string(b, p1) {
            Some(x) => x,
            None => {
                return None;
            },
        };
        if b.len() - p2 < 32 {
            return None;
        }
        let mut checksum: [u8; 32] = [0u8; 32];
        let mut i: usize = 0;
        while i < 32
            invariant
                i <= 32,
                p2 + 32 <= b@.len(),
                forall|k: int| 0 <= k < i ==> checksum@[k] == b@[p2 + k],
            decreases 32 - i,
        {
            checksum[i] = b[p2 + i];
            i += 1;
        }
        assert(checksum@ =~= base.subrange(p2 - pos, p2 - pos + 32));
        let p3: usize = p2 + 32;
        assert(base.skip(p3 - pos) =~= b@.skip(p3 as int));
        let (size, p4) = match get_usize(b, p3) {
            Some(x) => x,
            None => {
                return None;
            },
        };
        Some((RemoteFile::Http { source, checksum, size }, p4))
    }
}

impl Wire for Package {
    open spec fn spec_fits(v: PackageView) -> bool {
        &&& text_fits(v.name)
        &&& text_fits(v.version)
        &&& v.sources.len() <= u64::MAX
        &&& spec_items_fit::<RemoteFile>(v.sources)
        &&& v.dependencies.len() <= u64::MAX
        &&& spec_items_fit::<Dependency>(v.dependencies)
    }

    open spec fn spec_put(v: PackageView) -> Seq<u8> {
        spec_string(v.name) + spec_string(v.version) + spec_list::<RemoteFile>(v.sources)
            + spec_list::<Dependency>(v.dependencies)
    }

    open spec fn spec_get(b: Seq<u8>) -> Parsed<PackageView> {
        match spec_parse_string(b) {
            Some((name, n1)) => match spec_parse_string(b.skip(n1)) {
                Some((version, n2)) => match spec_parse_list::<RemoteFile>(b.skip(n1 + n2)) {
                    Some((sources, n3)) => match spec_parse_list::<Dependency>(
                        b.skip(n1 + n2 + n3),
                    ) {
                        Some((dependencies, n4)) => Some(
                            (
                                PackageView { name, version, sources, dependencies },
                                n1 + n2 + n3 + n4,
                            ),
                        ),
                        None => None,
                    },
                    None => None,
                },
                None => None,
            },
            None => None,
        }
    }

    proof fn lemma_roundtrip(v: PackageView, rest: Seq<u8>) {
        let e1 = spec_string(v.name);
        let e2 = spec_string(v.version);
        let e3 = spec_list::<RemoteFile>(v.sources);
        let e4 = spec_list::<Dependency>(v.dependencies);
        let s3 = e4 + rest;
        let s2 = e3 + s3;
        let s1 = e2 + s2;
        let b = Self::spec_put(v) + rest;
        assert(b =~= e1 + s1);
        lemma_string_roundtrip(v.name, s1);
        lemma_string_roundtrip(v.version, s2);
        lemma_list_roundtrip::<RemoteFile>(v.sources, s3);
        lemma_list_roundtrip::<Dependency>(v.dependencies, rest);
        assert(b.skip(e1.len() as int) =~= s1);
        assert(b.skip((e1.len() + e2.len()) as int) =~= s2);
        assert(b.skip((e1.len() + e2.len() + e3.len()) as int) =~= s3);
    }

    proof fn lemma_bounds(b: Seq<u8>) {
        lemma_parse_string_bounds(b);
        match spec_parse_string(b) {
            Some((name, n1)) => {
                lemma_parse_string_bounds(b.skip(n1));
                match spec_parse_string(b.skip(n1)) {
                    Some((version, n2)) => {
                        crate::list::lemma_parse_list_bounds::<RemoteFile>(b.skip(n1 + n2));
                        match spec_parse_list::<RemoteFile>(b.skip(n1 + n2)) {
                            Some((sources, n3)) => {
                                crate::list::lemma_parse_list_bounds::<Dependency>(
                                    b.skip(n1 + n2 + n3),
                                );
                            },
                            None => {},
                        }
                    },
                    None => {},
                }
            },
            None => {},
        }
    }

    fn put(&self, out: &mut Vec<u8>) {
        put_string(out, self.name.as_str());
        put_string(out, self.version.as_str());
        put_list(out, &self.sources);
        put_list(out, &self.dependencies);
        assert(out@ =~= old(out)@ + Self::spec_put(self@));
    }

    fn get(b: &[u8], pos: usize) -> (r: Option<(Self, usize)>) {
        let ghost base = b@.skip(pos as int);
        let (name, p1) = match get_string(b, pos) {
            Some(x) => x,
            None => {
                return None;
            },
        };
        assert(base.skip(p1 - pos) =~= b@.skip(p1 as int));
        let (version, p2) = match get_string(b, p1) {
            Some(x) => x,
            None => {
                return None;
            },
        };
        assert(base.skip(p2 - pos) =~= b@.skip(p2 as int));
        let (sources, p3) = match get_list::<RemoteFile>(b, p2) {
            Some(x) => x,
            None => {
                return None;
            },
        };
        assert(base.skip(p3 - pos) =~= b@.skip(p3 as int));
        let (dependencies, p4) = match get_list::<Dependency>(b, p3) {
            Some(x) => x,
            None => {
                return None;
            },
        };
        Some((Package { name, version, sources, dependencies }, p4))
    }
}

/// Why the bytes of a lock could not be read.
#[derive(Clone, Copy, Debug, PartialEq, Eq, Structural)]
pub enum LockError {
    /// The bytes do not start with the encoding of a lock.
    Malformed,
}

/// Whether every package of a lock can be encoded.
pub open spec fn spec_lock_fits(v: Seq<PackageView>) -> bool {
    v.len() <= u64::MAX && spec_items_fit::<Package>(v)
}

/// The byte encoding of a lock: the list of its packages.
pub open spec fn spec_lock(v: Seq<PackageView>) -> Seq<u8> {
    spec_list::<Package>(v)
}

/// The lock at the front of `b`.
pub open spec fn spec_parse_lock(b: Seq<u8>) -> Option<Seq<PackageView>> {
    match spec_parse_list::<Package>(b) {
        Some((v, _)) => Some(v),
        None => None,
    }
}

/// Reading the encoding of a lock gives the lock back.
pub proof fn lemma_lock_roundtrip(v: Seq<PackageView>, rest: Seq<u8>)
    requires
        spec_lock_fits(v),
    ensures
        spec_parse_lock(spec_lock(v) + rest) == Some(v),
{
    lemma_list_roundtrip::<Package>(v, rest);
}

impl WorkspaceLock {
    /// A lock without packages.
    pub fn new() -> (lock: Self)
        ensures
            lock@ == Seq::<PackageView>::empty(),
    {
        let lock = WorkspaceLock { packages: Vec::new() };
        assert(lock@ =~= Seq::<PackageView>::empty());
        lock
    }

    /// Appends the encoding of the lock to `pipe`.
    pub fn write(&self, pipe: &mut Vec<u8>)
        ensures
            final(pipe)@ == old(pipe)@ + spec_lock(self@),
            spec_lock_fits(self@),
    {
        put_list(pipe, &self.packages);
    }

    /// Reads the lock that `pipe` starts with.
    pub fn read(pipe: &[u8]) -> (r: Result<Self, LockError>)
        ensures
            r matches Ok(lock) ==> spec_parse_lock(pipe@) == Some(lock@),
            r matches Err(e) ==> spec_parse_lock(pipe@) is None && e == LockError::Malformed,
    {
        assert(pipe@.skip(0) =~= pipe@);
        match get_list::<Package>(pipe, 0) {
            Some((packages, _)) => Ok(WorkspaceLock { packages }),
            None => Err(LockError::Malformed),
        }
    }
}

/// Whether `a` comes before `b` in the order of texts: byte by byte, a
/// proper prefix first.
pub open spec fn spec_bytes_lt(a: Seq<u8>, b: Seq<u8>) -> bool
    decreases a.len(),
{
    if b.len() == 0 {
        false
    } else if a.len() == 0 {
        true
    } else if a[0] != b[0] {
        a[0] < b[0]
    } else {
        spec_bytes_lt(a.skip(1), b.skip(1))
    }
}

pub proof fn lemma_bytes_lt_transitive(a: Seq<u8>, b: Seq<u8>, c: Seq<u8>)
    requires
        spec_bytes_lt(a, b),
        spec_bytes_lt(b, c),
    ensures
        spec_bytes_lt(a, c),
    decreases a.len(),
{
    if a.len() > 0 && a[0] == b[0] && b[0] == c[0] {
        lemma_bytes_lt_transitive(a.skip(1), b.skip(1), c.skip(1));
    }
}

pub proof fn lemma_bytes_lt_irreflexive(a: Seq<u8>)
    ensures
        !spec_bytes_lt(a, a),
    decreases a.len(),
{
    if a.len() > 0 {
        lemma_bytes_lt_irreflexive(a.skip(1));
    }
}

/// The key by which packages are ordered: the bytes of the name, then the
/// bytes of the version.
pub open spec fn spec_key(name: Seq<char>, version: Seq<char>) -> (Seq<u8>, Seq<u8>) {
    (encode_utf8(name), encode_utf8(version))
}

/// Whether the key `a` comes before the key `b`: by name, then by version.
pub open spec fn spec_key_lt(a: (Seq<u8>, Seq<u8>), b: (Seq<u8>, Seq<u8>)) -> bool {
    spec_bytes_lt(a.0, b.0) || (a.0 == b.0 && spec_bytes_lt(a.1, b.1))
}

pub proof fn lemma_key_lt_transitive(
    a: (Seq<u8>, Seq<u8>),
    b: (Seq<u8>, Seq<u8>),
    c: (Seq<u8>, Seq<u8>),
)
    requires
        spec_key_lt(a, b),
        spec_key_lt(b, c),
    ensures
        spec_key_lt(a, c),
{
    if spec_bytes_lt(a.0, b.0) && spec_bytes_lt(b.0, c.0) {
        lemma_bytes_lt_transitive(a.0, b.0, c.0);
    } else if !spec_bytes_lt(a.0, b.0) && !spec_bytes_lt(b.0, c.0) {
        lemma_bytes_lt_transitive(a.1, b.1, c.1);
    }
}

/// The key of a package.
pub open spec fn spec_package_key(p: PackageView) -> (Seq<u8>, Seq<u8>) {
    spec_key(p.name, p.version)
}

/// Whether the packages are sorted by key, no key twice.
pub open spec fn spec_sorted(v: Seq<PackageView>) -> bool {
    forall|i: int, j: int|
        0 <= i < j < v.len() ==> spec_key_lt(
            spec_package_key(#[trigger] v[i]),
            spec_package_key(#[trigger] v[j]),
        )
}

/// The number of leading packages of `v` whose key comes before `key`.
pub open spec fn spec_slot(v: Seq<PackageView>, key: (Seq<u8>, Seq<u8>)) -> int
    decreases v.len(),
{
    if v.len() == 0 {
        0
    } else if spec_key_lt(spec_package_key(v[0]), key) {
        1 + spec_slot(v.skip(1), key)
    } else {
        0
    }
}

/// The lock after `package` was put into it: in place of the package at its
/// slot if that has the same key, else inserted at its slot.
pub open spec fn spec_put_package(v: Seq<PackageView>, package: PackageView) -> Seq<PackageView> {
    let at = spec_slot(v, spec_package_key(package));
    if at < v.len() && spec_package_key(v[at]) == spec_package_key(package) {
        v.update(at, package)
    } else {
        v.insert(at, package)
    }
}

pub proof fn lemma_slot(v: Seq<PackageView>, key: (Seq<u8>, Seq<u8>))
    ensures
        0 <= spec_slot(v, key) <= v.len(),
        forall|i: int|
            0 <= i < spec_slot(v, key) ==> spec_key_lt(spec_package_key(#[trigger] v[i]), key),
        spec_slot(v, key) < v.len() ==> !spec_key_lt(spec_package_key(v[spec_slot(v, key)]), key),
    decreases v.len(),
{
    if v.len() > 0 && spec_key_lt(spec_package_key(v[0]), key) {
        let tail = v.skip(1);
        lemma_slot(tail, key);
        assert forall|i: int| 0 <= i < spec_slot(v, key) implies spec_key_lt(
            spec_package_key(#[trigger] v[i]),
            key,
        ) by {
            if i > 0 {
                assert(v[i] == tail[i - 1]);
            }
        }
        if spec_slot(v, key) < v.len() {
            assert(v[spec_slot(v, key)] == tail[spec_slot(tail, key)]);
        }
    }
}

/// The slot is the one position that all keys before it come before `key`
/// and the key at it does not.
pub proof fn lemma_slot_is(v: Seq<PackageView>, key: (Seq<u8>, Seq<u8>), at: int)
    requires
        0 <= at <= v.len(),
        forall|i: int| 0 <= i < at ==> spec_key_lt(spec_package_key(#[trigger] v[i]), key),
        at < v.len() ==> !spec_key_lt(spec_package_key(v[at]), key),
    ensures
        spec_slot(v, key) == at,
{
    lemma_slot(v, key);
    let s = spec_slot(v, key);
    if s < at {
        assert(spec_key_lt(spec_package_key(v[s]), key));
    } else if s > at {
        assert(spec_key_lt(spec_package_key(v[at]), key));
    }
}

/// Two keys of which neither comes before the other are equal.
pub proof fn lemma_bytes_total(a: Seq<u8>, b: Seq<u8>)
    ensures
        spec_bytes_lt(a, b) || spec_bytes_lt(b, a) || a == b,
    decreases a.len(),
{
    if a.len() > 0 && b.len() > 0 && a[0] == b[0] {
        lemma_bytes_total(a.skip(1), b.skip(1));
        if a.skip(1) == b.skip(1) {
            assert(a =~= seq![a[0]] + a.skip(1));
            assert(b =~= seq![b[0]] + b.skip(1));
        }
    } else if a.len() == 0 && b.len() == 0 {
        assert(a =~= b);
    }
}

/// Putting a package into a sorted lock leaves the lock sorted, with the
/// package in it, and with every other package that it held.
pub proof fn lemma_put_package_sorted(v: Seq<PackageView>, package: PackageView)
    requires
        spec_sorted(v),
    ensures
        spec_sorted(spec_put_package(v, package)),
        spec_put_package(v, package).contains(package),
        forall|i: int|
            0 <= i < v.len() && spec_package_key(#[trigger] v[i]) != spec_package_key(package)
                ==> spec_put_package(v, package).contains(v[i]),
{
    let key = spec_package_key(package);
    let at = spec_slot(v, key);
    let w = spec_put_package(v, package);
    lemma_slot(v, key);
    let replaced = at < v.len() && spec_package_key(v[at]) == key;
    assert(w[at] == package);
    assert forall|j: int| at < j < v.len() implies spec_key_lt(
        key,
        spec_package_key(#[trigger] v[j]),
    ) by {
        let ka = spec_package_key(v[at]);
        let kj = spec_package_key(v[j]);
        assert(spec_key_lt(ka, kj));
        if ka != key {
            lemma_bytes_total(ka.0, key.0);
            lemma_bytes_total(ka.1, key.1);
            assert(spec_key_lt(key, ka));
            lemma_key_lt_transitive(key, ka, kj);
        }
    }
    if !replaced && at < v.len() {
        let ka = spec_package_key(v[at]);
        lemma_bytes_total(ka.0, key.0);
        lemma_bytes_total(ka.1, key.1);
        assert(spec_key_lt(key, ka));
    }
    assert forall|i: int, j: int| 0 <= i < j < w.len() implies spec_key_lt(
        spec_package_key(#[trigger] w[i]),
        spec_package_key(#[trigger] w[j]),
    ) by {
        if replaced {
            if i != at && j != at {
                assert(w[i] == v[i] && w[j] == v[j]);
            } else if i == at {
                assert(w[j] == v[j]);
            } else {
                assert(w[i] == v[i]);
            }
        } else {
            if j < at {
                assert(w[i] == v[i] && w[j] == v[j]);
            } else if j == at {
                assert(w[i] == v[i]);
            } else if i < at {
                assert(w[i] == v[i] && w[j] == v[j - 1]);
            } else if i == at {
                assert(w[j] == v[j - 1]);
            } else {
                assert(w[i] == v[i - 1] && w[j] == v[j - 1]);
            }
        }
    }
    assert forall|i: int|
        0 <= i < v.len() && spec_package_key(#[trigger] v[i]) != key implies w.contains(
        v[i],
    ) by {
        if replaced {
            assert(w[i] == v[i]);
        } else if i < at {
            assert(w[i] == v[i]);
        } else {
            assert(w[i + 1] == v[i]);
        }
    }
}

/// How two texts compare.
#[derive(Clone, Copy, Debug, PartialEq, Eq, Structural)]
pub enum Order {
    Less,
    Equal,
    Greater,
}

/// Compares two byte strings byte by byte, a proper prefix first.
pub fn order_bytes(a: &[u8], b: &[u8]) -> (o: Order)
    ensures
        o == Order::Less <==> spec_bytes_lt(a@, b@),
        o == Order::Greater <==> spec_bytes_lt(b@, a@),
        o == Order::Equal <==> a@ == b@,
{
    let mut i: usize = 0;
    proof {
        assert(a@.skip(0) =~= a@);
        assert(b@.skip(0) =~= b@);
        lemma_bytes_lt_irreflexive(a@);
    }
    while i < a.len() && i < b.len()
        invariant
            i <= a@.len(),
            i <= b@.len(),
            a@.take(i as int) == b@.take(i as int),
            spec_bytes_lt(a@, b@) == spec_bytes_lt(a@.skip(i as int), b@.skip(i as int)),
            spec_bytes_lt(b@, a@) == spec_bytes_lt(b@.skip(i as int), a@.skip(i as int)),
        decreases a@.len() - i,
    {
        let x = a[i];
        let y = b[i];
        assert(a@.skip(i as int)[0] == x && b@.skip(i as int)[0] == y);
        if x < y {
            assert(a@[i as int] != b@[i as int]);
            return Order::Less;
        }
        if x > y {
            assert(a@[i as int] != b@[i as int]);
            return Order::Greater;
        }
        assert(a@.skip(i as int).skip(1) =~= a@.skip(i + 1));
        assert(b@.skip(i as int).skip(1) =~= b@.skip(i + 1));
        assert(a@.take(i + 1) =~= a@.take(i as int).push(x));
        assert(b@.take(i + 1) =~= b@.take(i as int).push(y));
        i += 1;
    }
    if i < b.len() {
        assert(a@ != b@);
        Order::Less
    } else if i < a.len() {
        assert(a@ != b@);
        Order::Greater
    } else {
        assert(a@ =~= a@.take(i as int));
        assert(b@ =~= b@.take(i as int));
        proof {
            lemma_bytes_lt_irreflexive(a@.skip(i as int));
        }
        Order::Equal
    }
}

/// Compares the key of a package with the key `(name, version)`.
pub fn order_key(package: &Package, name: &str, version: &str) -> (o: Order)
    ensures
        o == Order::Less <==> spec_key_lt(spec_package_key(package@), spec_key(name@, version@)),
        o == Order::Greater <==> spec_key_lt(
            spec_key(name@, version@),
            spec_package_key(package@),
        ),
        o == Order::Equal <==> spec_package_key(package@) == spec_key(name@, version@),
{
    proof {
        lemma_bytes_lt_irreflexive(encode_utf8(name@));
        lemma_bytes_lt_irreflexive(encode_utf8(package@.name));
    }
    match order_bytes(package.name.as_str().as_bytes(), name.as_bytes()) {
        Order::Less => Order::Less,
        Order::Greater => Order::Greater,
        Order::Equal => order_bytes(package.version.as_str().as_bytes(), version.as_bytes()),
    }
}

impl WorkspaceLock {
    /// Puts `package` into the lock at the slot of its key: in place of the
    /// package that has the same name and version, if there is one, else
    /// between the packages around it. A sorted lock stays sorted.
    pub fn put(&mut self, package: Package)
        ensures
            final(self)@ == spec_put_package(old(self)@, package@),
            spec_sorted(old(self)@) ==> spec_sorted(final(self)@),
    {
        let ghost v = self@;
        let ghost key = spec_package_key(package@);
        let mut at: usize = 0;
        let mut found: bool = false;
        while at < self.packages.len()
            invariant_except_break
                !found,
            invariant
                at <= self.packages@.len(),
                self@ == v,
                key == spec_package_key(package@),
                forall|i: int| 0 <= i < at ==> spec_key_lt(spec_package_key(#[trigger] v[i]), key),
            ensures
                at <= self.packages@.len(),
                self@ == v,
                forall|i: int| 0 <= i < at ==> spec_key_lt(spec_package_key(#[trigger] v[i]), key),
                at < v.len() ==> !spec_key_lt(spec_package_key(v[at as int]), key),
                found <==> at < v.len() && spec_package_key(v[at as int]) == key,
            decreases self.packages@.len() - at,
        {
            assert(v[at as int] == self.packages@[at as int]@);
            match order_key(&self.packages[at], package.name.as_str(), package.version.as_str()) {
                Order::Less => {
                    at += 1;
                },
                Order::Equal => {
                    found = true;
                    proof {
                        lemma_bytes_lt_irreflexive(key.0);
                        lemma_bytes_lt_irreflexive(key.1);
                    }
                    break ;
                },
                Order::Greater => {
                    break ;
                },
            }
        }
        proof {
            lemma_slot_is(v, key, at as int);
            if spec_sorted(v) {
                lemma_put_package_sorted(v, package@);
            }
        }
        if found {
            self.packages[at] = package;
            assert(self@ =~= v.update(at as int, package@));
        } else {
            self.packages.insert(at, package);
            assert(self@ =~= v.insert(at as int, package@));
        }
    }
}

} // verus!
