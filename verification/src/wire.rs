//! The byte encoding of the primitive values that messages are made of.
//!
//! Integers are little-endian and of fixed width. A `usize` travels as eight
//! bytes. A byte string or a text carries its length in bytes as eight bytes
//! in front; a text is UTF-8. A `bool` is one byte, `0xFF` for true; any
//! non-zero byte reads as true. An `Option` is a tag byte, 0 for absent and 1
//! for present, followed by the value when present.
//!
//! Each value has a spec function that gives its encoding and one that reads
//! it back from the front of a byte sequence, yielding the value and the
//! number of bytes it took, or `None` where the bytes are not an encoding.

use vstd::prelude::*;
use vstd::slice::slice_subrange;
use vstd::string::StringSliceAdditionalSpecFns;
use vstd::utf8::decode_utf8;
use vstd::utf8::encode_utf8;
use vstd::utf8::encode_utf8_decode_utf8;
use vstd::utf8::encode_utf8_valid_utf8;
use vstd::utf8::valid_utf8;

verus! {

/// What reading a value from the front of a byte sequence gives: the value
/// and the number of bytes it occupies.
pub type Parsed<V> = Option<(V, int)>;

#[verifier::opaque]
pub open spec fn spec_u32(v: u32) -> Seq<u8> {
    seq![
        (v % 256) as u8,
        ((v / 256) % 256) as u8,
        ((v / 65536) % 256) as u8,
        ((v / 16777216) % 256) as u8,
    ]
}

/// The number that the first four bytes of `b` spell, least significant
/// byte first.
#[verifier::opaque]
pub open spec fn spec_le32(b: Seq<u8>) -> int {
    b[0] + 256 * b[1] + 65536 * b[2] + 16777216 * b[3]
}

#[verifier::opaque]
pub open spec fn spec_parse_u32(b: Seq<u8>) -> Parsed<u32> {
    if b.len() >= 4 {
        Some((spec_le32(b) as u32, 4))
    } else {
        None
    }
}

#[verifier::opaque]
pub open spec fn spec_u64(v: u64) -> Seq<u8> {
    spec_u32((v % 0x1_0000_0000) as u32) + spec_u32((v / 0x1_0000_0000) as u32)
}

#[verifier::opaque]
pub open spec fn spec_parse_u64(b: Seq<u8>) -> Parsed<u64> {
    if b.len() >= 8 {
        Some(((spec_le32(b) + 0x1_0000_0000 * spec_le32(b.skip(4))) as u64, 8))
    } else {
        None
    }
}

#[verifier::opaque]
pub open spec fn spec_usize(v: usize) -> Seq<u8> {
    spec_u64(v as u64)
}

#[verifier::opaque]
pub open spec fn spec_parse_usize(b: Seq<u8>) -> Parsed<usize> {
    match spec_parse_u64(b) {
        Some((v, n)) => if v <= usize::MAX { Some((v as usize, n)) } else { None },
        None => None,
    }
}

pub open spec fn spec_u8(v: u8) -> Seq<u8> {
    seq![v]
}

pub open spec fn spec_parse_u8(b: Seq<u8>) -> Parsed<u8> {
    if b.len() >= 1 {
        Some((b[0], 1))
    } else {
        None
    }
}

#[verifier::opaque]
pub open spec fn spec_bool(v: bool) -> Seq<u8> {
    seq![if v { 0xFFu8 } else { 0u8 }]
}

#[verifier::opaque]
pub open spec fn spec_parse_bool(b: Seq<u8>) -> Parsed<bool> {
    if b.len() >= 1 {
        Some((b[0] != 0, 1))
    } else {
        None
    }
}

#[verifier::opaque]
pub open spec fn spec_bytes(v: Seq<u8>) -> Seq<u8> {
    spec_u64(v.len() as u64) + v
}

#[verifier::opaque]
pub open spec fn spec_parse_bytes(b: Seq<u8>) -> Parsed<Seq<u8>> {
    match spec_parse_u64(b) {
        Some((len, n)) => if len <= b.len() - n {
            Some((b.subrange(n, n + len), n + len))
        } else {
            None
        },
        None => None,
    }
}

#[verifier::opaque]
pub open spec fn spec_string(v: Seq<char>) -> Seq<u8> {
    spec_bytes(encode_utf8(v))
}

#[verifier::opaque]
pub open spec fn spec_parse_string(b: Seq<u8>) -> Parsed<Seq<char>> {
    match spec_parse_bytes(b) {
        Some((raw, n)) => if valid_utf8(raw) { Some((decode_utf8(raw), n)) } else { None },
        None => None,
    }
}

#[verifier::opaque]
pub open spec fn spec_opt_u32(v: Option<u32>) -> Seq<u8> {
    match v {
        None => seq![0u8],
        Some(x) => seq![1u8] + spec_u32(x),
    }
}

#[verifier::opaque]
pub open spec fn spec_parse_opt_u32(b: Seq<u8>) -> Parsed<Option<u32>> {
    if b.len() >= 1 && b[0] == 0 {
        Some((None, 1))
    } else if b.len() >= 1 && b[0] == 1 {
        match spec_parse_u32(b.skip(1)) {
            Some((x, n)) => Some((Some(x), 1 + n)),
            None => None,
        }
    } else {
        None
    }
}

/// The encodings of the texts of `v`, one after the other.
pub open spec fn spec_string_items(v: Seq<Seq<char>>) -> Seq<u8>
    decreases v.len(),
{
    if v.len() == 0 {
        Seq::empty()
    } else {
        spec_string(v[0]) + spec_string_items(v.skip(1))
    }
}

/// Reads `count` texts from the front of `b`.
pub open spec fn spec_parse_string_items(b: Seq<u8>, count: nat) -> Parsed<Seq<Seq<char>>>
    decreases count,
{
    if count == 0 {
        Some((Seq::empty(), 0))
    } else {
        match spec_parse_string(b) {
            Some((first, n)) => match spec_parse_string_items(b.skip(n), (count - 1) as nat) {
                Some((rest, m)) => Some((seq![first] + rest, n + m)),
                None => None,
            },
            None => None,
        }
    }
}

/// A list of texts: the number of texts as eight bytes, then each text.
#[verifier::opaque]
pub open spec fn spec_strings(v: Seq<Seq<char>>) -> Seq<u8> {
    spec_u64(v.len() as u64) + spec_string_items(v)
}

#[verifier::opaque]
pub open spec fn spec_parse_strings(b: Seq<u8>) -> Parsed<Seq<Seq<char>>> {
    match spec_parse_u64(b) {
        Some((count, n)) => match spec_parse_string_items(b.skip(n), count as nat) {
            Some((v, m)) => Some((v, n + m)),
            None => None,
        },
        None => None,
    }
}

/// Four bytes spell a number below 2^32.
pub proof fn lemma_le32_range(b: Seq<u8>)
    requires
        b.len() >= 4,
    ensures
        0 <= spec_le32(b) <= u32::MAX,
{
    reveal(spec_le32);
}

pub proof fn lemma_u32_roundtrip(v: u32, rest: Seq<u8>)
    ensures
        spec_u32(v).len() == 4,
        spec_le32(spec_u32(v) + rest) == v,
        spec_parse_u32(spec_u32(v) + rest) == Some((v, 4int)),
{
    reveal(spec_parse_u32);
    reveal(spec_u32);
    reveal(spec_le32);
}

pub proof fn lemma_u64_roundtrip(v: u64, rest: Seq<u8>)
    ensures
        spec_u64(v).len() == 8,
        spec_parse_u64(spec_u64(v) + rest) == Some((v, 8int)),
{
    reveal(spec_parse_u64);
    reveal(spec_u64);
    let low = (v % 0x1_0000_0000) as u32;
    let high = (v / 0x1_0000_0000) as u32;
    let b = spec_u64(v) + rest;
    lemma_u32_roundtrip(low, spec_u32(high) + rest);
    lemma_u32_roundtrip(high, rest);
    assert(b =~= spec_u32(low) + (spec_u32(high) + rest));
    assert(b.skip(4) =~= spec_u32(high) + rest);
}

pub proof fn lemma_usize_roundtrip(v: usize, rest: Seq<u8>)
    ensures
        spec_usize(v).len() == 8,
        spec_parse_usize(spec_usize(v) + rest) == Some((v, 8int)),
{
    reveal(spec_usize);
    reveal(spec_parse_usize);
    lemma_u64_roundtrip(v as u64, rest);
}

pub proof fn lemma_bool_roundtrip(v: bool, rest: Seq<u8>)
    ensures
        spec_bool(v).len() == 1,
        spec_parse_bool(spec_bool(v) + rest) == Some((v, 1int)),
{
    reveal(spec_bool);
    reveal(spec_parse_bool);
}

pub proof fn lemma_bytes_roundtrip(v: Seq<u8>, rest: Seq<u8>)
    requires
        v.len() <= u64::MAX,
    ensures
        spec_bytes(v).len() == 8 + v.len(),
        spec_parse_bytes(spec_bytes(v) + rest) == Some((v, spec_bytes(v).len() as int)),
{
    reveal(spec_bytes);
    reveal(spec_parse_bytes);
    let b = spec_bytes(v) + rest;
    lemma_u64_roundtrip(v.len() as u64, v + rest);
    assert(b =~= spec_u64(v.len() as u64) + (v + rest));
    assert(b.subrange(8, 8 + v.len() as int) =~= v);
}

pub proof fn lemma_string_roundtrip(v: Seq<char>, rest: Seq<u8>)
    requires
        encode_utf8(v).len() <= u64::MAX,
    ensures
        spec_string(v).len() == 8 + encode_utf8(v).len(),
        spec_parse_string(spec_string(v) + rest) == Some((v, spec_string(v).len() as int)),
{
    reveal(spec_string);
    reveal(spec_parse_string);
    lemma_bytes_roundtrip(encode_utf8(v), rest);
    encode_utf8_valid_utf8(v);
    encode_utf8_decode_utf8(v);
}

pub proof fn lemma_opt_u32_roundtrip(v: Option<u32>, rest: Seq<u8>)
    ensures
        spec_parse_opt_u32(spec_opt_u32(v) + rest) == Some((v, spec_opt_u32(v).len() as int)),
{
    reveal(spec_opt_u32);
    reveal(spec_parse_opt_u32);
    match v {
        None => {},
        Some(x) => {
            lemma_u32_roundtrip(x, rest);
            assert((spec_opt_u32(v) + rest).skip(1) =~= spec_u32(x) + rest);
        },
    }
}

/// Whether every text of `v` has an encoding short enough to carry its
/// length in eight bytes.
pub open spec fn strings_fit(v: Seq<Seq<char>>) -> bool {
    forall|i: int| 0 <= i < v.len() ==> encode_utf8(#[trigger] v[i]).len() <= u64::MAX
}

pub proof fn lemma_string_items_roundtrip(v: Seq<Seq<char>>, rest: Seq<u8>)
    requires
        strings_fit(v),
    ensures
        spec_parse_string_items(spec_string_items(v) + rest, v.len()) == Some(
            (v, spec_string_items(v).len() as int),
        ),
    decreases v.len(),
{
    if v.len() > 0 {
        let tail = spec_string_items(v.skip(1)) + rest;
        let b = spec_string_items(v) + rest;
        assert(encode_utf8(v[0]).len() <= u64::MAX);
        lemma_string_roundtrip(v[0], tail);
        assert(b =~= spec_string(v[0]) + tail);
        assert(b.skip(spec_string(v[0]).len() as int) =~= tail);
        assert(strings_fit(v.skip(1))) by {
            assert forall|i: int| 0 <= i < v.skip(1).len() implies encode_utf8(
                #[trigger] v.skip(1)[i],
            ).len() <= u64::MAX by {
                assert(v.skip(1)[i] == v[i + 1]);
            }
        }
        lemma_string_items_roundtrip(v.skip(1), rest);
        assert(seq![v[0]] + v.skip(1) =~= v);
    } else {
        assert(v =~= Seq::empty());
    }
}

pub proof fn lemma_strings_roundtrip(v: Seq<Seq<char>>, rest: Seq<u8>)
    requires
        v.len() <= u64::MAX,
        strings_fit(v),
    ensures
        spec_parse_strings(spec_strings(v) + rest) == Some((v, spec_strings(v).len() as int)),
{
    reveal(spec_strings);
    reveal(spec_parse_strings);
    let b = spec_strings(v) + rest;
    lemma_u64_roundtrip(v.len() as u64, spec_string_items(v) + rest);
    assert(b =~= spec_u64(v.len() as u64) + (spec_string_items(v) + rest));
    assert(b.skip(8) =~= spec_string_items(v) + rest);
    lemma_string_items_roundtrip(v, rest);
}

/// The texts of a list of strings.
pub open spec fn spec_texts(v: Seq<String>) -> Seq<Seq<char>> {
    Seq::new(v.len(), |i: int| v[i]@)
}

pub proof fn lemma_string_items_push(v: Seq<Seq<char>>, x: Seq<char>)
    ensures
        spec_string_items(v.push(x)) == spec_string_items(v) + spec_string(x),
    decreases v.len(),
{
    reveal(spec_string);
    reveal_with_fuel(spec_string_items, 2);
    if v.len() == 0 {
        assert(v.push(x).skip(1) =~= Seq::<Seq<char>>::empty());
        assert(spec_string_items(v.push(x)) =~= spec_string_items(v) + spec_string(x));
    } else {
        assert(v.push(x).skip(1) =~= v.skip(1).push(x));
        lemma_string_items_push(v.skip(1), x);
        assert(spec_string_items(v.push(x)) =~= spec_string_items(v) + spec_string(x));
    }
}

/// A text that was read lies within the bytes it was read from.
pub proof fn lemma_parse_string_bounds(b: Seq<u8>)
    ensures
        spec_parse_string(b) matches Some((_, n)) ==> 8 <= n <= b.len(),
{
    reveal(spec_parse_string);
    reveal(spec_parse_bytes);
    reveal(spec_parse_u64);
}

/// Reading one more text behind `i` texts that were read.
pub proof fn lemma_parse_string_items_more(b: Seq<u8>, i: nat)
    requires
        spec_parse_string_items(b, i) is Some,
    ensures
        ({
            let (v, n) = spec_parse_string_items(b, i).unwrap();
            &&& 0 <= n <= b.len()
            &&& v.len() == i
            &&& spec_parse_string_items(b, i + 1) == match spec_parse_string(b.skip(n)) {
                Some((x, m)) => Some((v.push(x), n + m)),
                None => None,
            }
        }),
    decreases i,
{
    reveal(spec_parse_string);
    reveal_with_fuel(spec_parse_string_items, 2);
    lemma_parse_string_bounds(b);
    if i == 0 {
        assert(b.skip(0) =~= b);
        match spec_parse_string(b) {
            Some((x, m)) => {
                assert(seq![x] + Seq::<Seq<char>>::empty() =~= Seq::<Seq<char>>::empty().push(x));
            },
            None => {},
        }
    } else {
        let (first, k) = spec_parse_string(b).unwrap();
        lemma_parse_string_items_more(b.skip(k), (i - 1) as nat);
        lemma_parse_string_bounds(b.skip(k));
        let (rest, n1) = spec_parse_string_items(b.skip(k), (i - 1) as nat).unwrap();
        assert(b.skip(k).skip(n1) =~= b.skip(k + n1));
        lemma_parse_string_bounds(b.skip(k + n1));
        match spec_parse_string(b.skip(k + n1)) {
            Some((x, m)) => {
                assert(seq![first] + rest.push(x) =~= (seq![first] + rest).push(x));
            },
            None => {},
        }
    }
}

/// Once reading `i` texts fails, reading more fails too.
pub proof fn lemma_parse_string_items_fails(b: Seq<u8>, i: nat, count: nat)
    requires
        spec_parse_string_items(b, i) is None,
        i <= count,
    ensures
        spec_parse_string_items(b, count) is None,
    decreases count,
{
    if i < count {
        if i == 0 {
        } else {
            match spec_parse_string(b) {
                Some((first, k)) => {
                    lemma_parse_string_items_fails(
                        b.skip(k),
                        (i - 1) as nat,
                        (count - 1) as nat,
                    );
                },
                None => {},
            }
        }
    }
}

/// `String::from_utf8`: the text that `bytes` encode, or `None` where they
/// are not UTF-8.
#[verifier::external_body]
fn string_from_utf8(bytes: Vec<u8>) -> (r: Option<String>)
    ensures
        r is Some <==> valid_utf8(bytes@),
        r matches Some(s) ==> s@ == decode_utf8(bytes@),
{
    String::from_utf8(bytes).ok()
}

pub fn put_u32(out: &mut Vec<u8>, v: u32)
    ensures
        final(out)@ == old(out)@ + spec_u32(v),
{
    out.push((v % 256) as u8);
    out.push(((v / 256) % 256) as u8);
    out.push(((v / 65536) % 256) as u8);
    out.push(((v / 16777216) % 256) as u8);
    proof {
        reveal(spec_u32);
    }
    assert(out@ =~= old(out)@ + spec_u32(v));
}

pub fn get_u32(b: &[u8], pos: usize) -> (r: Option<(u32, usize)>)
    requires
        pos <= b@.len(),
    ensures
        r matches Some((v, next)) ==> spec_parse_u32(b@.skip(pos as int)) == Some(
            (v, next - pos),
        ) && pos <= next <= b@.len(),
        r is None ==> spec_parse_u32(b@.skip(pos as int)) is None,
{
    proof {
        reveal(spec_parse_u32);
    }
    if b.len() - pos < 4 {
        return None;
    }
    proof {
        reveal(spec_le32);
    }
    let b0: u32 = b[pos] as u32;
    let b1: u32 = b[pos + 1] as u32;
    let b2: u32 = b[pos + 2] as u32;
    let b3: u32 = b[pos + 3] as u32;
    Some((b0 + 256 * b1 + 65536 * b2 + 16777216 * b3, pos + 4))
}

pub fn put_u64(out: &mut Vec<u8>, v: u64)
    ensures
        final(out)@ == old(out)@ + spec_u64(v),
{
    put_u32(out, (v % 0x1_0000_0000) as u32);
    put_u32(out, (v / 0x1_0000_0000) as u32);
    proof {
        reveal(spec_u64);
    }
    assert(out@ =~= old(out)@ + spec_u64(v));
}

pub fn get_u64(b: &[u8], pos: usize) -> (r: Option<(u64, usize)>)
    requires
        pos <= b@.len(),
    ensures
        r matches Some((v, next)) ==> spec_parse_u64(b@.skip(pos as int)) == Some(
            (v, next - pos),
        ) && pos <= next <= b@.len(),
        r is None ==> spec_parse_u64(b@.skip(pos as int)) is None,
{
    proof {
        reveal(spec_parse_u64);
    }
    proof {
        reveal(spec_parse_u32);
    }
    if b.len() - pos < 8 {
        return None;
    }
    let (low, mid) = get_u32(b, pos).unwrap();
    assert(b@.skip(pos as int).skip(4) =~= b@.skip(mid as int));
    let (high, next) = get_u32(b, mid).unwrap();
    proof {
        lemma_le32_range(b@.skip(pos as int));
        lemma_le32_range(b@.skip(mid as int));
    }
    Some((low as u64 + 0x1_0000_0000 * (high as u64), next))
}

pub fn put_usize(out: &mut Vec<u8>, v: usize)
    ensures
        final(out)@ == old(out)@ + spec_usize(v),
{
    proof {
        reveal(spec_usize);
    }
    put_u64(out, v as u64);
}

pub fn get_usize(b: &[u8], pos: usize) -> (r: Option<(usize, usize)>)
    requires
        pos <= b@.len(),
    ensures
        r matches Some((v, next)) ==> spec_parse_usize(b@.skip(pos as int)) == Some(
            (v, next - pos),
        ) && pos <= next <= b@.len(),
        r is None ==> spec_parse_usize(b@.skip(pos as int)) is None,
{
    proof {
        reveal(spec_parse_usize);
    }
    match get_u64(b, pos) {
        Some((v, next)) => if v <= usize::MAX as u64 {
            Some((v as usize, next))
        } else {
            None
        },
        None => None,
    }
}

pub fn put_u8(out: &mut Vec<u8>, v: u8)
    ensures
        final(out)@ == old(out)@ + spec_u8(v),
{
    out.push(v);
    assert(out@ =~= old(out)@ + spec_u8(v));
}

pub fn get_u8(b: &[u8], pos: usize) -> (r: Option<(u8, usize)>)
    requires
        pos <= b@.len(),
    ensures
        r matches Some((v, next)) ==> spec_parse_u8(b@.skip(pos as int)) == Some((v, next - pos))
            && pos <= next <= b@.len(),
        r is None ==> spec_parse_u8(b@.skip(pos as int)) is None,
{
    if b.len() - pos < 1 {
        return None;
    }
    Some((b[pos], pos + 1))
}

pub fn put_bool(out: &mut Vec<u8>, v: bool)
    ensures
        final(out)@ == old(out)@ + spec_bool(v),
{
    proof {
        reveal(spec_bool);
    }
    out.push(if v { 0xFF } else { 0 });
    assert(out@ =~= old(out)@ + spec_bool(v));
}

pub fn get_bool(b: &[u8], pos: usize) -> (r: Option<(bool, usize)>)
    requires
        pos <= b@.len(),
    ensures
        r matches Some((v, next)) ==> spec_parse_bool(b@.skip(pos as int)) == Some(
            (v, next - pos),
        ) && pos <= next <= b@.len(),
        r is None ==> spec_parse_bool(b@.skip(pos as int)) is None,
{
    proof {
        reveal(spec_parse_bool);
    }
    if b.len() - pos < 1 {
        return None;
    }
    Some((b[pos] != 0, pos + 1))
}

pub fn put_bytes(out: &mut Vec<u8>, v: &[u8])
    ensures
        final(out)@ == old(out)@ + spec_bytes(v@),
        v@.len() <= u64::MAX,
{
    proof {
        reveal(spec_bytes);
    }
    put_u64(out, v.len() as u64);
    out.extend_from_slice(v);
    assert(out@ =~= old(out)@ + spec_bytes(v@));
}

pub fn get_bytes(b: &[u8], pos: usize) -> (r: Option<(Vec<u8>, usize)>)
    requires
        pos <= b@.len(),
    ensures
        r matches Some((v, next)) ==> spec_parse_bytes(b@.skip(pos as int)) == Some(
            (v@, next - pos),
        ) && pos <= next <= b@.len(),
        r is None ==> spec_parse_bytes(b@.skip(pos as int)) is None,
{
    proof {
        reveal(spec_parse_bytes);
    }
    match get_u64(b, pos) {
        Some((len, start)) => {
            if len > (b.len() - start) as u64 {
                return None;
            }
            let end: usize = start + len as usize;
            let v = vstd::slice::slice_to_vec(slice_subrange(b, start, end));
            assert(v@ =~= b@.skip(pos as int).subrange(start - pos, start - pos + len));
            Some((v, end))
        },
        None => None,
    }
}

pub fn put_string(out: &mut Vec<u8>, v: &str)
    ensures
        final(out)@ == old(out)@ + spec_string(v@),
        encode_utf8(v@).len() <= u64::MAX,
{
    proof {
        reveal(spec_string);
    }
    put_bytes(out, v.as_bytes());
}

pub fn get_string(b: &[u8], pos: usize) -> (r: Option<(String, usize)>)
    requires
        pos <= b@.len(),
    ensures
        r matches Some((v, next)) ==> spec_parse_string(b@.skip(pos as int)) == Some(
            (v@, next - pos),
        ) && pos <= next <= b@.len(),
        r is None ==> spec_parse_string(b@.skip(pos as int)) is None,
{
    proof {
        reveal(spec_parse_string);
    }
    match get_bytes(b, pos) {
        Some((raw, next)) => match string_from_utf8(raw) {
            Some(v) => Some((v, next)),
            None => None,
        },
        None => None,
    }
}

pub fn put_opt_u32(out: &mut Vec<u8>, v: Option<u32>)
    ensures
        final(out)@ == old(out)@ + spec_opt_u32(v),
{
    proof {
        reveal(spec_opt_u32);
    }
    match v {
        None => {
            out.push(0);
        },
        Some(x) => {
            out.push(1);
            put_u32(out, x);
        },
    }
    assert(out@ =~= old(out)@ + spec_opt_u32(v));
}

pub fn get_opt_u32(b: &[u8], pos: usize) -> (r: Option<(Option<u32>, usize)>)
    requires
        pos <= b@.len(),
    ensures
        r matches Some((v, next)) ==> spec_parse_opt_u32(b@.skip(pos as int)) == Some(
            (v, next - pos),
        ) && pos <= next <= b@.len(),
        r is None ==> spec_parse_opt_u32(b@.skip(pos as int)) is None,
{
    proof {
        reveal(spec_parse_opt_u32);
    }
    if b.len() - pos < 1 {
        return None;
    }
    let tag = b[pos];
    if tag == 0 {
        Some((None, pos + 1))
    } else if tag == 1 {
        assert(b@.skip(pos as int).skip(1) =~= b@.skip(pos + 1));
        match get_u32(b, pos + 1) {
            Some((x, next)) => Some((Some(x), next)),
            None => None,
        }
    } else {
        None
    }
}

pub fn put_strings(out: &mut Vec<u8>, v: &Vec<String>)
    ensures
        final(out)@ == old(out)@ + spec_strings(spec_texts(v@)),
        v@.len() <= u64::MAX,
        strings_fit(spec_texts(v@)),
{
    proof {
        reveal(spec_strings);
    }
    put_u64(out, v.len() as u64);
    let mut i: usize = 0;
    while i < v.len()
        invariant
            i <= v.len(),
            out@ == old(out)@ + spec_u64(v.len() as u64) + spec_string_items(
                spec_texts(v@).take(i as int),
            ),
            forall|k: int| 0 <= k < i ==> encode_utf8(#[trigger] spec_texts(v@)[k]).len()
                <= u64::MAX,
        decreases v.len() - i,
    {
        proof {
            lemma_string_items_push(spec_texts(v@).take(i as int), v[i as int]@);
            assert(spec_texts(v@).take(i as int).push(v[i as int]@) =~= spec_texts(v@).take(
                i + 1,
            ));
        }
        put_string(out, v[i].as_str());
        i += 1;
        assert(out@ =~= old(out)@ + spec_u64(v.len() as u64) + spec_string_items(
            spec_texts(v@).take(i as int),
        ));
    }
    assert(spec_texts(v@).take(i as int) =~= spec_texts(v@));
    assert(out@ =~= old(out)@ + spec_strings(spec_texts(v@)));
}

pub fn get_strings(b: &[u8], pos: usize) -> (r: Option<(Vec<String>, usize)>)
    requires
        pos <= b@.len(),
    ensures
        r matches Some((v, next)) ==> spec_parse_strings(b@.skip(pos as int)) == Some(
            (spec_texts(v@), next - pos),
        ) && pos <= next <= b@.len(),
        r is None ==> spec_parse_strings(b@.skip(pos as int)) is None,
{
    proof {
        reveal(spec_parse_strings);
    }
    match get_u64(b, pos) {
        Some((count, start)) => {
            let ghost items = b@.skip(start as int);
            assert(b@.skip(pos as int).skip(start - pos) =~= items);
            let mut v: Vec<String> = Vec::new();
            let mut at: usize = start;
            let mut i: u64 = 0;
            assert(spec_texts(v@) =~= Seq::<Seq<char>>::empty());
            while i < count
                invariant
                    i <= count,
                    start <= at <= b@.len(),
                    items == b@.skip(start as int),
                    pos <= start,
                    items == b@.skip(pos as int).skip(start - pos),
                    spec_parse_u64(b@.skip(pos as int)) == Some((count, start - pos)),
                    spec_parse_string_items(items, i as nat) == Some(
                        (spec_texts(v@), at - start),
                    ),
                decreases count - i,
            {
                proof {
                    lemma_parse_string_items_more(items, i as nat);
                    assert(items.skip(at - start) =~= b@.skip(at as int));
                }
                match get_string(b, at) {
                    Some((x, next)) => {
                        assert(spec_texts(v@).push(x@) =~= spec_texts(v@.push(x)));
                        v.push(x);
                        at = next;
                    },
                    None => {
                        proof {
                            reveal(spec_parse_strings);
                            lemma_parse_string_items_fails(items, (i + 1) as nat, count as nat);
                        }
                        return None;
                    },
                }
                i += 1;
            }
            Some((v, at))
        },
        None => None,
    }
}

} // verus!
