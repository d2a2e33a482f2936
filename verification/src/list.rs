//! The byte encoding of lists: the number of items as eight bytes, then
//! each item, for any kind of item that has an encoding of its own.

use crate::wire::{get_u64, lemma_u64_roundtrip, put_u64, spec_parse_u64, spec_u64, Parsed};
use vstd::prelude::*;

verus! {

/// A value with a byte encoding: a spec function that gives the encoding of
/// its view, one that reads a view back from the front of a byte sequence,
/// and executable functions that do the same on values.
pub trait Wire: View + Sized {
    /// Whether the value is small enough to be encoded.
    spec fn spec_fits(v: Self::V) -> bool;

    /// The encoding.
    spec fn spec_put(v: Self::V) -> Seq<u8>;

    /// The value at the front of `b` and the number of bytes it takes, or
    /// `None` where the bytes are not an encoding.
    spec fn spec_get(b: Seq<u8>) -> Parsed<Self::V>;

    /// Reading an encoding gives the value back, whatever follows it.
    proof fn lemma_roundtrip(v: Self::V, rest: Seq<u8>)
        requires
            Self::spec_fits(v),
        ensures
            Self::spec_get(Self::spec_put(v) + rest) == Some(
                (v, Self::spec_put(v).len() as int),
            ),
    ;

    /// A value that was read lies within the bytes it was read from.
    proof fn lemma_bounds(b: Seq<u8>)
        ensures
            Self::spec_get(b) matches Some((_, n)) ==> 0 <= n <= b.len(),
    ;

    /// Appends the encoding of the value to `out`. Every value that
    /// exists can be encoded.
    fn put(&self, out: &mut Vec<u8>)
        ensures
            final(out)@ == old(out)@ + Self::spec_put(self@),
            Self::spec_fits(self@),
    ;

    /// Reads a value at `pos`: the value and the position behind it.
    fn get(b: &[u8], pos: usize) -> (r: Option<(Self, usize)>)
        requires
            pos <= b@.len(),
        ensures
            r matches Some((v, next)) ==> Self::spec_get(b@.skip(pos as int)) == Some(
                (v@, next - pos),
            ) && pos <= next <= b@.len(),
            r is None ==> Self::spec_get(b@.skip(pos as int)) is None,
    ;
}

/// The views of a list of values.
pub open spec fn spec_views<T: View>(v: Seq<T>) -> Seq<T::V> {
    Seq::new(v.len(), |i: int| v[i]@)
}

/// Whether every item of a list can be encoded.
pub open spec fn spec_items_fit<T: Wire>(v: Seq<T::V>) -> bool {
    forall|i: int| 0 <= i < v.len() ==> T::spec_fits(#[trigger] v[i])
}

/// The encodings of the items of `v`, one after the other.
pub open spec fn spec_items<T: Wire>(v: Seq<T::V>) -> Seq<u8>
    decreases v.len(),
{
    if v.len() == 0 {
        Seq::empty()
    } else {
        T::spec_put(v[0]) + spec_items::<T>(v.skip(1))
    }
}

/// Reads `count` items from the front of `b`.
pub open spec fn spec_parse_items<T: Wire>(b: Seq<u8>, count: nat) -> Parsed<Seq<T::V>>
    decreases count,
{
    if count == 0 {
        Some((Seq::empty(), 0))
    } else {
        match T::spec_get(b) {
            Some((first, n)) => match spec_parse_items::<T>(b.skip(n), (count - 1) as nat) {
                Some((rest, m)) => Some((seq![first] + rest, n + m)),
                None => None,
            },
            None => None,
        }
    }
}

/// The encoding of a list.
pub open spec fn spec_list<T: Wire>(v: Seq<T::V>) -> Seq<u8> {
    spec_u64(v.len() as u64) + spec_items::<T>(v)
}

/// The list at the front of `b` and the number of bytes it takes.
pub open spec fn spec_parse_list<T: Wire>(b: Seq<u8>) -> Parsed<Seq<T::V>> {
    match spec_parse_u64(b) {
        Some((count, n)) => match spec_parse_items::<T>(b.skip(n), count as nat) {
            Some((v, m)) => Some((v, n + m)),
            None => None,
        },
        None => None,
    }
}

pub proof fn lemma_items_roundtrip<T: Wire>(v: Seq<T::V>, rest: Seq<u8>)
    requires
        spec_items_fit::<T>(v),
    ensures
        spec_parse_items::<T>(spec_items::<T>(v) + rest, v.len()) == Some(
            (v, spec_items::<T>(v).len() as int),
        ),
    decreases v.len(),
{
    if v.len() > 0 {
        let tail = spec_items::<T>(v.skip(1)) + rest;
        let b = spec_items::<T>(v) + rest;
        assert(T::spec_fits(v[0]));
        T::lemma_roundtrip(v[0], tail);
        assert(b =~= T::spec_put(v[0]) + tail);
        assert(b.skip(T::spec_put(v[0]).len() as int) =~= tail);
        assert(spec_items_fit::<T>(v.skip(1))) by {
            assert forall|i: int| 0 <= i < v.skip(1).len() implies T::spec_fits(
                #[trigger] v.skip(1)[i],
            ) by {
                assert(v.skip(1)[i] == v[i + 1]);
            }
        }
        lemma_items_roundtrip::<T>(v.skip(1), rest);
        assert(seq![v[0]] + v.skip(1) =~= v);
    } else {
        assert(v =~= Seq::empty());
    }
}

/// Reading the encoding of a list gives the list back, whatever follows it.
pub proof fn lemma_list_roundtrip<T: Wire>(v: Seq<T::V>, rest: Seq<u8>)
    requires
        v.len() <= u64::MAX,
        spec_items_fit::<T>(v),
    ensures
        spec_parse_list::<T>(spec_list::<T>(v) + rest) == Some(
            (v, spec_list::<T>(v).len() as int),
        ),
{
    let b = spec_list::<T>(v) + rest;
    lemma_u64_roundtrip(v.len() as u64, spec_items::<T>(v) + rest);
    assert(b =~= spec_u64(v.len() as u64) + (spec_items::<T>(v) + rest));
    assert(b.skip(8) =~= spec_items::<T>(v) + rest);
    lemma_items_roundtrip::<T>(v, rest);
}

pub proof fn lemma_items_push<T: Wire>(v: Seq<T::V>, x: T::V)
    ensures
        spec_items::<T>(v.push(x)) == spec_items::<T>(v) + T::spec_put(x),
    decreases v.len(),
{
    reveal_with_fuel(spec_items, 2);
    if v.len() == 0 {
        assert(v.push(x).skip(1) =~= Seq::<T::V>::empty());
        assert(spec_items::<T>(v.push(x)) =~= spec_items::<T>(v) + T::spec_put(x));
    } else {
        assert(v.push(x).skip(1) =~= v.skip(1).push(x));
        lemma_items_push::<T>(v.skip(1), x);
        assert(spec_items::<T>(v.push(x)) =~= spec_items::<T>(v) + T::spec_put(x));
    }
}

/// Reading one more item behind `i` items that were read.
pub proof fn lemma_parse_items_more<T: Wire>(b: Seq<u8>, i: nat)
    requires
        spec_parse_items::<T>(b, i) is Some,
    ensures
        ({
            let (v, n) = spec_parse_items::<T>(b, i).unwrap();
            &&& 0 <= n <= b.len()
            &&& v.len() == i
            &&& spec_parse_items::<T>(b, i + 1) == match T::spec_get(b.skip(n)) {
                Some((x, m)) => Some((v.push(x), n + m)),
                None => None,
            }
        }),
    decreases i,
{
    reveal_with_fuel(spec_parse_items, 2);
    T::lemma_bounds(b);
    if i == 0 {
        assert(b.skip(0) =~= b);
        match T::spec_get(b) {
            Some((x, m)) => {
                assert(seq![x] + Seq::<T::V>::empty() =~= Seq::<T::V>::empty().push(x));
            },
            None => {},
        }
    } else {
        let (first, k) = T::spec_get(b).unwrap();
        lemma_parse_items_more::<T>(b.skip(k), (i - 1) as nat);
        T::lemma_bounds(b.skip(k));
        let (rest, n1) = spec_parse_items::<T>(b.skip(k), (i - 1) as nat).unwrap();
        assert(b.skip(k).skip(n1) =~= b.skip(k + n1));
        T::lemma_bounds(b.skip(k + n1));
        match T::spec_get(b.skip(k + n1)) {
            Some((x, m)) => {
                assert(seq![first] + rest.push(x) =~= (seq![first] + rest).push(x));
            },
            None => {},
        }
    }
}

/// Once reading `i` items fails, reading more fails too.
pub proof fn lemma_parse_items_fails<T: Wire>(b: Seq<u8>, i: nat, count: nat)
    requires
        spec_parse_items::<T>(b, i) is None,
        i <= count,
    ensures
        spec_parse_items::<T>(b, count) is None,
    decreases count,
{
    if i < count {
        if i == 0 {
        } else {
            match T::spec_get(b) {
                Some((first, k)) => {
                    lemma_parse_items_fails::<T>(b.skip(k), (i - 1) as nat, (count - 1) as nat);
                },
                None => {},
            }
        }
    }
}

/// A list that was read lies within the bytes it was read from.
pub proof fn lemma_parse_list_bounds<T: Wire>(b: Seq<u8>)
    ensures
        spec_parse_list::<T>(b) matches Some((_, n)) ==> 0 <= n <= b.len(),
{
    reveal(spec_parse_u64);
    match spec_parse_u64(b) {
        Some((count, n)) => {
            if spec_parse_items::<T>(b.skip(n), count as nat) is Some {
                lemma_parse_items_more::<T>(b.skip(n), count as nat);
            }
        },
        None => {},
    }
}

/// Appends the encoding of a list to `out`.
pub fn put_list<T: Wire>(out: &mut Vec<u8>, v: &Vec<T>)
    ensures
        final(out)@ == old(out)@ + spec_list::<T>(spec_views(v@)),
        v@.len() <= u64::MAX,
        spec_items_fit::<T>(spec_views(v@)),
{
    put_u64(out, v.len() as u64);
    let mut i: usize = 0;
    assert(spec_views(v@).take(0) =~= Seq::<T::V>::empty());
    assert(out@ =~= old(out)@ + spec_u64(v.len() as u64) + spec_items::<T>(
        spec_views(v@).take(0),
    ));
    while i < v.len()
        invariant
            i <= v.len(),
            out@ == old(out)@ + spec_u64(v.len() as u64) + spec_items::<T>(
                spec_views(v@).take(i as int),
            ),
            forall|k: int| 0 <= k < i ==> T::spec_fits(#[trigger] spec_views(v@)[k]),
        decreases v.len() - i,
    {
        proof {
            lemma_items_push::<T>(spec_views(v@).take(i as int), v[i as int]@);
            assert(spec_views(v@).take(i as int).push(v[i as int]@) =~= spec_views(v@).take(i + 1));
        }
        v[i].put(out);
        i += 1;
        assert(out@ =~= old(out)@ + spec_u64(v.len() as u64) + spec_items::<T>(
            spec_views(v@).take(i as int),
        ));
    }
    assert(spec_views(v@).take(i as int) =~= spec_views(v@));
    assert(out@ =~= old(out)@ + spec_list::<T>(spec_views(v@)));
}

/// Reads a list at `pos`: the list and the position behind it.
pub fn get_list<T: Wire>(b: &[u8], pos: usize) -> (r: Option<(Vec<T>, usize)>)
    requires
        pos <= b@.len(),
    ensures
        r matches Some((v, next)) ==> spec_parse_list::<T>(b@.skip(pos as int)) == Some(
            (spec_views(v@), next - pos),
        ) && pos <= next <= b@.len(),
        r is None ==> spec_parse_list::<T>(b@.skip(pos as int)) is None,
{
    match get_u64(b, pos) {
        Some((count, start)) => {
            let ghost items = b@.skip(start as int);
            assert(b@.skip(pos as int).skip(start - pos) =~= items);
            let mut v: Vec<T> = Vec::new();
            let mut at: usize = start;
            let mut i: u64 = 0;
            assert(spec_views(v@) =~= Seq::<T::V>::empty());
            while i < count
                invariant
                    i <= count,
                    start <= at <= b@.len(),
                    items == b@.skip(start as int),
                    pos <= start,
                    items == b@.skip(pos as int).skip(start - pos),
                    spec_parse_u64(b@.skip(pos as int)) == Some((count, start - pos)),
                    spec_parse_items::<T>(items, i as nat) == Some((spec_views(v@), at - start)),
                decreases count - i,
            {
                proof {
                    lemma_parse_items_more::<T>(items, i as nat);
                    assert(items.skip(at - start) =~= b@.skip(at as int));
                }
                match T::get(b, at) {
                    Some((x, next)) => {
                        assert(spec_views(v@).push(x@) =~= spec_views(v@.push(x)));
                        v.push(x);
                        at = next;
                    },
                    None => {
                        proof {
                            lemma_parse_items_fails::<T>(items, (i + 1) as nat, count as nat);
                        }
                        return None;
                    },
                }
                i += 1;
            }
            Some((v, at))
        },
        None => None,
    }
}

} // verus!
