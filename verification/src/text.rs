//! Small helpers on texts and lists of texts.

use crate::wire::spec_texts;
use vstd::prelude::*;
use vstd::string::StringExecFns;

verus! {

/// The character of a decimal digit.
pub open spec fn spec_digit(d: nat) -> char {
    if d == 0 {
        '0'
    } else if d == 1 {
        '1'
    } else if d == 2 {
        '2'
    } else if d == 3 {
        '3'
    } else if d == 4 {
        '4'
    } else if d == 5 {
        '5'
    } else if d == 6 {
        '6'
    } else if d == 7 {
        '7'
    } else if d == 8 {
        '8'
    } else {
        '9'
    }
}

/// The decimal numeral of `n`, without leading zeros.
pub open spec fn spec_decimal(n: nat) -> Seq<char>
    decreases n,
{
    if n < 10 {
        seq![spec_digit(n)]
    } else {
        spec_decimal(n / 10).push(spec_digit(n % 10))
    }
}

fn digit_str(d: u64) -> (s: &'static str)
    requires
        d < 10,
    ensures
        s@ == seq![spec_digit(d as nat)],
{
    proof {
        reveal_strlit("0");
        reveal_strlit("1");
        reveal_strlit("2");
        reveal_strlit("3");
        reveal_strlit("4");
        reveal_strlit("5");
        reveal_strlit("6");
        reveal_strlit("7");
        reveal_strlit("8");
        reveal_strlit("9");
    }
    let s = if d == 0 {
        "0"
    } else if d == 1 {
        "1"
    } else if d == 2 {
        "2"
    } else if d == 3 {
        "3"
    } else if d == 4 {
        "4"
    } else if d == 5 {
        "5"
    } else if d == 6 {
        "6"
    } else if d == 7 {
        "7"
    } else if d == 8 {
        "8"
    } else {
        "9"
    };
    assert(s@ =~= seq![spec_digit(d as nat)]);
    s
}

/// The decimal numeral of `n`.
pub fn decimal(n: u64) -> (s: String)
    ensures
        s@ == spec_decimal(n as nat),
    decreases n,
{
    if n < 10 {
        String::from_str(digit_str(n))
    } else {
        let mut s = decimal(n / 10);
        s.append(digit_str(n % 10));
        assert(s@ =~= spec_decimal(n as nat));
        s
    }
}

/// Appends copies of `items` to `out`, in order.
pub fn push_all(out: &mut Vec<String>, items: &[String])
    ensures
        spec_texts(final(out)@) == spec_texts(old(out)@) + spec_texts(items@),
{
    let mut i: usize = 0;
    assert(spec_texts(items@).take(0) =~= Seq::empty());
    assert(spec_texts(out@) =~= spec_texts(old(out)@) + spec_texts(items@).take(0));
    while i < items.len()
        invariant
            i <= items@.len(),
            spec_texts(out@) == spec_texts(old(out)@) + spec_texts(items@).take(i as int),
        decreases items@.len() - i,
    {
        let ghost before = spec_texts(out@);
        out.push(items[i].clone());
        assert(spec_texts(out@) =~= before.push(items@[i as int]@));
        i += 1;
        assert(spec_texts(out@) =~= spec_texts(old(out)@) + spec_texts(items@).take(i as int));
    }
    assert(spec_texts(items@).take(i as int) =~= spec_texts(items@));
}

/// A copy of a list of texts.
pub fn clone_strings(items: &[String]) -> (out: Vec<String>)
    ensures
        spec_texts(out@) == spec_texts(items@),
{
    let mut out: Vec<String> = Vec::new();
    assert(spec_texts(out@) =~= Seq::empty());
    push_all(&mut out, items);
    assert(spec_texts(out@) =~= spec_texts(items@));
    out
}

/// `String::push`: appends one character to a text.
#[verifier::external_body]
pub(crate) fn string_push(s: &mut String, c: char)
    ensures
        final(s)@ == old(s)@.push(c),
{
    s.push(c)
}

/// The position of the first `c` in `s`, if there is one.
pub fn find_char(s: &str, c: char) -> (r: Option<usize>)
    ensures
        r matches Some(i) ==> i < s@.len() && s@[i as int] == c && forall|j: int|
            0 <= j < i ==> s@[j] != c,
        r is None ==> forall|j: int| 0 <= j < s@.len() ==> s@[j] != c,
{
    let n = s.unicode_len();
    let mut i: usize = 0;
    while i < n
        invariant
            i <= n,
            n == s@.len(),
            forall|j: int| 0 <= j < i ==> s@[j] != c,
        decreases n - i,
    {
        if s.get_char(i) == c {
            return Some(i);
        }
        i += 1;
    }
    None
}

/// The text of `s` with every `from` replaced by `to`.
pub open spec fn spec_replace(s: Seq<char>, from: char, to: char) -> Seq<char> {
    Seq::new(s.len(), |i: int| if s[i] == from { to } else { s[i] })
}

/// A copy of `s` with every `from` replaced by `to`.
pub fn replace_char(s: &str, from: char, to: char) -> (r: String)
    ensures
        r@ == spec_replace(s@, from, to),
{
    let n = s.unicode_len();
    let mut r = String::new();
    let mut i: usize = 0;
    while i < n
        invariant
            i <= n,
            n == s@.len(),
            r@ == spec_replace(s@, from, to).take(i as int),
        decreases n - i,
    {
        let c = s.get_char(i);
        string_push(&mut r, if c == from { to } else { c });
        i += 1;
        assert(r@ =~= spec_replace(s@, from, to).take(i as int));
    }
    assert(spec_replace(s@, from, to).take(i as int) =~= spec_replace(s@, from, to));
    r
}

} // verus!
