//! Matching of version requirements against versions.

use vstd::prelude::*;
use vstd::string::StrSliceExecFns;
use vstd::string::StringExecFns;

verus! {

/// The style in which a project states the versions it requires.
#[derive(Debug, Copy, Clone, Ord, PartialOrd, Eq, PartialEq)]
pub enum Style {
    Native,
    Maven,
}

impl Style {
    /// Whether `version` meets the requirement `range`. A Maven requirement
    /// names one version: it is met by that version and no other.
    pub fn matches(&self, range: &str, version: &str) -> (b: bool)
        requires
            self is Maven,
        ensures
            b == (range@ == version@),
    {
        let range = String::from_str(range);
        let version = String::from_str(version);
        range == version
    }
}

/// The kinds of character that a version is made of.
#[derive(Debug, PartialEq, Eq, Clone, Copy, Structural)]
pub enum CharType {
    Digit,
    Decimal,
    Other,
}

/// Whether `c` is one of the ten decimal digits.
pub open spec fn spec_is_digit(c: char) -> bool {
    c == '0' || c == '1' || c == '2' || c == '3' || c == '4' || c == '5' || c == '6' || c == '7'
        || c == '8' || c == '9'
}

impl CharType {
    /// The kind of `c`: a decimal digit, the point, or anything else.
    pub fn get(c: char) -> (t: CharType)
        ensures
            t == spec_char_type(c),
    {
        if c == '0' || c == '1' || c == '2' || c == '3' || c == '4' || c == '5' || c == '6' || c
            == '7' || c == '8' || c == '9' {
            CharType::Digit
        } else if c == '.' {
            CharType::Decimal
        } else {
            CharType::Other
        }
    }
}

/// The kind of a character.
pub open spec fn spec_char_type(c: char) -> CharType {
    if spec_is_digit(c) {
        CharType::Digit
    } else if c == '.' {
        CharType::Decimal
    } else {
        CharType::Other
    }
}

/// One part of a version: a number, a point, or a run of other characters.
#[derive(Debug, Clone, Eq, PartialEq)]
pub enum Component {
    Number(usize),
    Decimal,
    Other(String),
}

/// The mathematical value of a part of a version.
pub enum ComponentView {
    Number(nat),
    Decimal,
    Other(Seq<char>),
}

impl View for Component {
    type V = ComponentView;

    open spec fn view(&self) -> ComponentView {
        match *self {
            Component::Number(n) => ComponentView::Number(n as nat),
            Component::Decimal => ComponentView::Decimal,
            Component::Other(s) => ComponentView::Other(s@),
        }
    }
}

/// The number of leading characters of `s` that are of kind `t`.
pub open spec fn spec_run(s: Seq<char>, t: CharType) -> nat
    decreases s.len(),
{
    if s.len() == 0 || spec_char_type(s[0]) != t {
        0
    } else {
        1 + spec_run(s.skip(1), t)
    }
}

/// The value of a decimal digit.
pub open spec fn spec_digit_value(c: char) -> nat {
    if c == '1' {
        1
    } else if c == '2' {
        2
    } else if c == '3' {
        3
    } else if c == '4' {
        4
    } else if c == '5' {
        5
    } else if c == '6' {
        6
    } else if c == '7' {
        7
    } else if c == '8' {
        8
    } else if c == '9' {
        9
    } else {
        0
    }
}

/// The number that a run of decimal digits spells.
pub open spec fn spec_value(digits: Seq<char>) -> nat
    decreases digits.len(),
{
    if digits.len() == 0 {
        0
    } else {
        10 * spec_value(digits.drop_last()) + spec_digit_value(digits.last())
    }
}

/// The first part of a version and what is left behind it; `None` for the
/// empty text. A point is a part of its own; digits and other characters
/// form the longest run of their kind.
pub open spec fn spec_first(s: Seq<char>) -> Option<(ComponentView, Seq<char>)> {
    if s.len() == 0 {
        None
    } else {
        let t = spec_char_type(s[0]);
        let n = spec_run(s, t) as int;
        match t {
            CharType::Decimal => Some((ComponentView::Decimal, s.skip(1))),
            CharType::Digit => Some((ComponentView::Number(spec_value(s.take(n))), s.skip(n))),
            CharType::Other => Some((ComponentView::Other(s.take(n)), s.skip(n))),
        }
    }
}

/// Whether the first part of the version can be taken: if it is a number,
/// the number must be one that the machine can hold.
pub open spec fn spec_first_fits(s: Seq<char>) -> bool {
    spec_first(s) matches Some((ComponentView::Number(n), _)) ==> n <= usize::MAX
}

/// The parts of a version, handed out one by one from the front.
pub struct Components {
    s: String,
    at: usize,
}

impl View for Components {
    type V = Seq<char>;

    /// What is left of the version.
    closed spec fn view(&self) -> Seq<char> {
        self.s@.skip(self.at as int)
    }
}

impl Components {
    /// The invariant of the parts: what was handed out lies within the
    /// version.
    pub closed spec fn wf(&self) -> bool {
        self.at <= self.s@.len()
    }
}

/// The parts of the version `version`.
pub fn components(version: &str) -> (c: Components)
    ensures
        c.wf(),
        c@ == version@,
{
    let c = Components { s: String::from_str(version), at: 0 };
    assert(c@ =~= version@);
    c
}

proof fn lemma_run_step(s: Seq<char>, t: CharType, k: int)
    requires
        0 <= k <= s.len(),
        forall|j: int| 0 <= j < k ==> spec_char_type(s[j]) == t,
    ensures
        spec_run(s, t) == k + spec_run(s.skip(k), t),
    decreases k,
{
    if k > 0 {
        assert(spec_char_type(s[0]) == t);
        assert forall|j: int| 0 <= j < k - 1 implies spec_char_type(s.skip(1)[j]) == t by {
            assert(s.skip(1)[j] == s[j + 1]);
        }
        lemma_run_step(s.skip(1), t, k - 1);
        assert(s.skip(1).skip(k - 1) =~= s.skip(k));
    } else {
        assert(s.skip(0) =~= s);
    }
}

fn digit_value(c: char) -> (v: usize)
    ensures
        v == spec_digit_value(c),
        v <= 9,
{
    if c == '1' {
        1
    } else if c == '2' {
        2
    } else if c == '3' {
        3
    } else if c == '4' {
        4
    } else if c == '5' {
        5
    } else if c == '6' {
        6
    } else if c == '7' {
        7
    } else if c == '8' {
        8
    } else if c == '9' {
        9
    } else {
        0
    }
}

proof fn lemma_value_grows(digits: Seq<char>, k: int)
    requires
        0 <= k <= digits.len(),
    ensures
        spec_value(digits.take(k)) <= spec_value(digits),
    decreases digits.len() - k,
{
    if k < digits.len() {
        lemma_value_grows(digits, k + 1);
        assert(digits.take(k + 1).drop_last() =~= digits.take(k));
    } else {
        assert(digits.take(k) =~= digits);
    }
}

impl Components {
    /// Whether the next part can be taken: see [`spec_first_fits`].
    pub fn fits(&self) -> (b: bool)
        requires
            self.wf(),
        ensures
            b == spec_first_fits(self@),
    {
        let n = self.s.as_str().unicode_len();
        if self.at >= n {
            return true;
        }
        let ghost rest = self@;
        let first = self.s.as_str().get_char(self.at);
        assert(rest[0] == first);
        match CharType::get(first) {
            CharType::Digit => {},
            _ => {
                return true;
            },
        }
        let mut end: usize = self.at;
        let mut value: usize = 0;
        while end < n && CharType::get(self.s.as_str().get_char(end)) == CharType::Digit
            invariant
                self.at <= end <= n,
                n == self.s@.len(),
                rest == self.s@.skip(self.at as int),
                forall|j: int| 0 <= j < end - self.at ==> spec_char_type(rest[j]) == CharType::Digit,
                value == spec_value(rest.take(end - self.at)),
            ensures
                self.at <= end <= n,
                forall|j: int| 0 <= j < end - self.at ==> spec_char_type(rest[j]) == CharType::Digit,
                end < n ==> spec_char_type(rest[end - self.at]) != CharType::Digit,
                value == spec_value(rest.take(end - self.at)),
            decreases n - end,
        {
            let c = self.s.as_str().get_char(end);
            assert(rest[end - self.at] == c);
            let d = digit_value(c);
            let ghost so_far = rest.take(end - self.at);
            let ghost longer = rest.take(end - self.at + 1);
            assert(longer.drop_last() =~= so_far);
            assert(longer.last() == c);
            if value > (usize::MAX - d) / 10 {
                proof {
                    lemma_run_step(rest, CharType::Digit, end - self.at + 1);
                    let whole = rest.take(spec_run(rest, CharType::Digit) as int);
                    lemma_run_bound(rest, CharType::Digit);
                    assert(whole.take(end - self.at + 1) =~= longer);
                    lemma_value_grows(whole, end - self.at + 1);
                }
                return false;
            }
            value = value * 10 + d;
            end += 1;
        }
        proof {
            lemma_run_step(rest, CharType::Digit, end - self.at);
            if end < n {
                assert(rest.skip(end - self.at)[0] == rest[end - self.at]);
            }
        }
        true
    }

    /// Takes the next part from the front of what is left; `None` when
    /// nothing is left.
    pub fn next(&mut self) -> (r: Option<Component>)
        requires
            old(self).wf(),
            spec_first_fits(old(self)@),
        ensures
            final(self).wf(),
            match spec_first(old(self)@) {
                None => r is None && final(self)@ == old(self)@,
                Some((c, rest)) => r matches Some(x) && x@ == c && final(self)@ == rest,
            },
    {
        let n = self.s.as_str().unicode_len();
        if self.at >= n {
            return None;
        }
        let ghost rest = self@;
        let start = self.at;
        let first = self.s.as_str().get_char(start);
        assert(rest[0] == first);
        let t = CharType::get(first);
        match t {
            CharType::Decimal => {
                self.at = start + 1;
                assert(self@ =~= rest.skip(1));
                return Some(Component::Decimal);
            },
            _ => {},
        }
        let ghost kind = spec_char_type(first);
        let digits = t == CharType::Digit;
        let mut end: usize = start;
        let mut value: usize = 0;
        while end < n && CharType::get(self.s.as_str().get_char(end)) == t
            invariant
                start <= end <= n,
                n == self.s@.len(),
                self.at == start,
                rest == self.s@.skip(start as int),
                kind == spec_char_type(first),
                kind != CharType::Decimal,
                t == kind,
                digits == (kind == CharType::Digit),
                spec_first_fits(rest),
                rest.len() > 0 && rest[0] == first,
                forall|j: int| 0 <= j < end - start ==> spec_char_type(rest[j]) == kind,
                digits ==> value == spec_value(rest.take(end - start)),
            ensures
                start <= end <= n,
                self.at == start,
                forall|j: int| 0 <= j < end - start ==> spec_char_type(rest[j]) == kind,
                end < n ==> spec_char_type(rest[end - start]) != kind,
                digits ==> value == spec_value(rest.take(end - start)),
            decreases n - end,
        {
            let c = self.s.as_str().get_char(end);
            assert(rest[end - start] == c);
            if digits {
                let d = digit_value(c);
                let ghost so_far = rest.take(end - start);
                let ghost longer = rest.take(end - start + 1);
                assert(longer.drop_last() =~= so_far);
                assert(longer.last() == c);
                proof {
                    lemma_run_step(rest, CharType::Digit, end - start + 1);
                    let whole = rest.take(spec_run(rest, CharType::Digit) as int);
                    lemma_run_bound(rest, CharType::Digit);
                    assert(whole.take(end - start + 1) =~= longer);
                    lemma_value_grows(whole, end - start + 1);
                }
                value = value * 10 + d;
            }
            end += 1;
        }
        proof {
            lemma_run_step(rest, kind, end - start);
            if end < n {
                assert(rest.skip(end - start)[0] == rest[end - start]);
            }
        }
        let r = if digits {
            Component::Number(value)
        } else {
            let text = self.s.as_str().substring_char(start, end);
            assert(text@ =~= rest.take(end - start));
            Component::Other(String::from_str(text))
        };
        self.at = end;
        assert(self@ =~= rest.skip(end - start));
        Some(r)
    }
}

proof fn lemma_run_bound(s: Seq<char>, t: CharType)
    ensures
        spec_run(s, t) <= s.len(),
    decreases s.len(),
{
    if s.len() > 0 && spec_char_type(s[0]) == t {
        lemma_run_bound(s.skip(1), t);
    }
}

} // verus!
