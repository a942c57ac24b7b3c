//! Small text utilities: decimal rendering, splitting and searching.

use vstd::prelude::*;
use vstd::string::*;

verus! {

/// The character of a decimal digit.
pub open spec fn digit_char(digit: nat) -> char
    recommends
        digit < 10,
{
    if digit == 0 {
        '0'
    } else if digit == 1 {
        '1'
    } else if digit == 2 {
        '2'
    } else if digit == 3 {
        '3'
    } else if digit == 4 {
        '4'
    } else if digit == 5 {
        '5'
    } else if digit == 6 {
        '6'
    } else if digit == 7 {
        '7'
    } else if digit == 8 {
        '8'
    } else {
        '9'
    }
}

/// The decimal numeral of `n`, without sign or leading zeros.
pub open spec fn decimal(n: nat) -> Seq<char>
    decreases n,
{
    if n < 10 {
        seq![digit_char(n)]
    } else {
        decimal(n / 10).push(digit_char(n % 10))
    }
}

fn digit_text(digit: u64) -> (r: &'static str)
    requires
        digit < 10,
    ensures
        r@ == seq![digit_char(digit as nat)],
{
    proof {
        reveal_strlit("0");
        reveal_strlit("1");
        reveal_strlit("2");
        reveal_strlit("3");
        reveal_strlit("4");
        reveal_strlit("5");
        reveal_strlit("6");
        reveal_strlit("7");
        reveal_strlit("8");
        reveal_strlit("9");
    }
    let r = if digit == 0 {
        "0"
    } else if digit == 1 {
        "1"
    } else if digit == 2 {
        "2"
    } else if digit == 3 {
        "3"
    } else if digit == 4 {
        "4"
    } else if digit == 5 {
        "5"
    } else if digit == 6 {
        "6"
    } else if digit == 7 {
        "7"
    } else if digit == 8 {
        "8"
    } else {
        "9"
    };
    assert(r@ =~= seq![digit_char(digit as nat)]);
    r
}

/// Renders `n` as a decimal numeral.
pub fn u64_to_decimal(n: u64) -> (r: String)
    ensures
        r@ == decimal(n as nat),
    decreases n,
{
    if n < 10 {
        digit_text(n).to_owned()
    } else {
        let mut r = u64_to_decimal(n / 10);
        r.append(digit_text(n % 10));
        assert(r@ =~= decimal(n as nat));
        r
    }
}

/// Splits `text` at the first occurrence of `delimiter`, as
/// `str::split_once` does: the part before it, which does not hold the
/// delimiter, and the part after it; `None` when the delimiter does not occur.
#[verifier::external_body]
pub(crate) fn split_once<'a>(text: &'a str, delimiter: char) -> (r: Option<(&'a str, &'a str)>)
    ensures
        match r {
            Some((head, tail)) => text@ == head@ + seq![delimiter] + tail@ && !head@.contains(
                delimiter,
            ),
            None => !text@.contains(delimiter),
        },
{
    text.split_once(delimiter)
}

/// The index of the first occurrence of `c` in `s`, or the length of `s` when
/// `c` does not occur.
pub open spec fn find(s: Seq<char>, c: char) -> int
    decreases s.len(),
{
    if s.len() == 0 {
        0
    } else if s[0] == c {
        0
    } else {
        1 + find(s.drop_first(), c)
    }
}

/// What [`find`] returns is in range, nothing before it is `c`, and `c`
/// stands there unless it is the length.
pub proof fn lemma_find(s: Seq<char>, c: char)
    ensures
        0 <= find(s, c) <= s.len(),
        forall|j: int| 0 <= j < find(s, c) ==> s[j] != c,
        find(s, c) < s.len() ==> s[find(s, c)] == c,
        find(s, c) == s.len() <==> !s.contains(c),
    decreases s.len(),
{
    if s.len() == 0 {
    } else if s[0] == c {
    } else {
        let rest = s.drop_first();
        lemma_find(rest, c);
        assert forall|j: int| 0 <= j < find(s, c) implies s[j] != c by {
            if j > 0 {
                assert(s[j] == rest[j - 1]);
            }
        }
        if find(rest, c) < rest.len() {
            assert(s[find(s, c)] == rest[find(rest, c)]);
        } else {
            assert forall|j: int| 0 <= j < s.len() implies s[j] != c by {
                if j > 0 {
                    assert(s[j] == rest[j - 1]);
                    assert(rest.contains(rest[j - 1]));
                }
            }
        }
    }
}

/// A place that nothing equal to `c` precedes, and where `c` stands or `s`
/// ends, is the place [`find`] returns.
pub proof fn lemma_find_is(s: Seq<char>, c: char, k: int)
    requires
        0 <= k <= s.len(),
        forall|j: int| 0 <= j < k ==> s[j] != c,
        k < s.len() ==> s[k] == c,
    ensures
        find(s, c) == k,
{
    lemma_find(s, c);
    let f = find(s, c);
    if f < k {
        assert(s[f] == c);
    } else if f > k {
        assert(s[k] != c);
    }
}

/// The part of `s` before the first `c`; all of `s` when `c` does not occur.
pub open spec fn head_before(s: Seq<char>, c: char) -> Seq<char> {
    s.take(find(s, c))
}

/// The part of `s` after the first `c`; empty when `c` does not occur.
pub open spec fn tail_after(s: Seq<char>, c: char) -> Seq<char> {
    if find(s, c) < s.len() {
        s.skip(find(s, c) + 1)
    } else {
        Seq::empty()
    }
}

/// A text with `c` between a head that is free of `c` and a tail splits
/// into that head and that tail.
pub proof fn lemma_split_joined(head: Seq<char>, c: char, tail: Seq<char>)
    requires
        !head.contains(c),
    ensures
        find(head + seq![c] + tail, c) == head.len(),
        head_before(head + seq![c] + tail, c) == head,
        tail_after(head + seq![c] + tail, c) == tail,
{
    let s = head + seq![c] + tail;
    assert forall|j: int| 0 <= j < head.len() implies s[j] != c by {
        assert(s[j] == head[j]);
        assert(head.contains(head[j]));
    }
    assert(s[head.len() as int] == c);
    lemma_find_is(s, c, head.len() as int);
    assert(s.take(head.len() as int) =~= head);
    assert(s.skip(head.len() as int + 1) =~= tail);
}

/// Splits `text` at the first `delimiter`: the part before it and the part
/// after it, or `None` when the delimiter does not occur.
pub fn split_first<'a>(text: &'a str, delimiter: char) -> (r: Option<(&'a str, &'a str)>)
    ensures
        match r {
            Some((head, tail)) => find(text@, delimiter) < text@.len() && head@ == head_before(
                text@,
                delimiter,
            ) && tail@ == tail_after(text@, delimiter),
            None => find(text@, delimiter) == text@.len(),
        },
{
    let r = split_once(text, delimiter);
    proof {
        lemma_find(text@, delimiter);
        match r {
            Some((head, tail)) => {
                lemma_split_joined(head@, delimiter, tail@);
            },
            None => {},
        }
    }
    r
}

/// Compares two texts with `str::eq`.
#[verifier::external_body]
pub(crate) fn str_equal(first: &str, second: &str) -> (r: bool)
    ensures
        r == (first@ == second@),
{
    first == second
}

/// Joins two texts.
pub fn concat(first: &str, second: &str) -> (r: String)
    ensures
        r@ == first@ + second@,
{
    let mut r = first.to_owned();
    r.append(second);
    r
}

/// The lower-case form of an ASCII letter; every other byte as it is.
pub open spec fn lower(byte: u8) -> u8 {
    if 0x41 <= byte <= 0x5a {
        (byte + 0x20) as u8
    } else {
        byte
    }
}

/// Whether `needle` stands in `haystack` at `at`, letters compared without
/// regard to case. `needle` is taken to be in lower case.
pub open spec fn matches_at(haystack: Seq<u8>, needle: Seq<u8>, at: int) -> bool {
    &&& 0 <= at
    &&& at + needle.len() <= haystack.len()
    &&& forall|j: int| 0 <= j < needle.len() ==> lower(#[trigger] haystack[at + j]) == needle[j]
}

/// Whether `needle` occurs in `haystack`, letters compared without regard
/// to case.
pub open spec fn occurs_ignoring_case(haystack: Seq<u8>, needle: Seq<u8>) -> bool {
    exists|at: int| matches_at(haystack, needle, at)
}

fn to_lower(byte: u8) -> (r: u8)
    ensures
        r == lower(byte),
{
    if 0x41 <= byte && byte <= 0x5a {
        byte + 0x20
    } else {
        byte
    }
}

fn stands_at(haystack: &[u8], needle: &[u8], at: usize) -> (r: bool)
    requires
        at + needle@.len() <= haystack@.len(),
    ensures
        r == matches_at(haystack@, needle@, at as int),
{
    let mut j: usize = 0;
    let length = haystack.len();
    while j < needle.len()
        invariant
            j <= needle@.len(),
            length == haystack@.len(),
            at + needle@.len() <= haystack@.len(),
            forall|k: int| 0 <= k < j ==> lower(#[trigger] haystack@[at + k]) == needle@[k],
        decreases needle@.len() - j,
    {
        if to_lower(haystack[at + j]) != needle[j] {
            assert(lower(haystack@[at + j]) != needle@[j as int]);
            return false;
        }
        j += 1;
    }
    true
}

/// Searches `haystack` for `needle`, which is in lower case, comparing
/// letters without regard to case.
pub fn contains_ignoring_case(haystack: &[u8], needle: &[u8]) -> (r: bool)
    ensures
        r == occurs_ignoring_case(haystack@, needle@),
{
    if needle.len() > haystack.len() {
        assert forall|at: int| !matches_at(haystack@, needle@, at) by {}
        return false;
    }
    let last: usize = haystack.len() - needle.len();
    let mut at: usize = 0;
    while at < last
        invariant
            at <= last,
            last == haystack@.len() - needle@.len(),
            forall|k: int| 0 <= k < at ==> !matches_at(haystack@, needle@, k),
        decreases last - at,
    {
        if stands_at(haystack, needle, at) {
            return true;
        }
        at += 1;
    }
    let r = stands_at(haystack, needle, last);
    if !r {
        assert forall|k: int| !matches_at(haystack@, needle@, k) by {}
    }
    r
}

/// Copies a list of texts.
pub fn clone_strings(texts: &Vec<String>) -> (r: Vec<String>)
    ensures
        r.deep_view() == texts.deep_view(),
{
    let mut r: Vec<String> = Vec::new();
    let mut i: usize = 0;
    while i < texts.len()
        invariant
            i <= texts.len(),
            r.len() == i,
            forall|k: int| 0 <= k < i ==> (#[trigger] r[k])@ == texts[k]@,
        decreases texts.len() - i,
    {
        r.push(texts[i].clone());
        i += 1;
    }
    assert(r.deep_view() =~= texts.deep_view());
    r
}

} // verus!
