//! Searching and cutting sequences of characters.
//!
//! Everything here is stated over `Seq<char>`, the view of `str` and
//! `String`, and computed over slices of `char`.

use vstd::prelude::*;
use vstd::slice::slice_subrange;

verus! {

/// `pat` stands in `text` at position `at`.
pub open spec fn occurs_at(text: Seq<char>, pat: Seq<char>, at: int) -> bool {
    &&& 0 <= at
    &&& at + pat.len() <= text.len()
    &&& text.subrange(at, at + pat.len()) == pat
}

/// `pat` stands somewhere in `text`.
pub open spec fn contains(text: Seq<char>, pat: Seq<char>) -> bool {
    exists|at: int| occurs_at(text, pat, at)
}

/// `at` is the first position at which `pat` stands in `text`.
pub open spec fn first_at(text: Seq<char>, pat: Seq<char>, at: int) -> bool {
    &&& occurs_at(text, pat, at)
    &&& forall|j: int| 0 <= j < at ==> !occurs_at(text, pat, j)
}

/// The first position at which `pat` stands in `text`, if there is one.
pub open spec fn find(text: Seq<char>, pat: Seq<char>) -> Option<int> {
    if contains(text, pat) {
        Some(choose|at: int| first_at(text, pat, at))
    } else {
        None
    }
}

/// What precedes the first occurrence of `pat` in `text`: all of `text`
/// where `pat` does not occur.
pub open spec fn before(text: Seq<char>, pat: Seq<char>) -> Seq<char> {
    match find(text, pat) {
        Some(at) => text.take(at),
        None => text,
    }
}

/// What follows the first occurrence of `pat` in `text`.
pub open spec fn after(text: Seq<char>, pat: Seq<char>) -> Option<Seq<char>> {
    match find(text, pat) {
        Some(at) => Some(text.skip(at + pat.len())),
        None => None,
    }
}

/// What follows `pat` where `text` begins with it.
pub open spec fn strip_prefix(text: Seq<char>, pat: Seq<char>) -> Option<Seq<char>> {
    if occurs_at(text, pat, 0) {
        Some(text.skip(pat.len() as int))
    } else {
        None
    }
}

/// What precedes and what follows the first occurrence of `pat` in `text`.
pub open spec fn split_once(text: Seq<char>, pat: Seq<char>) -> Option<(Seq<char>, Seq<char>)> {
    match find(text, pat) {
        Some(at) => Some((text.take(at), text.skip(at + pat.len()))),
        None => None,
    }
}

/// `text` with every occurrence of the character `c` taken out.
pub open spec fn without(text: Seq<char>, c: char) -> Seq<char>
    decreases text.len(),
{
    if text.len() == 0 {
        text
    } else if text.last() == c {
        without(text.drop_last(), c)
    } else {
        without(text.drop_last(), c).push(text.last())
    }
}

/// A first occurrence is the only first occurrence.
pub proof fn lemma_first_at_unique(text: Seq<char>, pat: Seq<char>, a: int, b: int)
    requires
        first_at(text, pat, a),
        first_at(text, pat, b),
    ensures
        a == b,
{
}

/// Where a first occurrence is known, `find` gives it.
pub proof fn lemma_find_is(text: Seq<char>, pat: Seq<char>, at: int)
    requires
        first_at(text, pat, at),
    ensures
        find(text, pat) == Some(at),
{
    let chosen = choose|j: int| first_at(text, pat, j);
    lemma_first_at_unique(text, pat, at, chosen);
}

/// Below every occurrence there is a first one.
pub proof fn lemma_first_exists(text: Seq<char>, pat: Seq<char>, at: int)
    requires
        occurs_at(text, pat, at),
    ensures
        exists|j: int| 0 <= j <= at && first_at(text, pat, j),
    decreases at,
{
    if exists|j: int| 0 <= j < at && occurs_at(text, pat, j) {
        let j = choose|j: int| 0 <= j < at && occurs_at(text, pat, j);
        lemma_first_exists(text, pat, j);
    } else {
        assert(first_at(text, pat, at));
    }
}

/// What `find` gives is a first occurrence, and it gives one whenever
/// `pat` occurs.
pub proof fn lemma_find_first(text: Seq<char>, pat: Seq<char>)
    ensures
        match find(text, pat) {
            Some(at) => first_at(text, pat, at),
            None => forall|j: int| !occurs_at(text, pat, j),
        },
{
    if contains(text, pat) {
        let at = choose|at: int| occurs_at(text, pat, at);
        lemma_first_exists(text, pat, at);
    }
}

/// Where the character `c` does not stand in `head`, the first `c` in
/// `head c tail` is the one between them.
pub proof fn lemma_split_at_char(head: Seq<char>, c: char, tail: Seq<char>)
    requires
        !head.contains(c),
    ensures
        split_once(head + seq![c] + tail, seq![c]) == Some((head, tail)),
{
    let text = head + seq![c] + tail;
    let at = head.len() as int;
    assert(text.subrange(at, at + 1) =~= seq![c]);
    assert forall|j: int| 0 <= j < at implies !occurs_at(text, seq![c], j) by {
        if occurs_at(text, seq![c], j) {
            assert(text.subrange(j, j + 1)[0] == text[j]);
        }
    }
    lemma_find_is(text, seq![c], at);
}

/// What `split_once` gives for the character `c` puts `text` together
/// again, and its first part holds no `c`.
pub proof fn lemma_split_once_char(text: Seq<char>, c: char)
    ensures
        match split_once(text, seq![c]) {
            Some((head, tail)) => text == head + seq![c] + tail && !head.contains(c),
            None => true,
        },
{
    lemma_find_first(text, seq![c]);
    match find(text, seq![c]) {
        Some(at) => {
            let head = text.take(at);
            if head.contains(c) {
                let j = choose|j: int| 0 <= j < head.len() && head[j] == c;
                assert(text.subrange(j, j + 1) =~= seq![c]);
                assert(occurs_at(text, seq![c], j));
            }
        },
        None => {},
    }
}

/// Whether `pat` stands in `text` at `at`.
pub fn starts_at(text: &[char], pat: &[char], at: usize) -> (r: bool)
    ensures
        r == occurs_at(text@, pat@, at as int),
{
    if at > text.len() || pat.len() > text.len() - at {
        return false;
    }
    let mut k: usize = 0;
    while k < pat.len()
        invariant
            k <= pat.len(),
            at + pat.len() <= text.len(),
            text@.subrange(at as int, at + k) == pat@.take(k as int),
        decreases pat.len() - k,
    {
        if text[at + k] != pat[k] {
            return false;
        }
        proof {
            assert(text@.subrange(at as int, at + k + 1) =~= text@.subrange(at as int, at + k).push(
                text@[at + k],
            ));
        }
        k += 1;
    }
    proof {
        assert(pat@.take(pat@.len() as int) =~= pat@);
    }
    true
}

/// The first position at which `pat` stands in `text`.
pub fn find_first(text: &[char], pat: &[char]) -> (r: Option<usize>)
    ensures
        match r {
            Some(at) => find(text@, pat@) == Some(at as int),
            None => find(text@, pat@) is None,
        },
{
    if pat.len() > text.len() {
        return None;
    }
    let last: usize = text.len() - pat.len();
    let mut at: usize = 0;
    loop
        invariant
            last == text.len() - pat.len(),
            at <= last,
            forall|j: int| 0 <= j < at ==> !occurs_at(text@, pat@, j),
        decreases last - at,
    {
        if starts_at(text, pat, at) {
            proof {
                lemma_find_is(text@, pat@, at as int);
            }
            return Some(at);
        }
        if at == last {
            return None;
        }
        at += 1;
    }
}

/// Whether `pat` stands somewhere in `text`.
pub fn includes(text: &[char], pat: &[char]) -> (r: bool)
    ensures
        r == contains(text@, pat@),
{
    find_first(text, pat).is_some()
}

/// The part of `text` before the first occurrence of `pat`.
pub fn part_before<'a>(text: &'a [char], pat: &[char]) -> (r: &'a [char])
    ensures
        r@ == before(text@, pat@),
{
    match find_first(text, pat) {
        Some(at) => {
            proof {
                lemma_find_first(text@, pat@);
            }
            slice_subrange(text, 0, at)
        },
        None => text,
    }
}

/// The part of `text` after the first occurrence of `pat`.
pub fn part_after<'a>(text: &'a [char], pat: &[char]) -> (r: Option<&'a [char]>)
    ensures
        match r {
            Some(rest) => after(text@, pat@) == Some(rest@),
            None => after(text@, pat@) is None,
        },
{
    match find_first(text, pat) {
        Some(at) => {
            let end: usize = text.len();
            proof {
                lemma_find_first(text@, pat@);
            }
            Some(slice_subrange(text, at + pat.len(), end))
        },
        None => None,
    }
}

/// The part of `text` after `pat`, where `text` begins with `pat`.
pub fn part_after_prefix<'a>(text: &'a [char], pat: &[char]) -> (r: Option<&'a [char]>)
    ensures
        match r {
            Some(rest) => strip_prefix(text@, pat@) == Some(rest@),
            None => strip_prefix(text@, pat@) is None,
        },
{
    if starts_at(text, pat, 0) {
        Some(slice_subrange(text, pat.len(), text.len()))
    } else {
        None
    }
}

/// The parts of `text` before and after the first occurrence of `pat`.
pub fn parts_around<'a>(text: &'a [char], pat: &[char]) -> (r: Option<(&'a [char], &'a [char])>)
    ensures
        match r {
            Some((head, tail)) => split_once(text@, pat@) == Some((head@, tail@)),
            None => split_once(text@, pat@) is None,
        },
{
    match find_first(text, pat) {
        Some(at) => {
            let end: usize = text.len();
            proof {
                lemma_find_first(text@, pat@);
            }
            Some((slice_subrange(text, 0, at), slice_subrange(text, at + pat.len(), end)))
        },
        None => None,
    }
}

/// `text` with every occurrence of `c` taken out.
pub fn strip(text: &[char], c: char) -> (r: Vec<char>)
    ensures
        r@ == without(text@, c),
{
    let mut out: Vec<char> = Vec::new();
    let mut i: usize = 0;
    while i < text.len()
        invariant
            i <= text.len(),
            out@ == without(text@.take(i as int), c),
        decreases text.len() - i,
    {
        proof {
            assert(text@.take(i + 1).drop_last() =~= text@.take(i as int));
        }
        if text[i] != c {
            out.push(text[i]);
        }
        i += 1;
    }
    proof {
        assert(text@.take(text@.len() as int) =~= text@);
    }
    out
}

/// The characters of `s`.
pub fn chars_of(s: &str) -> (r: Vec<char>)
    ensures
        r@ == s@,
{
    let mut out: Vec<char> = Vec::new();
    for c in it: s.chars()
        invariant
            it.seq() == s@,
            out@ == s@.take(it.index() as int),
    {
        out.push(c);
    }
    out
}

/// `String::push` of the standard library. Not proved: that it appends the
/// character to the end of the string and changes nothing else.
pub assume_specification[ String::push ](s: &mut String, c: char)
    ensures
        final(s)@ == old(s)@.push(c),
;

/// The string made of the characters `cs`.
pub fn string_of(cs: &[char]) -> (r: String)
    ensures
        r@ == cs@,
{
    let mut out = String::new();
    let mut i: usize = 0;
    while i < cs.len()
        invariant
            i <= cs.len(),
            out@ == cs@.take(i as int),
        decreases cs.len() - i,
    {
        out.push(cs[i]);
        i += 1;
    }
    out
}

} // verus!
