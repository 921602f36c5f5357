//! Telling which video the caller means.
//!
//! The caller gives either a bare identifier or an address that holds one.
//! In an address an identifier is a row of exactly eleven identifier
//! characters: it ends where the text ends or before a character that no
//! identifier holds. A longer row is no identifier, and no part of it is
//! taken for one.
//!
//! The addresses understood are those of `RE_YOUTUBE`, read as a search for
//! the leftmost match that prefers, where several readings start at one
//! place, the earlier alternative and the longer repetition:
//!
//! * `youtu.be/<id>`
//! * `youtube.com/<segment>/<more>/<id>`
//! * `youtube.com/v/<id>`, `youtube.com/e/<id>`, `youtube.com/embed/<id>`
//! * `youtube.com/<anything>?v=<id>` and `youtube.com/<anything>&v=<id>`
//!
//! This module states that reading over sequences of characters and
//! computes it.

use crate::text::{chars_of, occurs_at, starts_at, string_of};
use vstd::prelude::*;
use vstd::slice::slice_subrange;

verus! {

/// The number of characters of a video identifier.
pub const ID_LENGTH: usize = 11;

/// White space, as Unicode defines it.
pub open spec fn is_space(c: char) -> bool {
    let n = c as u32;
    ||| 0x09 <= n <= 0x0d
    ||| n == 0x20
    ||| n == 0x85
    ||| n == 0xa0
    ||| n == 0x1680
    ||| 0x2000 <= n <= 0x200a
    ||| n == 0x2028
    ||| n == 0x2029
    ||| n == 0x202f
    ||| n == 0x205f
    ||| n == 0x3000
}

/// A character that may stand in an identifier: any but `"`, `&`, `?`, `/`
/// and white space.
pub open spec fn is_id_char(c: char) -> bool {
    c != '"' && c != '&' && c != '?' && c != '/' && !is_space(c)
}

/// An identifier stands in `t` at `at`: eleven identifier characters, and
/// then the end of `t` or a character that no identifier holds. A longer
/// row of identifier characters is no identifier, and no part of it is one.
pub open spec fn id_at(t: Seq<char>, at: int) -> bool {
    &&& 0 <= at
    &&& at + ID_LENGTH <= t.len()
    &&& forall|k: int| at <= k < at + ID_LENGTH ==> is_id_char(#[trigger] t[k])
    &&& at + ID_LENGTH == t.len() || !is_id_char(t[at + ID_LENGTH])
}

/// The host name that opens a long address.
pub open spec fn host() -> Seq<char> {
    "youtube.com/"@
}

/// The host name that opens a short address.
pub open spec fn short_host() -> Seq<char> {
    "youtu.be/"@
}

/// No line ends in `t` between `from` and `to`.
pub open spec fn one_line(t: Seq<char>, from: int, to: int) -> bool {
    forall|k: int| from <= k < to ==> #[trigger] t[k] != '\n'
}

/// The first path segment, which starts at `p`, is not empty and ends
/// before a slash at `q`.
pub open spec fn segment_end(t: Seq<char>, p: int, q: int) -> bool {
    &&& 0 <= p < q < t.len()
    &&& t[q] == '/'
    &&& forall|k: int| p <= k < q ==> #[trigger] t[k] != '/'
}

/// `<segment>/<more>/` leads from `p` to `c`: a first path segment, a slash,
/// at least one more character and a slash, with no line end after the
/// first slash.
pub open spec fn nested_path(t: Seq<char>, p: int, c: int) -> bool {
    exists|q: int|
        {
            &&& #[trigger] segment_end(t, p, q)
            &&& q + 3 <= c <= t.len()
            &&& t[c - 1] == '/'
            &&& one_line(t, q + 1, c - 1)
        }
}

/// `v/`, `e/` or `embed/` leads from `p` to `c`.
pub open spec fn player_path(t: Seq<char>, p: int, c: int) -> bool {
    ||| occurs_at(t, "v/"@, p) && c == p + "v/"@.len()
    ||| occurs_at(t, "e/"@, p) && c == p + "e/"@.len()
    ||| occurs_at(t, "embed/"@, p) && c == p + "embed/"@.len()
}

/// `<anything>?v=` or `<anything>&v=` leads from `p` to `c`, with no line
/// end in between.
pub open spec fn query_param(t: Seq<char>, p: int, c: int) -> bool {
    &&& 0 <= p
    &&& p + 3 <= c <= t.len()
    &&& (t[c - 3] == '?' || t[c - 3] == '&')
    &&& t[c - 2] == 'v'
    &&& t[c - 1] == '='
    &&& one_line(t, p, c - 3)
}

/// A nested path leads from `p` to an identifier at `c`.
pub open spec fn nested_id(t: Seq<char>, p: int, c: int) -> bool {
    nested_path(t, p, c) && id_at(t, c)
}

/// A player path leads from `p` to an identifier at `c`.
pub open spec fn player_id(t: Seq<char>, p: int, c: int) -> bool {
    player_path(t, p, c) && id_at(t, c)
}

/// A query parameter leads from `p` to an identifier at `c`.
pub open spec fn query_id(t: Seq<char>, p: int, c: int) -> bool {
    query_param(t, p, c) && id_at(t, c)
}

/// An address of one of the known shapes starts at `s` and holds an
/// identifier at `c`.
pub open spec fn candidate(t: Seq<char>, s: int, c: int) -> bool {
    ||| occurs_at(t, short_host(), s) && c == s + short_host().len() && id_at(t, c)
    ||| occurs_at(t, host(), s) && {
        let p = s + host().len();
        nested_id(t, p, c) || player_id(t, p, c) || query_id(t, p, c)
    }
}

/// Of the addresses that start at `s`, the one read first holds its
/// identifier at `c`: the last nested path; where there is none, the player
/// path; where there is none either, the last query parameter.
pub open spec fn preferred(t: Seq<char>, s: int, c: int) -> bool {
    ||| occurs_at(t, short_host(), s) && c == s + short_host().len() && id_at(t, c)
    ||| occurs_at(t, host(), s) && {
        let p = s + host().len();
        ||| nested_id(t, p, c) && forall|d: int| d > c ==> !nested_id(t, p, d)
        ||| (forall|d: int| !nested_id(t, p, d)) && player_id(t, p, c)
        ||| (forall|d: int| !nested_id(t, p, d)) && (forall|d: int| !player_id(t, p, d))
            && query_id(t, p, c) && forall|d: int| d > c ==> !query_id(t, p, d)
    }
}

/// No address of a known shape starts in `t` before `s`.
pub open spec fn none_before(t: Seq<char>, s: int) -> bool {
    forall|s2: int, c2: int| s2 < s ==> !candidate(t, s2, c2)
}

/// The identifier of the leftmost address in `t`, read as `preferred` says,
/// stands at `c`.
pub open spec fn selected(t: Seq<char>, c: int) -> bool {
    exists|s: int| #[trigger] preferred(t, s, c) && none_before(t, s)
}

/// The video identifier that `input` stands for: `input` itself where it has
/// eleven characters, else the identifier of the leftmost address in it.
pub open spec fn video_id_of(input: Seq<char>) -> Option<Seq<char>> {
    if input.len() == ID_LENGTH {
        Some(input)
    } else if exists|c: int| selected(input, c) {
        let c = choose|c: int| selected(input, c);
        Some(input.subrange(c, c + ID_LENGTH))
    } else {
        None
    }
}

/// Whether `c` is white space.
pub fn space(c: char) -> (r: bool)
    ensures
        r == is_space(c),
{
    let n: u32 = c as u32;
    (0x09 <= n && n <= 0x0d) || n == 0x20 || n == 0x85 || n == 0xa0 || n == 0x1680 || (0x2000 <= n
        && n <= 0x200a) || n == 0x2028 || n == 0x2029 || n == 0x202f || n == 0x205f || n == 0x3000
}

/// Whether `c` may stand in an identifier.
pub fn id_char(c: char) -> (r: bool)
    ensures
        r == is_id_char(c),
{
    c != '"' && c != '&' && c != '?' && c != '/' && !space(c)
}

/// Whether an identifier stands in `t` at `at`.
pub fn has_id_at(t: &[char], at: usize) -> (r: bool)
    ensures
        r == id_at(t@, at as int),
{
    if at > t.len() || t.len() - at < ID_LENGTH {
        return false;
    }
    let mut k: usize = 0;
    while k < ID_LENGTH
        invariant
            k <= ID_LENGTH,
            at + ID_LENGTH <= t.len(),
            forall|i: int| at <= i < at + k ==> is_id_char(#[trigger] t@[i]),
        decreases ID_LENGTH - k,
    {
        if !id_char(t[at + k]) {
            return false;
        }
        k += 1;
    }
    t.len() - at == ID_LENGTH || !id_char(t[at + ID_LENGTH])
}

/// The place of the identifier that the last nested path from `p` leads to.
fn last_nested(t: &[char], p: usize) -> (r: Option<usize>)
    requires
        p <= t.len(),
    ensures
        match r {
            Some(c) => nested_id(t@, p as int, c as int) && forall|d: int|
                d > c ==> !nested_id(t@, p as int, d),
            None => forall|d: int| !nested_id(t@, p as int, d),
        },
{
    let n: usize = t.len();
    let mut q: usize = p;
    while q < n && t[q] != '/'
        invariant
            p <= q <= n,
            n == t.len(),
            forall|k: int| p <= k < q ==> #[trigger] t@[k] != '/',
        decreases n - q,
    {
        q += 1;
    }
    if q == n || q == p {
        return None;
    }
    let mut e: usize = q + 1;
    while e < n && t[e] != '\n'
        invariant
            q + 1 <= e <= n,
            n == t.len(),
            one_line(t@, q + 1, e as int),
        decreases n - e,
    {
        e += 1;
    }
    let mut j: usize = e;
    while j - q > 2
        invariant
            q + 1 <= j <= e <= n,
            n == t.len(),
            segment_end(t@, p as int, q as int),
            one_line(t@, q + 1, e as int),
            forall|d: int| d > j ==> !nested_id(t@, p as int, d),
        decreases j,
    {
        j -= 1;
        if t[j] == '/' && has_id_at(t, j + 1) {
            return Some(j + 1);
        }
    }
    None
}

/// The place of the identifier that the last query parameter from `p` leads
/// to.
fn last_query(t: &[char], p: usize) -> (r: Option<usize>)
    requires
        p <= t.len(),
    ensures
        match r {
            Some(c) => query_id(t@, p as int, c as int) && forall|d: int|
                d > c ==> !query_id(t@, p as int, d),
            None => forall|d: int| !query_id(t@, p as int, d),
        },
{
    let n: usize = t.len();
    let mut e: usize = p;
    while e < n && t[e] != '\n'
        invariant
            p <= e <= n,
            n == t.len(),
            one_line(t@, p as int, e as int),
        decreases n - e,
    {
        e += 1;
    }
    let mut j: usize = e;
    while j > p
        invariant
            p <= j <= e <= n,
            n == t.len(),
            one_line(t@, p as int, e as int),
            forall|d: int| d - 3 >= j ==> !query_id(t@, p as int, d),
        decreases j,
    {
        j -= 1;
        if (t[j] == '?' || t[j] == '&') && n - j >= 3 && t[j + 1] == 'v' && t[j + 2] == '='
            && has_id_at(t, j + 3) {
            return Some(j + 3);
        }
    }
    None
}

/// The literals of the known shapes, as characters.
struct Shapes {
    host: Vec<char>,
    short_host: Vec<char>,
    v: Vec<char>,
    e: Vec<char>,
    embed: Vec<char>,
}

impl Shapes {
    spec fn wf(&self) -> bool {
        &&& self.host@ == host()
        &&& self.short_host@ == short_host()
        &&& self.v@ == "v/"@
        &&& self.e@ == "e/"@
        &&& self.embed@ == "embed/"@
    }

    fn new() -> (r: Shapes)
        ensures
            r.wf(),
    {
        Shapes {
            host: chars_of("youtube.com/"),
            short_host: chars_of("youtu.be/"),
            v: chars_of("v/"),
            e: chars_of("e/"),
            embed: chars_of("embed/"),
        }
    }
}

/// The place of the identifier that the player path at `p` leads to.
fn player(t: &[char], p: usize, shapes: &Shapes) -> (r: Option<usize>)
    requires
        shapes.wf(),
    ensures
        match r {
            Some(c) => player_id(t@, p as int, c as int),
            None => forall|d: int| !player_id(t@, p as int, d),
        },
{
    if p >= t.len() {
        return None;
    }
    if starts_at(t, shapes.v.as_slice(), p) {
        if has_id_at(t, p + shapes.v.len()) {
            return Some(p + shapes.v.len());
        }
    }
    if starts_at(t, shapes.e.as_slice(), p) {
        if has_id_at(t, p + shapes.e.len()) {
            return Some(p + shapes.e.len());
        }
    }
    if starts_at(t, shapes.embed.as_slice(), p) {
        if has_id_at(t, p + shapes.embed.len()) {
            return Some(p + shapes.embed.len());
        }
    }
    None
}

/// An address starts inside the text, at a place from which a host name
/// and an identifier fit.
pub proof fn lemma_candidate_bounds(t: Seq<char>, s: int, c: int)
    requires
        candidate(t, s, c),
    ensures
        0 <= s < c,
        c + ID_LENGTH <= t.len(),
{
    reveal_strlit("youtu.be/");
    reveal_strlit("v/");
    reveal_strlit("e/");
    reveal_strlit("embed/");
}

/// The place of the identifier of the address that starts at `s` and is read
/// first.
fn capture_at(t: &[char], s: usize, shapes: &Shapes) -> (r: Option<usize>)
    requires
        shapes.wf(),
    ensures
        match r {
            Some(c) => preferred(t@, s as int, c as int),
            None => forall|c: int| !candidate(t@, s as int, c),
        },
{
    if s >= t.len() {
        return None;
    }
    if starts_at(t, shapes.short_host.as_slice(), s) {
        let c: usize = s + shapes.short_host.len();
        if has_id_at(t, c) {
            return Some(c);
        }
    }
    if starts_at(t, shapes.host.as_slice(), s) {
        let p: usize = s + shapes.host.len();
        match last_nested(t, p) {
            Some(c) => {
                return Some(c);
            },
            None => {},
        }
        match player(t, p, shapes) {
            Some(c) => {
                return Some(c);
            },
            None => {},
        }
        match last_query(t, p) {
            Some(c) => {
                return Some(c);
            },
            None => {},
        }
    }
    None
}

/// The two host names differ, so only one of them stands at a place.
pub proof fn lemma_hosts_differ(t: Seq<char>, s: int)
    ensures
        !(occurs_at(t, host(), s) && occurs_at(t, short_host(), s)),
{
    reveal_strlit("youtube.com/");
    reveal_strlit("youtu.be/");
    if occurs_at(t, host(), s) && occurs_at(t, short_host(), s) {
        assert(t.subrange(s, s + short_host().len())[5] == t[s + 5]);
    }
}

/// Only one player path starts at a place.
pub proof fn lemma_player_unique(t: Seq<char>, p: int, c1: int, c2: int)
    requires
        player_path(t, p, c1),
        player_path(t, p, c2),
    ensures
        c1 == c2,
{
    reveal_strlit("v/");
    reveal_strlit("e/");
    reveal_strlit("embed/");
    if occurs_at(t, "embed/"@, p) {
        assert(t.subrange(p, p + 6)[1] == t[p + 1]);
    }
}

/// Of the addresses that start at one place, one only is read first.
pub proof fn lemma_preferred_unique(t: Seq<char>, s: int, c1: int, c2: int)
    requires
        preferred(t, s, c1),
        preferred(t, s, c2),
    ensures
        c1 == c2,
{
    lemma_hosts_differ(t, s);
    if occurs_at(t, host(), s) {
        let p = s + host().len();
        if nested_id(t, p, c1) || nested_id(t, p, c2) {
        } else if player_id(t, p, c1) || player_id(t, p, c2) {
            lemma_player_unique(t, p, c1, c2);
        }
    }
}

/// What is read first is an address.
pub proof fn lemma_preferred_is_candidate(t: Seq<char>, s: int, c: int)
    requires
        preferred(t, s, c),
    ensures
        candidate(t, s, c),
{
}

/// The leftmost address, read as `preferred` says, holds one identifier.
pub proof fn lemma_selected_unique(t: Seq<char>, c1: int, c2: int)
    requires
        selected(t, c1),
        selected(t, c2),
    ensures
        c1 == c2,
{
    let s1 = choose|s: int| #[trigger] preferred(t, s, c1) && none_before(t, s);
    let s2 = choose|s: int| #[trigger] preferred(t, s, c2) && none_before(t, s);
    lemma_preferred_is_candidate(t, s1, c1);
    lemma_preferred_is_candidate(t, s2, c2);
    lemma_preferred_unique(t, s1, c1, c2);
}

/// The place in `t` of the identifier of the leftmost address.
fn leftmost(t: &[char]) -> (r: Option<usize>)
    ensures
        match r {
            Some(c) => selected(t@, c as int),
            None => forall|s: int, c: int| !candidate(t@, s, c),
        },
{
    let shapes = Shapes::new();
    let n: usize = t.len();
    let mut s: usize = 0;
    while s < n
        invariant
            s <= n,
            n == t.len(),
            shapes.wf(),
            none_before(t@, s as int),
        decreases n - s,
    {
        match capture_at(t, s, &shapes) {
            Some(c) => {
                return Some(c);
            },
            None => {},
        }
        s += 1;
    }
    None
}

/// Without an address there is no identifier, but for an input of eleven
/// characters.
pub proof fn lemma_no_candidate(t: Seq<char>)
    requires
        t.len() != ID_LENGTH,
        forall|s: int, c: int| !candidate(t, s, c),
    ensures
        video_id_of(t) is None,
{
    if exists|c: int| selected(t, c) {
        let c = choose|c: int| selected(t, c);
        let s = choose|s: int| #[trigger] preferred(t, s, c) && none_before(t, s);
        lemma_preferred_is_candidate(t, s, c);
    }
}

/// After every identifier that a nested path leads to there is a last one.
pub proof fn lemma_last_nested_exists(t: Seq<char>, p: int, c: int)
    requires
        nested_id(t, p, c),
    ensures
        exists|last: int| nested_id(t, p, last) && forall|d: int| d > last ==> !nested_id(t, p, d),
    decreases t.len() - c,
{
    if exists|d: int| d > c && nested_id(t, p, d) {
        let d = choose|d: int| d > c && nested_id(t, p, d);
        lemma_last_nested_exists(t, p, d);
    }
}

/// After every identifier that a query parameter leads to there is a last
/// one.
pub proof fn lemma_last_query_exists(t: Seq<char>, p: int, c: int)
    requires
        query_id(t, p, c),
    ensures
        exists|last: int| query_id(t, p, last) && forall|d: int| d > last ==> !query_id(t, p, d),
    decreases t.len() - c,
{
    if exists|d: int| d > c && query_id(t, p, d) {
        let d = choose|d: int| d > c && query_id(t, p, d);
        lemma_last_query_exists(t, p, d);
    }
}

/// Where an address starts, one of the addresses that start there is read
/// first.
pub proof fn lemma_preferred_exists(t: Seq<char>, s: int, c: int)
    requires
        candidate(t, s, c),
    ensures
        exists|first: int| preferred(t, s, first),
{
    lemma_hosts_differ(t, s);
    if occurs_at(t, short_host(), s) {
        assert(preferred(t, s, c));
    } else {
        let p = s + host().len();
        if exists|d: int| nested_id(t, p, d) {
            let d = choose|d: int| nested_id(t, p, d);
            lemma_last_nested_exists(t, p, d);
            let last = choose|last: int|
                nested_id(t, p, last) && forall|d: int| d > last ==> !nested_id(t, p, d);
            assert(preferred(t, s, last));
        } else if exists|d: int| player_id(t, p, d) {
            let d = choose|d: int| player_id(t, p, d);
            assert(preferred(t, s, d));
        } else {
            lemma_last_query_exists(t, p, c);
            let last = choose|last: int|
                query_id(t, p, last) && forall|d: int| d > last ==> !query_id(t, p, d);
            assert(preferred(t, s, last));
        }
    }
}

/// Before every address there is a leftmost one.
pub proof fn lemma_leftmost_exists(t: Seq<char>, s: int, c: int)
    requires
        candidate(t, s, c),
    ensures
        exists|s0: int, c0: int| candidate(t, s0, c0) && none_before(t, s0),
    decreases s,
{
    if exists|s2: int, c2: int| s2 < s && candidate(t, s2, c2) {
        let (s2, c2) = choose|s2: int, c2: int| s2 < s && candidate(t, s2, c2);
        lemma_leftmost_exists(t, s2, c2);
    }
}

/// There is an identifier exactly for an input of eleven characters and for
/// one that holds an address of a known shape.
pub proof fn lemma_identifier_iff_address(t: Seq<char>)
    ensures
        video_id_of(t) is Some <==> t.len() == ID_LENGTH || exists|s: int, c: int|
            candidate(t, s, c),
{
    if t.len() != ID_LENGTH {
        if exists|s: int, c: int| candidate(t, s, c) {
            let (s, c) = choose|s: int, c: int| candidate(t, s, c);
            lemma_leftmost_exists(t, s, c);
            let (s0, c0) = choose|s0: int, c0: int| candidate(t, s0, c0) && none_before(t, s0);
            lemma_preferred_exists(t, s0, c0);
            let first = choose|first: int| preferred(t, s0, first);
            lemma_resolves(t, s0, first);
        } else {
            lemma_no_candidate(t);
        }
    }
}

/// Where the leftmost address starts at `s` and is read to hold its
/// identifier at `c`, these eleven characters are the identifier.
pub proof fn lemma_resolves(t: Seq<char>, s: int, c: int)
    requires
        t.len() != ID_LENGTH,
        preferred(t, s, c),
        none_before(t, s),
    ensures
        video_id_of(t) == Some(t.subrange(c, c + ID_LENGTH)),
{
    assert(selected(t, c));
    let chosen = choose|c2: int| selected(t, c2);
    lemma_selected_unique(t, c, chosen);
}

/// The video identifier that `input` stands for. There is none exactly
/// where `input` has not eleven characters and holds no address of a known
/// shape.
pub fn resolve(input: &str) -> (r: Option<String>)
    ensures
        r.deep_view() == video_id_of(input@),
        r is None <==> input@.len() != ID_LENGTH && forall|s: int, c: int|
            !candidate(input@, s, c),
{
    let t = chars_of(input);
    if t.len() == ID_LENGTH {
        return Some(string_of(t.as_slice()));
    }
    match leftmost(t.as_slice()) {
        Some(c) => {
            proof {
                let s = choose|s: int| #[trigger] preferred(t@, s, c as int) && none_before(t@, s);
                lemma_resolves(t@, s, c as int);
                lemma_candidate_bounds(t@, s, c as int);
            }
            Some(string_of(slice_subrange(t.as_slice(), c, c + ID_LENGTH)))
        },
        None => {
            proof {
                lemma_no_candidate(t@);
            }
            None
        },
    }
}

} // verus!
