//! What the reading of addresses gives for addresses of each known shape,
//! and for text that holds none.

use crate::text::{contains, occurs_at};
use crate::video_id::{
    candidate, host, id_at, is_id_char, lemma_hosts_differ, lemma_no_candidate,
    lemma_player_unique, lemma_resolves, nested_id, nested_path, none_before, one_line, player_id,
    player_path, preferred, query_id, query_param, segment_end, short_host, video_id_of,
    ID_LENGTH,
};
use vstd::prelude::*;

verus! {

/// A row of identifier characters.
pub open spec fn is_id_row(row: Seq<char>) -> bool {
    forall|k: int| 0 <= k < row.len() ==> is_id_char(#[trigger] row[k])
}

/// Eleven identifier characters.
pub open spec fn is_id(id: Seq<char>) -> bool {
    id.len() == ID_LENGTH && is_id_row(id)
}

/// A row of identifier characters ends before `rest`: `rest` is empty or
/// starts with a character that no identifier holds.
pub open spec fn ends_row(rest: Seq<char>) -> bool {
    rest.len() == 0 || !is_id_char(rest[0])
}

/// The row of identifier characters `row`, which ends before `rest`, is an
/// identifier where it stands exactly if it has eleven characters.
proof fn lemma_row_at(t: Seq<char>, c: int, row: Seq<char>, rest: Seq<char>)
    requires
        0 <= c <= t.len(),
        t.subrange(c, t.len() as int) == row + rest,
        is_id_row(row),
        ends_row(rest),
    ensures
        id_at(t, c) <==> row.len() == ID_LENGTH,
        row.len() == ID_LENGTH ==> t.subrange(c, c + ID_LENGTH) == row,
{
    let tail = t.subrange(c, t.len() as int);
    assert(tail.len() == row.len() + rest.len());
    assert forall|k: int| 0 <= k < row.len() implies t[c + k] == row[k] by {
        assert(tail[k] == t[c + k]);
    }
    if rest.len() > 0 {
        assert(tail[row.len() as int] == t[c + row.len()]);
        assert(t[c + row.len()] == rest[0]);
    }
    if row.len() == ID_LENGTH {
        assert forall|k: int| c <= k < c + ID_LENGTH implies is_id_char(#[trigger] t[k]) by {
            assert(t[k] == row[k - c]);
        }
        assert(t.subrange(c, c + ID_LENGTH) =~= row);
    } else if row.len() > ID_LENGTH {
        assert(t[c + ID_LENGTH] == row[ID_LENGTH as int]);
    } else if id_at(t, c) {
        assert(is_id_char(t[c + row.len()]));
    }
}

/// What both host names begin with.
pub open spec fn host_stem() -> Seq<char> {
    "youtu"@
}

/// No address starts inside `pre` where `pre` holds no host stem and is
/// followed by a `y`.
proof fn lemma_none_before(t: Seq<char>, pre: Seq<char>)
    requires
        pre.len() < t.len(),
        t.subrange(0, pre.len() as int) == pre,
        t[pre.len() as int] == 'y',
        !contains(pre, host_stem()),
    ensures
        none_before(t, pre.len() as int),
{
    reveal_strlit("youtu");
    reveal_strlit("youtube.com/");
    reveal_strlit("youtu.be/");
    assert forall|s: int, c: int| s < pre.len() implies !candidate(t, s, c) by {
        if candidate(t, s, c) {
            let full = if occurs_at(t, host(), s) {
                host()
            } else {
                short_host()
            };
            let window = t.subrange(s, s + full.len());
            assert forall|k: int| 0 <= k < 5 implies t[s + k] == host_stem()[k] by {
                assert(window[k] == t[s + k]);
            }
            if s + 5 <= pre.len() {
                assert(pre.subrange(s, s + 5) =~= host_stem());
                assert(occurs_at(pre, host_stem(), s));
            } else {
                let k = pre.len() - s;
                assert(t[s + k] == host_stem()[k]);
            }
        }
    }
}

/// No address starts in `t` from `from` on where what follows `from` holds
/// no host stem.
proof fn lemma_none_from(t: Seq<char>, from: int, s: int, c: int)
    requires
        0 <= from <= t.len(),
        !contains(t.subrange(from, t.len() as int), host_stem()),
        from <= s,
    ensures
        !candidate(t, s, c),
{
    reveal_strlit("youtu");
    reveal_strlit("youtube.com/");
    reveal_strlit("youtu.be/");
    if candidate(t, s, c) {
        let full = if occurs_at(t, host(), s) {
            host()
        } else {
            short_host()
        };
        let window = t.subrange(s, s + full.len());
        let tail = t.subrange(from, t.len() as int);
        assert(tail.subrange(s - from, s - from + 5) =~= host_stem()) by {
            assert forall|k: int| 0 <= k < 5 implies tail.subrange(s - from, s - from + 5)[k]
                == host_stem()[k] by {
                assert(window[k] == t[s + k]);
            }
        }
        assert(occurs_at(tail, host_stem(), s - from));
    }
}

/// An address starts with a `y`.
proof fn lemma_starts_with_y(t: Seq<char>, s: int, c: int)
    requires
        candidate(t, s, c),
    ensures
        0 <= s < t.len(),
        t[s] == 'y',
{
    reveal_strlit("youtu.be/");
    reveal_strlit("youtube.com/");
    if occurs_at(t, host(), s) {
        assert(t.subrange(s, s + host().len())[0] == t[s]);
    } else {
        assert(t.subrange(s, s + short_host().len())[0] == t[s]);
    }
}

/// In `pre name tail`, where `name` is a host name and neither `pre` nor
/// `tail` holds a host stem, an address starts at the host name only.
proof fn lemma_only_start(
    t: Seq<char>,
    pre: Seq<char>,
    name: Seq<char>,
    tail: Seq<char>,
    s: int,
    c: int,
)
    requires
        t == pre + name + tail,
        name == host() || name == short_host(),
        !contains(pre, host_stem()),
        !contains(tail, host_stem()),
        candidate(t, s, c),
    ensures
        s == pre.len(),
{
    let s0 = pre.len() as int;
    let after = s0 + name.len();
    assert(name.len() > 0 && name[0] == 'y' && forall|k: int|
        1 <= k < name.len() ==> name[k] != 'y') by {
        reveal_strlit("youtu.be/");
        reveal_strlit("youtube.com/");
    }
    assert(t.subrange(0, s0) =~= pre);
    assert(t[s0] == name[0]);
    lemma_none_before(t, pre);
    assert(t.subrange(after, t.len() as int) =~= tail);
    lemma_starts_with_y(t, s, c);
    if s >= after {
        lemma_none_from(t, after, s, c);
    } else if s > s0 {
        assert(t[s] == name[s - s0]);
    }
}

/// Text of other than eleven characters that names neither host holds no
/// identifier.
pub proof fn lemma_foreign_address(t: Seq<char>)
    requires
        t.len() != ID_LENGTH,
        !contains(t, host()),
        !contains(t, short_host()),
    ensures
        video_id_of(t) is None,
{
    lemma_no_candidate(t);
}

/// `youtu.be/<id>`: in `pre youtu.be/ id rest`, where `pre` holds no host
/// stem and the identifier ends before `rest`, the identifier is `id`.
pub proof fn lemma_short_link(pre: Seq<char>, id: Seq<char>, rest: Seq<char>)
    requires
        is_id(id),
        ends_row(rest),
        !contains(pre, host_stem()),
    ensures
        video_id_of(pre + short_host() + id + rest) == Some(id),
{
    reveal_strlit("youtu.be/");
    let t = pre + short_host() + id + rest;
    let s = pre.len() as int;
    let c = s + short_host().len();
    assert(occurs_at(t, short_host(), s)) by {
        assert(t.subrange(s, s + short_host().len()) =~= short_host());
    }
    assert(t.subrange(0, s) =~= pre);
    lemma_none_before(t, pre);
    assert(t.subrange(c, t.len() as int) =~= id + rest);
    lemma_row_at(t, c, id, rest);
    assert(preferred(t, s, c));
    lemma_resolves(t, s, c);
}

/// `youtu.be/<row>` with a row of the wrong length: in
/// `pre youtu.be/ row rest` of other than eleven characters, where `row`
/// is a row of more or fewer than eleven identifier characters that ends
/// before `rest`, and neither `pre` nor `row rest` holds a host stem, there
/// is no identifier.
pub proof fn lemma_short_link_wrong_length(pre: Seq<char>, row: Seq<char>, rest: Seq<char>)
    requires
        is_id_row(row),
        row.len() != ID_LENGTH,
        ends_row(rest),
        !contains(pre, host_stem()),
        !contains(row + rest, host_stem()),
        (pre + short_host() + row + rest).len() != ID_LENGTH,
    ensures
        video_id_of(pre + short_host() + row + rest) is None,
{
    let t = pre + short_host() + row + rest;
    let s0 = pre.len() as int;
    let c0 = s0 + short_host().len();
    assert(t =~= pre + short_host() + (row + rest));
    assert(occurs_at(t, short_host(), s0)) by {
        assert(t.subrange(s0, s0 + short_host().len()) =~= short_host());
    }
    assert(t.subrange(c0, t.len() as int) =~= row + rest);
    lemma_row_at(t, c0, row, rest);
    assert forall|s: int, c: int| !candidate(t, s, c) by {
        if candidate(t, s, c) {
            lemma_only_start(t, pre, short_host(), row + rest, s, c);
            lemma_hosts_differ(t, s);
        }
    }
    lemma_no_candidate(t);
}

/// `youtube.com/v/<id>`, `youtube.com/e/<id>`, `youtube.com/embed/<id>`: in
/// `pre youtube.com/ player id rest`, where `pre` holds no host stem, the
/// identifier ends before `rest` and `rest` holds no slash, the identifier
/// is `id`.
pub proof fn lemma_player_link(pre: Seq<char>, player: Seq<char>, id: Seq<char>, rest: Seq<char>)
    requires
        player == "v/"@ || player == "e/"@ || player == "embed/"@,
        is_id(id),
        ends_row(rest),
        !contains(pre, host_stem()),
        !rest.contains('/'),
    ensures
        video_id_of(pre + host() + player + id + rest) == Some(id),
{
    reveal_strlit("youtube.com/");
    reveal_strlit("v/");
    reveal_strlit("e/");
    reveal_strlit("embed/");
    let t = pre + host() + player + id + rest;
    let s = pre.len() as int;
    let p = s + host().len();
    let c = p + player.len();
    assert(occurs_at(t, host(), s)) by {
        assert(t.subrange(s, s + host().len()) =~= host());
    }
    assert(t.subrange(0, s) =~= pre);
    lemma_none_before(t, pre);
    lemma_hosts_differ(t, s);
    assert(occurs_at(t, player, p)) by {
        assert(t.subrange(p, p + player.len()) =~= player);
    }
    assert(t.subrange(p, t.len() as int) =~= player + id + rest);
    assert(t.subrange(c, t.len() as int) =~= id + rest);
    lemma_row_at(t, c, id, rest);
    lemma_no_nested_after_player(t, p, player, id, rest);
    assert(preferred(t, s, c));
    lemma_resolves(t, s, c);
}

/// After a player path and a row of identifier characters, where what
/// follows holds no slash, no nested path leads to an identifier.
proof fn lemma_no_nested_after_player(
    t: Seq<char>,
    p: int,
    player: Seq<char>,
    row: Seq<char>,
    rest: Seq<char>,
)
    requires
        player == "v/"@ || player == "e/"@ || player == "embed/"@,
        0 <= p <= t.len(),
        t.subrange(p, t.len() as int) == player + row + rest,
        is_id_row(row),
        !rest.contains('/'),
    ensures
        forall|d: int| !nested_id(t, p, d),
{
    reveal_strlit("v/");
    reveal_strlit("e/");
    reveal_strlit("embed/");
    let tail = t.subrange(p, t.len() as int);
    let c = p + player.len();
    assert(tail.len() == player.len() + row.len() + rest.len());
    assert forall|k: int| c <= k < t.len() implies t[k] != '/' by {
        assert(t[k] == tail[k - p]);
        if k < c + row.len() {
            assert(tail[k - p] == row[k - c]);
        } else {
            assert(tail[k - p] == rest[k - c - row.len()]);
            assert(rest.contains(rest[k - c - row.len()]));
        }
    }
    assert forall|d: int| !nested_id(t, p, d) by {
        if nested_path(t, p, d) {
            let q = choose|q: int| #[trigger]
                segment_end(t, p, q) && q + 3 <= d <= t.len() && t[d - 1] == '/';
            assert(t[c - 1] == tail[c - 1 - p]);
            assert(tail[c - 1 - p] == player[player.len() - 1]);
            if q > c - 1 {
                assert(t[c - 1] != '/');
            } else if q < c - 1 {
                assert(t[q] == tail[q - p]);
                assert(tail[q - p] == player[q - p]);
            } else {
                assert(t[d - 1] != '/');
            }
        }
    }
}

/// After `from`, where what follows holds no `v=`, no query parameter
/// leads anywhere.
proof fn lemma_no_query_in_rest(t: Seq<char>, p: int, from: int, rest: Seq<char>, d: int)
    requires
        0 <= from <= t.len(),
        t.subrange(from, t.len() as int) == rest,
        !contains(rest, "v="@),
        d - 3 >= from,
    ensures
        !query_param(t, p, d),
{
    reveal_strlit("v=");
    if query_param(t, p, d) {
        let j = d - 3;
        assert(rest[j + 1 - from] == t[j + 1]);
        assert(rest[j + 2 - from] == t[j + 2]);
        assert(rest.subrange(j + 1 - from, j + 3 - from) =~= "v="@);
        assert(occurs_at(rest, "v="@, j + 1 - from));
    }
}

/// `youtube.com/v/<row>` and the like with a row of the wrong length: in
/// `pre youtube.com/ player row rest`, where `row` is a row of more or
/// fewer than eleven identifier characters that ends before `rest`,
/// neither `pre` nor `row rest` holds a host stem, and `rest` holds
/// neither a slash nor `v=`, there is no identifier.
pub proof fn lemma_player_link_wrong_length(
    pre: Seq<char>,
    player: Seq<char>,
    row: Seq<char>,
    rest: Seq<char>,
)
    requires
        player == "v/"@ || player == "e/"@ || player == "embed/"@,
        is_id_row(row),
        row.len() != ID_LENGTH,
        ends_row(rest),
        !contains(pre, host_stem()),
        !contains(player + row + rest, host_stem()),
        !rest.contains('/'),
        !contains(rest, "v="@),
    ensures
        video_id_of(pre + host() + player + row + rest) is None,
{
    reveal_strlit("youtube.com/");
    reveal_strlit("v/");
    reveal_strlit("e/");
    reveal_strlit("embed/");
    let t = pre + host() + player + row + rest;
    let tail = player + row + rest;
    let s0 = pre.len() as int;
    let p = s0 + host().len();
    let c0 = p + player.len();
    assert(t =~= pre + host() + tail);
    assert(occurs_at(t, host(), s0)) by {
        assert(t.subrange(s0, s0 + host().len()) =~= host());
    }
    assert(t.subrange(p, t.len() as int) =~= player + row + rest);
    assert(t.subrange(c0, t.len() as int) =~= row + rest);
    assert(t.subrange(c0 + row.len(), t.len() as int) =~= rest);
    lemma_row_at(t, c0, row, rest);
    lemma_no_nested_after_player(t, p, player, row, rest);
    assert(occurs_at(t, player, p)) by {
        assert(t.subrange(p, p + player.len()) =~= player);
    }
    assert forall|s: int, c: int| !candidate(t, s, c) by {
        if candidate(t, s, c) {
            lemma_only_start(t, pre, host(), tail, s, c);
            lemma_hosts_differ(t, s);
            if player_id(t, p, c) {
                lemma_player_unique(t, p, c, c0);
            } else if query_id(t, p, c) {
                let j = c - 3;
                if j >= c0 + row.len() {
                    lemma_no_query_in_rest(t, p, c0 + row.len(), rest, c);
                } else if j >= c0 {
                    assert(t[j] == row[j - c0]);
                } else {
                    assert(t[j] == player[j - p]);
                }
            }
        }
    }
    lemma_no_candidate(t);
}

/// `youtube.com/<path>?v=<id>` and `youtube.com/<path>&v=<id>`: in
/// `pre youtube.com/ path mark v= id rest`, where `pre` holds no host stem,
/// `path` neither a slash nor a line end, `mark` is `?` or `&`, the
/// identifier ends before `rest`, and `rest` holds neither a slash nor
/// `v=`, the identifier is `id`.
pub proof fn lemma_query_link(
    pre: Seq<char>,
    path: Seq<char>,
    mark: char,
    id: Seq<char>,
    rest: Seq<char>,
)
    requires
        is_id(id),
        ends_row(rest),
        mark == '?' || mark == '&',
        !contains(pre, host_stem()),
        !path.contains('/'),
        !path.contains('\n'),
        !rest.contains('/'),
        !contains(rest, "v="@),
    ensures
        video_id_of(pre + host() + path + seq![mark] + "v="@ + id + rest) == Some(id),
{
    reveal_strlit("youtube.com/");
    reveal_strlit("v=");
    let t = pre + host() + path + seq![mark] + "v="@ + id + rest;
    let s = pre.len() as int;
    let p = s + host().len();
    let c = p + path.len() + 3;
    assert(occurs_at(t, host(), s)) by {
        assert(t.subrange(s, s + host().len()) =~= host());
    }
    assert(t.subrange(0, s) =~= pre);
    lemma_none_before(t, pre);
    lemma_hosts_differ(t, s);
    assert(t.subrange(p, t.len() as int) =~= path + seq![mark] + "v="@ + id + rest);
    assert(t.subrange(c, t.len() as int) =~= id + rest);
    assert(t.subrange(c + id.len(), t.len() as int) =~= rest);
    lemma_row_at(t, c, id, rest);
    lemma_no_path_after_query(t, p, path, mark, id, rest);
    assert(one_line(t, p, c - 3)) by {
        assert forall|k: int| p <= k < c - 3 implies #[trigger] t[k] != '\n' by {
            assert(t[k] == path[k - p]);
            assert(path.contains(path[k - p]));
        }
    }
    assert(query_param(t, p, c));
    assert forall|d: int| d > c implies !query_id(t, p, d) by {
        if query_param(t, p, d) {
            let j = d - 3;
            if j >= c + ID_LENGTH {
                lemma_no_query_in_rest(t, p, c + id.len(), rest, d);
            } else if j >= c {
                assert(t[j] == id[j - c]);
            }
        }
    }
    assert(preferred(t, s, c));
    lemma_resolves(t, s, c);
}

/// After a path without a slash, a query parameter and a row of
/// identifier characters, where what follows holds no slash, neither a
/// nested path nor a player path leads anywhere.
proof fn lemma_no_path_after_query(
    t: Seq<char>,
    p: int,
    path: Seq<char>,
    mark: char,
    row: Seq<char>,
    rest: Seq<char>,
)
    requires
        0 <= p <= t.len(),
        t.subrange(p, t.len() as int) == path + seq![mark] + "v="@ + row + rest,
        mark == '?' || mark == '&',
        !path.contains('/'),
        is_id_row(row),
        !rest.contains('/'),
    ensures
        forall|d: int| !nested_path(t, p, d),
        forall|d: int| !player_path(t, p, d),
{
    reveal_strlit("v=");
    reveal_strlit("v/");
    reveal_strlit("e/");
    reveal_strlit("embed/");
    let tail = t.subrange(p, t.len() as int);
    let c = p + path.len() + 3;
    assert(tail.len() == path.len() + 3 + row.len() + rest.len());
    assert forall|k: int| p <= k < t.len() implies t[k] != '/' by {
        assert(t[k] == tail[k - p]);
        if k < p + path.len() {
            assert(tail[k - p] == path[k - p]);
            assert(path.contains(path[k - p]));
        } else if k < c {
        } else if k < c + row.len() {
            assert(tail[k - p] == row[k - c]);
        } else {
            assert(tail[k - p] == rest[k - c - row.len()]);
            assert(rest.contains(rest[k - c - row.len()]));
        }
    }
    assert forall|d: int| !nested_path(t, p, d) by {
        if nested_path(t, p, d) {
            let q = choose|q: int| #[trigger] segment_end(t, p, q) && q + 3 <= d;
            assert(t[q] != '/');
        }
    }
    assert forall|d: int| !player_path(t, p, d) by {
        if player_path(t, p, d) {
            if occurs_at(t, "embed/"@, p) {
                assert(t.subrange(p, p + 6)[5] == t[p + 5]);
                assert(t[p + 5] != '/');
            } else {
                assert(t.subrange(p, p + 2)[1] == t[p + 1]);
                assert(t[p + 1] != '/');
            }
        }
    }
}

/// `youtube.com/<path>?v=<row>` with a row of the wrong length: in
/// `pre youtube.com/ path mark v= row rest`, where `path` holds none of
/// `/`, `?` and `&`, `mark` is `?` or `&`, `row` is a row of more or fewer
/// than eleven identifier characters that ends before `rest`, neither
/// `pre` nor what follows the host name holds a host stem, and `rest`
/// holds neither a slash nor `v=`, there is no identifier.
pub proof fn lemma_query_link_wrong_length(
    pre: Seq<char>,
    path: Seq<char>,
    mark: char,
    row: Seq<char>,
    rest: Seq<char>,
)
    requires
        is_id_row(row),
        row.len() != ID_LENGTH,
        ends_row(rest),
        mark == '?' || mark == '&',
        !contains(pre, host_stem()),
        !contains(path + seq![mark] + "v="@ + row + rest, host_stem()),
        !path.contains('/'),
        !path.contains('?'),
        !path.contains('&'),
        !rest.contains('/'),
        !contains(rest, "v="@),
    ensures
        video_id_of(pre + host() + path + seq![mark] + "v="@ + row + rest) is None,
{
    reveal_strlit("youtube.com/");
    reveal_strlit("v=");
    let t = pre + host() + path + seq![mark] + "v="@ + row + rest;
    let tail = path + seq![mark] + "v="@ + row + rest;
    let s0 = pre.len() as int;
    let p = s0 + host().len();
    let c0 = p + path.len() + 3;
    assert(t =~= pre + host() + tail);
    assert(occurs_at(t, host(), s0)) by {
        assert(t.subrange(s0, s0 + host().len()) =~= host());
    }
    assert(t.subrange(p, t.len() as int) =~= tail);
    assert(t.subrange(c0, t.len() as int) =~= row + rest);
    assert(t.subrange(c0 + row.len(), t.len() as int) =~= rest);
    lemma_row_at(t, c0, row, rest);
    lemma_no_path_after_query(t, p, path, mark, row, rest);
    assert forall|s: int, c: int| !candidate(t, s, c) by {
        if candidate(t, s, c) {
            lemma_only_start(t, pre, host(), tail, s, c);
            lemma_hosts_differ(t, s);
            assert(s + host().len() == p);
            if nested_id(t, p, c) {
                assert(!nested_path(t, p, c));
            } else if player_id(t, p, c) {
                assert(!player_path(t, p, c));
            } else {
                assert(query_id(t, p, c));
                let j = c - 3;
                if j >= c0 + row.len() {
                    lemma_no_query_in_rest(t, p, c0 + row.len(), rest, c);
                } else if j >= c0 {
                    assert(t[j] == row[j - c0]);
                    assert(is_id_char(row[j - c0]));
                } else if j == c0 - 1 {
                    assert(t[j] == '=');
                } else if j == c0 - 2 {
                    assert(t[j] == 'v');
                } else if j == c0 - 3 {
                    assert(c == c0);
                } else {
                    assert(t[j] == path[j - p]);
                    assert(path.contains(path[j - p]));
                }
            }
        }
    }
    lemma_no_candidate(t);
}

/// `youtube.com/<segment>/<more>/<id>`: in
/// `pre youtube.com/ segment / more / id rest`, where `pre` holds no host
/// stem, `segment` is not empty and holds no slash, `more` is not empty and
/// holds no line end, the identifier ends before `rest`, and `rest` holds
/// no slash, the identifier is `id`.
pub proof fn lemma_nested_link(
    pre: Seq<char>,
    segment: Seq<char>,
    more: Seq<char>,
    id: Seq<char>,
    rest: Seq<char>,
)
    requires
        is_id(id),
        ends_row(rest),
        !contains(pre, host_stem()),
        segment.len() > 0,
        !segment.contains('/'),
        more.len() > 0,
        !more.contains('\n'),
        !rest.contains('/'),
    ensures
        video_id_of(pre + host() + segment + seq!['/'] + more + seq!['/'] + id + rest) == Some(id),
{
    reveal_strlit("youtube.com/");
    let t = pre + host() + segment + seq!['/'] + more + seq!['/'] + id + rest;
    let s = pre.len() as int;
    let p = s + host().len();
    let q = p + segment.len();
    let c = q + 1 + more.len() + 1;
    assert(occurs_at(t, host(), s)) by {
        assert(t.subrange(s, s + host().len()) =~= host());
    }
    assert(t.subrange(0, s) =~= pre);
    lemma_none_before(t, pre);
    lemma_hosts_differ(t, s);
    assert(t.subrange(c, t.len() as int) =~= id + rest);
    lemma_row_at(t, c, id, rest);
    assert(segment_end(t, p, q)) by {
        assert forall|k: int| p <= k < q implies #[trigger] t[k] != '/' by {
            assert(t[k] == segment[k - p]);
            assert(segment.contains(segment[k - p]));
        }
    }
    assert(one_line(t, q + 1, c - 1)) by {
        assert forall|k: int| q + 1 <= k < c - 1 implies #[trigger] t[k] != '\n' by {
            assert(t[k] == more[k - q - 1]);
            assert(more.contains(more[k - q - 1]));
        }
    }
    assert(nested_path(t, p, c));
    assert forall|d: int| d > c implies !nested_id(t, p, d) by {
        if nested_path(t, p, d) {
            let k = d - 1;
            if k < c + ID_LENGTH {
                assert(t[k] == id[k - c]);
            } else {
                assert(t[k] == rest[k - c - ID_LENGTH]);
                assert(rest.contains(rest[k - c - ID_LENGTH]));
            }
        }
    }
    assert(preferred(t, s, c));
    lemma_resolves(t, s, c);
}

/// `youtube.com/<segment>/<more>/<row>` with a row of the wrong length: in
/// `pre youtube.com/ segment / more / row rest`, where `segment` is not
/// empty, is none of `v`, `e` and `embed`, and holds none of `/`, `?` and
/// `&`, `more` holds none of them either, `row` is a row of more or fewer
/// than eleven identifier characters that ends before `rest`, neither
/// `pre` nor what follows the host name holds a host stem, and `rest`
/// holds neither a slash nor `v=`, there is no identifier.
pub proof fn lemma_nested_link_wrong_length(
    pre: Seq<char>,
    segment: Seq<char>,
    more: Seq<char>,
    row: Seq<char>,
    rest: Seq<char>,
)
    requires
        is_id_row(row),
        row.len() != ID_LENGTH,
        ends_row(rest),
        !contains(pre, host_stem()),
        !contains(segment + seq!['/'] + more + seq!['/'] + row + rest, host_stem()),
        segment.len() > 0,
        segment != "v"@ && segment != "e"@ && segment != "embed"@,
        !segment.contains('/') && !segment.contains('?') && !segment.contains('&'),
        !more.contains('/') && !more.contains('?') && !more.contains('&'),
        !rest.contains('/'),
        !contains(rest, "v="@),
    ensures
        video_id_of(pre + host() + segment + seq!['/'] + more + seq!['/'] + row + rest) is None,
{
    reveal_strlit("youtube.com/");
    let t = pre + host() + segment + seq!['/'] + more + seq!['/'] + row + rest;
    let tail = segment + seq!['/'] + more + seq!['/'] + row + rest;
    let s0 = pre.len() as int;
    let p = s0 + host().len();
    let q = p + segment.len();
    let c0 = q + 1 + more.len() + 1;
    assert(t =~= pre + host() + tail);
    assert(occurs_at(t, host(), s0)) by {
        assert(t.subrange(s0, s0 + host().len()) =~= host());
    }
    assert(t.subrange(c0, t.len() as int) =~= row + rest);
    assert(t.subrange(c0 + row.len(), t.len() as int) =~= rest);
    lemma_row_at(t, c0, row, rest);
    assert forall|k: int| p <= k < q implies t[k] == segment[k - p] by {}
    assert forall|k: int| q < k < c0 - 1 implies t[k] == more[k - q - 1] by {}
    assert forall|k: int| c0 <= k < c0 + row.len() implies t[k] == row[k - c0] by {}
    assert forall|k: int| c0 + row.len() <= k < t.len() implies t[k] == rest[k - c0 - row.len()] by {}
    assert(t[q] == '/' && t[c0 - 1] == '/');
    assert forall|s: int, c: int| !candidate(t, s, c) by {
        if candidate(t, s, c) {
            lemma_only_start(t, pre, host(), tail, s, c);
            lemma_hosts_differ(t, s);
            assert(s + host().len() == p);
            if nested_id(t, p, c) {
                let k = c - 1;
                let q2 = choose|q2: int| #[trigger]
                    segment_end(t, p, q2) && q2 + 3 <= c <= t.len() && t[c - 1] == '/';
                if q2 < q {
                    assert(t[q2] == segment[q2 - p]);
                    assert(segment.contains(segment[q2 - p]));
                } else if q2 > q {
                    assert(t[q] != '/');
                }
                assert(q2 == q);
                if k < c0 - 1 {
                    assert(t[k] == more[k - q - 1]);
                    assert(more.contains(more[k - q - 1]));
                } else if k >= c0 + row.len() {
                    assert(t[k] == rest[k - c0 - row.len()]);
                    assert(rest.contains(rest[k - c0 - row.len()]));
                } else if k >= c0 {
                    assert(t[k] == row[k - c0]);
                    assert(is_id_char(row[k - c0]));
                } else {
                    assert(c == c0);
                }
            } else if player_id(t, p, c) {
                assert(t.subrange(p, p + segment.len()) =~= segment);
                lemma_segment_is_no_player(t, p, segment, c);
            } else {
                assert(query_id(t, p, c));
                let j = c - 3;
                if j >= c0 + row.len() {
                    lemma_no_query_in_rest(t, p, c0 + row.len(), rest, c);
                } else if j >= c0 {
                    assert(t[j] == row[j - c0]);
                    assert(is_id_char(row[j - c0]));
                } else if j == c0 - 1 || j == q {
                    assert(t[j] == '/');
                } else if j > q {
                    assert(t[j] == more[j - q - 1]);
                    assert(more.contains(more[j - q - 1]));
                } else {
                    assert(t[j] == segment[j - p]);
                    assert(segment.contains(segment[j - p]));
                }
            }
        }
    }
    lemma_no_candidate(t);
}

/// A first path segment that is none of `v`, `e` and `embed` opens no
/// player path.
proof fn lemma_segment_is_no_player(t: Seq<char>, p: int, segment: Seq<char>, c: int)
    requires
        0 <= p,
        p + segment.len() < t.len(),
        t.subrange(p, p + segment.len()) == segment,
        t[p + segment.len()] == '/',
        segment.len() > 0,
        !segment.contains('/'),
        segment != "v"@ && segment != "e"@ && segment != "embed"@,
    ensures
        !player_path(t, p, c),
{
    reveal_strlit("v/");
    reveal_strlit("e/");
    reveal_strlit("embed/");
    reveal_strlit("v");
    reveal_strlit("e");
    reveal_strlit("embed");
    let window = t.subrange(p, p + segment.len());
    assert forall|k: int| 0 <= k < segment.len() implies t[p + k] == segment[k] by {
        assert(window[k] == t[p + k]);
    }
    if !player_path(t, p, c) {
    } else if occurs_at(t, "embed/"@, p) {
        let lit = t.subrange(p, p + 6);
        assert forall|k: int| 0 <= k < 6 implies t[p + k] == "embed/"@[k] by {
            assert(lit[k] == t[p + k]);
        }
        if segment.len() > 5 {
            assert(segment.contains(segment[5]));
        } else if segment.len() < 5 {
            assert(t[p + segment.len()] == "embed/"@[segment.len() as int]);
        } else {
            assert(segment =~= "embed"@);
        }
    } else {
        let lit = t.subrange(p, p + 2);
        assert(lit[0] == t[p] && lit[1] == t[p + 1]);
        if segment.len() > 1 {
            assert(segment.contains(segment[1]));
        } else if occurs_at(t, "v/"@, p) {
            assert(segment =~= "v"@);
        } else {
            assert(segment =~= "e"@);
        }
    }
}

/// The identifier of every address follows a slash or an equals sign.
proof fn lemma_candidate_follows_mark(t: Seq<char>, s: int, c: int)
    requires
        candidate(t, s, c),
    ensures
        1 <= c <= t.len(),
        t[c - 1] == '/' || t[c - 1] == '=',
{
    reveal_strlit("youtu.be/");
    reveal_strlit("youtube.com/");
    reveal_strlit("v/");
    reveal_strlit("e/");
    reveal_strlit("embed/");
    if occurs_at(t, short_host(), s) && c == s + short_host().len() {
        assert(t.subrange(s, s + 9)[8] == t[s + 8]);
    } else {
        let p = s + host().len();
        if player_path(t, p, c) {
            if occurs_at(t, "embed/"@, p) && c == p + 6 {
                assert(t.subrange(p, p + 6)[5] == t[p + 5]);
            } else {
                assert(t.subrange(p, p + 2)[1] == t[p + 1]);
            }
        }
    }
}

/// Text of other than eleven characters in which no identifier follows a
/// slash or an equals sign holds no identifier: neither where every row of
/// identifier characters in such a place is too short, nor where it is too
/// long.
pub proof fn lemma_no_identifier_place(t: Seq<char>)
    requires
        t.len() != ID_LENGTH,
        forall|c: int| 1 <= c <= t.len() && (t[c - 1] == '/' || t[c - 1] == '=') ==> !id_at(t, c),
    ensures
        video_id_of(t) is None,
{
    assert forall|s: int, c: int| !candidate(t, s, c) by {
        if candidate(t, s, c) {
            lemma_candidate_follows_mark(t, s, c);
        }
    }
    lemma_no_candidate(t);
}

} // verus!
