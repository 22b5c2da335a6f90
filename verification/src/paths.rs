//! Paths of files: their parts, and the order that goes by them.

use vstd::prelude::*;
use vstd::string::*;

use crate::text::{chars_of, find_mark, mark_from, mark_is_first, part, texts};

verus! {

/// The parts of a path from a position on: what stands between separators,
/// without empty parts and single dots.
pub open spec fn parts_from(path: Seq<char>, from: int) -> Seq<Seq<char>>
    decreases path.len() + 1 - from,
{
    if from < 0 || from >= path.len() {
        Seq::empty()
    } else {
        proof {
            mark_is_first(path, '/', from);
        }
        let end = mark_from(path, '/', from);
        let piece = path.subrange(from, end);
        let rest = parts_from(path, end + 1);
        if piece.len() == 0 || piece == seq!['.'] {
            rest
        } else {
            seq![piece] + rest
        }
    }
}

/// What a path starts from, if it says so: the root, or with a dot the
/// directory one is in.
pub open spec fn origin(path: Seq<char>) -> Seq<Seq<char>> {
    if path.len() > 0 && path[0] == '/' {
        seq![seq!['/']]
    } else if path.len() > 0 && path[0] == '.' && (path.len() == 1 || path[1] == '/') {
        seq![seq!['.']]
    } else {
        Seq::empty()
    }
}

/// All parts of a path, with what it starts from before them.
pub open spec fn path_parts(path: Seq<char>) -> Seq<Seq<char>> {
    origin(path) + parts_from(path, 0)
}

/// The rank of a part: the root, a dot and two dots come before all names.
pub open spec fn part_rank(p: Seq<char>) -> int {
    if p == seq!['/'] {
        0
    } else if p == seq!['.'] {
        1
    } else if p == seq!['.', '.'] {
        2
    } else {
        3
    }
}

/// Whether a text comes before another or is the same, from position `i` on.
pub open spec fn text_le(a: Seq<char>, b: Seq<char>, i: int) -> bool
    decreases a.len() - i,
{
    if i >= a.len() {
        true
    } else if i >= b.len() {
        false
    } else if a[i] != b[i] {
        (a[i] as int) < (b[i] as int)
    } else {
        text_le(a, b, i + 1)
    }
}

/// Whether a part comes before another or is the same.
pub open spec fn part_le(a: Seq<char>, b: Seq<char>) -> bool {
    if part_rank(a) != part_rank(b) {
        part_rank(a) < part_rank(b)
    } else {
        text_le(a, b, 0)
    }
}

/// Whether parts come before others or are the same, from position `i` on.
pub open spec fn parts_le(a: Seq<Seq<char>>, b: Seq<Seq<char>>, i: int) -> bool
    decreases a.len() - i,
{
    if i >= a.len() {
        true
    } else if i >= b.len() {
        false
    } else if a[i] != b[i] {
        part_le(a[i], b[i])
    } else {
        parts_le(a, b, i + 1)
    }
}

/// Whether a path comes before another or has the same parts.
pub open spec fn path_le(a: Seq<char>, b: Seq<char>) -> bool {
    parts_le(path_parts(a), path_parts(b), 0)
}

/// Whether paths are in order.
pub open spec fn in_order(ps: Seq<Seq<char>>) -> bool {
    forall|i: int, j: int| 0 <= i <= j < ps.len() ==> path_le(#[trigger] ps[i], #[trigger] ps[j])
}

/// Those paths that have the given parts.
pub open spec fn alike(ps: Seq<Seq<char>>, parts: Seq<Seq<char>>) -> Seq<Seq<char>>
    decreases ps.len(),
{
    if ps.len() == 0 {
        Seq::empty()
    } else if path_parts(ps.last()) == parts {
        alike(ps.drop_last(), parts).push(ps.last())
    } else {
        alike(ps.drop_last(), parts)
    }
}

proof fn text_order(a: Seq<char>, b: Seq<char>, c: Seq<char>, i: int)
    requires
        0 <= i,
    ensures
        text_le(a, b, i) || text_le(b, a, i),
        text_le(a, b, i) && text_le(b, c, i) ==> text_le(a, c, i),
    decreases a.len() - i,
{
    if i < a.len() {
        text_order(a, b, c, i + 1);
    }
}

proof fn text_order_is_strict(a: Seq<char>, b: Seq<char>, i: int)
    requires
        0 <= i <= a.len(),
        i <= b.len(),
        a.take(i) == b.take(i),
        text_le(a, b, i),
        text_le(b, a, i),
    ensures
        a == b,
    decreases a.len() - i,
{
    if i < a.len() && i < b.len() {
        assert(a.take(i + 1) =~= a.take(i).push(a[i]));
        assert(b.take(i + 1) =~= b.take(i).push(b[i]));
        text_order_is_strict(a, b, i + 1);
    } else {
        assert(a =~= a.take(i));
        assert(b =~= b.take(i));
    }
}

proof fn part_order(a: Seq<char>, b: Seq<char>, c: Seq<char>)
    ensures
        part_le(a, b) || part_le(b, a),
        part_le(a, b) && part_le(b, c) ==> part_le(a, c),
        part_le(a, b) && part_le(b, a) ==> a == b,
{
    text_order(a, b, c, 0);
    if part_le(a, b) && part_le(b, a) {
        assert(a.take(0) =~= b.take(0));
        text_order_is_strict(a, b, 0);
    }
}

proof fn parts_order(a: Seq<Seq<char>>, b: Seq<Seq<char>>, c: Seq<Seq<char>>, i: int)
    requires
        0 <= i,
    ensures
        parts_le(a, a, i),
        parts_le(a, b, i) || parts_le(b, a, i),
        parts_le(a, b, i) && parts_le(b, c, i) ==> parts_le(a, c, i),
    decreases a.len() - i,
{
    if i < a.len() {
        parts_order(a, b, c, i + 1);
        if i < b.len() {
            part_order(a[i], b[i], b[i]);
            if i < c.len() {
                part_order(a[i], b[i], c[i]);
            }
        }
    }
}

proof fn alike_of_both(a: Seq<Seq<char>>, b: Seq<Seq<char>>, parts: Seq<Seq<char>>)
    ensures
        alike(a + b, parts) == alike(a, parts) + alike(b, parts),
    decreases b.len(),
{
    if b.len() == 0 {
        assert(a + b =~= a);
    } else {
        alike_of_both(a, b.drop_last(), parts);
        assert((a + b).drop_last() =~= a + b.drop_last());
        assert((a + b).last() == b.last());
    }
}

proof fn none_is_alike(ps: Seq<Seq<char>>, parts: Seq<Seq<char>>)
    requires
        forall|i: int| 0 <= i < ps.len() ==> path_parts(#[trigger] ps[i]) != parts,
    ensures
        alike(ps, parts).len() == 0,
    decreases ps.len(),
{
    if ps.len() > 0 {
        assert forall|i: int| 0 <= i < ps.drop_last().len() implies path_parts(
            #[trigger] ps.drop_last()[i],
        ) != parts by {
            assert(ps.drop_last()[i] == ps[i]);
        }
        none_is_alike(ps.drop_last(), parts);
        assert(ps.last() == ps[ps.len() - 1]);
    }
}

/// All parts of a path.
pub fn parts_of(path: &str) -> (r: Vec<String>)
    ensures
        texts(r@) == path_parts(path@),
{
    let chars = chars_of(path);
    let n: usize = chars.len();
    let mut out: Vec<String> = Vec::new();
    if n > 0 && chars[0] == '/' || n > 0 && chars[0] == '.' && (n == 1 || chars[1] == '/') {
        out.push(part(&chars, 0, 1));
        assert(texts(out@) =~= origin(path@)) by {
            assert(out@[0]@ =~= seq![path@[0]]);
        }
    }
    assert(texts(out@) =~= origin(path@));
    let mut from: usize = 0;
    while from < n
        invariant
            from <= n,
            n == chars@.len(),
            chars@ == path@,
            path_parts(path@) =~= texts(out@) + parts_from(path@, from as int),
        decreases n - from,
    {
        let end: usize = find_mark(&chars, '/', from);
        let ghost was = texts(out@);
        let ghost piece = path@.subrange(from as int, end as int);
        let dot: bool = end - from == 1 && chars[from] == '.';
        assert(dot <==> piece =~= seq!['.']) by {
            if piece =~= seq!['.'] {
                assert(piece[0] == path@[from as int]);
            }
        }
        if end > from && !dot {
            out.push(part(&chars, from, end));
            assert(texts(out@) =~= was.push(piece));
            assert(was.push(piece) =~= was + seq![piece]);
            assert(was + (seq![piece] + parts_from(path@, end + 1)) =~= was.push(piece)
                + parts_from(path@, end + 1));
        }
        from = if end < n {
            end + 1
        } else {
            n
        };
        assert(parts_from(path@, from as int) == parts_from(path@, end + 1));
    }
    assert(parts_from(path@, from as int) =~= Seq::<Seq<char>>::empty());
    out
}

fn rank_of(p: &Vec<char>) -> (r: u8)
    ensures
        r == part_rank(p@),
{
    let one: bool = p.len() == 1;
    assert(one && p@[0] == '/' <==> p@ =~= seq!['/']);
    assert(one && p@[0] == '.' <==> p@ =~= seq!['.']);
    assert(p@.len() == 2 && p@[0] == '.' && p@[1] == '.' <==> p@ =~= seq!['.', '.']);
    if one && p[0] == '/' {
        0
    } else if one && p[0] == '.' {
        1
    } else if p.len() == 2 && p[0] == '.' && p[1] == '.' {
        2
    } else {
        3
    }
}

fn code_of(c: char) -> (r: u32)
    ensures
        r == c as int,
{
    c as u32
}

fn part_comes_first(a: &Vec<char>, b: &Vec<char>) -> (r: bool)
    ensures
        r == part_le(a@, b@),
{
    let (x, y) = (rank_of(a), rank_of(b));
    if x != y {
        return x < y;
    }
    let mut i: usize = 0;
    while i < a.len()
        invariant
            i <= a@.len(),
            part_rank(a@) == part_rank(b@),
            text_le(a@, b@, 0) == text_le(a@, b@, i as int),
        decreases a@.len() - i,
    {
        if i >= b.len() {
            return false;
        }
        if a[i] != b[i] {
            let (c, d) = (code_of(a[i]), code_of(b[i]));
            return c < d;
        }
        i += 1;
    }
    true
}

/// Whether a path comes before another or has the same parts.
pub fn comes_first(a: &str, b: &str) -> (r: bool)
    ensures
        r == path_le(a@, b@),
{
    let (ps, qs) = (parts_of(a), parts_of(b));
    let ghost (p, q) = (path_parts(a@), path_parts(b@));
    let mut i: usize = 0;
    while i < ps.len()
        invariant
            i <= ps@.len(),
            p == texts(ps@),
            q == texts(qs@),
            path_le(a@, b@) == parts_le(p, q, 0),
            parts_le(p, q, 0) == parts_le(p, q, i as int),
        decreases ps@.len() - i,
    {
        if i >= qs.len() {
            return false;
        }
        assert(p[i as int] == ps@[i as int]@ && q[i as int] == qs@[i as int]@);
        if ps[i] != qs[i] {
            return part_comes_first(&chars_of(ps[i].as_str()), &chars_of(qs[i].as_str()));
        }
        i += 1;
    }
    true
}

/// Puts a path into a list that is in order, behind those with the same parts.
pub fn insert_in_order(list: &mut Vec<String>, path: String)
    requires
        in_order(texts(old(list)@)),
    ensures
        in_order(texts(final(list)@)),
        texts(final(list)@).to_multiset() == texts(old(list)@).to_multiset().insert(path@),
        final(list)@.len() == old(list)@.len() + 1,
        forall|parts: Seq<Seq<char>>| #[trigger]
            alike(texts(final(list)@), parts) == alike(texts(old(list)@).push(path@), parts),
{
    let ghost was = texts(list@);
    let mut at: usize = 0;
    while at < list.len() && comes_first(list[at].as_str(), path.as_str())
        invariant
            at <= list@.len(),
            was == texts(list@),
            forall|k: int| 0 <= k < at ==> path_le(#[trigger] was[k], path@),
        decreases list@.len() - at,
    {
        at += 1;
    }
    let ghost p = path@;
    list.insert(at, path);
    assert(texts(list@) =~= was.insert(at as int, p));
    proof {
        let at = at as int;
        let now = was.insert(at, p);
        was.to_multiset_ensures();
        now.to_multiset_ensures();
        assert(now.remove(at) =~= was);
        assert(was.to_multiset().insert(p) =~= now.to_multiset());
        assert forall|j: int| at <= j < was.len() implies path_le(p, #[trigger] was[j])
            && path_parts(was[j]) != path_parts(p) by {
            assert(path_le(was[at], was[j]));
            parts_order(path_parts(was[at]), path_parts(p), path_parts(p), 0);
            parts_order(path_parts(p), path_parts(was[at]), path_parts(was[j]), 0);
        }
        assert forall|i: int, j: int| 0 <= i <= j < now.len() implies path_le(
            #[trigger] now[i],
            #[trigger] now[j],
        ) by {
            let oi = if i < at {
                i
            } else {
                i - 1
            };
            let oj = if j < at {
                j
            } else {
                j - 1
            };
            if i == at && j == at {
                parts_order(path_parts(p), path_parts(p), path_parts(p), 0);
            } else if i == at {
                assert(path_le(p, was[oj]));
            } else if j == at {
                assert(path_le(was[oi], p));
            } else {
                assert(path_le(was[oi], was[oj]));
            }
        }
        assert forall|parts: Seq<Seq<char>>| #[trigger]
            alike(now, parts) == alike(was.push(p), parts) by {
            let (a, b) = (was.take(at), was.skip(at));
            assert(now =~= a.push(p) + b);
            assert(was =~= a + b);
            assert(a.push(p).drop_last() =~= a);
            assert(was.push(p).drop_last() =~= was);
            alike_of_both(a.push(p), b, parts);
            alike_of_both(a, b, parts);
            if parts == path_parts(p) {
                assert forall|i: int| 0 <= i < b.len() implies path_parts(#[trigger] b[i])
                    != parts by {
                    assert(b[i] == was[at + i]);
                }
                none_is_alike(b, parts);
                assert(alike(now, parts) =~= alike(was.push(p), parts));
            }
        }
    }
}

proof fn parts_behind(p: Seq<char>, s: Seq<char>, i: int)
    requires
        0 <= i,
    ensures
        parts_from(p + s, p.len() + i) == parts_from(s, i),
    decreases s.len() + 1 - i,
{
    if i < s.len() {
        mark_is_first(s, '/', i);
        mark_is_first(p + s, '/', p.len() + i);
        let end = mark_from(s, '/', i);
        let there = mark_from(p + s, '/', p.len() + i);
        assert forall|j: int| 0 <= j < s.len() implies #[trigger] s[j] == (p + s)[p.len() + j] by {
        }
        if there < p.len() + end {
            assert(s[there - p.len()] == (p + s)[there]);
            assert(false);
        }
        if p.len() + end < there {
            assert(end < s.len());
            assert((p + s)[p.len() + end] == s[end]);
            assert(false);
        }
        assert((p + s).subrange(p.len() + i, there) =~= s.subrange(i, end));
        parts_behind(p, s, end + 1);
    }
}

proof fn parts_before(a: Seq<char>, b: Seq<char>, i: int)
    requires
        0 <= i <= a.len() + 1,
    ensures
        parts_from(a.push('/') + b, i) == parts_from(a, i) + parts_from(b, 0),
    decreases a.len() + 1 - i,
{
    let s = a.push('/') + b;
    if i == a.len() + 1 {
        parts_behind(a.push('/'), b, 0);
        assert(parts_from(a, i) =~= Seq::<Seq<char>>::empty());
        assert(parts_from(a, i) + parts_from(b, 0) =~= parts_from(b, 0));
    } else {
        assert(s[a.len() as int] == '/');
        mark_is_first(a, '/', i);
        mark_is_first(s, '/', i);
        let end = mark_from(a, '/', i);
        let there = mark_from(s, '/', i);
        assert forall|j: int| 0 <= j < a.len() implies #[trigger] a[j] == s[j] by {
        }
        assert(there <= a.len());
        if there < end {
            assert(a[there] == s[there]);
            assert(false);
        }
        if end < there {
            assert(a[end] == s[end]);
            assert(false);
        }
        assert(s.subrange(i, there) =~= a.subrange(i, end));
        parts_before(a, b, end + 1);
        if i == a.len() {
            assert(s.subrange(i, there).len() == 0);
            assert(parts_from(a, i) =~= Seq::<Seq<char>>::empty());
            assert(parts_from(a, end + 1) =~= Seq::<Seq<char>>::empty());
        } else {
            let piece = a.subrange(i, end);
            let rest = parts_from(a, end + 1);
            assert(seq![piece] + (rest + parts_from(b, 0)) =~= (seq![piece] + rest) + parts_from(
                b,
                0,
            ));
        }
    }
}

/// The parts of a path stand between its slashes: those before one come first,
/// those behind it after them. A name is one part; nothing between two slashes
/// and a single dot are none.
pub proof fn parts_stand_between_slashes(a: Seq<char>, b: Seq<char>, name: Seq<char>)
    requires
        name.len() > 0,
        forall|j: int| 0 <= j < name.len() ==> #[trigger] name[j] != '/',
        name != seq!['.'],
    ensures
        parts_from(a.push('/') + b, 0) == parts_from(a, 0) + parts_from(b, 0),
        parts_from(name, 0) == seq![name],
        parts_from(seq!['.'], 0) == Seq::<Seq<char>>::empty(),
        parts_from(Seq::empty(), 0) == Seq::<Seq<char>>::empty(),
{
    parts_before(a, b, 0);
    mark_is_first(name, '/', 0);
    let end = mark_from(name, '/', 0);
    assert(end == name.len());
    assert(name.subrange(0, end) =~= name);
    assert(parts_from(name, end + 1) =~= Seq::<Seq<char>>::empty());
    let dot = seq!['.'];
    mark_is_first(dot, '/', 0);
    assert(mark_from(dot, '/', 0) == 1);
    assert(dot.subrange(0, 1) =~= dot);
    assert(parts_from(dot, 2) =~= Seq::<Seq<char>>::empty());
}

/// A path that starts with a slash starts from the root, one that starts with
/// a dot and a slash from the directory one is in, and any other from nowhere.
pub proof fn paths_say_where_they_start(rest: Seq<char>, c: char)
    requires
        c != '/',
        c != '.',
    ensures
        origin(seq!['/'] + rest) == seq![seq!['/']],
        origin(seq!['.', '/'] + rest) == seq![seq!['.']],
        origin(seq!['.']) == seq![seq!['.']],
        origin(seq![c] + rest) == Seq::<Seq<char>>::empty(),
        origin(seq!['.', c] + rest) == Seq::<Seq<char>>::empty(),
        origin(Seq::empty()) == Seq::<Seq<char>>::empty(),
{
    assert((seq!['/'] + rest)[0] == '/');
    assert((seq!['.', '/'] + rest)[0] == '.');
    assert((seq!['.', '/'] + rest)[1] == '/');
    assert((seq![c] + rest)[0] == c);
    assert((seq!['.', c] + rest)[0] == '.');
    assert((seq!['.', c] + rest)[1] == c);
}

proof fn texts_differ_behind(p: Seq<char>, a: Seq<char>, b: Seq<char>, i: int)
    requires
        0 <= i <= p.len(),
    ensures
        text_le(p + a, p + b, i) == text_le(p + a, p + b, p.len() as int),
    decreases p.len() - i,
{
    if i < p.len() {
        assert((p + a)[i] == p[i]);
        assert((p + b)[i] == p[i]);
        texts_differ_behind(p, a, b, i + 1);
    }
}

/// Texts are ordered by the first character in which they differ, and a text
/// comes before what it begins.
pub proof fn the_first_difference_orders_texts(
    p: Seq<char>,
    c: char,
    d: char,
    x: Seq<char>,
    y: Seq<char>,
)
    requires
        (c as u32) < (d as u32),
    ensures
        text_le(p + (seq![c] + x), p + (seq![d] + y), 0),
        !text_le(p + (seq![d] + y), p + (seq![c] + x), 0),
        text_le(p, p + x, 0),
        x.len() > 0 ==> !text_le(p + x, p, 0),
{
    let a = seq![c] + x;
    let b = seq![d] + y;
    texts_differ_behind(p, a, b, 0);
    texts_differ_behind(p, b, a, 0);
    assert((p + a)[p.len() as int] == c);
    assert((p + b)[p.len() as int] == d);
    texts_differ_behind(p, Seq::empty(), x, 0);
    texts_differ_behind(p, x, Seq::empty(), 0);
    assert(p + Seq::<char>::empty() =~= p);
}

proof fn paths_differ_behind(p: Seq<Seq<char>>, a: Seq<Seq<char>>, b: Seq<Seq<char>>, i: int)
    requires
        0 <= i <= p.len(),
    ensures
        parts_le(p + a, p + b, i) == parts_le(p + a, p + b, p.len() as int),
    decreases p.len() - i,
{
    if i < p.len() {
        assert((p + a)[i] == p[i]);
        assert((p + b)[i] == p[i]);
        paths_differ_behind(p, a, b, i + 1);
    }
}

/// Paths are ordered by the first part in which they differ, and a path comes
/// before what is below it.
pub proof fn the_first_part_that_differs_orders_paths(
    p: Seq<Seq<char>>,
    s: Seq<char>,
    t: Seq<char>,
    x: Seq<Seq<char>>,
    y: Seq<Seq<char>>,
)
    requires
        s != t,
    ensures
        parts_le(p + (seq![s] + x), p + (seq![t] + y), 0) == part_le(s, t),
        parts_le(p, p + x, 0),
        x.len() > 0 ==> !parts_le(p + x, p, 0),
{
    let a = seq![s] + x;
    let b = seq![t] + y;
    paths_differ_behind(p, a, b, 0);
    assert((p + a)[p.len() as int] == s);
    assert((p + b)[p.len() as int] == t);
    paths_differ_behind(p, Seq::empty(), x, 0);
    paths_differ_behind(p, x, Seq::empty(), 0);
    assert(p + Seq::<Seq<char>>::empty() =~= p);
}

/// The root comes before a dot, a dot before two, and these before all names;
/// names are ordered as texts.
pub proof fn special_parts_come_first(s: Seq<char>, t: Seq<char>)
    requires
        s != seq!['/'] && s != seq!['.'] && s != seq!['.', '.'],
        t != seq!['/'] && t != seq!['.'] && t != seq!['.', '.'],
    ensures
        part_le(seq!['/'], seq!['.']) && !part_le(seq!['.'], seq!['/']),
        part_le(seq!['.'], seq!['.', '.']) && !part_le(seq!['.', '.'], seq!['.']),
        part_le(seq!['.', '.'], s) && !part_le(s, seq!['.', '.']),
        part_le(s, t) == text_le(s, t, 0),
{
    assert(seq!['/'][0] != seq!['.'][0]);
    assert(seq!['.', '.'].len() == 2);
    assert(seq!['.'].len() == 1);
    assert(seq!['/'].len() == 1);
}

} // verus!
