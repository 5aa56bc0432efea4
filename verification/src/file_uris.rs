//! The file paths that a copied list of `file://` URIs names.
use vstd::prelude::*;
use crate::decode::{decode_chars, decoded};
use crate::text::{chars_of, string_of};

verus! {

/// Whether `c` has the Unicode `White_Space` property (what `char::is_whitespace` tests).
pub open spec fn is_white_space(c: char) -> bool {
    let u = c as u32;
    (0x9 <= u && u <= 0xD) || u == 0x20 || u == 0x85 || u == 0xA0 || u == 0x1680
        || (0x2000 <= u && u <= 0x200A) || u == 0x2028 || u == 0x2029 || u == 0x202F
        || u == 0x205F || u == 0x3000
}

/// `s` without its leading white space.
pub open spec fn trim_start(s: Seq<char>) -> Seq<char>
    decreases s.len(),
{
    if s.len() > 0 && is_white_space(s[0]) {
        trim_start(s.skip(1))
    } else {
        s
    }
}

/// `s` without its trailing white space.
pub open spec fn trim_end(s: Seq<char>) -> Seq<char>
    decreases s.len(),
{
    if s.len() > 0 && is_white_space(s.last()) {
        trim_end(s.drop_last())
    } else {
        s
    }
}

/// `s` without leading and trailing white space (what `str::trim` gives).
pub open spec fn trimmed(s: Seq<char>) -> Seq<char> {
    trim_end(trim_start(s))
}

/// The pieces of `s` between line feeds, the last one included.  (`str::lines` also drops
/// a `\r` before each line feed and an empty piece after a final line feed; a trimmed
/// piece never keeps a `\r`, and an empty piece names no file.)
pub open spec fn split_lines(s: Seq<char>) -> Seq<Seq<char>>
    decreases s.len(),
{
    if s.len() == 0 {
        seq![Seq::empty()]
    } else if s.last() == '\n' {
        split_lines(s.drop_last()).push(Seq::empty())
    } else {
        let p = split_lines(s.drop_last());
        p.update(p.len() - 1, p.last().push(s.last()))
    }
}

/// The scheme prefix `file://`.
pub open spec fn file_scheme() -> Seq<char> {
    seq!['f', 'i', 'l', 'e', ':', '/', '/']
}

/// Whether `s` begins with `file://`.
pub open spec fn has_file_scheme(s: Seq<char>) -> bool {
    s.len() >= 7 && s.take(7) == file_scheme()
}

/// The decoded paths of the lines that, trimmed, begin with `file://`, in order.
pub open spec fn paths_of_lines(lines: Seq<Seq<char>>) -> Seq<Seq<char>>
    decreases lines.len(),
{
    if lines.len() == 0 {
        Seq::empty()
    } else {
        let before = paths_of_lines(lines.drop_last());
        let line = trimmed(lines.last());
        if has_file_scheme(line) {
            before.push(decoded(line.skip(7)))
        } else {
            before
        }
    }
}

/// The paths that copied text names when it is a list of `file://` URIs: nothing unless
/// the text itself begins with `file://`; then, for each line that begins with `file://`
/// once trimmed, the rest of the line decoded.
pub open spec fn file_uri_paths_of(text: Seq<char>) -> Seq<Seq<char>> {
    if has_file_scheme(text) {
        paths_of_lines(split_lines(text))
    } else {
        Seq::empty()
    }
}

/// The paths that a copied list of `file://` URIs names are one per line that, trimmed,
/// begins with `file://`, in the order of the lines, each the rest of its trimmed line
/// decoded; there is no bound on their number.
pub proof fn one_path_per_file_line(text: Seq<char>)
    requires
        has_file_scheme(text),
    ensures
        file_uri_paths_of(text) == split_lines(text).filter_map(
            |l: Seq<char>| if has_file_scheme(trimmed(l)) {
                Some(decoded(trimmed(l).skip(7)))
            } else {
                None
            },
        ),
{
    lemma_paths_are_filter_map(split_lines(text));
}

proof fn lemma_paths_are_filter_map(lines: Seq<Seq<char>>)
    ensures
        paths_of_lines(lines) == lines.filter_map(
            |l: Seq<char>| if has_file_scheme(trimmed(l)) {
                Some(decoded(trimmed(l).skip(7)))
            } else {
                None
            },
        ),
    decreases lines.len(),
{
    if lines.len() > 0 {
        lemma_paths_are_filter_map(lines.drop_last());
        let line = trimmed(lines.last());
        if has_file_scheme(line) {
            assert(paths_of_lines(lines.drop_last()).push(decoded(line.skip(7)))
                =~= paths_of_lines(lines.drop_last()) + seq![decoded(line.skip(7))]);
        }
    }
}

proof fn lemma_split_lines_not_empty(s: Seq<char>)
    ensures
        split_lines(s).len() >= 1,
    decreases s.len(),
{
    if s.len() > 0 {
        lemma_split_lines_not_empty(s.drop_last());
    }
}

proof fn lemma_split_lines_at_line_feed(a: Seq<char>, b: Seq<char>)
    ensures
        split_lines(a + seq!['\n'] + b) == split_lines(a) + split_lines(b),
    decreases b.len(),
{
    let s = a + seq!['\n'] + b;
    if b.len() == 0 {
        assert(s.drop_last() =~= a);
        assert(split_lines(a).push(Seq::empty()) =~= split_lines(a) + split_lines(b));
    } else {
        assert(s.drop_last() =~= a + seq!['\n'] + b.drop_last());
        assert(s.last() == b.last());
        lemma_split_lines_at_line_feed(a, b.drop_last());
        lemma_split_lines_not_empty(b.drop_last());
        let pa = split_lines(a);
        let pb = split_lines(b.drop_last());
        if b.last() == '\n' {
            assert((pa + pb).push(Seq::empty()) =~= pa + pb.push(Seq::empty()));
        } else {
            let p = pa + pb;
            assert(p.update(p.len() - 1, p.last().push(b.last()))
                =~= pa + pb.update(pb.len() - 1, pb.last().push(b.last())));
        }
    }
}

proof fn lemma_paths_of_joined_lines(x: Seq<Seq<char>>, y: Seq<Seq<char>>)
    ensures
        paths_of_lines(x + y) == paths_of_lines(x) + paths_of_lines(y),
    decreases y.len(),
{
    if y.len() == 0 {
        assert(x + y =~= x);
        assert(paths_of_lines(x) + paths_of_lines(y) =~= paths_of_lines(x));
    } else {
        assert((x + y).drop_last() =~= x + y.drop_last());
        assert((x + y).last() == y.last());
        lemma_paths_of_joined_lines(x, y.drop_last());
        let line = trimmed(y.last());
        if has_file_scheme(line) {
            assert((paths_of_lines(x) + paths_of_lines(y.drop_last())).push(decoded(line.skip(7)))
                =~= paths_of_lines(x) + paths_of_lines(y.drop_last()).push(decoded(line.skip(7))));
        }
    }
}

/// Two copied lists of `file://` URIs copied as one, a line apart, name the paths of the
/// first list followed by those of the second.
pub proof fn joined_lists_name_both_lists_paths(a: Seq<char>, b: Seq<char>)
    requires
        has_file_scheme(a),
        has_file_scheme(b),
    ensures
        file_uri_paths_of(a + seq!['\n'] + b) == file_uri_paths_of(a) + file_uri_paths_of(b),
{
    let s = a + seq!['\n'] + b;
    assert(s.take(7) =~= a.take(7));
    lemma_split_lines_at_line_feed(a, b);
    lemma_paths_of_joined_lines(split_lines(a), split_lines(b));
}

/// Whether a character has the Unicode `White_Space` property.
pub fn white_space(c: char) -> (r: bool)
    ensures
        r == is_white_space(c),
{
    let u = c as u32;
    (0x9 <= u && u <= 0xD) || u == 0x20 || u == 0x85 || u == 0xA0 || u == 0x1680
        || (0x2000 <= u && u <= 0x200A) || u == 0x2028 || u == 0x2029 || u == 0x202F
        || u == 0x205F || u == 0x3000
}

/// Whether `v[start..end]` begins with `file://`.
fn starts_with_file_scheme(v: &Vec<char>, start: usize, end: usize) -> (r: bool)
    requires
        start <= end <= v@.len(),
    ensures
        r == has_file_scheme(v@.subrange(start as int, end as int)),
{
    if end - start < 7 {
        return false;
    }
    let r = v[start] == 'f' && v[start + 1] == 'i' && v[start + 2] == 'l' && v[start + 3] == 'e'
        && v[start + 4] == ':' && v[start + 5] == '/' && v[start + 6] == '/';
    let ghost s = v@.subrange(start as int, end as int);
    assert(r == (s.take(7) =~= file_scheme())) by {
        if r {
            assert(s.take(7) =~= file_scheme());
        } else {
            assert(s.take(7)[0] != 'f' || s.take(7)[1] != 'i' || s.take(7)[2] != 'l'
                || s.take(7)[3] != 'e' || s.take(7)[4] != ':' || s.take(7)[5] != '/'
                || s.take(7)[6] != '/');
        }
    }
    r
}

/// The bounds of the trimmed part of `v[start..end]`.
fn trim_bounds(v: &Vec<char>, start: usize, end: usize) -> (r: (usize, usize))
    requires
        start <= end <= v@.len(),
    ensures
        start <= r.0 <= r.1 <= end,
        v@.subrange(r.0 as int, r.1 as int) == trimmed(v@.subrange(start as int, end as int)),
{
    let mut s = start;
    while s < end && white_space(v[s])
        invariant
            start <= s <= end <= v@.len(),
            trim_start(v@.subrange(start as int, end as int)) == trim_start(v@.subrange(s as int, end as int)),
        decreases end - s,
    {
        assert(v@.subrange(s as int, end as int).skip(1) =~= v@.subrange(s + 1, end as int));
        s += 1;
    }
    assert(trim_start(v@.subrange(s as int, end as int)) == v@.subrange(s as int, end as int));
    let mut e = end;
    while e > s && white_space(v[e - 1])
        invariant
            start <= s <= e <= end <= v@.len(),
            trim_end(v@.subrange(s as int, end as int)) == trim_end(v@.subrange(s as int, e as int)),
        decreases e - s,
    {
        assert(v@.subrange(s as int, e as int).drop_last() =~= v@.subrange(s as int, e - 1));
        e -= 1;
    }
    assert(trim_end(v@.subrange(s as int, e as int)) == v@.subrange(s as int, e as int));
    (s, e)
}

/// Appends to `out` the path that the line `v[start..end]` names, if it names one.
fn push_line_path(v: &Vec<char>, start: usize, end: usize, out: &mut Vec<String>)
    requires
        start <= end <= v@.len(),
    ensures
        final(out).deep_view() == ({
            let line = trimmed(v@.subrange(start as int, end as int));
            if has_file_scheme(line) {
                old(out).deep_view().push(decoded(line.skip(7)))
            } else {
                old(out).deep_view()
            }
        }),
{
    let (s, e) = trim_bounds(v, start, end);
    if starts_with_file_scheme(v, s, e) {
        let path = decode_chars(v, s + 7, e);
        assert(v@.subrange(s as int, e as int).skip(7) =~= v@.subrange(s + 7, e as int));
        let p = string_of(&path);
        let ghost before = out.deep_view();
        out.push(p);
        assert(out.deep_view() =~= before.push(p@));
    }
}

/// The paths that copied text names when it is a list of `file://` URIs
/// (see `file_uri_paths_of`); the caller keeps those that exist.
pub fn file_uri_paths(text: &str) -> (r: Vec<String>)
    ensures
        r.deep_view() == file_uri_paths_of(text@),
{
    let v = chars_of(text);
    let mut out: Vec<String> = Vec::new();
    if !starts_with_file_scheme(&v, 0, v.len()) {
        assert(v@.subrange(0, v@.len() as int) =~= v@);
        return out;
    }
    assert(v@.subrange(0, v@.len() as int) =~= v@);
    let ghost mut done: Seq<Seq<char>> = Seq::empty();
    let mut seg_start: usize = 0;
    let mut i: usize = 0;
    assert(v@.take(0) =~= Seq::<char>::empty());
    assert(v@.subrange(0, 0) =~= Seq::<char>::empty());
    while i < v.len()
        invariant
            seg_start <= i <= v@.len(),
            split_lines(v@.take(i as int)) == done.push(v@.subrange(seg_start as int, i as int)),
            out.deep_view() == paths_of_lines(done),
        decreases v.len() - i,
    {
        assert(v@.take(i + 1).drop_last() =~= v@.take(i as int));
        if v[i] == '\n' {
            push_line_path(&v, seg_start, i, &mut out);
            proof {
                let line = v@.subrange(seg_start as int, i as int);
                assert(done.push(line).drop_last() =~= done);
                done = done.push(line);
            }
            seg_start = i + 1;
            assert(v@.subrange(seg_start as int, i + 1) =~= Seq::<char>::empty());
        } else {
            assert(v@.subrange(seg_start as int, i + 1) =~= v@.subrange(seg_start as int, i as int).push(v@[i as int]));
            assert(done.push(v@.subrange(seg_start as int, i as int)).update(
                done.len() as int, v@.subrange(seg_start as int, i + 1)) =~= done.push(v@.subrange(seg_start as int, i + 1)));
        }
        i += 1;
    }
    assert(v@.take(v@.len() as int) =~= v@);
    push_line_path(&v, seg_start, v.len(), &mut out);
    proof {
        let line = v@.subrange(seg_start as int, v@.len() as int);
        assert(done.push(line).drop_last() =~= done);
    }
    out
}

} // verus!
