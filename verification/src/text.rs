//! Character-level text handling shared by the configuration, setup and
//! protocol code: whitespace trimming, line splitting and field splitting,
//! each stated over `Seq<char>` and implemented over the characters of a `&str`.
use vstd::prelude::*;
use vstd::string::*;

verus! {

/// Unicode `White_Space`: the characters that `str::trim` removes.
pub open spec fn is_ws(c: char) -> bool {
    let u = c as u32;
    ||| 0x9 <= u <= 0xd
    ||| u == 0x20 || u == 0x85 || u == 0xa0 || u == 0x1680
    ||| 0x2000 <= u <= 0x200a
    ||| u == 0x2028 || u == 0x2029 || u == 0x202f || u == 0x205f || u == 0x3000
}

/// `s` without its leading whitespace.
pub open spec fn trim_start(s: Seq<char>) -> Seq<char>
    decreases s.len(),
{
    if s.len() > 0 && is_ws(s[0]) {
        trim_start(s.drop_first())
    } else {
        s
    }
}

/// `s` without its trailing whitespace.
pub open spec fn trim_end(s: Seq<char>) -> Seq<char>
    decreases s.len(),
{
    if s.len() > 0 && is_ws(s.last()) {
        trim_end(s.drop_last())
    } else {
        s
    }
}

/// `s` without leading and trailing whitespace.
pub open spec fn trim(s: Seq<char>) -> Seq<char> {
    trim_end(trim_start(s))
}

/// The number of characters before the first `c` in `s` (all of `s` when there is none).
pub open spec fn seg_len(s: Seq<char>, c: char) -> nat
    decreases s.len(),
{
    if s.len() == 0 {
        0
    } else if s[0] == c {
        0
    } else {
        1 + seg_len(s.drop_first(), c)
    }
}

/// One `'\r'` removed from the end of `s`, if `s` ends with one.
pub open spec fn strip_cr(s: Seq<char>) -> Seq<char> {
    if s.len() > 0 && s.last() == '\r' {
        s.drop_last()
    } else {
        s
    }
}

/// The lines of `s`: the pieces between `'\n'` characters, a line ended by
/// `"\r\n"` losing its `'\r'`, and no empty piece after a final `'\n'`.
pub open spec fn lines(s: Seq<char>) -> Seq<Seq<char>>
    decreases s.len(),
{
    if s.len() == 0 {
        seq![]
    } else {
        let k = seg_len(s, '\n');
        if k < s.len() {
            seq![strip_cr(s.take(k as int))] + lines(s.skip(k + 1int))
        } else {
            seq![s]
        }
    }
}

/// The pieces of `s` between occurrences of `c`; always at least one piece.
pub open spec fn split(s: Seq<char>, c: char) -> Seq<Seq<char>>
    decreases s.len(),
{
    let k = seg_len(s, c);
    if k < s.len() {
        seq![s.take(k as int)] + split(s.skip(k + 1int), c)
    } else {
        seq![s]
    }
}

/// The views of a sequence of strings.
pub open spec fn views(v: Seq<String>) -> Seq<Seq<char>> {
    v.map_values(|x: String| x@)
}

/// The characters of `s`, in order.
pub fn chars_of(s: &str) -> (r: Vec<char>)
    ensures
        r@ == s@,
{
    let mut r: Vec<char> = Vec::new();
    for c in it: s.chars()
        invariant
            r@ == it.seq().take(it.index() as int),
            it.seq() == s@,
    {
        r.push(c);
    }
    r
}

/// Whether `c` is Unicode whitespace.
pub fn is_ws_char(c: char) -> (r: bool)
    ensures
        r == is_ws(c),
{
    let u = c as u32;
    (0x9 <= u && u <= 0xd) || u == 0x20 || u == 0x85 || u == 0xa0 || u == 0x1680 || (0x2000 <= u
        && u <= 0x200a) || u == 0x2028 || u == 0x2029 || u == 0x202f || u == 0x205f || u == 0x3000
}

/// The bounds of `cs` once its leading and trailing whitespace is left out.
pub fn trim_bounds(cs: &Vec<char>) -> (r: (usize, usize))
    ensures
        r.0 <= r.1 <= cs.len(),
        cs@.subrange(r.0 as int, r.1 as int) == trim(cs@),
{
    let n = cs.len();
    let mut lo: usize = 0;
    assert(cs@.skip(0) =~= cs@);
    while lo < n && is_ws_char(cs[lo])
        invariant
            lo <= n == cs.len(),
            trim_start(cs@) == trim_start(cs@.skip(lo as int)),
        decreases n - lo,
    {
        assert(cs@.skip(lo as int).drop_first() =~= cs@.skip(lo + 1));
        lo = lo + 1;
    }
    assert(trim_start(cs@.skip(lo as int)) == cs@.skip(lo as int));
    assert(cs@.skip(lo as int) =~= cs@.subrange(lo as int, n as int));
    let mut hi: usize = n;
    while hi > lo && is_ws_char(cs[hi - 1])
        invariant
            lo <= hi <= n == cs.len(),
            trim(cs@) == trim_end(cs@.subrange(lo as int, hi as int)),
        decreases hi,
    {
        assert(cs@.subrange(lo as int, hi as int).drop_last() =~= cs@.subrange(
            lo as int,
            hi - 1,
        ));
        hi = hi - 1;
    }
    (lo, hi)
}

/// `s` with leading and trailing whitespace removed.
pub fn trim_str(s: &str) -> (r: String)
    ensures
        r@ == trim(s@),
{
    let cs = chars_of(s);
    let (lo, hi) = trim_bounds(&cs);
    String::from_str(s.substring_char(lo, hi))
}

/// Whether the characters of `cs` in `lo..hi` begin with `p`.
pub fn has_prefix_in(cs: &Vec<char>, lo: usize, hi: usize, p: &str) -> (r: bool)
    requires
        lo <= hi <= cs.len(),
    ensures
        r == p@.is_prefix_of(cs@.subrange(lo as int, hi as int)),
{
    let ps = chars_of(p);
    if ps.len() > hi - lo {
        return false;
    }
    let mut i: usize = 0;
    while i < ps.len()
        invariant
            lo <= hi <= cs.len(),
            ps@ == p@,
            ps.len() <= hi - lo,
            i <= ps.len(),
            forall|j: int| 0 <= j < i ==> ps@[j] == cs@[lo + j],
        decreases ps.len() - i,
    {
        if ps[i] != cs[lo + i] {
            assert(cs@.subrange(lo as int, hi as int)[i as int] == cs@[lo + i]);
            return false;
        }
        i = i + 1;
    }
    assert(p@ =~= cs@.subrange(lo as int, hi as int).subrange(0, p@.len() as int));
    true
}

/// The lines of `s`, as `str::lines` gives them.
pub fn lines_of(s: &str) -> (r: Vec<String>)
    ensures
        views(r@) == lines(s@),
{
    let cs = chars_of(s);
    let n = cs.len();
    let mut out: Vec<String> = Vec::new();
    let mut start: usize = 0;
    let mut i: usize = 0;
    assert(cs@.skip(0) =~= cs@);
    while i < n
        invariant
            n == cs.len(),
            cs@ == s@,
            start <= i <= n,
            lines(cs@) == views(out@) + lines(cs@.skip(start as int)),
            seg_len(cs@.skip(start as int), '\n') == (i - start) + seg_len(
                cs@.skip(i as int),
                '\n',
            ),
        decreases n - i,
    {
        let ghost rest = cs@.skip(start as int);
        if cs[i] == '\n' {
            assert(seg_len(cs@.skip(i as int), '\n') == 0);
            assert(rest.take(i - start) =~= cs@.subrange(start as int, i as int));
            assert(rest.skip(i - start + 1) =~= cs@.skip(i + 1));
            let end = if i > start && cs[i - 1] == '\r' {
                i - 1
            } else {
                i
            };
            assert(cs@.subrange(start as int, end as int) == strip_cr(
                cs@.subrange(start as int, i as int),
            ));
            let line = String::from_str(s.substring_char(start, end));
            let ghost before = out@;
            out.push(line);
            assert(views(out@) =~= views(before).push(line@));
            assert(views(out@) + lines(cs@.skip(i + 1)) =~= views(before) + lines(rest));
            start = i + 1;
            i = i + 1;
            assert(seg_len(cs@.skip(start as int), '\n') == (i - start) + seg_len(
                cs@.skip(i as int),
                '\n',
            ));
        } else {
            assert(cs@.skip(i as int).drop_first() =~= cs@.skip(i + 1));
            i = i + 1;
        }
    }
    assert(cs@.skip(n as int).len() == 0);
    if start < n {
        assert(cs@.skip(start as int) =~= cs@.subrange(start as int, n as int));
        let line = String::from_str(s.substring_char(start, n));
        let ghost before = out@;
        out.push(line);
        assert(views(out@) =~= views(before).push(line@));
    } else {
        assert(views(out@) + lines(cs@.skip(start as int)) =~= views(out@));
    }
    assert(views(out@) =~= lines(s@));
    out
}

/// The pieces of `s` between occurrences of `c`, as `str::split` gives them.
pub fn split_on(s: &str, c: char) -> (r: Vec<String>)
    ensures
        views(r@) == split(s@, c),
{
    let cs = chars_of(s);
    let n = cs.len();
    let mut out: Vec<String> = Vec::new();
    let mut start: usize = 0;
    let mut i: usize = 0;
    assert(cs@.skip(0) =~= cs@);
    while i < n
        invariant
            n == cs.len(),
            cs@ == s@,
            start <= i <= n,
            split(cs@, c) == views(out@) + split(cs@.skip(start as int), c),
            seg_len(cs@.skip(start as int), c) == (i - start) + seg_len(cs@.skip(i as int), c),
        decreases n - i,
    {
        let ghost rest = cs@.skip(start as int);
        if cs[i] == c {
            assert(seg_len(cs@.skip(i as int), c) == 0);
            assert(rest.take(i - start) =~= cs@.subrange(start as int, i as int));
            assert(rest.skip(i - start + 1) =~= cs@.skip(i + 1));
            let piece = String::from_str(s.substring_char(start, i));
            let ghost before = out@;
            out.push(piece);
            assert(views(out@) =~= views(before).push(piece@));
            assert(views(out@) + split(cs@.skip(i + 1), c) =~= views(before) + split(rest, c));
            start = i + 1;
            i = i + 1;
        } else {
            assert(cs@.skip(i as int).drop_first() =~= cs@.skip(i + 1));
            i = i + 1;
        }
    }
    assert(cs@.skip(n as int).len() == 0);
    assert(cs@.skip(start as int) =~= cs@.subrange(start as int, n as int));
    let piece = String::from_str(s.substring_char(start, n));
    let ghost before = out@;
    out.push(piece);
    assert(views(out@) =~= views(before).push(piece@));
    assert(views(out@) =~= split(s@, c));
    out
}

/// `seg_len` stops at the first `c`, or at the end.
pub proof fn lemma_seg_len(s: Seq<char>, c: char)
    ensures
        seg_len(s, c) <= s.len(),
        forall|j: int| 0 <= j < seg_len(s, c) ==> s[j] != c,
        seg_len(s, c) < s.len() ==> s[seg_len(s, c) as int] == c,
    decreases s.len(),
{
    if s.len() > 0 && s[0] != c {
        lemma_seg_len(s.drop_first(), c);
        assert forall|j: int| 0 <= j < seg_len(s, c) implies s[j] != c by {
            if j > 0 {
                assert(s[j] == s.drop_first()[j - 1]);
            }
        }
    }
}

/// The first `c` of `a + [c] + b` is the one after `a` when `a` has none.
pub proof fn lemma_seg_len_concat(a: Seq<char>, c: char, b: Seq<char>)
    requires
        !a.contains(c),
    ensures
        seg_len(a + seq![c] + b, c) == a.len(),
    decreases a.len(),
{
    let s = a + seq![c] + b;
    if a.len() == 0 {
        assert(s[0] == c);
    } else {
        assert(s[0] == a[0]);
        assert(!a.drop_first().contains(c)) by {
            if a.drop_first().contains(c) {
                let j = choose|j: int| 0 <= j < a.drop_first().len() && a.drop_first()[j] == c;
                assert(a[j + 1] == c);
            }
        }
        assert(s.drop_first() =~= a.drop_first() + seq![c] + b);
        lemma_seg_len_concat(a.drop_first(), c, b);
    }
}

/// A line that ends with a newline comes first in the lines of a text.
pub proof fn lemma_lines_cons(a: Seq<char>, b: Seq<char>)
    requires
        !a.contains('\n'),
    ensures
        lines(a + "\n"@ + b) == seq![strip_cr(a)] + lines(b),
{
    reveal_strlit("\n");
    let s = a + "\n"@ + b;
    assert(s =~= a + seq!['\n'] + b);
    lemma_seg_len_concat(a, '\n', b);
    assert(s.take(a.len() as int) =~= a);
    assert(s.skip(a.len() + 1int) =~= b);
}

/// No line contains a newline.
pub proof fn lemma_lines_have_no_newline(s: Seq<char>)
    ensures
        forall|i: int| 0 <= i < lines(s).len() ==> !(#[trigger] lines(s)[i]).contains('\n'),
    decreases s.len(),
{
    if s.len() > 0 {
        let k = seg_len(s, '\n');
        lemma_seg_len(s, '\n');
        if k < s.len() {
            lemma_lines_have_no_newline(s.skip(k + 1int));
            let first = strip_cr(s.take(k as int));
            assert(!first.contains('\n')) by {
                if first.contains('\n') {
                    let j = choose|j: int| 0 <= j < first.len() && first[j] == '\n';
                    assert(s[j] == '\n');
                }
            }
            assert forall|i: int| 0 <= i < lines(s).len() implies !(
            #[trigger] lines(s)[i]).contains('\n') by {
                if i > 0 {
                    assert(lines(s)[i] == lines(s.skip(k + 1int))[i - 1]);
                }
            }
        } else {
            assert(!s.contains('\n')) by {
                if s.contains('\n') {
                    let j = choose|j: int| 0 <= j < s.len() && s[j] == '\n';
                    assert(s[j] != '\n');
                }
            }
        }
    }
}

/// Trimming text that begins and ends with a non-whitespace character leaves it as it is.
pub proof fn lemma_trim_unchanged(s: Seq<char>)
    requires
        s.len() > 0,
        !is_ws(s[0]),
        !is_ws(s.last()),
    ensures
        trim(s) == s,
{
}

/// Trailing whitespace does not change a trimmed text.
pub proof fn lemma_trim_push_ws(s: Seq<char>, w: char)
    requires
        is_ws(w),
    ensures
        trim(s.push(w)) == trim(s),
    decreases s.len(),
{
    let t = s.push(w);
    if s.len() == 0 {
        assert(t.drop_first() =~= s);
    } else if is_ws(s[0]) {
        assert(t.drop_first() =~= s.drop_first().push(w));
        lemma_trim_push_ws(s.drop_first(), w);
    } else {
        assert(t.drop_last() =~= s);
    }
}

/// Removing a final carriage return does not change a trimmed text.
pub proof fn lemma_trim_strip_cr(l: Seq<char>)
    ensures
        trim(strip_cr(l)) == trim(l),
{
    if l.len() > 0 && l.last() == '\r' {
        assert(l.drop_last().push('\r') =~= l);
        lemma_trim_push_ws(l.drop_last(), '\r');
    }
}

/// `trim_end` keeps a prefix of the text, at least up to any non-whitespace character.
pub proof fn lemma_trim_end_keeps(s: Seq<char>, j: int)
    requires
        0 <= j < s.len(),
        !is_ws(s[j]),
    ensures
        j < trim_end(s).len() <= s.len(),
        trim_end(s) == s.take(trim_end(s).len() as int),
    decreases s.len(),
{
    if is_ws(s.last()) {
        lemma_trim_end_keeps(s.drop_last(), j);
        assert(s.drop_last().take(trim_end(s).len() as int) =~= s.take(
            trim_end(s).len() as int,
        ));
    } else {
        assert(s.take(s.len() as int) =~= s);
    }
}

} // verus!
