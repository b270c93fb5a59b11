use vstd::prelude::*;
use vstd::string::*;

verus! {

/// The separators that the text helpers split on.
#[derive(Clone, Copy, Debug, PartialEq, Eq, Structural)]
pub enum Sep {
    Newline,
    Whitespace,
    Slash,
    At,
}

/// ASCII whitespace, as command output uses it between columns.
pub open spec fn is_space(c: char) -> bool {
    c == ' ' || c == '\t' || c == '\n' || c == '\r' || c == '\x0B' || c == '\x0C'
}

impl Sep {
    /// Whether `c` is a separator of this kind.
    pub open spec fn holds(self, c: char) -> bool {
        match self {
            Sep::Newline => c == '\n',
            Sep::Whitespace => is_space(c),
            Sep::Slash => c == '/',
            Sep::At => c == '@',
        }
    }

    /// Whether `c` is a separator of this kind.
    pub fn matches(&self, c: char) -> (r: bool)
        ensures
            r == self.holds(c),
    {
        match self {
            Sep::Newline => c == '\n',
            Sep::Whitespace => c == ' ' || c == '\t' || c == '\n' || c == '\r' || c == '\x0B'
                || c == '\x0C',
            Sep::Slash => c == '/',
            Sep::At => c == '@',
        }
    }
}

/// The pieces of `s` between separators, in order, empty ones included;
/// there is always one more piece than there are separators.
pub open spec fn pieces(s: Seq<char>, sep: Sep) -> Seq<Seq<char>>
    decreases s.len(),
{
    if s.len() == 0 {
        seq![Seq::<char>::empty()]
    } else {
        let p = pieces(s.drop_last(), sep);
        if sep.holds(s.last()) {
            p.push(Seq::<char>::empty())
        } else {
            p.update(p.len() - 1, p.last().push(s.last()))
        }
    }
}

/// How many characters of `s` satisfy `sep`.
pub open spec fn count_sep(s: Seq<char>, sep: Sep) -> nat
    decreases s.len(),
{
    if s.len() == 0 {
        0
    } else {
        count_sep(s.drop_last(), sep) + if sep.holds(s.last()) {
            1nat
        } else {
            0nat
        }
    }
}

/// A line without the carriage return of a CRLF ending.
pub open spec fn trim_cr(l: Seq<char>) -> Seq<char> {
    if l.len() > 0 && l.last() == '\r' {
        l.drop_last()
    } else {
        l
    }
}

/// The lines of `s`: a final newline ends the last line rather than opening an empty one.
pub open spec fn lines_of(s: Seq<char>) -> Seq<Seq<char>> {
    let p = pieces(s, Sep::Newline);
    let q = if p.last().len() == 0 {
        p.drop_last()
    } else {
        p
    };
    q.map_values(|l: Seq<char>| trim_cr(l))
}

/// The whitespace-separated words of `s`.
pub open spec fn words_of(s: Seq<char>) -> Seq<Seq<char>> {
    pieces(s, Sep::Whitespace).filter(|w: Seq<char>| nonempty(w))
}

/// A word is a non-empty piece.
pub open spec fn nonempty(w: Seq<char>) -> bool {
    w.len() > 0
}

/// Whether `s` holds two consecutive dashes, as a command-line flag does.
pub open spec fn has_flag_marker(s: Seq<char>) -> bool {
    exists|i: int| 0 <= i && i + 1 < s.len() && #[trigger] dashes_at(s, i)
}

/// Positions `i` and `i + 1` of `s` are both dashes.
pub open spec fn dashes_at(s: Seq<char>, i: int) -> bool {
    s[i] == '-' && s[i + 1] == '-'
}

/// The characters of an optional string slice.
pub open spec fn opt_view(o: Option<&str>) -> Option<Seq<char>> {
    match o {
        Some(v) => Some(v@),
        None => None,
    }
}

/// The characters of an optional string.
pub open spec fn opt_string_view(o: Option<String>) -> Option<Seq<char>> {
    match o {
        Some(v) => Some(v@),
        None => None,
    }
}

/// The characters of each string, in order.
pub open spec fn views(v: Seq<String>) -> Seq<Seq<char>> {
    v.map_values(|x: String| x@)
}

/// Splitting yields one piece more than there are separators.
pub proof fn lemma_pieces_len(s: Seq<char>, sep: Sep)
    ensures
        pieces(s, sep).len() == count_sep(s, sep) + 1,
    decreases s.len(),
{
    if s.len() > 0 {
        lemma_pieces_len(s.drop_last(), sep);
    }
}

proof fn lemma_views_push(v: Seq<String>, x: String)
    ensures
        views(v.push(x)) == views(v).push(x@),
{
    assert(views(v.push(x)) =~= views(v).push(x@));
}

/// The characters of `s`, collected once so that scans run in linear time.
pub fn chars_of(s: &str) -> (r: Vec<char>)
    ensures
        r@ == s@,
{
    let mut r: Vec<char> = Vec::new();
    for c in it: s.chars()
        invariant
            r@ == it.seq().subrange(0, it.index() as int),
            it.seq() == s@,
    {
        r.push(c);
    }
    r
}

/// An owned copy of the characters `from..to` of `s`.
pub fn slice_string(s: &str, from: usize, to: usize) -> (r: String)
    requires
        from <= to <= s@.len(),
    ensures
        r@ == s@.subrange(from as int, to as int),
{
    String::from_str(s.substring_char(from, to))
}

/// Splits `s` at every separator, keeping empty pieces.
pub fn split_pieces(s: &str, sep: Sep) -> (r: Vec<String>)
    ensures
        views(r@) == pieces(s@, sep),
{
    let cs = chars_of(s);
    let n = cs.len();
    let mut out: Vec<String> = Vec::new();
    let mut start: usize = 0;
    let mut i: usize = 0;
    assert(views(out@) =~= Seq::<Seq<char>>::empty());
    assert(s@.subrange(0, 0) =~= Seq::<char>::empty());
    while i < n
        invariant
            cs@ == s@,
            n == cs@.len(),
            start <= i <= n,
            pieces(s@.subrange(0, i as int), sep) == views(out@).push(
                s@.subrange(start as int, i as int),
            ),
        decreases n - i,
    {
        let c = cs[i];
        proof {
            assert(s@.subrange(0, i + 1).drop_last() =~= s@.subrange(0, i as int));
            assert(s@.subrange(0, i + 1).last() == c);
        }
        if sep.matches(c) {
            let piece = slice_string(s, start, i);
            proof {
                lemma_views_push(out@, piece);
            }
            out.push(piece);
            start = i + 1;
            assert(s@.subrange(start as int, i + 1) =~= Seq::<char>::empty());
        } else {
            assert(s@.subrange(start as int, i as int).push(c) =~= s@.subrange(
                start as int,
                i + 1,
            ));
            assert(views(out@).push(s@.subrange(start as int, i as int)).update(
                views(out@).len() as int,
                s@.subrange(start as int, i + 1),
            ) =~= views(out@).push(s@.subrange(start as int, i + 1)));
        }
        i = i + 1;
    }
    let last = slice_string(s, start, n);
    proof {
        lemma_views_push(out@, last);
        assert(s@.subrange(0, n as int) =~= s@);
    }
    out.push(last);
    out
}

/// The lines of `s`, each without its line ending.
pub fn lines(s: &str) -> (r: Vec<String>)
    ensures
        views(r@) == lines_of(s@),
{
    let parts = split_pieces(s, Sep::Newline);
    proof {
        lemma_pieces_len(s@, Sep::Newline);
    }
    let count = if parts[parts.len() - 1].unicode_len() == 0 {
        parts.len() - 1
    } else {
        parts.len()
    };
    let ghost p = pieces(s@, Sep::Newline);
    let ghost q = if p.last().len() == 0 {
        p.drop_last()
    } else {
        p
    };
    assert(q.len() == count);
    let mut out: Vec<String> = Vec::new();
    let mut i: usize = 0;
    while i < count
        invariant
            count <= parts@.len(),
            views(parts@) == p,
            q.len() == count,
            forall|k: int| 0 <= k < count ==> #[trigger] q[k] == p[k],
            i <= count,
            views(out@) == q.subrange(0, i as int).map_values(|l: Seq<char>| trim_cr(l)),
        decreases count - i,
    {
        let part = parts[i].as_str();
        let len = part.unicode_len();
        let line = if len > 0 && part.get_char(len - 1) == '\r' {
            slice_string(part, 0, len - 1)
        } else {
            slice_string(part, 0, len)
        };
        proof {
            assert(part@ == p[i as int]);
            assert(part@.subrange(0, len as int) =~= part@);
            assert(part@.subrange(0, len - 1) =~= part@.drop_last());
            assert(line@ == trim_cr(q[i as int]));
            lemma_views_push(out@, line);
            assert(q.subrange(0, i + 1).map_values(|l: Seq<char>| trim_cr(l)) =~= q.subrange(
                0,
                i as int,
            ).map_values(|l: Seq<char>| trim_cr(l)).push(trim_cr(q[i as int])));
        }
        out.push(line);
        i = i + 1;
    }
    assert(q.subrange(0, count as int) =~= q);
    out
}

/// The whitespace-separated words of `s`.
pub fn words(s: &str) -> (r: Vec<String>)
    ensures
        views(r@) == words_of(s@),
{
    let parts = split_pieces(s, Sep::Whitespace);
    let ghost p = pieces(s@, Sep::Whitespace);
    let mut out: Vec<String> = Vec::new();
    let mut i: usize = 0;
    while i < parts.len()
        invariant
            views(parts@) == p,
            i <= parts@.len(),
            views(out@) == p.subrange(0, i as int).filter(|w: Seq<char>| nonempty(w)),
        decreases parts@.len() - i,
    {
        proof {
            assert(p.subrange(0, i + 1) =~= p.subrange(0, i as int).push(p[i as int]));
            p.subrange(0, i as int).lemma_filter_push(p[i as int], |w: Seq<char>| nonempty(w));
            assert(parts@[i as int]@ == p[i as int]);
        }
        if parts[i].unicode_len() > 0 {
            let w = parts[i].clone();
            proof {
                lemma_views_push(out@, w);
                assert(nonempty(p[i as int]));
            }
            out.push(w);
        } else {
            assert(!nonempty(p[i as int]));
        }
        i = i + 1;
    }
    assert(p.subrange(0, parts@.len() as int) =~= p);
    out
}

/// Whether `s` holds two consecutive dashes.
pub fn has_flag(s: &str) -> (r: bool)
    ensures
        r == has_flag_marker(s@),
{
    let cs = chars_of(s);
    let n = cs.len();
    let mut i: usize = 0;
    while i < n && i + 1 < n
        invariant
            i <= n,
            cs@ == s@,
            n == cs@.len(),
            forall|k: int| 0 <= k < i && k + 1 < n ==> !#[trigger] dashes_at(s@, k),
        decreases n - i,
    {
        if cs[i] == '-' && cs[i + 1] == '-' {
            assert(dashes_at(s@, i as int));
            return true;
        }
        i = i + 1;
    }
    false
}

/// Whether `a` and `b` hold the same characters.
pub fn str_eq(a: &str, b: &str) -> (r: bool)
    ensures
        r == (a@ == b@),
{
    let x = chars_of(a);
    let y = chars_of(b);
    if x.len() != y.len() {
        return false;
    }
    let mut i: usize = 0;
    while i < x.len()
        invariant
            x@ == a@,
            y@ == b@,
            x@.len() == y@.len(),
            i <= x@.len(),
            forall|k: int| 0 <= k < i ==> x@[k] == y@[k],
        decreases x@.len() - i,
    {
        if x[i] != y[i] {
            return false;
        }
        i = i + 1;
    }
    assert(a@ =~= b@);
    true
}

/// Owned copies of `v`'s strings, in order.
pub fn to_strings(v: &Vec<&str>) -> (r: Vec<String>)
    ensures
        views(r@) == v@.map_values(|x: &str| x@),
{
    let mut out: Vec<String> = Vec::new();
    let mut i: usize = 0;
    while i < v.len()
        invariant
            i <= v@.len(),
            views(out@) =~= v@.subrange(0, i as int).map_values(|x: &str| x@),
        decreases v@.len() - i,
    {
        let s = String::from_str(v[i]);
        proof {
            lemma_views_push(out@, s);
            assert(v@.subrange(0, i + 1).map_values(|x: &str| x@) =~= v@.subrange(
                0,
                i as int,
            ).map_values(|x: &str| x@).push(v@[i as int]@));
        }
        out.push(s);
        i = i + 1;
    }
    assert(v@.subrange(0, v@.len() as int) =~= v@);
    out
}

/// Appends copies of `extra`'s strings to `v`.
pub fn extend_strings(v: &mut Vec<String>, extra: &Vec<String>)
    ensures
        views(final(v)@) == views(old(v)@) + views(extra@),
{
    let mut i: usize = 0;
    let ghost start = views(v@);
    while i < extra.len()
        invariant
            i <= extra@.len(),
            views(v@) =~= start + views(extra@).subrange(0, i as int),
        decreases extra@.len() - i,
    {
        let s = extra[i].clone();
        proof {
            lemma_views_push(v@, s);
        }
        v.push(s);
        i = i + 1;
    }
    assert(views(extra@).subrange(0, extra@.len() as int) =~= views(extra@));
}

/// `s` ends with `suffix`.
pub open spec fn has_suffix(s: Seq<char>, suffix: Seq<char>) -> bool {
    s.len() >= suffix.len() && s.subrange(s.len() - suffix.len(), s.len() as int) == suffix
}

/// Whether `s` ends with `suffix`.
pub fn ends_with(s: &str, suffix: &str) -> (r: bool)
    ensures
        r == has_suffix(s@, suffix@),
{
    let n = s.unicode_len();
    let m = suffix.unicode_len();
    if n < m {
        return false;
    }
    str_eq(s.substring_char(n - m, n), suffix)
}

/// `pat` occurs in `s` at position `i`.
pub open spec fn occurs_at(s: Seq<char>, pat: Seq<char>, i: int) -> bool {
    0 <= i && i + pat.len() <= s.len() && s.subrange(i, i + pat.len()) == pat
}

/// `pat` occurs somewhere in `s`.
pub open spec fn has_infix(s: Seq<char>, pat: Seq<char>) -> bool {
    exists|i: int| #[trigger] occurs_at(s, pat, i)
}

/// Whether `pat` occurs in `s`.
pub fn contains_str(s: &str, pat: &str) -> (r: bool)
    ensures
        r == has_infix(s@, pat@),
{
    let n = s.unicode_len();
    let m = pat.unicode_len();
    if n < m {
        return false;
    }
    let mut i: usize = 0;
    while i <= n - m
        invariant
            n == s@.len(),
            m == pat@.len(),
            m <= n,
            forall|k: int| 0 <= k < i ==> !#[trigger] occurs_at(s@, pat@, k),
        decreases n - m + 1 - i,
    {
        if str_eq(s.substring_char(i, i + m), pat) {
            assert(occurs_at(s@, pat@, i as int));
            return true;
        }
        if i == n - m {
            return false;
        }
        i = i + 1;
    }
    false
}

/// Appends a copy of `s` to `v`.
pub fn push_str(v: &mut Vec<String>, s: &str)
    ensures
        views(final(v)@) == views(old(v)@).push(s@),
{
    let x = String::from_str(s);
    proof {
        lemma_views_push(v@, x);
    }
    v.push(x);
}

/// `a` followed by `b`.
pub fn concat_str(a: &str, b: &str) -> (r: String)
    ensures
        r@ == a@ + b@,
{
    let mut r = String::from_str(a);
    r.append(b);
    r
}

} // verus!
