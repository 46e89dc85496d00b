//! Character-sequence operations behind output normalisation: whitespace,
//! trimming, splitting into lines and words, and joining them back.
use vstd::prelude::*;
use vstd::std_specs::iter::IteratorSpec;

verus! {

/// The characters with the Unicode `White_Space` property, the set that
/// `char::is_whitespace` accepts.
pub open spec fn is_ws(c: char) -> bool {
    let u = c as u32;
    (0x09 <= u && u <= 0x0d) || u == 0x20 || u == 0x85 || u == 0xa0 || u == 0x1680 || (0x2000
        <= u && u <= 0x200a) || u == 0x2028 || u == 0x2029 || u == 0x202f || u == 0x205f || u
        == 0x3000
}

pub fn is_whitespace(c: char) -> (r: bool)
    ensures
        r == is_ws(c),
{
    let u = c as u32;
    (0x09 <= u && u <= 0x0d) || u == 0x20 || u == 0x85 || u == 0xa0 || u == 0x1680 || (0x2000
        <= u && u <= 0x200a) || u == 0x2028 || u == 0x2029 || u == 0x202f || u == 0x205f || u
        == 0x3000
}

/// `s` with its leading whitespace removed.
pub open spec fn trim_start(s: Seq<char>) -> Seq<char>
    decreases s.len(),
{
    if s.len() > 0 && is_ws(s[0]) {
        trim_start(s.drop_first())
    } else {
        s
    }
}

/// `s` with its trailing whitespace removed.
pub open spec fn trim_end(s: Seq<char>) -> Seq<char>
    decreases s.len(),
{
    if s.len() > 0 && is_ws(s.last()) {
        trim_end(s.drop_last())
    } else {
        s
    }
}

/// `s` with whitespace removed at both ends, as `str::trim` does.
pub open spec fn trim(s: Seq<char>) -> Seq<char> {
    trim_end(trim_start(s))
}

/// Neither end of `s` is whitespace.
pub open spec fn is_trimmed(s: Seq<char>) -> bool {
    s.len() == 0 || (!is_ws(s[0]) && !is_ws(s.last()))
}

pub open spec fn no_newline(s: Seq<char>) -> bool {
    forall|k: int| 0 <= k < s.len() ==> s[k] != '\n'
}

proof fn lemma_trim_start_skip(s: Seq<char>, i: int)
    requires
        0 <= i <= s.len(),
        forall|k: int| 0 <= k < i ==> is_ws(s[k]),
        i == s.len() || !is_ws(s[i]),
    ensures
        trim_start(s) == s.subrange(i, s.len() as int),
    decreases i,
{
    if i == 0 {
        assert(s.subrange(0, s.len() as int) =~= s);
    } else {
        lemma_trim_start_skip(s.drop_first(), i - 1);
        assert(s.drop_first().subrange(i - 1, s.len() - 1) =~= s.subrange(i, s.len() as int));
    }
}

proof fn lemma_trim_end_take(s: Seq<char>, j: int)
    requires
        0 <= j <= s.len(),
        forall|k: int| j <= k < s.len() ==> is_ws(s[k]),
        j == 0 || !is_ws(s[j - 1]),
    ensures
        trim_end(s) == s.subrange(0, j),
    decreases s.len() - j,
{
    if j == s.len() {
        assert(s.subrange(0, j) =~= s);
    } else {
        lemma_trim_end_take(s.drop_last(), j);
        assert(s.drop_last().subrange(0, j) =~= s.subrange(0, j));
    }
}

/// `trim(v)` computed on a vector of characters.
pub fn trim_chars(v: &Vec<char>) -> (r: Vec<char>)
    ensures
        r@ == trim(v@),
{
    let n = v.len();
    let mut i: usize = 0;
    while i < n && is_whitespace(v[i])
        invariant
            n == v@.len(),
            i <= n,
            forall|k: int| 0 <= k < i ==> is_ws(v@[k]),
        decreases n - i,
    {
        i = i + 1;
    }
    let mut j: usize = n;
    while j > i && is_whitespace(v[j - 1])
        invariant
            n == v@.len(),
            i <= j <= n,
            forall|k: int| j <= k < n ==> is_ws(v@[k]),
        decreases j,
    {
        j = j - 1;
    }
    proof {
        lemma_trim_start_skip(v@, i as int);
        let t = v@.subrange(i as int, n as int);
        lemma_trim_end_take(t, j - i);
        assert(t.subrange(0, j - i) =~= v@.subrange(i as int, j as int));
    }
    let mut r: Vec<char> = Vec::new();
    let mut k: usize = i;
    while k < j
        invariant
            n == v@.len(),
            i <= k <= j <= n,
            r@ =~= v@.subrange(i as int, k as int),
        decreases j - k,
    {
        r.push(v[k]);
        k = k + 1;
    }
    r
}


/// What `trim_start` leaves is a suffix of its argument, starting with a
/// character that is not whitespace.
pub proof fn lemma_trim_start_suffix(s: Seq<char>)
    ensures
        trim_start(s).len() <= s.len(),
        trim_start(s) == s.subrange(s.len() - trim_start(s).len(), s.len() as int),
        trim_start(s).len() > 0 ==> !is_ws(trim_start(s)[0]),
    decreases s.len(),
{
    if s.len() > 0 && is_ws(s[0]) {
        lemma_trim_start_suffix(s.drop_first());
        let t = trim_start(s.drop_first());
        assert(s.drop_first().subrange(s.len() - 1 - t.len(), s.len() - 1) =~= s.subrange(
            s.len() - t.len(),
            s.len() as int,
        ));
    } else {
        assert(s.subrange(0, s.len() as int) =~= s);
    }
}

/// What `trim_end` leaves is a prefix of its argument, ending with a
/// character that is not whitespace.
pub proof fn lemma_trim_end_prefix(s: Seq<char>)
    ensures
        trim_end(s).len() <= s.len(),
        trim_end(s) == s.subrange(0, trim_end(s).len() as int),
        trim_end(s).len() > 0 ==> !is_ws(trim_end(s).last()),
    decreases s.len(),
{
    if s.len() > 0 && is_ws(s.last()) {
        lemma_trim_end_prefix(s.drop_last());
        let t = trim_end(s.drop_last());
        assert(s.drop_last().subrange(0, t.len() as int) =~= s.subrange(0, t.len() as int));
    } else {
        assert(s.subrange(0, s.len() as int) =~= s);
    }
}

/// `trim` gives a trimmed piece of its argument, and leaves a trimmed
/// sequence as it is.
pub proof fn lemma_trim_props(s: Seq<char>)
    ensures
        is_trimmed(trim(s)),
        no_newline(s) ==> no_newline(trim(s)),
        is_trimmed(s) ==> trim(s) == s,
{
    let a = trim_start(s);
    lemma_trim_start_suffix(s);
    lemma_trim_end_prefix(a);
    let b = trim_end(a);
    if b.len() > 0 {
        assert(b[0] == a[0]);
    }
    if no_newline(s) {
        assert forall|k: int| 0 <= k < b.len() implies b[k] != '\n' by {
            assert(b[k] == a[k]);
            assert(a[k] == s[s.len() - a.len() + k]);
        }
    }
    if is_trimmed(s) {
        if s.len() > 0 {
            assert(trim_start(s) == s);
            assert(trim_end(s) == s);
        }
    }
}

/// The lines of `s`: the pieces between its `'\n'` characters.
pub open spec fn split_lines(s: Seq<char>) -> Seq<Seq<char>>
    decreases s.len(),
{
    if s.len() == 0 {
        seq![Seq::empty()]
    } else {
        let p = split_lines(s.drop_last());
        if s.last() == '\n' {
            p.push(Seq::empty())
        } else {
            p.update(p.len() - 1, p.last().push(s.last()))
        }
    }
}

/// The lines `ls` joined with `'\n'` between each two.
pub open spec fn join_lines(ls: Seq<Seq<char>>) -> Seq<char>
    decreases ls.len(),
{
    if ls.len() == 0 {
        Seq::empty()
    } else if ls.len() == 1 {
        ls[0]
    } else {
        join_lines(ls.drop_last()) + seq!['\n'] + ls.last()
    }
}

pub open spec fn all_no_newline(ls: Seq<Seq<char>>) -> bool {
    forall|i: int| 0 <= i < ls.len() ==> no_newline(#[trigger] ls[i])
}

pub open spec fn all_trimmed(ls: Seq<Seq<char>>) -> bool {
    forall|i: int| 0 <= i < ls.len() ==> is_trimmed(#[trigger] ls[i])
}

pub proof fn lemma_split_lines_shape(s: Seq<char>)
    ensures
        split_lines(s).len() >= 1,
        all_no_newline(split_lines(s)),
    decreases s.len(),
{
    if s.len() > 0 {
        lemma_split_lines_shape(s.drop_last());
        let p = split_lines(s.drop_last());
        let q = split_lines(s);
        if s.last() != '\n' {
            assert forall|i: int| 0 <= i < q.len() implies no_newline(#[trigger] q[i]) by {
                if i == p.len() - 1 {
                    assert(no_newline(p[i]));
                    assert(q[i] == p[i].push(s.last()));
                    assert forall|k: int| 0 <= k < q[i].len() implies q[i][k] != '\n' by {
                        if k < p[i].len() {
                            assert(q[i][k] == p[i][k]);
                        }
                    }
                } else {
                    assert(q[i] == p[i]);
                }
            }
        } else {
            assert forall|i: int| 0 <= i < q.len() implies no_newline(#[trigger] q[i]) by {
                if i < p.len() {
                    assert(q[i] == p[i]);
                }
            }
        }
    }
}

/// Splitting a line free of `'\n'` gives that line alone.
proof fn lemma_split_single(b: Seq<char>)
    requires
        no_newline(b),
    ensures
        split_lines(b) == seq![b],
    decreases b.len(),
{
    if b.len() > 0 {
        assert(b[b.len() - 1] != '\n');
        assert(no_newline(b.drop_last())) by {
            assert forall|k: int| 0 <= k < b.len() - 1 implies b.drop_last()[k] != '\n' by {
                assert(b.drop_last()[k] == b[k]);
            }
        }
        lemma_split_single(b.drop_last());
        assert(b.drop_last().push(b.last()) =~= b);
        assert(seq![b.drop_last()].update(0, b.drop_last().push(b.last())) =~= seq![b]);
    } else {
        assert(b =~= Seq::<char>::empty());
    }
}

/// Splitting `x + "\n" + b`, where `b` holds no `'\n'`, gives the lines of `x`
/// and then `b`.
proof fn lemma_split_append_line(x: Seq<char>, b: Seq<char>)
    requires
        no_newline(b),
    ensures
        split_lines(x + seq!['\n'] + b) == split_lines(x).push(b),
    decreases b.len(),
{
    let y = x + seq!['\n'];
    if b.len() == 0 {
        assert(y + b =~= y);
        assert(y.drop_last() =~= x);
        assert(b =~= Seq::<char>::empty());
    } else {
        let b0 = b.drop_last();
        assert(b[b.len() - 1] != '\n');
        assert(no_newline(b0)) by {
            assert forall|k: int| 0 <= k < b0.len() implies b0[k] != '\n' by {
                assert(b0[k] == b[k]);
            }
        }
        lemma_split_append_line(x, b0);
        assert((y + b).drop_last() =~= y + b0);
        assert((y + b).last() == b.last());
        lemma_split_lines_shape(x);
        assert(b0.push(b.last()) =~= b);
        assert(split_lines(x).push(b0).update(split_lines(x).len() as int, b0.push(b.last()))
            =~= split_lines(x).push(b));
        assert(b0.push(b.last()) =~= b);
    }
}

/// Joining lines free of `'\n'` and splitting again gives the same lines.
pub proof fn lemma_split_join(ls: Seq<Seq<char>>)
    requires
        ls.len() >= 1,
        all_no_newline(ls),
    ensures
        split_lines(join_lines(ls)) == ls,
    decreases ls.len(),
{
    if ls.len() == 1 {
        assert(no_newline(ls[0]));
        lemma_split_single(ls[0]);
        assert(seq![ls[0]] =~= ls);
    } else {
        let front = ls.drop_last();
        assert forall|i: int| 0 <= i < front.len() implies no_newline(#[trigger] front[i]) by {
            assert(front[i] == ls[i]);
        }
        lemma_split_join(front);
        assert(no_newline(ls.last()));
        lemma_split_append_line(join_lines(front), ls.last());
        assert(front.push(ls.last()) =~= ls);
    }
}


/// The maximal runs of non-whitespace characters of `s`, in order, as
/// `str::split_whitespace` gives them.
pub open spec fn words(s: Seq<char>) -> Seq<Seq<char>>
    decreases s.len(),
{
    if s.len() == 0 {
        Seq::empty()
    } else {
        let w = words(s.drop_last());
        let c = s.last();
        if is_ws(c) {
            w
        } else if s.len() >= 2 && !is_ws(s[s.len() - 2]) {
            w.update(w.len() - 1, w.last().push(c))
        } else {
            w.push(seq![c])
        }
    }
}

/// The words `ws` joined with a single space between each two.
pub open spec fn join_words(ws: Seq<Seq<char>>) -> Seq<char>
    decreases ws.len(),
{
    if ws.len() == 0 {
        Seq::empty()
    } else if ws.len() == 1 {
        ws[0]
    } else {
        join_words(ws.drop_last()) + seq![' '] + ws.last()
    }
}

/// `s` with each run of whitespace made a single space and whitespace at the
/// ends removed: its words joined by single spaces.
pub open spec fn collapse_ws(s: Seq<char>) -> Seq<char> {
    join_words(words(s))
}

/// A word: not empty, and free of whitespace.
pub open spec fn is_word(w: Seq<char>) -> bool {
    w.len() > 0 && forall|k: int| 0 <= k < w.len() ==> !is_ws(#[trigger] w[k])
}

pub open spec fn all_words(ws: Seq<Seq<char>>) -> bool {
    forall|i: int| 0 <= i < ws.len() ==> is_word(#[trigger] ws[i])
}

pub proof fn lemma_words_shape(s: Seq<char>)
    ensures
        all_words(words(s)),
        s.len() > 0 && !is_ws(s.last()) ==> words(s).len() >= 1,
    decreases s.len(),
{
    if s.len() > 0 {
        let t = s.drop_last();
        lemma_words_shape(t);
        let w = words(t);
        let c = s.last();
        let r = words(s);
        if !is_ws(c) {
            if s.len() >= 2 && !is_ws(s[s.len() - 2]) {
                assert(t.last() == s[s.len() - 2]);
                let lw = w.last().push(c);
                assert(is_word(w[w.len() - 1]));
                assert forall|k: int| 0 <= k < lw.len() implies !is_ws(#[trigger] lw[k]) by {
                    if k < lw.len() - 1 {
                        assert(lw[k] == w[w.len() - 1][k]);
                    }
                }
                assert forall|i: int| 0 <= i < r.len() implies is_word(#[trigger] r[i]) by {
                    if i < w.len() - 1 {
                        assert(r[i] == w[i]);
                    }
                }
            } else {
                assert forall|i: int| 0 <= i < r.len() implies is_word(#[trigger] r[i]) by {
                    if i < w.len() {
                        assert(r[i] == w[i]);
                    } else {
                        assert(r[i] == seq![c]);
                    }
                }
            }
        }
    }
}

proof fn lemma_words_single(b: Seq<char>)
    requires
        is_word(b),
    ensures
        words(b) == seq![b],
    decreases b.len(),
{
    let c = b.last();
    assert(!is_ws(b[b.len() - 1]));
    if b.len() == 1 {
        assert(b.drop_last() =~= Seq::<char>::empty());
        assert(words(b.drop_last()) =~= Seq::<Seq<char>>::empty());
        assert(seq![c] =~= b);
        assert(Seq::<Seq<char>>::empty().push(seq![c]) =~= seq![b]);
    } else {
        let b0 = b.drop_last();
        assert forall|k: int| 0 <= k < b0.len() implies !is_ws(#[trigger] b0[k]) by {
            assert(b0[k] == b[k]);
        }
        lemma_words_single(b0);
        assert(!is_ws(b[b.len() - 2]));
        assert(b0.push(c) =~= b);
        assert(seq![b0].update(0, b0.push(c)) =~= seq![b]);
    }
}

proof fn lemma_words_append(x: Seq<char>, b: Seq<char>)
    requires
        is_word(b),
    ensures
        words(x + seq![' '] + b) == words(x).push(b),
    decreases b.len(),
{
    let y = x + seq![' '];
    let c = b.last();
    assert(!is_ws(b[b.len() - 1]));
    assert(y.drop_last() =~= x);
    assert(words(y) == words(x));
    if b.len() == 1 {
        assert((y + b).drop_last() =~= y);
        assert((y + b)[(y + b).len() - 2] == ' ');
        assert(seq![c] =~= b);
    } else {
        let b0 = b.drop_last();
        assert forall|k: int| 0 <= k < b0.len() implies !is_ws(#[trigger] b0[k]) by {
            assert(b0[k] == b[k]);
        }
        lemma_words_append(x, b0);
        assert((y + b).drop_last() =~= y + b0);
        assert((y + b)[(y + b).len() - 2] == b[b.len() - 2]);
        assert(b0.push(c) =~= b);
        assert(words(x).push(b0).update(words(x).len() as int, b0.push(c)) =~= words(x).push(b));
    }
}

/// Joining words with spaces and splitting again gives the same words.
pub proof fn lemma_words_join(ws: Seq<Seq<char>>)
    requires
        all_words(ws),
    ensures
        words(join_words(ws)) == ws,
    decreases ws.len(),
{
    if ws.len() == 0 {
        assert(ws =~= Seq::<Seq<char>>::empty());
    } else if ws.len() == 1 {
        assert(is_word(ws[0]));
        lemma_words_single(ws[0]);
        assert(seq![ws[0]] =~= ws);
    } else {
        let front = ws.drop_last();
        assert forall|i: int| 0 <= i < front.len() implies is_word(#[trigger] front[i]) by {
            assert(front[i] == ws[i]);
        }
        lemma_words_join(front);
        assert(is_word(ws[ws.len() - 1]));
        lemma_words_append(join_words(front), ws.last());
        assert(front.push(ws.last()) =~= ws);
    }
}

pub proof fn lemma_join_words_shape(ws: Seq<Seq<char>>)
    requires
        all_words(ws),
    ensures
        is_trimmed(join_words(ws)),
        no_newline(join_words(ws)),
        ws.len() > 0 ==> join_words(ws).len() > 0 && join_words(ws)[0] == ws[0][0],
    decreases ws.len(),
{
    if ws.len() == 1 {
        assert(is_word(ws[0]));
        assert(!is_ws(ws[0][0]));
        assert(!is_ws(ws[0][ws[0].len() - 1]));
        assert forall|k: int| 0 <= k < ws[0].len() implies ws[0][k] != '\n' by {
            assert(!is_ws(ws[0][k]));
        }
    } else if ws.len() > 1 {
        let front = ws.drop_last();
        assert forall|i: int| 0 <= i < front.len() implies is_word(#[trigger] front[i]) by {
            assert(front[i] == ws[i]);
        }
        lemma_join_words_shape(front);
        let a = join_words(front);
        let l = ws.last();
        assert(is_word(ws[ws.len() - 1]));
        let j = a + seq![' '] + l;
        assert(j == join_words(ws));
        assert(j[0] == a[0]);
        assert(front[0] == ws[0]);
        assert(j.last() == l[l.len() - 1]);
        assert forall|k: int| 0 <= k < j.len() implies j[k] != '\n' by {
            if k < a.len() {
                assert(j[k] == a[k]);
            } else if k > a.len() {
                assert(j[k] == l[k - a.len() - 1]);
                assert(!is_ws(l[k - a.len() - 1]));
            }
        }
    }
}

/// What `collapse_ws` gives is trimmed, holds no `'\n'`, and is left as it
/// is by a second application.
pub proof fn lemma_collapse_props(s: Seq<char>)
    ensures
        is_trimmed(collapse_ws(s)),
        no_newline(collapse_ws(s)),
        collapse_ws(collapse_ws(s)) == collapse_ws(s),
{
    lemma_words_shape(s);
    lemma_join_words_shape(words(s));
    lemma_words_join(words(s));
}

/// `s` with each `"\r\n"` replaced by `"\n"`, scanning from the left.
pub open spec fn crlf_to_lf(s: Seq<char>) -> Seq<char>
    decreases s.len(),
{
    if s.len() == 0 {
        s
    } else if s.len() >= 2 && s[0] == '\r' && s[1] == '\n' {
        seq!['\n'] + crlf_to_lf(s.skip(2))
    } else {
        seq![s[0]] + crlf_to_lf(s.skip(1))
    }
}

pub open spec fn has_no_crlf(s: Seq<char>) -> bool {
    forall|k: int| 0 <= k && k + 1 < s.len() ==> !(s[k] == '\r' && #[trigger] s[k + 1] == '\n')
}

pub proof fn lemma_crlf_noop(s: Seq<char>)
    requires
        has_no_crlf(s),
    ensures
        crlf_to_lf(s) == s,
    decreases s.len(),
{
    if s.len() > 0 {
        let t = s.skip(1);
        if s.len() >= 2 {
            let k: int = 0;
            assert(!(s[k] == '\r' && s[k + 1] == '\n'));
        }
        assert forall|k: int| 0 <= k && k + 1 < t.len() implies !(t[k] == '\r' && #[trigger] t[k
            + 1] == '\n') by {
            assert(t[k] == s[k + 1]);
            assert(t[k + 1] == s[k + 2]);
        }
        lemma_crlf_noop(t);
        assert(seq![s[0]] + t =~= s);
    }
}

/// Replaces each `"\r\n"` of `v` by `"\n"`.
pub fn crlf_to_lf_chars(v: &Vec<char>) -> (r: Vec<char>)
    ensures
        r@ == crlf_to_lf(v@),
{
    let n = v.len();
    let mut out: Vec<char> = Vec::new();
    let mut i: usize = 0;
    assert(v@.skip(0) =~= v@);
    while i < n
        invariant
            n == v@.len(),
            i <= n,
            out@ + crlf_to_lf(v@.skip(i as int)) == crlf_to_lf(v@),
        decreases n - i,
    {
        let ghost t = v@.skip(i as int);
        assert(t[0] == v@[i as int]);
        if i + 1 < n && v[i] == '\r' && v[i + 1] == '\n' {
            assert(t[1] == v@[i + 1]);
            assert(t.skip(2) =~= v@.skip(i + 2));
            assert(out@ + crlf_to_lf(t) =~= out@.push('\n') + crlf_to_lf(v@.skip(i + 2)));
            out.push('\n');
            i = i + 2;
        } else {
            assert(t.skip(1) =~= v@.skip(i + 1));
            assert(out@ + crlf_to_lf(t) =~= out@.push(v@[i as int]) + crlf_to_lf(v@.skip(i + 1)));
            out.push(v[i]);
            i = i + 1;
        }
    }
    assert(v@.skip(n as int) =~= Seq::<char>::empty());
    assert(out@ + Seq::<char>::empty() =~= out@);
    out
}

/// Collapses the whitespace of `v`, as `collapse_ws` says.
pub fn collapse_ws_chars(v: &Vec<char>) -> (r: Vec<char>)
    ensures
        r@ == collapse_ws(v@),
{
    let n = v.len();
    let mut out: Vec<char> = Vec::new();
    let mut any = false;
    let mut i: usize = 0;
    while i < n
        invariant
            n == v@.len(),
            i <= n,
            out@ == join_words(words(v@.subrange(0, i as int))),
            any == (words(v@.subrange(0, i as int)).len() > 0),
        decreases n - i,
    {
        let ghost pre = v@.subrange(0, i as int);
        let ghost cur = v@.subrange(0, i + 1);
        let ghost w = words(pre);
        assert(cur.drop_last() =~= pre);
        assert(cur.last() == v@[i as int]);
        let c = v[i];
        if is_whitespace(c) {
        } else if i >= 1 && !is_whitespace(v[i - 1]) {
            assert(cur[cur.len() - 2] == v@[i - 1]);
            assert(pre.last() == v@[i - 1]);
            proof {
                lemma_words_shape(pre);
            }
            let ghost nw = w.update(w.len() - 1, w.last().push(c));
            proof {
                if w.len() == 1 {
                    assert(out@.push(c) == join_words(nw));
                } else {
                    assert(nw.drop_last() =~= w.drop_last());
                    assert(out@.push(c) =~= join_words(nw));
                }
            }
            out.push(c);
        } else {
            let ghost nw = w.push(seq![c]);
            assert(nw.drop_last() =~= w);
            if any {
                out.push(' ');
                out.push(c);
                assert(out@ =~= join_words(nw));
            } else {
                assert(w =~= Seq::<Seq<char>>::empty());
                assert(out@ =~= Seq::<char>::empty());
                out.push(c);
                assert(out@ =~= join_words(nw));
            }
            any = true;
        }
        i = i + 1;
    }
    assert(v@.subrange(0, n as int) =~= v@);
    out
}


/// What is done to each line: collapse its whitespace, or trim it.
pub open spec fn line_map(l: Seq<char>, collapse: bool) -> Seq<char> {
    if collapse {
        collapse_ws(l)
    } else {
        trim(l)
    }
}

/// `s` split into lines, each line mapped by `line_map`, joined again.
pub open spec fn map_lines(s: Seq<char>, collapse: bool) -> Seq<char> {
    join_lines(split_lines(s).map_values(|l: Seq<char>| line_map(l, collapse)))
}

fn map_line(line: &Vec<char>, collapse: bool) -> (r: Vec<char>)
    ensures
        r@ == line_map(line@, collapse),
{
    if collapse {
        collapse_ws_chars(line)
    } else {
        trim_chars(line)
    }
}

/// Maps each line of `v`, as `map_lines` says.
pub fn map_lines_chars(v: &Vec<char>, collapse: bool) -> (r: Vec<char>)
    ensures
        r@ == map_lines(v@, collapse),
{
    let n = v.len();
    let mut out: Vec<char> = Vec::new();
    let mut line: Vec<char> = Vec::new();
    let mut i: usize = 0;
    assert(v@.subrange(0, 0) =~= Seq::<char>::empty());
    while i < n
        invariant
            n == v@.len(),
            i <= n,
            split_lines(v@.subrange(0, i as int)).len() >= 1,
            line@ == split_lines(v@.subrange(0, i as int)).last(),
            out@ == (if split_lines(v@.subrange(0, i as int)).len() == 1 {
                Seq::<char>::empty()
            } else {
                join_lines(
                    split_lines(v@.subrange(0, i as int)).map_values(
                        |l: Seq<char>| line_map(l, collapse),
                    ).drop_last(),
                ) + seq!['\n']
            }),
        decreases n - i,
    {
        let ghost pre = v@.subrange(0, i as int);
        let ghost cur = v@.subrange(0, i + 1);
        let ghost p = split_lines(pre);
        let ghost pm = p.map_values(|l: Seq<char>| line_map(l, collapse));
        assert(cur.drop_last() =~= pre);
        assert(cur.last() == v@[i as int]);
        let c = v[i];
        if c == '\n' {
            let mut m = map_line(&line, collapse);
            let ghost q = p.push(Seq::<char>::empty());
            let ghost qm = q.map_values(|l: Seq<char>| line_map(l, collapse));
            assert(qm.drop_last() =~= pm);
            proof {
                if p.len() == 1 {
                    assert(join_lines(pm) == pm[0]);
                } else {
                    assert(pm.drop_last() =~= p.drop_last().map_values(
                        |l: Seq<char>| line_map(l, collapse),
                    ));
                }
            }
            assert(out@ + m@ + seq!['\n'] =~= join_lines(qm.drop_last()) + seq!['\n']);
            out.append(&mut m);
            out.push('\n');
            line = Vec::new();
        } else {
            let ghost q = p.update(p.len() - 1, p.last().push(c));
            let ghost qm = q.map_values(|l: Seq<char>| line_map(l, collapse));
            assert(qm.drop_last() =~= pm.drop_last());
            line.push(c);
        }
        i = i + 1;
    }
    assert(v@.subrange(0, n as int) =~= v@);
    let mut m = map_line(&line, collapse);
    proof {
        let p = split_lines(v@);
        let pm = p.map_values(|l: Seq<char>| line_map(l, collapse));
        if p.len() == 1 {
            assert(out@ + m@ =~= pm[0]);
        } else {
            assert(out@ + m@ =~= join_lines(pm.drop_last()) + seq!['\n'] + pm.last());
        }
    }
    out.append(&mut m);
    out
}

/// The output text `s` normalised for comparison: `"\r\n"` made `"\n"` if
/// `normalize_crlf`; the whitespace of each line collapsed if
/// `ignore_extra_whitespace`; then each line trimmed and the whole trimmed.
/// (`str::lines` also drops a final empty line and a `'\r'` that ends a line;
/// both vanish in the trimming anyway.)
pub open spec fn normalized(s: Seq<char>, normalize_crlf: bool, ignore_extra_whitespace: bool) -> Seq<
    char,
> {
    let a = if normalize_crlf {
        crlf_to_lf(s)
    } else {
        s
    };
    let b = if ignore_extra_whitespace {
        map_lines(a, true)
    } else {
        a
    };
    trim(map_lines(b, false))
}

/// Normalises `v`, as `normalized` says.
pub fn normalize_chars(v: &Vec<char>, normalize_crlf: bool, ignore_extra_whitespace: bool) -> (r:
    Vec<char>)
    ensures
        r@ == normalized(v@, normalize_crlf, ignore_extra_whitespace),
{
    let a = if normalize_crlf {
        crlf_to_lf_chars(v)
    } else {
        v.clone()
    };
    let b = if ignore_extra_whitespace {
        map_lines_chars(&a, true)
    } else {
        a
    };
    let c = map_lines_chars(&b, false);
    trim_chars(&c)
}

/// `ls` without its leading empty lines, keeping at least one line.
pub open spec fn drop_blank_front(ls: Seq<Seq<char>>) -> Seq<Seq<char>>
    decreases ls.len(),
{
    if ls.len() > 1 && ls[0].len() == 0 {
        drop_blank_front(ls.drop_first())
    } else {
        ls
    }
}

/// `ls` without its trailing empty lines, keeping at least one line.
pub open spec fn drop_blank_back(ls: Seq<Seq<char>>) -> Seq<Seq<char>>
    decreases ls.len(),
{
    if ls.len() > 1 && ls.last().len() == 0 {
        drop_blank_back(ls.drop_last())
    } else {
        ls
    }
}

pub open spec fn all_collapsed(ls: Seq<Seq<char>>) -> bool {
    forall|i: int| 0 <= i < ls.len() ==> collapse_ws(#[trigger] ls[i]) == ls[i]
}

proof fn lemma_join_front(ls: Seq<Seq<char>>)
    requires
        ls.len() >= 2,
    ensures
        join_lines(ls) == ls[0] + seq!['\n'] + join_lines(ls.drop_first()),
    decreases ls.len(),
{
    if ls.len() == 2 {
        assert(ls.drop_last()[0] == ls[0]);
        assert(ls.drop_first()[0] == ls[1]);
        assert(join_lines(ls.drop_last()) == ls[0]);
        assert(join_lines(ls.drop_first()) == ls[1]);
    } else {
        let dl = ls.drop_last();
        lemma_join_front(dl);
        assert(ls.drop_first().drop_last() =~= dl.drop_first());
        assert(dl[0] == ls[0]);
        assert(ls.drop_first().last() == ls.last());
        assert(join_lines(ls.drop_first()) == join_lines(dl.drop_first()) + seq!['\n'] + ls.last());
        assert(join_lines(ls) =~= ls[0] + seq!['\n'] + join_lines(ls.drop_first()));
    }
}

proof fn lemma_trim_start_join(ls: Seq<Seq<char>>)
    requires
        ls.len() >= 1,
        all_trimmed(ls),
    ensures
        trim_start(join_lines(ls)) == join_lines(drop_blank_front(ls)),
        drop_blank_front(ls).len() >= 1,
        drop_blank_front(ls).len() <= ls.len(),
        forall|i: int|
            0 <= i < drop_blank_front(ls).len() ==> #[trigger] drop_blank_front(ls)[i] == ls[i
                + ls.len() - drop_blank_front(ls).len()],
    decreases ls.len(),
{
    if ls.len() > 1 && ls[0].len() == 0 {
        let rest = ls.drop_first();
        assert forall|i: int| 0 <= i < rest.len() implies is_trimmed(#[trigger] rest[i]) by {
            assert(rest[i] == ls[i + 1]);
        }
        lemma_trim_start_join(rest);
        lemma_join_front(ls);
        let j = join_lines(ls);
        assert(j =~= seq!['\n'] + join_lines(rest));
        assert(j.drop_first() =~= join_lines(rest));
        assert(is_ws(j[0]));
    } else if ls.len() > 1 {
        lemma_join_front(ls);
        assert(is_trimmed(ls[0]));
        assert(join_lines(ls)[0] == ls[0][0]);
    } else {
        assert(is_trimmed(ls[0]));
    }
}

proof fn lemma_trim_end_join(ls: Seq<Seq<char>>)
    requires
        ls.len() >= 1,
        all_trimmed(ls),
    ensures
        trim_end(join_lines(ls)) == join_lines(drop_blank_back(ls)),
        drop_blank_back(ls).len() >= 1,
        drop_blank_back(ls).len() <= ls.len(),
        forall|i: int| 0 <= i < drop_blank_back(ls).len() ==> #[trigger] drop_blank_back(ls)[i] == ls[i],
    decreases ls.len(),
{
    if ls.len() > 1 && ls.last().len() == 0 {
        let front = ls.drop_last();
        assert forall|i: int| 0 <= i < front.len() implies is_trimmed(#[trigger] front[i]) by {
            assert(front[i] == ls[i]);
        }
        lemma_trim_end_join(front);
        let j = join_lines(ls);
        assert(j =~= join_lines(front) + seq!['\n']);
        assert(j.drop_last() =~= join_lines(front));
        assert(is_ws(j.last()));
    } else if ls.len() > 1 {
        assert(is_trimmed(ls[ls.len() - 1]));
        assert(join_lines(ls).last() == ls.last().last());
    } else {
        assert(is_trimmed(ls[0]));
    }
}

/// Trimming the join of trimmed lines drops the empty lines at both ends.
pub proof fn lemma_trim_join(ls: Seq<Seq<char>>)
    requires
        ls.len() >= 1,
        all_trimmed(ls),
        all_no_newline(ls),
    ensures
        trim(join_lines(ls)) == join_lines(drop_blank_back(drop_blank_front(ls))),
        drop_blank_back(drop_blank_front(ls)).len() >= 1,
        all_trimmed(drop_blank_back(drop_blank_front(ls))),
        all_no_newline(drop_blank_back(drop_blank_front(ls))),
        all_collapsed(ls) ==> all_collapsed(drop_blank_back(drop_blank_front(ls))),
{
    lemma_trim_start_join(ls);
    let f = drop_blank_front(ls);
    let off = ls.len() - f.len();
    assert forall|i: int| 0 <= i < f.len() implies is_trimmed(#[trigger] f[i]) by {
        assert(f[i] == ls[i + off]);
    }
    lemma_trim_end_join(f);
    let b = drop_blank_back(f);
    assert forall|i: int| 0 <= i < b.len() implies #[trigger] b[i] == ls[i + off] by {
        assert(b[i] == f[i]);
        assert(f[i] == ls[i + off]);
    }
    assert forall|i: int| 0 <= i < b.len() implies is_trimmed(#[trigger] b[i]) && no_newline(
        b[i],
    ) by {
        assert(b[i] == ls[i + off]);
    }
    if all_collapsed(ls) {
        assert forall|i: int| 0 <= i < b.len() implies collapse_ws(#[trigger] b[i]) == b[i] by {
            assert(b[i] == ls[i + off]);
        }
    }
}

/// The join of trimmed lines free of `'\n'` holds no `"\r\n"` and does not
/// end with `'\r'`.
proof fn lemma_join_no_crlf(ls: Seq<Seq<char>>)
    requires
        all_trimmed(ls),
        all_no_newline(ls),
    ensures
        has_no_crlf(join_lines(ls)),
        join_lines(ls).len() > 0 ==> join_lines(ls).last() != '\r',
    decreases ls.len(),
{
    if ls.len() == 1 {
        let l = ls[0];
        assert(is_trimmed(l) && no_newline(l));
        assert forall|k: int| 0 <= k && k + 1 < l.len() implies !(l[k] == '\r' && #[trigger] l[k
            + 1] == '\n') by {}
        if l.len() > 0 {
            assert(is_ws('\r'));
        }
    } else if ls.len() > 1 {
        let front = ls.drop_last();
        assert forall|i: int| 0 <= i < front.len() implies is_trimmed(#[trigger] front[i])
            && no_newline(front[i]) by {
            assert(front[i] == ls[i]);
        }
        lemma_join_no_crlf(front);
        let a = join_lines(front);
        let l = ls.last();
        assert(is_trimmed(ls[ls.len() - 1]) && no_newline(ls[ls.len() - 1]));
        let j = a + seq!['\n'] + l;
        assert(j == join_lines(ls));
        assert forall|k: int| 0 <= k && k + 1 < j.len() implies !(j[k] == '\r' && #[trigger] j[k
            + 1] == '\n') by {
            if k + 1 < a.len() {
                assert(j[k] == a[k] && j[k + 1] == a[k + 1]);
            } else if k + 1 == a.len() {
                assert(j[k] == a.last());
            } else if k + 1 > a.len() + 1 {
                assert(j[k + 1] == l[k + 1 - a.len() - 1]);
            }
        }
        if l.len() > 0 {
            assert(j.last() == l[l.len() - 1]);
            assert(is_ws('\r'));
        }
    }
}

proof fn lemma_map_fixed(ls: Seq<Seq<char>>, collapse: bool)
    requires
        all_trimmed(ls),
        collapse ==> all_collapsed(ls),
    ensures
        ls.map_values(|l: Seq<char>| line_map(l, collapse)) == ls,
{
    assert forall|i: int| 0 <= i < ls.len() implies line_map(ls[i], collapse) == ls[i] by {
        lemma_trim_props(ls[i]);
        assert(is_trimmed(ls[i]));
        if collapse {
            assert(collapse_ws(ls[i]) == ls[i]);
        }
    }
    assert(ls.map_values(|l: Seq<char>| line_map(l, collapse)) =~= ls);
}

/// The lines that `map_lines` produces are trimmed and free of `'\n'`; when
/// they are collapsed, collapsing leaves them unchanged.
proof fn lemma_mapped_lines(s: Seq<char>, collapse: bool)
    ensures
        split_lines(s).map_values(|l: Seq<char>| line_map(l, collapse)).len() >= 1,
        all_trimmed(split_lines(s).map_values(|l: Seq<char>| line_map(l, collapse))),
        all_no_newline(split_lines(s).map_values(|l: Seq<char>| line_map(l, collapse))),
        collapse ==> all_collapsed(
            split_lines(s).map_values(|l: Seq<char>| line_map(l, collapse)),
        ),
{
    lemma_split_lines_shape(s);
    let p = split_lines(s);
    let m = p.map_values(|l: Seq<char>| line_map(l, collapse));
    assert forall|i: int| 0 <= i < m.len() implies is_trimmed(#[trigger] m[i]) && no_newline(m[i])
        && (collapse ==> collapse_ws(m[i]) == m[i]) by {
        assert(m[i] == line_map(p[i], collapse));
        assert(no_newline(p[i]));
        lemma_trim_props(p[i]);
        lemma_collapse_props(p[i]);
    }
}

/// Normalising twice gives what normalising once gives, whatever the
/// options.
pub proof fn lemma_normalized_idempotent(s: Seq<char>, normalize_crlf: bool, ignore_extra_whitespace: bool)
    ensures
        normalized(normalized(s, normalize_crlf, ignore_extra_whitespace), normalize_crlf, ignore_extra_whitespace)
            == normalized(s, normalize_crlf, ignore_extra_whitespace),
{
    let w = ignore_extra_whitespace;
    let a = if normalize_crlf {
        crlf_to_lf(s)
    } else {
        s
    };
    let b = if w {
        map_lines(a, true)
    } else {
        a
    };
    let m0 = split_lines(b).map_values(|l: Seq<char>| line_map(l, false));
    let m = if w {
        split_lines(a).map_values(|l: Seq<char>| line_map(l, true))
    } else {
        m0
    };
    lemma_mapped_lines(a, true);
    lemma_mapped_lines(b, false);
    if w {
        lemma_split_join(m);
        lemma_map_fixed(m, false);
        assert(m0 == m);
    }
    let t = trim(join_lines(m));
    assert(t == normalized(s, normalize_crlf, w));
    lemma_trim_join(m);
    let st = drop_blank_back(drop_blank_front(m));
    assert(t == join_lines(st));
    lemma_join_no_crlf(st);
    lemma_crlf_noop(t);
    lemma_split_join(st);
    if w {
        lemma_map_fixed(st, true);
    }
    lemma_map_fixed(st, false);
    lemma_trim_props(join_lines(m));
    lemma_trim_props(t);
}


/// The characters of `s`, in order.
pub fn chars_of(s: &str) -> (r: Vec<char>)
    ensures
        r@ == s@,
{
    broadcast use vstd::string::group_string_axioms;

    let mut it = s.chars();
    let mut v: Vec<char> = Vec::new();
    loop
        invariant
            v@ + it.remaining() == s@,
            it.decrease() is Some,
        ensures
            v@ == s@,
        decreases it.decrease()->0,
    {
        let ghost before = it.remaining();
        match it.next() {
            Some(c) => {
                assert(v@.push(c) + it.remaining() =~= v@ + before);
                v.push(c);
            },
            None => {
                assert(v@ =~= s@);
                break ;
            },
        }
    }
    v
}

/// Relies on `String`'s `FromIterator<char>`: a string of these characters,
/// in order.
#[verifier::external_body]
pub fn string_of(v: &Vec<char>) -> (r: String)
    ensures
        r@ == v@,
{
    v.iter().collect()
}

/// What `str::to_lowercase` gives for a string of these characters.
pub uninterp spec fn lower_of(s: Seq<char>) -> Seq<char>;

/// Relies on `str::to_lowercase`: the result depends on the characters
/// alone.
#[verifier::external_body]
pub fn lowercase(s: &str) -> (r: String)
    ensures
        r@ == lower_of(s@),
{
    s.to_lowercase()
}

/// The line is empty once trimmed.
pub fn is_blank(line: &str) -> (r: bool)
    ensures
        r == (trim(line@).len() == 0),
{
    let v = chars_of(line);
    let t = trim_chars(&v);
    t.len() == 0
}

pub open spec fn has_prefix(s: Seq<char>, p: Seq<char>) -> bool {
    p.len() <= s.len() && s.subrange(0, p.len() as int) == p
}

pub open spec fn has_suffix(s: Seq<char>, p: Seq<char>) -> bool {
    p.len() <= s.len() && s.subrange(s.len() - p.len(), s.len() as int) == p
}

pub fn starts_with(s: &str, p: &str) -> (r: bool)
    ensures
        r == has_prefix(s@, p@),
{
    let a = chars_of(s);
    let b = chars_of(p);
    if b.len() > a.len() {
        return false;
    }
    let mut i: usize = 0;
    while i < b.len()
        invariant
            a@ == s@,
            b@ == p@,
            b@.len() <= a@.len(),
            i <= b@.len(),
            forall|k: int| 0 <= k < i ==> a@[k] == b@[k],
        decreases b@.len() - i,
    {
        if a[i] != b[i] {
            assert(a@.subrange(0, b@.len() as int)[i as int] != b@[i as int]);
            return false;
        }
        i = i + 1;
    }
    assert(a@.subrange(0, b@.len() as int) =~= b@);
    true
}

pub fn ends_with(s: &str, p: &str) -> (r: bool)
    ensures
        r == has_suffix(s@, p@),
{
    let a = chars_of(s);
    let b = chars_of(p);
    if b.len() > a.len() {
        return false;
    }
    let n = a.len();
    let off = n - b.len();
    let mut i: usize = 0;
    let mut j: usize = off;
    while i < b.len()
        invariant
            n == a@.len(),
            a@ == s@,
            b@ == p@,
            b@.len() <= a@.len(),
            off == a@.len() - b@.len(),
            i <= b@.len(),
            j == off + i,
            forall|k: int| 0 <= k < i ==> a@[off + k] == b@[k],
        decreases b@.len() - i,
    {
        if a[j] != b[i] {
            assert(a@.subrange(off as int, a@.len() as int)[i as int] != b@[i as int]);
            return false;
        }
        i = i + 1;
        j = j + 1;
    }
    assert(a@.subrange(off as int, a@.len() as int) =~= b@);
    true
}

pub open spec fn digit_char(d: nat) -> char {
    if d == 0 {
        '0'
    } else if d == 1 {
        '1'
    } else if d == 2 {
        '2'
    } else if d == 3 {
        '3'
    } else if d == 4 {
        '4'
    } else if d == 5 {
        '5'
    } else if d == 6 {
        '6'
    } else if d == 7 {
        '7'
    } else if d == 8 {
        '8'
    } else {
        '9'
    }
}

/// The decimal digits of `n`, most significant first, with no leading zero.
pub open spec fn decimal(n: nat) -> Seq<char>
    decreases n,
{
    if n < 10 {
        seq![digit_char(n)]
    } else {
        decimal(n / 10).push(digit_char(n % 10))
    }
}

fn digit(d: u128) -> (c: char)
    requires
        d < 10,
    ensures
        c == digit_char(d as nat),
{
    if d == 0 {
        '0'
    } else if d == 1 {
        '1'
    } else if d == 2 {
        '2'
    } else if d == 3 {
        '3'
    } else if d == 4 {
        '4'
    } else if d == 5 {
        '5'
    } else if d == 6 {
        '6'
    } else if d == 7 {
        '7'
    } else if d == 8 {
        '8'
    } else {
        '9'
    }
}

fn push_decimal(out: &mut Vec<char>, n: u128)
    ensures
        final(out)@ == old(out)@ + decimal(n as nat),
    decreases n,
{
    if n >= 10 {
        push_decimal(out, n / 10);
    }
    out.push(digit(n % 10));
    assert(final(out)@ =~= old(out)@ + decimal(n as nat));
}

/// `n` written in decimal.
pub fn decimal_string(n: u128) -> (r: String)
    ensures
        r@ == decimal(n as nat),
{
    let mut v: Vec<char> = Vec::new();
    push_decimal(&mut v, n);
    assert(v@ =~= decimal(n as nat));
    string_of(&v)
}

} // verus!
