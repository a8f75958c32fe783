//! Character-level text model shared by every parser in the crate.
//!
//! Text is handled as a sequence of `char`s (the view of `str` and
//! `String`). The spec functions below give the meaning of the std
//! string operations that the parsers rely on (`trim`, `lines`,
//! `starts_with`, ...); the exec functions compute them on
//! `Vec<char>` and are proved against those meanings.
use vstd::prelude::*;

verus! {

/// `char::is_whitespace`: the Unicode `White_Space` property.
pub open spec fn is_ws(c: char) -> bool {
    ||| c == ' '
    ||| ('\t' <= c && c <= '\r')
    ||| c == '\u{85}'
    ||| c == '\u{a0}'
    ||| c == '\u{1680}'
    ||| ('\u{2000}' <= c && c <= '\u{200a}')
    ||| c == '\u{2028}'
    ||| c == '\u{2029}'
    ||| c == '\u{202f}'
    ||| c == '\u{205f}'
    ||| c == '\u{3000}'
}

pub open spec fn is_digit(c: char) -> bool {
    '0' <= c && c <= '9'
}

pub open spec fn is_lower(c: char) -> bool {
    'a' <= c && c <= 'z'
}

pub open spec fn is_upper(c: char) -> bool {
    'A' <= c && c <= 'Z'
}

pub open spec fn is_alnum(c: char) -> bool {
    is_digit(c) || is_lower(c) || is_upper(c)
}

pub open spec fn is_hex(c: char) -> bool {
    is_digit(c) || ('a' <= c && c <= 'f') || ('A' <= c && c <= 'F')
}

/// `char::to_ascii_lowercase`.
pub open spec fn lower_char(c: char) -> char {
    if is_upper(c) {
        ((c as u32) + 32) as char
    } else {
        c
    }
}

/// `str::to_ascii_lowercase`.
pub open spec fn lower(s: Seq<char>) -> Seq<char> {
    s.map_values(|c: char| lower_char(c))
}

/// Number of leading whitespace characters.
pub open spec fn ws_prefix_len(s: Seq<char>) -> nat
    decreases s.len(),
{
    if s.len() > 0 && is_ws(s[0]) {
        1 + ws_prefix_len(s.skip(1))
    } else {
        0
    }
}

/// Number of trailing whitespace characters.
pub open spec fn ws_suffix_len(s: Seq<char>) -> nat
    decreases s.len(),
{
    if s.len() > 0 && is_ws(s.last()) {
        1 + ws_suffix_len(s.drop_last())
    } else {
        0
    }
}

/// `str::trim_start`.
pub open spec fn trim_start(s: Seq<char>) -> Seq<char> {
    s.skip(ws_prefix_len(s) as int)
}

/// `str::trim_end`.
pub open spec fn trim_end(s: Seq<char>) -> Seq<char> {
    s.take(s.len() - ws_suffix_len(s))
}

/// `str::trim`.
pub open spec fn trim(s: Seq<char>) -> Seq<char> {
    trim_end(trim_start(s))
}

/// `str::starts_with` with a string pattern.
pub open spec fn starts_with(s: Seq<char>, p: Seq<char>) -> bool {
    p.len() <= s.len() && s.subrange(0, p.len() as int) == p
}

/// `str::ends_with` with a string pattern.
pub open spec fn ends_with(s: Seq<char>, p: Seq<char>) -> bool {
    p.len() <= s.len() && s.subrange(s.len() - p.len(), s.len() as int) == p
}

/// `p` occurs in `s` starting at index `i`.
pub open spec fn occurs_at(s: Seq<char>, p: Seq<char>, i: int) -> bool {
    0 <= i && i + p.len() <= s.len() && s.subrange(i, i + p.len()) == p
}

/// `str::contains` with a string pattern.
pub open spec fn contains(s: Seq<char>, p: Seq<char>) -> bool {
    exists|i: int| occurs_at(s, p, i)
}

/// Index of the first `c` in `s`, if any.
pub open spec fn first_index(s: Seq<char>, c: char) -> Option<nat>
    decreases s.len(),
{
    if s.len() == 0 {
        None
    } else if s[0] == c {
        Some(0)
    } else {
        match first_index(s.skip(1), c) {
            Some(i) => Some(i + 1),
            None => None,
        }
    }
}

/// One line of `str::lines`: a trailing `'\r'` is dropped.
pub open spec fn strip_cr(s: Seq<char>) -> Seq<char> {
    if s.len() > 0 && s.last() == '\r' {
        s.drop_last()
    } else {
        s
    }
}

/// `str::lines`: pieces split after each `'\n'` (no empty piece after a
/// final `'\n'`), each with its `"\n"` or `"\r\n"` ending removed. A
/// last piece without `'\n'` keeps a trailing `'\r'`.
pub open spec fn lines_of(s: Seq<char>) -> Seq<Seq<char>>
    decreases s.len(),
{
    if s.len() == 0 {
        Seq::empty()
    } else {
        match first_index(s, '\n') {
            None => seq![s],
            Some(k) => {
                proof {
                    lemma_first_index(s, '\n');
                }
                seq![strip_cr(s.take(k as int))] + lines_of(s.skip(k as int + 1))
            },
        }
    }
}

pub proof fn lemma_first_index(s: Seq<char>, c: char)
    ensures
        match first_index(s, c) {
            Some(k) => k < s.len() && s[k as int] == c && forall|j: int| 0 <= j < k ==> s[j] != c,
            None => forall|j: int| 0 <= j < s.len() ==> s[j] != c,
        },
    decreases s.len(),
{
    if s.len() > 0 && s[0] != c {
        lemma_first_index(s.skip(1), c);
        match first_index(s.skip(1), c) {
            Some(k) => {
                assert forall|j: int| 0 <= j < k + 1 implies s[j] != c by {
                    if j > 0 {
                        assert(s[j] == s.skip(1)[j - 1]);
                    }
                }
            },
            None => {
                assert forall|j: int| 0 <= j < s.len() implies s[j] != c by {
                    if j > 0 {
                        assert(s[j] == s.skip(1)[j - 1]);
                    }
                }
            },
        }
    }
}

/// A position `k` with no `c` before it and `c` at it is the first index.
pub proof fn lemma_first_index_at(s: Seq<char>, c: char, k: int)
    requires
        0 <= k <= s.len(),
        forall|j: int| 0 <= j < k ==> s[j] != c,
    ensures
        k < s.len() && s[k] == c ==> first_index(s, c) == Some(k as nat),
        k == s.len() ==> first_index(s, c) is None,
{
    lemma_first_index(s, c);
}

/// The character views of a vector of strings.
pub open spec fn views(v: Seq<Vec<char>>) -> Seq<Seq<char>> {
    v.map_values(|x: Vec<char>| x@)
}

/// Converts a `str` into its characters.
pub fn chars_of(s: &str) -> (v: Vec<char>)
    ensures
        v@ == s@,
{
    let mut v: Vec<char> = Vec::new();
    for c in it: s.chars()
        invariant
            v@ == it.seq().take(it.index() as int),
    {
        v.push(c);
    }
    v
}

/// Builds a `String` from characters, through `Iterator::collect`.
#[verifier::external_body]
pub(crate) fn string_of(v: &Vec<char>) -> (s: String)
    ensures
        s@ == v@,
{
    v.iter().collect()
}

/// Copies `s[from..to]`.
pub fn slice_of(s: &Vec<char>, from: usize, to: usize) -> (r: Vec<char>)
    requires
        from <= to <= s.len(),
    ensures
        r@ == s@.subrange(from as int, to as int),
{
    let mut r: Vec<char> = Vec::new();
    let mut i = from;
    while i < to
        invariant
            from <= i <= to <= s.len(),
            r@ == s@.subrange(from as int, i as int),
        decreases to - i,
    {
        r.push(s[i]);
        i += 1;
    }
    r
}

/// Appends `b` to `a`.
pub fn push_all(a: &mut Vec<char>, b: &Vec<char>)
    ensures
        final(a)@ == old(a)@ + b@,
{
    let mut i: usize = 0;
    while i < b.len()
        invariant
            i <= b.len(),
            a@ == old(a)@ + b@.take(i as int),
        decreases b.len() - i,
    {
        a.push(b[i]);
        i += 1;
        assert(b@.take(i as int) == b@.take(i - 1) + seq![b@[i - 1]]);
    }
    assert(b@.take(b.len() as int) == b@);
}

/// Appends the characters of `s` to `a`.
pub fn push_str(a: &mut Vec<char>, s: &str)
    ensures
        final(a)@ == old(a)@ + s@,
{
    let v = chars_of(s);
    push_all(a, &v);
}

/// Character-wise equality.
pub fn eq(a: &Vec<char>, b: &Vec<char>) -> (r: bool)
    ensures
        r == (a@ == b@),
{
    if a.len() != b.len() {
        return false;
    }
    let mut i: usize = 0;
    while i < a.len()
        invariant
            a.len() == b.len(),
            i <= a.len(),
            forall|j: int| 0 <= j < i ==> a@[j] == b@[j],
        decreases a.len() - i,
    {
        if a[i] != b[i] {
            return false;
        }
        i += 1;
    }
    assert(a@ =~= b@);
    true
}

/// Equality with a literal.
pub fn eq_str(a: &Vec<char>, s: &str) -> (r: bool)
    ensures
        r == (a@ == s@),
{
    let b = chars_of(s);
    eq(a, &b)
}

/// `p` occurs in `s` at `i`.
pub fn matches_at(s: &Vec<char>, p: &Vec<char>, i: usize) -> (r: bool)
    ensures
        r == occurs_at(s@, p@, i as int),
{
    if i > s.len() || p.len() > s.len() - i {
        return false;
    }
    let mut j: usize = 0;
    while j < p.len()
        invariant
            i + p.len() <= s.len(),
            j <= p.len(),
            forall|k: int| 0 <= k < j ==> s@[i + k] == p@[k],
        decreases p.len() - j,
    {
        if s[i + j] != p[j] {
            assert(s@.subrange(i as int, i + p.len())[j as int] != p@[j as int]);
            return false;
        }
        j += 1;
    }
    assert(s@.subrange(i as int, i + p.len()) =~= p@);
    true
}

/// `str::starts_with`.
pub fn has_prefix(s: &Vec<char>, p: &str) -> (r: bool)
    ensures
        r == starts_with(s@, p@),
{
    let pv = chars_of(p);
    matches_at(s, &pv, 0)
}

/// `str::ends_with`.
pub fn has_suffix(s: &Vec<char>, p: &str) -> (r: bool)
    ensures
        r == ends_with(s@, p@),
{
    let pv = chars_of(p);
    if pv.len() > s.len() {
        return false;
    }
    matches_at(s, &pv, s.len() - pv.len())
}

/// `str::contains`.
pub fn has_infix(s: &Vec<char>, p: &Vec<char>) -> (r: bool)
    ensures
        r == contains(s@, p@),
{
    if p.len() > s.len() {
        assert forall|i: int| !occurs_at(s@, p@, i) by {}
        return false;
    }
    let limit = s.len() - p.len();
    let mut i: usize = 0;
    while i < limit
        invariant
            p.len() <= s.len(),
            limit == s.len() - p.len(),
            i <= limit,
            forall|k: int| 0 <= k < i ==> !occurs_at(s@, p@, k),
        decreases limit - i,
    {
        if matches_at(s, p, i) {
            return true;
        }
        i += 1;
    }
    if matches_at(s, p, limit) {
        return true;
    }
    assert forall|k: int| !occurs_at(s@, p@, k) by {
        if 0 <= k && k + p.len() <= s.len() {
            assert(k <= limit);
        }
    }
    false
}

pub fn ws(c: char) -> (r: bool)
    ensures
        r == is_ws(c),
{
    c == ' ' || ('\t' <= c && c <= '\r') || c == '\u{85}' || c == '\u{a0}' || c == '\u{1680}'
        || ('\u{2000}' <= c && c <= '\u{200a}') || c == '\u{2028}' || c == '\u{2029}' || c
        == '\u{202f}' || c == '\u{205f}' || c == '\u{3000}'
}

pub proof fn lemma_ws_prefix(s: Seq<char>, i: int)
    requires
        0 <= i <= s.len(),
        forall|j: int| 0 <= j < i ==> is_ws(s[j]),
        i == s.len() || !is_ws(s[i]),
    ensures
        ws_prefix_len(s) == i,
    decreases i,
{
    if i > 0 {
        assert forall|j: int| 0 <= j < i - 1 implies is_ws(s.skip(1)[j]) by {
            assert(s.skip(1)[j] == s[j + 1]);
        }
        if i - 1 < s.skip(1).len() {
            assert(s.skip(1)[i - 1] == s[i]);
        }
        lemma_ws_prefix(s.skip(1), i - 1);
    }
}

pub proof fn lemma_ws_suffix(s: Seq<char>, i: int)
    requires
        0 <= i <= s.len(),
        forall|j: int| i <= j < s.len() ==> is_ws(s[j]),
        i == 0 || !is_ws(s[i - 1]),
    ensures
        ws_suffix_len(s) == s.len() - i,
    decreases s.len() - i,
{
    if i < s.len() {
        assert forall|j: int| i <= j < s.drop_last().len() implies is_ws(s.drop_last()[j]) by {}
        lemma_ws_suffix(s.drop_last(), i);
    }
}

/// What `ws_prefix_len` counts: the leading run of whitespace.
pub proof fn lemma_ws_prefix_props(s: Seq<char>)
    ensures
        ws_prefix_len(s) <= s.len(),
        forall|j: int| 0 <= j < ws_prefix_len(s) ==> is_ws(#[trigger] s[j]),
        ws_prefix_len(s) == s.len() || !is_ws(s[ws_prefix_len(s) as int]),
    decreases s.len(),
{
    if s.len() > 0 && is_ws(s[0]) {
        let t = s.skip(1);
        lemma_ws_prefix_props(t);
        assert forall|j: int| 0 <= j < ws_prefix_len(s) implies is_ws(#[trigger] s[j]) by {
            if j > 0 {
                assert(s[j] == t[j - 1]);
            }
        }
        if ws_prefix_len(s) < s.len() {
            assert(s[ws_prefix_len(s) as int] == t[ws_prefix_len(t) as int]);
        }
    }
}

/// What `ws_suffix_len` counts: the trailing run of whitespace.
pub proof fn lemma_ws_suffix_props(s: Seq<char>)
    ensures
        ws_suffix_len(s) <= s.len(),
        forall|j: int| s.len() - ws_suffix_len(s) <= j < s.len() ==> is_ws(#[trigger] s[j]),
        ws_suffix_len(s) == s.len() || !is_ws(s[s.len() - ws_suffix_len(s) - 1]),
    decreases s.len(),
{
    if s.len() > 0 && is_ws(s.last()) {
        let t = s.drop_last();
        lemma_ws_suffix_props(t);
        assert forall|j: int| s.len() - ws_suffix_len(s) <= j < s.len() implies is_ws(#[trigger] s[j]) by {
            if j < s.len() - 1 {
                assert(s[j] == t[j]);
            }
        }
        if ws_suffix_len(s) < s.len() {
            assert(s[s.len() - ws_suffix_len(s) - 1] == t[t.len() - ws_suffix_len(t) - 1]);
        }
    }
}

/// Whitespace in front of a text does not change its trim.
pub proof fn lemma_trim_pad_front(w: Seq<char>, x: Seq<char>)
    requires
        forall|j: int| 0 <= j < w.len() ==> is_ws(#[trigger] w[j]),
    ensures
        trim(w + x) == trim(x),
{
    let s = w + x;
    lemma_ws_prefix_props(x);
    let p = ws_prefix_len(x) as int;
    assert forall|j: int| 0 <= j < w.len() + p implies is_ws(#[trigger] s[j]) by {
        if j < w.len() {
            assert(s[j] == w[j]);
        } else {
            assert(s[j] == x[j - w.len()]);
        }
    }
    if w.len() + p < s.len() {
        assert(s[w.len() + p] == x[p]);
    }
    lemma_ws_prefix(s, w.len() + p);
    assert(trim_start(s) =~= trim_start(x));
}

/// Whitespace after a text does not change its trim.
pub proof fn lemma_trim_pad_back(x: Seq<char>, w: Seq<char>)
    requires
        forall|j: int| 0 <= j < w.len() ==> is_ws(#[trigger] w[j]),
    ensures
        trim(x + w) == trim(x),
{
    let s = x + w;
    lemma_ws_prefix_props(x);
    let p = ws_prefix_len(x) as int;
    if p < x.len() {
        assert forall|j: int| 0 <= j < p implies is_ws(#[trigger] s[j]) by {
            assert(s[j] == x[j]);
        }
        assert(s[p] == x[p]);
        lemma_ws_prefix(s, p);
        let t = trim_start(x);
        let u = trim_start(s);
        assert(u =~= t + w);
        lemma_ws_suffix_props(t);
        let i = t.len() - ws_suffix_len(t);
        assert forall|j: int| i <= j < u.len() implies is_ws(#[trigger] u[j]) by {
            if j < t.len() {
                assert(u[j] == t[j]);
            } else {
                assert(u[j] == w[j - t.len()]);
            }
        }
        if i > 0 {
            assert(u[i - 1] == t[i - 1]);
        }
        lemma_ws_suffix(u, i);
        assert(trim_end(u) =~= trim_end(t));
    } else {
        assert forall|j: int| 0 <= j < s.len() implies is_ws(#[trigger] s[j]) by {
            if j < x.len() {
                assert(s[j] == x[j]);
            } else {
                assert(s[j] == w[j - x.len()]);
            }
        }
        lemma_ws_prefix(s, s.len() as int);
        assert(trim_start(s) =~= Seq::<char>::empty());
        assert(trim_start(x) =~= Seq::<char>::empty());
        assert(ws_suffix_len(Seq::<char>::empty()) == 0);
        assert(trim(s) =~= trim(x));
    }
}

/// Texts that differ only in the case of ASCII letters trim to texts
/// that differ only in the same way.
pub proof fn lemma_trim_lower(a: Seq<char>, b: Seq<char>)
    requires
        lower(a) == lower(b),
    ensures
        lower(trim(a)) == lower(trim(b)),
{
    assert(a.len() == lower(a).len() && b.len() == lower(b).len());
    assert forall|j: int| 0 <= j < a.len() implies is_ws(#[trigger] a[j]) == is_ws(b[j]) by {
        assert(lower(a)[j] == lower_char(a[j]));
        assert(lower(b)[j] == lower_char(b[j]));
    }
    lemma_ws_prefix_props(a);
    let p = ws_prefix_len(a) as int;
    assert forall|j: int| 0 <= j < p implies is_ws(#[trigger] b[j]) by {
        assert(is_ws(a[j]));
    }
    if p < b.len() {
        assert(is_ws(a[p]) == is_ws(b[p]));
    }
    lemma_ws_prefix(b, p);
    let ta = trim_start(a);
    let tb = trim_start(b);
    lemma_ws_suffix_props(ta);
    let i = ta.len() - ws_suffix_len(ta);
    assert forall|j: int| i <= j < tb.len() implies is_ws(#[trigger] tb[j]) by {
        assert(ta[j] == a[j + p]);
        assert(tb[j] == b[j + p]);
        assert(is_ws(a[j + p]) == is_ws(b[j + p]));
    }
    if i > 0 {
        assert(ta[i - 1] == a[i - 1 + p]);
        assert(tb[i - 1] == b[i - 1 + p]);
        assert(is_ws(a[i - 1 + p]) == is_ws(b[i - 1 + p]));
    }
    lemma_ws_suffix(tb, i);
    assert(ta.len() == tb.len());
    assert(trim(a).len() == i);
    assert(trim(b).len() == i);
    assert forall|j: int| 0 <= j < i implies lower_char(#[trigger] trim(a)[j]) == lower_char(trim(b)[j]) by {
        assert(trim(a)[j] == a[j + p]);
        assert(trim(b)[j] == b[j + p]);
        assert(lower(a)[j + p] == lower_char(a[j + p]));
        assert(lower(b)[j + p] == lower_char(b[j + p]));
        assert(lower(a)[j + p] == lower(b)[j + p]);
    }
    assert(lower(trim(a)) =~= lower(trim(b)));
}

/// `str::trim_start`.
pub fn trimmed_start(s: &Vec<char>) -> (r: Vec<char>)
    ensures
        r@ == trim_start(s@),
{
    let mut i: usize = 0;
    while i < s.len() && ws(s[i])
        invariant
            i <= s.len(),
            forall|j: int| 0 <= j < i ==> is_ws(s@[j]),
        decreases s.len() - i,
    {
        i += 1;
    }
    proof {
        lemma_ws_prefix(s@, i as int);
    }
    slice_of(s, i, s.len())
}

/// `str::trim_end`.
pub fn trimmed_end(s: &Vec<char>) -> (r: Vec<char>)
    ensures
        r@ == trim_end(s@),
{
    let mut i: usize = s.len();
    while i > 0 && ws(s[i - 1])
        invariant
            i <= s.len(),
            forall|j: int| i <= j < s.len() ==> is_ws(s@[j]),
        decreases i,
    {
        i -= 1;
    }
    proof {
        lemma_ws_suffix(s@, i as int);
    }
    slice_of(s, 0, i)
}

/// `str::trim`.
pub fn trimmed(s: &Vec<char>) -> (r: Vec<char>)
    ensures
        r@ == trim(s@),
{
    let a = trimmed_start(s);
    trimmed_end(&a)
}

/// `str::lines`.
pub fn lines(s: &Vec<char>) -> (r: Vec<Vec<char>>)
    ensures
        views(r@) == lines_of(s@),
{
    let mut out: Vec<Vec<char>> = Vec::new();
    let mut p: usize = 0;
    assert(s@.skip(0) == s@);
    while p < s.len()
        invariant
            p <= s.len(),
            views(out@) + lines_of(s@.skip(p as int)) == lines_of(s@),
        decreases s.len() - p,
    {
        let ghost rest = s@.skip(p as int);
        let mut q = p;
        while q < s.len() && s[q] != '\n'
            invariant
                p <= q <= s.len(),
                forall|j: int| p <= j < q ==> s@[j] != '\n',
            decreases s.len() - q,
        {
            q += 1;
        }
        proof {
            lemma_first_index_at(rest, '\n', q - p);
        }
        if q < s.len() {
            let mut piece = slice_of(s, p, q);
            if piece.len() > 0 && piece[piece.len() - 1] == '\r' {
                piece.pop();
            }
            proof {
                assert(rest.take(q - p) == s@.subrange(p as int, q as int));
                assert(rest.skip(q - p + 1) == s@.skip(q + 1));
            }
            let ghost before = views(out@);
            out.push(piece);
            proof {
                assert(views(out@) =~= before.push(piece@));
                assert(lines_of(rest) == seq![strip_cr(rest.take(q - p))] + lines_of(rest.skip(q - p + 1)));
                assert(views(out@) + lines_of(s@.skip(q + 1)) =~= before + lines_of(rest));
            }
            p = q + 1;
        } else {
            let piece = slice_of(s, p, s.len());
            let ghost before = views(out@);
            out.push(piece);
            proof {
                assert(lines_of(rest) == seq![rest]);
                assert(rest == s@.subrange(p as int, s.len() as int));
                assert(views(out@) =~= before.push(piece@));
                assert(s@.skip(s.len() as int) =~= Seq::<char>::empty());
                assert(views(out@) + lines_of(s@.skip(s.len() as int)) =~= before + lines_of(rest));
            }
            p = s.len();
        }
    }
    proof {
        assert(s@.skip(p as int) =~= Seq::<char>::empty());
        assert(views(out@) + Seq::<Seq<char>>::empty() =~= views(out@));
    }
    out
}

/// `str::to_ascii_lowercase`.
pub fn lowered(s: &Vec<char>) -> (r: Vec<char>)
    ensures
        r@ == lower(s@),
{
    let mut r: Vec<char> = Vec::new();
    let mut i: usize = 0;
    while i < s.len()
        invariant
            i <= s.len(),
            r@ == lower(s@.take(i as int)),
        decreases s.len() - i,
    {
        let c = s[i];
        let d = if 'A' <= c && c <= 'Z' {
            proof {
                assert(((c as u32) + 32) as char == lower_char(c));
            }
            lower_ascii(c)
        } else {
            c
        };
        r.push(d);
        proof {
            assert(s@.take(i + 1) == s@.take(i as int).push(c));
            assert(lower(s@.take(i + 1)) =~= lower(s@.take(i as int)).push(lower_char(c)));
        }
        i += 1;
    }
    assert(s@.take(s.len() as int) == s@);
    r
}

fn lower_ascii(c: char) -> (r: char)
    requires
        is_upper(c),
    ensures
        r == lower_char(c),
{
    let code: u32 = c as u32 + 32;
    assert(code < 128);
    char_from(code)
}

/// Builds an ASCII `char` from its code.
pub fn char_from(code: u32) -> (c: char)
    requires
        code < 128,
    ensures
        c == code as char,
        c as u32 == code,
{
    code as u8 as char
}

} // verus!

verus! {

/// Some string of `l` has the characters `x`.
pub open spec fn list_has(l: Seq<String>, x: Seq<char>) -> bool {
    exists|i: int| 0 <= i < l.len() && #[trigger] l[i]@ == x
}

/// Membership of `x` in a list of strings.
pub fn contains_string(l: &Vec<String>, x: &Vec<char>) -> (r: bool)
    ensures
        r == list_has(l@, x@),
{
    let mut i: usize = 0;
    while i < l.len()
        invariant
            i <= l.len(),
            forall|j: int| 0 <= j < i ==> l@[j]@ != x@,
        decreases l.len() - i,
    {
        let c = chars_of(l[i].as_str());
        if eq(&c, x) {
            return true;
        }
        i += 1;
    }
    false
}

/// Membership of `x` in a list of character vectors.
pub fn contains_chars(l: &Vec<Vec<char>>, x: &Vec<char>) -> (r: bool)
    ensures
        r == views(l@).contains(x@),
{
    let mut i: usize = 0;
    while i < l.len()
        invariant
            i <= l.len(),
            forall|j: int| 0 <= j < i ==> l@[j]@ != x@,
        decreases l.len() - i,
    {
        if eq(&l[i], x) {
            assert(views(l@)[i as int] == x@);
            return true;
        }
        i += 1;
    }
    assert forall|j: int| 0 <= j < views(l@).len() implies views(l@)[j] != x@ by {
        assert(views(l@)[j] == l@[j]@);
    }
    false
}

/// `c` occurs in `s`.
pub fn has_char(s: &Vec<char>, c: char) -> (r: bool)
    ensures
        r == s@.contains(c),
{
    let mut i: usize = 0;
    while i < s.len()
        invariant
            i <= s.len(),
            forall|k: int| 0 <= k < i ==> s@[k] != c,
        decreases s.len() - i,
    {
        if s[i] == c {
            return true;
        }
        i += 1;
    }
    false
}

} // verus!

verus! {

/// `str::split` on a character: the pieces between occurrences of `c`.
pub open spec fn split_on(s: Seq<char>, c: char) -> Seq<Seq<char>>
    decreases s.len(),
{
    match first_index(s, c) {
        None => seq![s],
        Some(k) => {
            proof {
                lemma_first_index(s, c);
            }
            seq![s.take(k as int)] + split_on(s.skip(k as int + 1), c)
        },
    }
}

/// Leading run of `c` removed (`str::trim_start_matches` on a char).
pub open spec fn strip_lead(s: Seq<char>, c: char) -> Seq<char>
    decreases s.len(),
{
    if s.len() > 0 && s[0] == c {
        strip_lead(s.skip(1), c)
    } else {
        s
    }
}

/// Trailing run of `c` removed (`str::trim_end_matches` on a char).
pub open spec fn strip_trail(s: Seq<char>, c: char) -> Seq<char>
    decreases s.len(),
{
    if s.len() > 0 && s.last() == c {
        strip_trail(s.drop_last(), c)
    } else {
        s
    }
}

/// `str::trim_matches` on a char.
pub open spec fn strip_both(s: Seq<char>, c: char) -> Seq<char> {
    strip_trail(strip_lead(s, c), c)
}

/// The characters of a list of strings.
pub open spec fn string_views(v: Seq<String>) -> Seq<Seq<char>> {
    v.map_values(|x: String| x@)
}

/// `str::split` on a character.
pub fn split_char(s: &Vec<char>, c: char) -> (r: Vec<Vec<char>>)
    ensures
        views(r@) == split_on(s@, c),
{
    let mut out: Vec<Vec<char>> = Vec::new();
    let mut p: usize = 0;
    assert(s@.skip(0) == s@);
    loop
        invariant
            p <= s.len(),
            views(out@) + split_on(s@.skip(p as int), c) == split_on(s@, c),
        decreases s.len() - p,
    {
        let ghost rest = s@.skip(p as int);
        let ghost before = views(out@);
        let mut q = p;
        while q < s.len() && s[q] != c
            invariant
                p <= q <= s.len(),
                forall|j: int| p <= j < q ==> s@[j] != c,
            decreases s.len() - q,
        {
            q += 1;
        }
        proof {
            lemma_first_index_at(rest, c, q - p);
        }
        let piece = slice_of(s, p, q);
        out.push(piece);
        proof {
            assert(views(out@) =~= before.push(piece@));
            assert(rest.take(q - p) == piece@);
        }
        if q == s.len() {
            proof {
                assert(rest == piece@);
                assert(views(out@) =~= before + seq![rest]);
            }
            return out;
        }
        proof {
            assert(rest.skip(q - p + 1) == s@.skip(q + 1));
            assert(views(out@) + split_on(s@.skip(q + 1), c) =~= before + split_on(rest, c));
        }
        p = q + 1;
    }
}

/// `str::trim_start_matches` on a char.
pub fn strip_leading(s: &Vec<char>, c: char) -> (r: Vec<char>)
    ensures
        r@ == strip_lead(s@, c),
{
    let mut i: usize = 0;
    assert(s@.skip(0) == s@);
    while i < s.len() && s[i] == c
        invariant
            i <= s.len(),
            strip_lead(s@.skip(i as int), c) == strip_lead(s@, c),
        decreases s.len() - i,
    {
        assert(s@.skip(i as int).skip(1) == s@.skip(i + 1));
        i += 1;
    }
    assert(s@.skip(0) == s@);
    let r = slice_of(s, i, s.len());
    assert(r@ == s@.skip(i as int));
    r
}

/// `str::trim_end_matches` on a char.
pub fn strip_trailing(s: &Vec<char>, c: char) -> (r: Vec<char>)
    ensures
        r@ == strip_trail(s@, c),
{
    let mut i: usize = s.len();
    assert(s@.take(s.len() as int) == s@);
    while i > 0 && s[i - 1] == c
        invariant
            i <= s.len(),
            strip_trail(s@.take(i as int), c) == strip_trail(s@, c),
        decreases i,
    {
        assert(s@.take(i as int).drop_last() == s@.take(i - 1));
        i -= 1;
    }
    assert(s@.take(s.len() as int) == s@);
    slice_of(s, 0, i)
}

/// `str::trim_matches` on a char.
pub fn strip_char(s: &Vec<char>, c: char) -> (r: Vec<char>)
    ensures
        r@ == strip_both(s@, c),
{
    let a = strip_leading(s, c);
    strip_trailing(&a, c)
}

} // verus!

verus! {

pub proof fn lemma_split_nonempty(s: Seq<char>, c: char)
    ensures
        split_on(s, c).len() >= 1,
    decreases s.len(),
{
    lemma_first_index(s, c);
    match first_index(s, c) {
        None => {},
        Some(k) => {
            lemma_split_nonempty(s.skip(k as int + 1), c);
        },
    }
}

} // verus!

verus! {

/// Decimal digits of `n` (no leading zeros; `"0"` for zero).
pub open spec fn decimal(n: nat) -> Seq<char>
    decreases n,
{
    if n < 10 {
        seq![(48 + n) as char]
    } else {
        decimal(n / 10).push((48 + n % 10) as char)
    }
}

/// `u64` formatted with `{}`.
pub fn decimal_of(n: u64) -> (r: Vec<char>)
    ensures
        r@ == decimal(n as nat),
    decreases n,
{
    if n < 10 {
        let mut r: Vec<char> = Vec::new();
        r.push(char_from(48 + n as u32));
        r
    } else {
        let mut r = decimal_of(n / 10);
        r.push(char_from(48 + (n % 10) as u32));
        r
    }
}

/// Appends the decimal form of `n`.
pub fn push_decimal(a: &mut Vec<char>, n: u64)
    ensures
        final(a)@ == old(a)@ + decimal(n as nat),
{
    let d = decimal_of(n);
    push_all(a, &d);
}

} // verus!

verus! {

/// An `i64` formatted with `{}`: a minus sign before negative numbers.
pub open spec fn idecimal(n: int) -> Seq<char> {
    if n < 0 {
        seq!['-'] + decimal((-n) as nat)
    } else {
        decimal(n as nat)
    }
}

/// Appends the decimal form of a signed number.
pub fn push_idecimal(a: &mut Vec<char>, n: i64)
    ensures
        final(a)@ == old(a)@ + idecimal(n as int),
{
    if n < 0 {
        let ghost before = a@;
        a.push('-');
        let m: u64 = (0i128 - (n as i128)) as u64;
        push_decimal(a, m);
        assert(a@ =~= before + idecimal(n as int));
    } else {
        push_decimal(a, n as u64);
    }
}

} // verus!
