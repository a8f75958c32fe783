//! AUTO-block rewriter of `cvg docs regenerate`.
//!
//! `<!-- BEGIN AUTO:<name> -->` opens a block when it stands at the start
//! of a line outside ``` fences; `<!-- END AUTO -->` closes it. The body of
//! each block is replaced by what the generator registered for `<name>`
//! returns. Positions are character indices.
use vstd::prelude::*;
use crate::text::{chars_of, eq_str, first_index, lemma_first_index, lemma_first_index_at, matches_at, occurs_at, push_all, push_str, slice_of, starts_with, string_of, string_views, trim, trim_start, trimmed, trimmed_start};

verus! {

pub open spec fn begin_marker() -> Seq<char> {
    "<!-- BEGIN AUTO:"@
}

pub open spec fn end_marker() -> Seq<char> {
    "<!-- END AUTO -->"@
}

pub open spec fn header_close() -> Seq<char> {
    " -->"@
}

pub open spec fn fence_mark() -> Seq<char> {
    "```"@
}

/// `str::split_inclusive('\n')`: pieces that keep their `'\n'`.
pub open spec fn lines_incl(s: Seq<char>) -> Seq<Seq<char>>
    decreases s.len(),
{
    if s.len() == 0 {
        Seq::empty()
    } else {
        match first_index(s, '\n') {
            None => seq![s],
            Some(k) => {
                proof {
                    lemma_first_index(s, '\n');
                }
                seq![s.take(k as int + 1)] + lines_incl(s.skip(k as int + 1))
            },
        }
    }
}

/// State of the fence scan.
pub struct FenceState {
    pub ranges: Seq<(int, int)>,
    pub in_fence: bool,
    pub last_live_start: int,
    pub cursor: int,
}

/// Fence scan over the first `n` pieces.
pub open spec fn fence_fold(pieces: Seq<Seq<char>>, n: int) -> FenceState
    decreases n,
{
    if n <= 0 {
        FenceState { ranges: Seq::empty(), in_fence: false, last_live_start: 0, cursor: 0 }
    } else {
        let st = fence_fold(pieces, n - 1);
        let line = pieces[n - 1];
        let next_cursor = st.cursor + line.len();
        if starts_with(trim_start(line), fence_mark()) {
            if st.in_fence {
                FenceState { in_fence: false, last_live_start: next_cursor, cursor: next_cursor, ..st }
            } else {
                FenceState {
                    ranges: if st.cursor > st.last_live_start {
                        st.ranges.push((st.last_live_start, st.cursor))
                    } else {
                        st.ranges
                    },
                    in_fence: true,
                    cursor: next_cursor,
                    ..st
                }
            }
        } else {
            FenceState { cursor: next_cursor, ..st }
        }
    }
}

/// Index ranges of `input` that are not inside a fenced code block.
pub open spec fn live_ranges_of(input: Seq<char>) -> Seq<(int, int)> {
    let pieces = lines_incl(input);
    let st = fence_fold(pieces, pieces.len() as int);
    if !st.in_fence && st.cursor > st.last_live_start {
        st.ranges.push((st.last_live_start, st.cursor))
    } else {
        st.ranges
    }
}

pub open spec fn in_live(ranges: Seq<(int, int)>, p: int) -> bool {
    exists|i: int| 0 <= i < ranges.len() && (#[trigger] ranges[i]).0 <= p < ranges[i].1
}

/// First occurrence of `pat` in `s` at an index `>= from`.
pub open spec fn find_from(s: Seq<char>, pat: Seq<char>, from: int) -> Option<int>
    decreases s.len() + 1 - from,
{
    if from < 0 || from + pat.len() > s.len() {
        None
    } else if occurs_at(s, pat, from) {
        Some(from)
    } else {
        find_from(s, pat, from + 1)
    }
}

/// The next BEGIN marker at or after `from` (searching from `cursor`
/// on), that starts a line (or the remaining text) and is live.
pub open spec fn marker_from(input: Seq<char>, ranges: Seq<(int, int)>, cursor: int, from: int) -> Option<int>
    decreases input.len() + 1 - from,
{
    match find_from(input, begin_marker(), from) {
        None => None,
        Some(q) => if (q == cursor || (q > 0 && input[q - 1] == '\n')) && in_live(ranges, q) {
            Some(q)
        } else if q >= from {
            proof {
                lemma_find_from(input, begin_marker(), from);
                reveal_strlit("<!-- BEGIN AUTO:");
            }
            marker_from(input, ranges, cursor, q + begin_marker().len())
        } else {
            None
        },
    }
}

/// Why a file could not be rewritten.
#[derive(Debug, PartialEq, Eq)]
pub enum RewriteError {
    /// A BEGIN marker at this index has no closing ` -->`.
    UnterminatedMarker { at: usize },
    /// The block named `name` opened at this index has no END marker.
    UnterminatedBlock { name: String, at: usize },
    /// The generator for `name` failed.
    Generator { name: String, message: String },
}

/// A well-formed AUTO block: the index of its BEGIN marker, its trimmed
/// name, and the index of its END marker.
pub struct BlockView {
    pub begin: int,
    pub name: Seq<char>,
    pub body_end: int,
}

/// The structural errors of a file.
pub enum ParseFailure {
    Marker { at: int },
    Block { name: Seq<char>, at: int },
}

/// The well-formed blocks found from `cursor` on, up to the first
/// structural error, and that error if there is one.
pub open spec fn scan_from(input: Seq<char>, ranges: Seq<(int, int)>, cursor: int) -> (Seq<BlockView>, Option<ParseFailure>)
    decreases input.len() + 1 - cursor,
{
    if cursor < 0 || cursor > input.len() {
        (Seq::empty(), None)
    } else {
        match marker_from(input, ranges, cursor, cursor) {
            None => (Seq::empty(), None),
            Some(p) => {
                let after = p + begin_marker().len();
                match find_from(input, header_close(), after) {
                    None => (Seq::empty(), Some(ParseFailure::Marker { at: p })),
                    Some(hc) => {
                        let name = trim(input.subrange(after, hc));
                        let header_end = hc + header_close().len();
                        match find_from(input, end_marker(), header_end) {
                            None => (Seq::empty(), Some(ParseFailure::Block { name, at: p })),
                            Some(be) => {
                                let next = be + end_marker().len();
                                proof {
                                    lemma_find_from(input, end_marker(), header_end);
                                }
                                if next <= cursor {
                                    (Seq::empty(), None)
                                } else {
                                    let rest = scan_from(input, ranges, next);
                                    (seq![BlockView { begin: p, name, body_end: be }] + rest.0, rest.1)
                                }
                            },
                        }
                    },
                }
            },
        }
    }
}

/// The blocks of a markdown text before its first structural error, and
/// that error if there is one.
pub open spec fn scan_of(input: Seq<char>) -> (Seq<BlockView>, Option<ParseFailure>) {
    scan_from(input, live_ranges_of(input), 0)
}

/// The AUTO blocks of a markdown text, in order, or its first structural
/// error.
pub open spec fn blocks_of(input: Seq<char>) -> Result<Seq<BlockView>, ParseFailure> {
    match scan_of(input).1 {
        Some(e) => Err(e),
        None => Ok(scan_of(input).0),
    }
}

/// A generated body, with a final newline ensured.
pub open spec fn body_text(b: Seq<char>) -> Seq<char> {
    if b.len() > 0 && b.last() == '\n' {
        b
    } else {
        b + seq!['\n']
    }
}

/// Where the text resumes after the first `k` blocks.
pub open spec fn resume_at(bs: Seq<BlockView>, k: int) -> int {
    if k <= 0 {
        0
    } else {
        bs[k - 1].body_end + end_marker().len()
    }
}

/// Output produced by the first `k` blocks: the text before each block,
/// its BEGIN line with the trimmed name, the new body and the END marker.
pub open spec fn spliced_prefix(input: Seq<char>, bs: Seq<BlockView>, bodies: Seq<Seq<char>>, k: int) -> Seq<char>
    decreases k,
{
    if k <= 0 {
        Seq::empty()
    } else {
        spliced_prefix(input, bs, bodies, k - 1) + input.subrange(resume_at(bs, k - 1), bs[k - 1].begin)
            + begin_marker() + bs[k - 1].name + header_close() + seq!['\n'] + body_text(bodies[k - 1])
            + end_marker()
    }
}

/// The rewritten text: every block given its new body, the rest unchanged.
pub open spec fn spliced(input: Seq<char>, bs: Seq<BlockView>, bodies: Seq<Seq<char>>) -> Seq<char> {
    spliced_prefix(input, bs, bodies, bs.len() as int) + input.subrange(
        resume_at(bs, bs.len() as int),
        input.len() as int,
    )
}

/// A generator's answer, by views.
pub open spec fn answer_view(r: Result<String, String>) -> Result<Seq<char>, Seq<char>> {
    match r {
        Ok(b) => Ok(b@),
        Err(m) => Err(m@),
    }
}

/// Generators looked up by block name.
pub trait GeneratorLookup {
    /// The fresh body for the block `name` in the file `file_path` of the
    /// repo at `root`, or why it could not be produced.
    spec fn generated(&self, name: Seq<char>, file_path: Seq<char>, root: Seq<char>) -> Result<Seq<char>, Seq<char>>;

    /// Runs the generator for `name`.
    fn run(&self, name: &str, file_path: &str, root: &str) -> (r: Result<String, String>)
        ensures
            answer_view(r) == self.generated(name@, file_path@, root@),
    ;
}

/// The answer of the first entry named `name`, if any.
pub open spec fn table_answer(entries: Seq<(String, Result<String, String>)>, name: Seq<char>) -> Option<Result<Seq<char>, Seq<char>>>
    decreases entries.len(),
{
    if entries.len() == 0 {
        None
    } else if entries[0].0@ == name {
        Some(answer_view(entries[0].1))
    } else {
        table_answer(entries.skip(1), name)
    }
}

/// The error for a block name with no generator.
pub open spec fn unknown_generator(name: Seq<char>) -> Seq<char> {
    "unknown AUTO generator '"@ + name + "'"@
}

/// Generator answers produced ahead of time, by block name: the first
/// entry with a block's name answers for it; a name with no entry is an
/// unknown generator.
pub struct GeneratorTable {
    pub entries: Vec<(String, Result<String, String>)>,
}

impl GeneratorLookup for GeneratorTable {
    open spec fn generated(&self, name: Seq<char>, file_path: Seq<char>, root: Seq<char>) -> Result<Seq<char>, Seq<char>> {
        match table_answer(self.entries@, name) {
            Some(a) => a,
            None => Err(unknown_generator(name)),
        }
    }

    fn run(&self, name: &str, file_path: &str, root: &str) -> (r: Result<String, String>) {
        let mut i: usize = 0;
        proof {
            assert(self.entries@.skip(0) =~= self.entries@);
        }
        while i < self.entries.len()
            invariant
                i <= self.entries.len(),
                table_answer(self.entries@, name@) == table_answer(self.entries@.skip(i as int), name@),
            decreases self.entries.len() - i,
        {
            let key = chars_of(self.entries[i].0.as_str());
            proof {
                assert(self.entries@.skip(i as int)[0] == self.entries@[i as int]);
                assert(self.entries@.skip(i as int).skip(1) =~= self.entries@.skip(i + 1));
            }
            if eq_str(&key, name) {
                return match &self.entries[i].1 {
                    Ok(b) => Ok(b.clone()),
                    Err(m) => Err(m.clone()),
                };
            }
            i += 1;
        }
        let mut m: Vec<char> = Vec::new();
        push_str(&mut m, "unknown AUTO generator '");
        push_str(&mut m, name);
        push_str(&mut m, "'");
        proof {
            reveal_strlit("unknown AUTO generator '");
            reveal_strlit("'");
            assert(m@ =~= unknown_generator(name@));
        }
        Err(string_of(&m))
    }
}

/// Index of the first occurrence of `pat` at or after `from`.
pub fn find_at_or_after(s: &Vec<char>, pat: &Vec<char>, from: usize) -> (r: Option<usize>)
    ensures
        match r {
            Some(q) => find_from(s@, pat@, from as int) == Some(q as int),
            None => find_from(s@, pat@, from as int) is None,
        },
{
    if pat.len() == 0 {
        if from <= s.len() {
            assert(occurs_at(s@, pat@, from as int)) by {
                assert(s@.subrange(from as int, from as int) =~= pat@);
            }
            return Some(from);
        }
        return None;
    }
    let mut i = from;
    while pat.len() <= s.len() && i <= s.len() - pat.len()
        invariant
            from <= i,
            pat.len() > 0,
            find_from(s@, pat@, i as int) == find_from(s@, pat@, from as int),
        decreases s.len() - i,
    {
        if matches_at(s, pat, i) {
            return Some(i);
        }
        i += 1;
    }
    None
}

/// Index ranges that are outside fenced code blocks.
pub fn live_ranges(input: &Vec<char>) -> (r: Vec<(usize, usize)>)
    ensures
        r@.map_values(|x: (usize, usize)| (x.0 as int, x.1 as int)) == live_ranges_of(input@),
{
    let fc = chars_of("```");
    let mut ranges: Vec<(usize, usize)> = Vec::new();
    let mut in_fence = false;
    let mut last: usize = 0;
    let mut cursor: usize = 0;
    let ghost pieces = lines_incl(input@);
    let ghost mut n: int = 0;
    proof {
        assert(input@.skip(0) == input@);
        assert(ranges@.map_values(|x: (usize, usize)| (x.0 as int, x.1 as int)) =~= Seq::<(int, int)>::empty());
    }
    while cursor < input.len()
        invariant
            cursor <= input.len(),
            last <= cursor,
            fc@ == fence_mark(),
            0 <= n <= pieces.len(),
            pieces == lines_incl(input@),
            pieces.skip(n) == lines_incl(input@.skip(cursor as int)),
            fence_fold(pieces, n) == (FenceState {
                ranges: ranges@.map_values(|x: (usize, usize)| (x.0 as int, x.1 as int)),
                in_fence,
                last_live_start: last as int,
                cursor: cursor as int,
            }),
        decreases input.len() - cursor,
    {
        let ghost rest = input@.skip(cursor as int);
        let mut q = cursor;
        while q < input.len() && input[q] != '\n'
            invariant
                cursor <= q <= input.len(),
                forall|j: int| cursor <= j < q ==> input@[j] != '\n',
            decreases input.len() - q,
        {
            q += 1;
        }
        proof {
            lemma_first_index_at(rest, '\n', q - cursor);
        }
        let end = if q < input.len() {
            q + 1
        } else {
            q
        };
        let line = slice_of(input, cursor, end);
        proof {
            assert(lines_incl(rest) == seq![line@] + lines_incl(input@.skip(end as int))) by {
                if q < input.len() {
                    assert(rest.take(q - cursor + 1) == line@);
                    assert(rest.skip(q - cursor + 1) == input@.skip(end as int));
                } else {
                    assert(rest == line@);
                    assert(input@.skip(end as int) =~= Seq::<char>::empty());
                }
            }
            assert(pieces.skip(n).len() == pieces.len() - n);
            assert(pieces.skip(n)[0] == line@);
            assert(pieces[n] == line@);
            assert(pieces.skip(n + 1) =~= pieces.skip(n).skip(1));
        }
        let t = trimmed_start(&line);
        let ghost old_ranges = ranges@;
        if matches_at(&t, &fc, 0) {
            if in_fence {
                in_fence = false;
                last = end;
            } else {
                in_fence = true;
                if cursor > last {
                    ranges.push((last, cursor));
                    proof {
                        assert(ranges@.map_values(|x: (usize, usize)| (x.0 as int, x.1 as int)) =~= old_ranges.map_values(
                            |x: (usize, usize)| (x.0 as int, x.1 as int),
                        ).push((last as int, cursor as int)));
                    }
                }
            }
        }
        cursor = end;
        proof {
            n = n + 1;
        }
    }
    proof {
        assert(input@.skip(cursor as int) =~= Seq::<char>::empty());
        assert(pieces.skip(n).len() == 0);
        assert(n == pieces.len());
    }
    if !in_fence && cursor > last {
        let ghost old_ranges = ranges@;
        ranges.push((last, cursor));
        proof {
            assert(ranges@.map_values(|x: (usize, usize)| (x.0 as int, x.1 as int)) =~= old_ranges.map_values(
                |x: (usize, usize)| (x.0 as int, x.1 as int),
            ).push((last as int, cursor as int)));
        }
    }
    ranges
}

fn is_live(live: &Vec<(usize, usize)>, p: usize) -> (r: bool)
    ensures
        r == in_live(live@.map_values(|x: (usize, usize)| (x.0 as int, x.1 as int)), p as int),
{
    let ghost rs = live@.map_values(|x: (usize, usize)| (x.0 as int, x.1 as int));
    let mut i: usize = 0;
    while i < live.len()
        invariant
            i <= live.len(),
            rs == live@.map_values(|x: (usize, usize)| (x.0 as int, x.1 as int)),
            forall|j: int| 0 <= j < i ==> !((#[trigger] rs[j]).0 <= p < rs[j].1),
        decreases live.len() - i,
    {
        let (a, b) = live[i];
        if a <= p && p < b {
            assert(rs[i as int].0 <= p < rs[i as int].1);
            return true;
        }
        i += 1;
    }
    false
}

/// The next live BEGIN marker at or after `cursor` that starts a line
/// (or the remaining text).
pub fn next_marker(input: &Vec<char>, live: &Vec<(usize, usize)>, cursor: usize) -> (r: Option<usize>)
    requires
        cursor <= input.len(),
    ensures
        match r {
            Some(p) => marker_from(input@, live@.map_values(|x: (usize, usize)| (x.0 as int, x.1 as int)), cursor as int, cursor as int) == Some(p as int),
            None => marker_from(input@, live@.map_values(|x: (usize, usize)| (x.0 as int, x.1 as int)), cursor as int, cursor as int) is None,
        },
{
    let ghost rs = live@.map_values(|x: (usize, usize)| (x.0 as int, x.1 as int));
    let bm = chars_of("<!-- BEGIN AUTO:");
    let mut from = cursor;
    loop
        invariant
            bm@ == begin_marker(),
            rs == live@.map_values(|x: (usize, usize)| (x.0 as int, x.1 as int)),
            cursor <= from <= input.len(),
            marker_from(input@, rs, cursor as int, from as int) == marker_from(input@, rs, cursor as int, cursor as int),
        decreases input.len() - from,
    {
        match find_at_or_after(input, &bm, from) {
            None => return None,
            Some(q) => {
                proof {
                    lemma_find_from(input@, bm@, from as int);
                    reveal_strlit("<!-- BEGIN AUTO:");
                }
                if (q == cursor || (q > 0 && input[q - 1] == '\n')) && is_live(live, q) {
                    return Some(q);
                }
                from = q + bm.len();
            },
        }
    }
}

pub proof fn lemma_find_from(s: Seq<char>, pat: Seq<char>, from: int)
    ensures
        match find_from(s, pat, from) {
            Some(q) => from <= q && occurs_at(s, pat, q),
            None => true,
        },
    decreases s.len() + 1 - from,
{
    if !(from < 0 || from + pat.len() > s.len()) && !occurs_at(s, pat, from) {
        lemma_find_from(s, pat, from + 1);
    }
}

} // verus!

verus! {

pub proof fn lemma_marker_from(input: Seq<char>, ranges: Seq<(int, int)>, cursor: int, from: int)
    ensures
        match marker_from(input, ranges, cursor, from) {
            Some(q) => from <= q && occurs_at(input, begin_marker(), q),
            None => true,
        },
    decreases input.len() + 1 - from,
{
    lemma_find_from(input, begin_marker(), from);
    reveal_strlit("<!-- BEGIN AUTO:");
    match find_from(input, begin_marker(), from) {
        None => {},
        Some(q) => {
            if !((q == cursor || (q > 0 && input[q - 1] == '\n')) && in_live(ranges, q)) && q >= from {
                lemma_marker_from(input, ranges, cursor, q + begin_marker().len());
            }
        },
    }
}

/// A well-formed AUTO block found in a text: where its BEGIN marker
/// stands, its trimmed name, and where its END marker stands.
pub struct Block {
    pub begin: usize,
    pub name: String,
    pub body_end: usize,
}

impl Block {
    pub open spec fn view(&self) -> BlockView {
        BlockView { begin: self.begin as int, name: self.name@, body_end: self.body_end as int }
    }
}

pub open spec fn block_views(v: Seq<Block>) -> Seq<BlockView> {
    v.map_values(|b: Block| b@)
}

/// The structural error that a rewrite error reports, if it is one.
pub open spec fn failure_of(e: RewriteError) -> Option<ParseFailure> {
    match e {
        RewriteError::UnterminatedMarker { at } => Some(ParseFailure::Marker { at: at as int }),
        RewriteError::UnterminatedBlock { name, at } => Some(ParseFailure::Block { name: name@, at: at as int }),
        RewriteError::Generator { .. } => None,
    }
}

/// Where the text resumes after the first `k` blocks, from `c` on.
pub open spec fn resume_from(bs: Seq<BlockView>, k: int, c: int) -> int {
    if k <= 0 {
        c
    } else {
        bs[k - 1].body_end + end_marker().len()
    }
}

/// Blocks that follow one another from `c` on: each begins at or after
/// the end of the previous END marker (or `c`), and ends within the text.
pub open spec fn fit_from(input: Seq<char>, bs: Seq<BlockView>, c: int) -> bool {
    &&& forall|k: int| 0 <= k < bs.len() ==> #[trigger] resume_from(bs, k, c) <= bs[k].begin
    &&& forall|k: int|
        0 <= k < bs.len() ==> (#[trigger] bs[k]).begin <= bs[k].body_end && bs[k].body_end + end_marker().len()
            <= input.len()
}

/// Blocks that can be spliced into `input`.
pub open spec fn blocks_fit(input: Seq<char>, bs: Seq<BlockView>) -> bool {
    fit_from(input, bs, 0)
}

/// The blocks found by a scan follow one another within the text.
pub proof fn lemma_scan_fit(input: Seq<char>, ranges: Seq<(int, int)>, c: int)
    requires
        0 <= c,
    ensures
        fit_from(input, scan_from(input, ranges, c).0, c),
    decreases input.len() + 1 - c,
{
    if c <= input.len() {
        lemma_marker_from(input, ranges, c, c);
        match marker_from(input, ranges, c, c) {
            None => {},
            Some(p) => {
                let after = p + begin_marker().len();
                lemma_find_from(input, header_close(), after);
                match find_from(input, header_close(), after) {
                    None => {},
                    Some(hc) => {
                        let name = trim(input.subrange(after, hc));
                        let header_end = hc + header_close().len();
                        lemma_find_from(input, end_marker(), header_end);
                        match find_from(input, end_marker(), header_end) {
                            None => {},
                            Some(be) => {
                                let next = be + end_marker().len();
                                if next > c {
                                    lemma_scan_fit(input, ranges, next);
                                    let b = BlockView { begin: p, name, body_end: be };
                                    let rest = scan_from(input, ranges, next).0;
                                    let all = seq![b] + rest;
                                    assert(scan_from(input, ranges, c).0 == all);
                                    assert forall|k: int| 0 <= k < all.len() implies #[trigger] resume_from(all, k, c)
                                        <= all[k].begin by {
                                        if k > 0 {
                                            assert(all[k] == rest[k - 1]);
                                            assert(resume_from(rest, k - 1, next) <= rest[k - 1].begin);
                                            if k > 1 {
                                                assert(all[k - 1] == rest[k - 2]);
                                            }
                                        }
                                    }
                                    assert forall|k: int| 0 <= k < all.len() implies (#[trigger] all[k]).begin
                                        <= all[k].body_end && all[k].body_end + end_marker().len() <= input.len() by {
                                        if k > 0 {
                                            assert(all[k] == rest[k - 1]);
                                        }
                                    }
                                }
                            },
                        }
                    },
                }
            },
        }
    }
}

/// Finds the blocks of `input` up to its first structural error, and
/// that error if there is one.
pub fn scan_blocks(input: &str) -> (r: (Vec<Block>, Option<RewriteError>))
    ensures
        block_views(r.0@) == scan_of(input@).0,
        match r.1 {
            Some(e) => scan_of(input@).1 is Some && failure_of(e) == scan_of(input@).1,
            None => scan_of(input@).1 is None,
        },
{
    let inp = chars_of(input);
    let live = live_ranges(&inp);
    let ghost rs = live@.map_values(|x: (usize, usize)| (x.0 as int, x.1 as int));
    let hcm = chars_of(" -->");
    let em = chars_of("<!-- END AUTO -->");
    proof {
        reveal_strlit(" -->");
        reveal_strlit("<!-- END AUTO -->");
        reveal_strlit("<!-- BEGIN AUTO:");
    }
    let mut found: Vec<Block> = Vec::new();
    let mut cursor: usize = 0;
    proof {
        assert(block_views(found@) + scan_from(input@, rs, 0).0 =~= scan_from(input@, rs, 0).0);
    }
    loop
        invariant
            inp@ == input@,
            rs == live@.map_values(|x: (usize, usize)| (x.0 as int, x.1 as int)),
            rs == live_ranges_of(input@),
            hcm@ == header_close(),
            em@ == end_marker(),
            begin_marker().len() == 16,
            header_close().len() == 4,
            end_marker().len() == 17,
            cursor <= inp.len(),
            scan_of(input@).0 == block_views(found@) + scan_from(input@, rs, cursor as int).0,
            scan_of(input@).1 == scan_from(input@, rs, cursor as int).1,
        decreases inp.len() - cursor,
    {
        match next_marker(&inp, &live, cursor) {
            None => {
                proof {
                    assert(block_views(found@) + Seq::<BlockView>::empty() =~= block_views(found@));
                }
                return (found, None);
            },
            Some(p) => {
                proof {
                    lemma_marker_from(input@, rs, cursor as int, cursor as int);
                }
                let after = p + 16;
                let hc = match find_at_or_after(&inp, &hcm, after) {
                    None => {
                        proof {
                            assert(block_views(found@) + Seq::<BlockView>::empty() =~= block_views(found@));
                        }
                        return (found, Some(RewriteError::UnterminatedMarker { at: p }));
                    },
                    Some(hc) => hc,
                };
                proof {
                    lemma_find_from(input@, header_close(), after as int);
                }
                let name = trimmed(&slice_of(&inp, after, hc));
                let header_end = hc + 4;
                let be = match find_at_or_after(&inp, &em, header_end) {
                    None => {
                        proof {
                            assert(block_views(found@) + Seq::<BlockView>::empty() =~= block_views(found@));
                        }
                        return (found, Some(RewriteError::UnterminatedBlock { name: string_of(&name), at: p }));
                    },
                    Some(be) => be,
                };
                proof {
                    lemma_find_from(input@, end_marker(), header_end as int);
                }
                let ghost before = found@;
                let ghost bv = BlockView { begin: p as int, name: name@, body_end: be as int };
                found.push(Block { begin: p, name: string_of(&name), body_end: be });
                let next = be + 17;
                proof {
                    assert(block_views(found@) =~= block_views(before).push(bv));
                    let rest = scan_from(input@, rs, next as int);
                    assert(scan_from(input@, rs, cursor as int).0 == seq![bv] + rest.0);
                    assert(block_views(before) + (seq![bv] + rest.0) =~= block_views(found@) + rest.0);
                }
                cursor = next;
            },
        }
    }
}

/// The blocks of `input`, or its first structural error.
pub fn blocks(input: &str) -> (r: Result<Vec<Block>, RewriteError>)
    ensures
        match blocks_of(input@) {
            Ok(bs) => r matches Ok(v) && block_views(v@) == bs,
            Err(f) => r matches Err(e) && failure_of(e) == Some(f),
        },
{
    let (found, failure) = scan_blocks(input);
    match failure {
        Some(e) => Err(e),
        None => Ok(found),
    }
}

/// Appends the text from `from` up to block `b`, then `b` with `body`.
fn push_block(out: &mut Vec<char>, inp: &Vec<char>, from: usize, b: &Block, body: &String)
    requires
        from <= b.begin <= inp.len(),
    ensures
        final(out)@ == old(out)@ + inp@.subrange(from as int, b.begin as int) + begin_marker() + b.name@ + header_close()
            + seq!['\n'] + body_text(body@) + end_marker(),
{
    proof {
        reveal_strlit(" -->");
        reveal_strlit("<!-- END AUTO -->");
        reveal_strlit("<!-- BEGIN AUTO:");
    }
    let ghost old_out = out@;
    let before = slice_of(inp, from, b.begin);
    push_all(out, &before);
    push_str(out, "<!-- BEGIN AUTO:");
    let nm = chars_of(b.name.as_str());
    push_all(out, &nm);
    push_str(out, " -->");
    out.push('\n');
    let bc = chars_of(body.as_str());
    push_all(out, &bc);
    if !(bc.len() > 0 && bc[bc.len() - 1] == '\n') {
        out.push('\n');
    }
    push_str(out, "<!-- END AUTO -->");
    assert(out@ =~= old_out + inp@.subrange(from as int, b.begin as int) + begin_marker() + b.name@ + header_close()
        + seq!['\n'] + body_text(body@) + end_marker());
}

/// Splices `bodies` into the blocks of `input`: each block gets its BEGIN
/// line with its name, its new body (with a final newline) and its END
/// marker; the rest of the text is kept.
pub fn splice(input: &str, blocks: &Vec<Block>, bodies: &Vec<String>) -> (s: String)
    requires
        blocks_fit(input@, block_views(blocks@)),
        bodies.len() == blocks.len(),
    ensures
        s@ == spliced(input@, block_views(blocks@), string_views(bodies@)),
{
    let inp = chars_of(input);
    let ghost bs = block_views(blocks@);
    let ghost bv = string_views(bodies@);
    proof {
        reveal_strlit(" -->");
        reveal_strlit("<!-- END AUTO -->");
        reveal_strlit("<!-- BEGIN AUTO:");
    }
    let mut out: Vec<char> = Vec::new();
    let mut cursor: usize = 0;
    let mut i: usize = 0;
    while i < blocks.len()
        invariant
            inp@ == input@,
            bs == block_views(blocks@),
            bv == string_views(bodies@),
            blocks_fit(input@, bs),
            bodies.len() == blocks.len(),
            end_marker().len() == 17,
            i <= blocks.len(),
            cursor == resume_at(bs, i as int),
            cursor <= inp.len(),
            out@ == spliced_prefix(input@, bs, bv, i as int),
        decreases blocks.len() - i,
    {
        let b = &blocks[i];
        proof {
            assert(bs[i as int] == blocks@[i as int]@);
            assert(bv[i as int] == bodies@[i as int]@);
            assert(resume_from(bs, i as int, 0) <= bs[i as int].begin);
        }
        push_block(&mut out, &inp, cursor, b, &bodies[i]);
        proof {
            assert(out@ == spliced_prefix(input@, bs, bv, i + 1));
        }
        cursor = b.body_end + 17;
        i += 1;
    }
    let tail = slice_of(&inp, cursor, inp.len());
    push_all(&mut out, &tail);
    string_of(&out)
}

/// The answers of `g` for the names of `bs`, in order.
pub open spec fn answers<G: GeneratorLookup>(g: &G, bs: Seq<BlockView>, file_path: Seq<char>, root: Seq<char>) -> Seq<Result<Seq<char>, Seq<char>>> {
    bs.map_values(|b: BlockView| g.generated(b.name, file_path, root))
}

/// Index of the first failed answer at or after `i`, or the number of
/// answers if none failed.
pub open spec fn first_failed(res: Seq<Result<Seq<char>, Seq<char>>>, i: int) -> int
    decreases res.len() - i,
{
    if i < 0 || i >= res.len() {
        res.len() as int
    } else if res[i] is Err {
        i
    } else {
        first_failed(res, i + 1)
    }
}

/// The bodies that the answers give (empty for a failed one).
pub open spec fn ok_bodies(res: Seq<Result<Seq<char>, Seq<char>>>) -> Seq<Seq<char>> {
    res.map_values(
        |x: Result<Seq<char>, Seq<char>>|
            match x {
                Ok(b) => b,
                Err(_) => Seq::<char>::empty(),
            },
    )
}

/// How a rewrite ends.
pub enum Outcome {
    Rewritten(Seq<char>),
    GeneratorFailed { name: Seq<char>, message: Seq<char> },
    Malformed(ParseFailure),
}

/// The outcome of a rewrite result.
pub open spec fn outcome_of(r: Result<String, RewriteError>) -> Outcome {
    match r {
        Ok(s) => Outcome::Rewritten(s@),
        Err(RewriteError::UnterminatedMarker { at }) => Outcome::Malformed(ParseFailure::Marker { at: at as int }),
        Err(RewriteError::UnterminatedBlock { name, at }) => Outcome::Malformed(ParseFailure::Block { name: name@, at: at as int }),
        Err(RewriteError::Generator { name, message }) => Outcome::GeneratorFailed { name: name@, message: message@ },
    }
}

/// Rewriting `input`, given the generator answers `res` for its blocks in
/// order: blocks are taken in order, each checked and then generated; the
/// first failure, a structural one or a generator's, ends the rewrite.
/// Otherwise every block gets its generated body.
pub open spec fn rewrite_outcome(input: Seq<char>, res: Seq<Result<Seq<char>, Seq<char>>>) -> Outcome {
    let sc = scan_of(input);
    let k = first_failed(res, 0);
    if k < sc.0.len() {
        Outcome::GeneratorFailed {
            name: sc.0[k].name,
            message: match res[k] {
                Err(m) => m,
                Ok(_) => Seq::empty(),
            },
        }
    } else {
        match sc.1 {
            Some(e) => Outcome::Malformed(e),
            None => Outcome::Rewritten(spliced(input, sc.0, ok_bodies(res))),
        }
    }
}

/// Replaces the body of every AUTO block of `input` with what `registry`
/// generates for its name, given `file_path` and `root`. A structural
/// error, or the first generator failure, is returned as an error.
pub fn rewrite<G: GeneratorLookup>(input: &str, registry: &G, file_path: &str, root: &str) -> (r: Result<String, RewriteError>)
    ensures
        outcome_of(r) == rewrite_outcome(input@, answers(registry, scan_of(input@).0, file_path@, root@)),
{
    let (found, failure) = scan_blocks(input);
    let ghost bs = scan_of(input@).0;
    let ghost res = answers(registry, bs, file_path@, root@);
    let mut bodies: Vec<String> = Vec::new();
    let mut i: usize = 0;
    while i < found.len()
        invariant
            bs == scan_of(input@).0,
            block_views(found@) == bs,
            res == answers(registry, bs, file_path@, root@),
            i <= found.len(),
            bodies.len() == i,
            forall|j: int| 0 <= j < i ==> (#[trigger] res[j]) is Ok,
            forall|j: int| 0 <= j < i ==> (#[trigger] bodies@[j])@ == ok_bodies(res)[j],
            first_failed(res, 0) == first_failed(res, i as int),
        decreases found.len() - i,
    {
        proof {
            assert(bs[i as int] == found@[i as int]@);
        }
        match registry.run(found[i].name.as_str(), file_path, root) {
            Err(m) => {
                proof {
                    assert(res[i as int] == Err::<Seq<char>, Seq<char>>(m@));
                    assert(first_failed(res, i as int) == i);
                }
                return Err(RewriteError::Generator { name: found[i].name.clone(), message: m });
            },
            Ok(b) => {
                proof {
                    assert(res[i as int] == Ok::<Seq<char>, Seq<char>>(b@));
                }
                bodies.push(b);
            },
        }
        i += 1;
    }
    proof {
        assert(res.len() == found.len());
        assert(first_failed(res, 0) == found.len());
    }
    match failure {
        Some(e) => {
            return Err(e);
        },
        None => {},
    }
    proof {
        lemma_scan_fit(input@, live_ranges_of(input@), 0);
        assert(string_views(bodies@) =~= ok_bodies(res));
    }
    Ok(splice(input, &found, &bodies))
}

} // verus!
