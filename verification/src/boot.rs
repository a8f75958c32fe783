//! Boot animation: glitch frames, boot log, wordmark and claim, with
//! pauses between frames; a one-shot static print when the theme does
//! not allow animation.
//!
//! The sequence is written to a [`BootSink`] and paced by a
//! [`Sleeper`], or handed out as frames ([`boot_frames`]) to a caller
//! that writes and pauses on its own. Pauses are in milliseconds.
use vstd::prelude::*;
use vstd::string::StringExecFns;
use crate::banner::{wordmark, wordmark_spec};
use crate::claim::CLAIM;
use crate::glitch::glitch_frame;
use crate::gradient::{brand, escape_of, fg_escape, render_spec, RESET};
use crate::palette::{cyan, cyan_spec, magenta, magenta_spec};
use crate::text::{push_str, string_of};
use crate::theme::Theme;

verus! {

/// Where the boot sequence is written.
pub trait BootSink {
    type Error;

    /// Everything written so far.
    spec fn written(&self) -> Seq<char>;

    /// Whether writes to this sink never fail.
    spec fn infallible(&self) -> bool;

    /// Number of `emit` and `flush` calls so far.
    spec fn calls(&self) -> nat;

    /// Number of those calls that failed.
    spec fn failures(&self) -> nat;

    /// The error of the last call, if it failed.
    spec fn last_error(&self) -> Option<Self::Error>;

    /// Writes `s`, or nothing when it fails; on a sink that never fails
    /// it succeeds.
    fn emit(&mut self, s: &str) -> (r: Result<(), Self::Error>)
        ensures
            r is Ok ==> final(self).written() == old(self).written() + s@,
            r is Err ==> final(self).written() == old(self).written(),
            final(self).calls() == old(self).calls() + 1,
            final(self).failures() == old(self).failures() + if r is Ok {
                0nat
            } else {
                1nat
            },
            r matches Err(e) ==> final(self).last_error() == Some(e),
            r is Ok ==> final(self).last_error() is None,
            old(self).infallible() ==> r is Ok,
            final(self).infallible() == old(self).infallible(),
    ;

    /// Flushes what was written; on a sink that never fails it succeeds.
    fn flush(&mut self) -> (r: Result<(), Self::Error>)
        ensures
            final(self).written() == old(self).written(),
            final(self).calls() == old(self).calls() + 1,
            final(self).failures() == old(self).failures() + if r is Ok {
                0nat
            } else {
                1nat
            },
            r matches Err(e) ==> final(self).last_error() == Some(e),
            r is Ok ==> final(self).last_error() is None,
            old(self).infallible() ==> r is Ok,
            final(self).infallible() == old(self).infallible(),
    ;
}

/// A text buffer that collects the sequence; writing to it never fails.
pub struct TextSink {
    /// What was written.
    pub text: String,
    /// Number of `emit` and `flush` calls.
    pub count: Ghost<nat>,
}

impl TextSink {
    /// An empty buffer.
    pub fn new() -> (s: TextSink)
        ensures
            s.text@ == Seq::<char>::empty(),
            s.count@ == 0,
    {
        TextSink { text: String::new(), count: Ghost(0) }
    }
}

impl BootSink for TextSink {
    type Error = ();

    open spec fn written(&self) -> Seq<char> {
        self.text@
    }

    open spec fn infallible(&self) -> bool {
        true
    }

    open spec fn calls(&self) -> nat {
        self.count@
    }

    open spec fn failures(&self) -> nat {
        0
    }

    open spec fn last_error(&self) -> Option<()> {
        None
    }

    fn emit(&mut self, s: &str) -> (r: Result<(), ()>)
        ensures
            r is Ok,
            final(self).text@ == old(self).text@ + s@,
    {
        self.text.append(s);
        self.count = Ghost(self.count@ + 1);
        Ok(())
    }

    fn flush(&mut self) -> (r: Result<(), ()>)
        ensures
            r is Ok,
            final(self).text@ == old(self).text@,
    {
        self.count = Ghost(self.count@ + 1);
        Ok(())
    }
}

/// The pauses between frames.
pub trait Sleeper {
    /// Milliseconds slept so far.
    spec fn slept(&self) -> nat;

    /// The pauses asked for so far, in milliseconds, in order.
    spec fn pauses(&self) -> Seq<nat>;

    /// Pauses for `ms` milliseconds.
    fn sleep(&mut self, ms: u64)
        requires
            old(self).slept() + ms <= u64::MAX,
        ensures
            final(self).slept() == old(self).slept() + ms,
            final(self).pauses() == old(self).pauses().push(ms as nat),
    ;
}

/// A sleeper that does not pause and adds up what it was asked to sleep.
pub struct NoSleep {
    /// Milliseconds the sequence asked to sleep.
    pub total: u64,
    /// The pauses asked for, in order.
    pub log: Ghost<Seq<nat>>,
}

impl Default for NoSleep {
    fn default() -> (s: NoSleep)
        ensures
            s.total == 0,
            s.pauses() == Seq::<nat>::empty(),
    {
        NoSleep { total: 0, log: Ghost(Seq::empty()) }
    }
}

impl Sleeper for NoSleep {
    open spec fn slept(&self) -> nat {
        self.total as nat
    }

    open spec fn pauses(&self) -> Seq<nat> {
        self.log@
    }

    fn sleep(&mut self, ms: u64) {
        self.total = self.total + ms;
        self.log = Ghost(self.log@.push(ms as nat));
    }
}

/// Line `i` of the boot log.
pub open spec fn boot_log(i: int) -> Seq<char> {
    if i == 0 {
        "> booting convergio kernel..."@
    } else if i == 1 {
        "> loading gates..."@
    } else if i == 2 {
        "> verifying audit chain..."@
    } else {
        "> syncing nodes..."@
    }
}

/// Glitch frame `f` of `CONVERGIO` in magenta.
pub open spec fn glitch_line(f: u32) -> Seq<char> {
    escape_of(magenta_spec()) + glitch_frame("CONVERGIO"@, f) + RESET@ + "\n"@
}

/// Boot log line `i` in cyan.
pub open spec fn log_line(i: int) -> Seq<char> {
    escape_of(cyan_spec()) + boot_log(i) + RESET@ + "\n"@
}

/// The first `n` glitch lines.
pub open spec fn glitch_lines(n: int) -> Seq<char>
    decreases n,
{
    if n <= 0 {
        Seq::empty()
    } else {
        glitch_lines(n - 1) + glitch_line((n - 1) as u32)
    }
}

/// The first `n` boot log lines.
pub open spec fn log_lines(n: int) -> Seq<char>
    decreases n,
{
    if n <= 0 {
        Seq::empty()
    } else {
        log_lines(n - 1) + log_line(n - 1)
    }
}

/// The closing part of the animation: achievement line, blank line,
/// wordmark and claim in colour.
pub open spec fn boot_tail() -> Seq<char> {
    escape_of(magenta_spec()) + "> convergence achieved."@ + RESET@ + "\n"@ + "\n"@ + wordmark_spec(Theme::Color)
        + "\n"@ + render_spec(CLAIM@, magenta_spec(), cyan_spec(), Theme::Color) + "\n"@
}

/// Everything the boot sequence writes.
pub open spec fn boot_text(theme: Theme) -> Seq<char> {
    if theme == Theme::Color {
        glitch_lines(3) + log_lines(4) + boot_tail()
    } else {
        wordmark_spec(theme) + "\n"@ + CLAIM@ + "\n"@
    }
}

/// The pauses of the boot sequence, in order: 80 ms after each of the
/// three glitch frames, then 180 ms after each of the four log lines.
pub open spec fn boot_pauses(theme: Theme) -> Seq<nat> {
    if theme == Theme::Color {
        seq![80nat, 80nat, 80nat, 180nat, 180nat, 180nat, 180nat]
    } else {
        Seq::empty()
    }
}

/// Milliseconds the boot sequence pauses: 80 after each of the three
/// glitch frames and 180 after each of the four log lines.
pub open spec fn boot_pause(theme: Theme) -> nat {
    if theme == Theme::Color {
        80 * 3 + 180 * 4
    } else {
        0
    }
}

fn emit_line<W: BootSink>(out: &mut W, parts: &Vec<char>) -> (r: Result<(), W::Error>)
    ensures
        r is Ok ==> final(out).written() == old(out).written() + parts@,
        r is Err ==> final(out).written() == old(out).written(),
        final(out).calls() == old(out).calls() + 1,
        final(out).failures() == old(out).failures() + if r is Ok {
            0nat
        } else {
            1nat
        },
        r matches Err(e) ==> final(out).last_error() == Some(e),
        old(out).infallible() ==> r is Ok,
        final(out).infallible() == old(out).infallible(),
{
    let s = string_of(parts);
    out.emit(s.as_str())
}

/// What the sequence prints when the theme does not animate.
pub open spec fn static_text(theme: Theme) -> Seq<char> {
    wordmark_spec(theme) + "\n"@ + CLAIM@ + "\n"@
}

fn static_line(theme: Theme) -> (line: Vec<char>)
    ensures
        line@ == static_text(theme),
{
    let mut line: Vec<char> = Vec::new();
    let wm = wordmark(theme);
    push_str(&mut line, wm.as_str());
    push_str(&mut line, "\n");
    push_str(&mut line, CLAIM);
    push_str(&mut line, "\n");
    assert(line@ =~= static_text(theme));
    line
}

fn glitch_text(f: u32) -> (line: Vec<char>)
    ensures
        line@ == glitch_line(f),
{
    let mut line: Vec<char> = Vec::new();
    let e = fg_escape(magenta());
    push_str(&mut line, e.as_str());
    let g = crate::glitch::frame("CONVERGIO", f);
    push_str(&mut line, g.as_str());
    push_str(&mut line, RESET);
    push_str(&mut line, "\n");
    assert(line@ =~= glitch_line(f));
    line
}

fn log_text(i: usize) -> (line: Vec<char>)
    requires
        i < 4,
    ensures
        line@ == log_line(i as int),
{
    let mut line: Vec<char> = Vec::new();
    let e = fg_escape(cyan());
    push_str(&mut line, e.as_str());
    let text = if i == 0 {
        "> booting convergio kernel..."
    } else if i == 1 {
        "> loading gates..."
    } else if i == 2 {
        "> verifying audit chain..."
    } else {
        "> syncing nodes..."
    };
    push_str(&mut line, text);
    push_str(&mut line, RESET);
    push_str(&mut line, "\n");
    assert(line@ =~= log_line(i as int));
    line
}

fn tail_text() -> (tail: Vec<char>)
    ensures
        tail@ == boot_tail(),
{
    let mut tail: Vec<char> = Vec::new();
    let e = fg_escape(magenta());
    push_str(&mut tail, e.as_str());
    push_str(&mut tail, "> convergence achieved.");
    push_str(&mut tail, RESET);
    push_str(&mut tail, "\n");
    push_str(&mut tail, "\n");
    let wm = wordmark(Theme::Color);
    push_str(&mut tail, wm.as_str());
    push_str(&mut tail, "\n");
    let c = brand(CLAIM, Theme::Color);
    push_str(&mut tail, c.as_str());
    push_str(&mut tail, "\n");
    assert(tail@ =~= boot_tail());
    tail
}

fn print_static<W: BootSink>(out: &mut W, theme: Theme) -> (r: Result<(), W::Error>)
    ensures
        r is Ok ==> final(out).written() == old(out).written() + static_text(theme),
        r is Ok ==> final(out).calls() == old(out).calls() + 2,
        r is Ok ==> final(out).failures() == old(out).failures(),
        r matches Err(e) ==> final(out).last_error() == Some(e),
        r is Err ==> final(out).failures() == old(out).failures() + 1,
        r is Err ==> (final(out).calls() == old(out).calls() + 1 && final(out).written() == old(out).written()) || (
        final(out).calls() == old(out).calls() + 2 && final(out).written() == old(out).written() + static_text(theme)),
        old(out).infallible() ==> r is Ok,
        final(out).infallible() == old(out).infallible(),
{
    let line = static_line(theme);
    match emit_line(out, &line) {
        Ok(()) => {},
        Err(e) => return Err(e),
    }
    out.flush()
}

/// A run of the sequence that stopped at frame `j`: in its write
/// (`k == 1`, the frame not written) or in its flush (`k == 2`, the frame
/// written), after `2 * j + k` sink calls, having written the frames
/// before it and paused after each of them, and nothing after.
pub open spec fn stopped_at(
    theme: Theme,
    j: int,
    k: int,
    calls0: nat,
    calls: nat,
    w0: Seq<char>,
    w: Seq<char>,
    p0: Seq<nat>,
    p: Seq<nat>,
) -> bool {
    &&& 0 <= j < frame_plan(theme).len()
    &&& 1 <= k <= 2
    &&& calls == calls0 + 2 * j + k
    &&& w == w0 + frames_text(frame_plan(theme).take(j + k - 1))
    &&& p == p0 + boot_pauses(theme).take(j)
}

/// Plays the boot sequence into `out`, pausing through `sleeper`: when
/// the theme allows animation, three glitch frames of `CONVERGIO`, the
/// four boot log lines, the achievement line, the wordmark and the
/// claim, flushing and pausing after each frame and log line; otherwise
/// the wordmark and the claim alone, with no pause. Stops at the first
/// write error and returns it.
pub fn play<W: BootSink, S: Sleeper>(out: &mut W, sleeper: &mut S, theme: Theme) -> (r: Result<(), W::Error>)
    requires
        old(sleeper).slept() + boot_pause(theme) <= u64::MAX,
    ensures
        r is Ok ==> final(out).written() == old(out).written() + boot_text(theme),
        r is Ok ==> final(sleeper).slept() == old(sleeper).slept() + boot_pause(theme),
        r is Ok ==> final(sleeper).pauses() == old(sleeper).pauses() + boot_pauses(theme),
        r is Ok ==> final(out).calls() == old(out).calls() + 2 * frame_plan(theme).len(),
        r is Ok ==> final(out).failures() == old(out).failures(),
        r matches Err(e) ==> final(out).last_error() == Some(e),
        r is Err ==> final(out).failures() == old(out).failures() + 1,
        r is Err ==> exists|j: int, k: int|
            #[trigger] stopped_at(
                theme,
                j,
                k,
                old(out).calls(),
                final(out).calls(),
                old(out).written(),
                final(out).written(),
                old(sleeper).pauses(),
                final(sleeper).pauses(),
            ),
        old(out).infallible() ==> r is Ok,
{
    let ghost plan = frame_plan(theme);
    let ghost w0 = out.written();
    let ghost c0 = out.calls();
    let ghost p0 = sleeper.pauses();
    proof {
        assert(plan.take(0) =~= Seq::<(Seq<char>, nat)>::empty());
        assert(frames_text(plan.take(0)) == Seq::<char>::empty());
        assert(w0 + Seq::<char>::empty() =~= w0);
        assert(p0 + boot_pauses(theme).take(0) =~= p0);
    }
    if !theme.allows_animation() {
        let r = print_static(out, theme);
        proof {
            assert(plan.take(1) =~= plan);
            assert(plan.drop_last() =~= Seq::<(Seq<char>, nat)>::empty());
            assert(frames_text(plan) == static_text(theme));
            assert(old(sleeper).pauses() + boot_pauses(theme) =~= old(sleeper).pauses());
            if r is Err {
                if out.calls() == c0 + 1 {
                    assert(stopped_at(theme, 0, 1, c0, out.calls(), w0, out.written(), p0, sleeper.pauses()));
                } else {
                    assert(stopped_at(theme, 0, 2, c0, out.calls(), w0, out.written(), p0, sleeper.pauses()));
                }
            }
        }
        return r;
    }
    let ghost s0 = sleeper.slept();
    let ghost ps = boot_pauses(theme);
    let ghost inf = out.infallible();
    let ghost f0 = out.failures();
    let mut f: u32 = 0;
    while f < 3
        invariant
            f <= 3,
            s0 + 960 <= u64::MAX,
            plan == frame_plan(Theme::Color),
            out.written() == w0 + frames_text(plan.take(f as int)),
            out.calls() == c0 + 2 * f,
            out.failures() == f0,
            f0 == old(out).failures(),
            c0 == old(out).calls(),
            w0 == old(out).written(),
            out.infallible() == inf,
            inf == old(out).infallible(),
            sleeper.slept() == s0 + 80 * f,
            p0 == old(sleeper).pauses(),
            ps == boot_pauses(Theme::Color),
            theme == Theme::Color,
            sleeper.pauses() == p0 + ps.take(f as int),
        decreases 3 - f,
    {
        let line = glitch_text(f);
        proof {
            lemma_plan_step(f as int);
        }
        match emit_line(out, &line) {
            Ok(()) => {},
            Err(e) => {
                proof {
                    assert(out.calls() == c0 + 2 * (f as int) + 1);
                    assert(plan.take(f + 1 - 1) == plan.take(f as int));
                    assert(stopped_at(theme, f as int, 1, c0, out.calls(), w0, out.written(), p0, sleeper.pauses()));
                }
                return Err(e);
            },
        }
        assert(out.written() =~= w0 + frames_text(plan.take(f + 1)));
        match out.flush() {
            Ok(()) => {},
            Err(e) => {
                proof {
                    assert(out.calls() == c0 + 2 * (f as int) + 2);
                    assert(plan.take(f + 2 - 1) == plan.take(f + 1));
                    assert(stopped_at(theme, f as int, 2, c0, out.calls(), w0, out.written(), p0, sleeper.pauses()));
                }
                return Err(e);
            },
        }
        sleeper.sleep(80);
        assert(p0 + ps.take(f + 1) =~= (p0 + ps.take(f as int)).push(80nat));
        f += 1;
    }
    let mut i: usize = 0;
    while i < 4
        invariant
            i <= 4,
            s0 + 960 <= u64::MAX,
            plan == frame_plan(Theme::Color),
            out.written() == w0 + frames_text(plan.take(3 + i as int)),
            out.calls() == c0 + 2 * (3 + i),
            out.failures() == f0,
            f0 == old(out).failures(),
            c0 == old(out).calls(),
            w0 == old(out).written(),
            out.infallible() == inf,
            inf == old(out).infallible(),
            sleeper.slept() == s0 + 240 + 180 * i,
            p0 == old(sleeper).pauses(),
            ps == boot_pauses(Theme::Color),
            theme == Theme::Color,
            sleeper.pauses() == p0 + ps.take(3 + i as int),
        decreases 4 - i,
    {
        let line = log_text(i);
        proof {
            lemma_plan_step(3 + i as int);
        }
        match emit_line(out, &line) {
            Ok(()) => {},
            Err(e) => {
                proof {
                    assert(out.calls() == c0 + 2 * (3 + i as int) + 1);
                    assert(plan.take(3 + i + 1 - 1) == plan.take(3 + i as int));
                    assert(stopped_at(theme, 3 + i as int, 1, c0, out.calls(), w0, out.written(), p0, sleeper.pauses()));
                }
                return Err(e);
            },
        }
        assert(out.written() =~= w0 + frames_text(plan.take(3 + i + 1)));
        match out.flush() {
            Ok(()) => {},
            Err(e) => {
                proof {
                    assert(out.calls() == c0 + 2 * (3 + i as int) + 2);
                    assert(plan.take(3 + i + 2 - 1) == plan.take(3 + i + 1));
                    assert(stopped_at(theme, 3 + i as int, 2, c0, out.calls(), w0, out.written(), p0, sleeper.pauses()));
                }
                return Err(e);
            },
        }
        sleeper.sleep(180);
        assert(p0 + ps.take(3 + i + 1) =~= (p0 + ps.take(3 + i as int)).push(180nat));
        i += 1;
    }
    let tail = tail_text();
    proof {
        lemma_plan_step(7);
    }
    match emit_line(out, &tail) {
        Ok(()) => {},
        Err(e) => {
            proof {
                assert(out.calls() == c0 + 2 * 7 + 1);
                assert(plan.take(7 + 1 - 1) == plan.take(7));
                assert(ps.take(7) =~= ps);
                assert(stopped_at(theme, 7, 1, c0, out.calls(), w0, out.written(), p0, sleeper.pauses()));
            }
            return Err(e);
        },
    }
    assert(out.written() =~= w0 + frames_text(plan.take(8)));
    let r = out.flush();
    proof {
        assert(plan.take(8) =~= plan);
        law_frames_replay_play(theme);
        assert(ps.take(7) =~= ps);
        if r is Err {
            assert(out.calls() == c0 + 2 * 7 + 2);
            assert(plan.take(7 + 2 - 1) == plan.take(8));
            assert(stopped_at(theme, 7, 2, c0, out.calls(), w0, out.written(), p0, sleeper.pauses()));
        }
    }
    r
}

/// Frame `j` of the animated plan extends the text of the frames before
/// it by its own text: a glitch line, a log line or the closing part.
proof fn lemma_plan_step(j: int)
    requires
        0 <= j < 8,
    ensures
        frames_text(frame_plan(Theme::Color).take(j + 1)) == frames_text(frame_plan(Theme::Color).take(j)) + (if j < 3 {
            glitch_line(j as u32)
        } else if j < 7 {
            log_line(j - 3)
        } else {
            boot_tail()
        }),
        frame_plan(Theme::Color).len() == 8,
{
    let plan = frame_plan(Theme::Color);
    assert(plan.take(j + 1).drop_last() =~= plan.take(j));
    assert(plan.take(j + 1).last() == plan[j]);
    if j == 0 {
        assert(plan[0].0 == glitch_line(0));
    } else if j == 1 {
        assert(plan[1].0 == glitch_line(1));
    } else if j == 2 {
        assert(plan[2].0 == glitch_line(2));
    } else if j == 3 {
        assert(plan[3].0 == log_line(0));
    } else if j == 4 {
        assert(plan[4].0 == log_line(1));
    } else if j == 5 {
        assert(plan[5].0 == log_line(2));
    } else if j == 6 {
        assert(plan[6].0 == log_line(3));
    } else {
        assert(plan[7].0 == boot_tail());
    }
}

/// One frame of the boot sequence: its text, written and flushed at
/// once, then a pause.
#[derive(Debug, Clone)]
pub struct BootFrame {
    pub text: String,
    pub pause_ms: u64,
}

pub open spec fn frame_views(v: Seq<BootFrame>) -> Seq<(Seq<char>, nat)> {
    v.map_values(|f: BootFrame| (f.text@, f.pause_ms as nat))
}

/// The frames of the sequence: when animated, three glitch frames of 80
/// ms, four log lines of 180 ms and the closing part with no pause;
/// otherwise the static print alone.
pub open spec fn frame_plan(theme: Theme) -> Seq<(Seq<char>, nat)> {
    if theme == Theme::Color {
        seq![
            (glitch_line(0), 80nat),
            (glitch_line(1), 80nat),
            (glitch_line(2), 80nat),
            (log_line(0), 180nat),
            (log_line(1), 180nat),
            (log_line(2), 180nat),
            (log_line(3), 180nat),
            (boot_tail(), 0nat),
        ]
    } else {
        seq![(static_text(theme), 0nat)]
    }
}

/// The boot sequence as frames, for a caller that writes, flushes and
/// pauses on its own.
pub fn boot_frames(theme: Theme) -> (r: Vec<BootFrame>)
    ensures
        frame_views(r@) == frame_plan(theme),
{
    let mut r: Vec<BootFrame> = Vec::new();
    if !theme.allows_animation() {
        r.push(BootFrame { text: string_of(&static_line(theme)), pause_ms: 0 });
        assert(frame_views(r@) =~= frame_plan(theme));
        return r;
    }
    let mut f: u32 = 0;
    while f < 3
        invariant
            f <= 3,
            theme == Theme::Color,
            frame_views(r@) == frame_plan(theme).take(f as int),
        decreases 3 - f,
    {
        let ghost before = frame_views(r@);
        r.push(BootFrame { text: string_of(&glitch_text(f)), pause_ms: 80 });
        assert(frame_views(r@) =~= before.push((glitch_line(f), 80nat)));
        assert(frame_plan(theme).take(f + 1) =~= frame_plan(theme).take(f as int).push(frame_plan(theme)[f as int]));
        f += 1;
    }
    let mut i: usize = 0;
    while i < 4
        invariant
            i <= 4,
            theme == Theme::Color,
            frame_views(r@) == frame_plan(theme).take(3 + i),
        decreases 4 - i,
    {
        let ghost before = frame_views(r@);
        r.push(BootFrame { text: string_of(&log_text(i)), pause_ms: 180 });
        assert(frame_views(r@) =~= before.push((log_line(i as int), 180nat)));
        assert(frame_plan(theme).take(3 + i + 1) =~= frame_plan(theme).take(3 + i).push(frame_plan(theme)[3 + i]));
        i += 1;
    }
    let ghost before = frame_views(r@);
    r.push(BootFrame { text: string_of(&tail_text()), pause_ms: 0 });
    assert(frame_views(r@) =~= before.push((boot_tail(), 0nat)));
    assert(frame_plan(theme).take(8) =~= frame_plan(theme));
    r
}

/// The frames' texts, one after the other.
pub open spec fn frames_text(v: Seq<(Seq<char>, nat)>) -> Seq<char>
    decreases v.len(),
{
    if v.len() == 0 {
        Seq::empty()
    } else {
        frames_text(v.drop_last()) + v.last().0
    }
}

/// The frames' pauses, added up.
pub open spec fn frames_pause(v: Seq<(Seq<char>, nat)>) -> nat
    decreases v.len(),
{
    if v.len() == 0 {
        0
    } else {
        frames_pause(v.drop_last()) + v.last().1
    }
}

/// Writing the frames one after the other prints exactly what `play`
/// prints, and their pauses add up to what `play` sleeps.
pub proof fn law_frames_replay_play(theme: Theme)
    ensures
        frames_text(frame_plan(theme)) == boot_text(theme),
        frames_pause(frame_plan(theme)) == boot_pause(theme),
{
    reveal_with_fuel(frames_text, 9);
    reveal_with_fuel(frames_pause, 9);
    reveal_with_fuel(glitch_lines, 4);
    reveal_with_fuel(log_lines, 5);
    let p = frame_plan(theme);
    if theme == Theme::Color {
        assert(p.drop_last().drop_last().drop_last().drop_last().drop_last().drop_last().drop_last().drop_last()
            =~= Seq::<(Seq<char>, nat)>::empty());
        assert(frames_text(p) =~= glitch_lines(3) + log_lines(4) + boot_tail());
    } else {
        assert(p.drop_last() =~= Seq::<(Seq<char>, nat)>::empty());
        assert(frames_text(p) =~= static_text(theme));
    }
}

} // verus!
