//! Layouts of `cvg bus` (tail, topics, post) and the tail route. The
//! daemon answers in JSON; the caller copies the fields read here into
//! the plain types below (absent or mistyped fields as `None`).
use vstd::prelude::*;
use crate::graph_render::{or_text, push_or};
use crate::text::{chars_of, decimal, idecimal, push_decimal, push_idecimal, push_str, string_of};

verus! {

pub open spec fn or_izero(o: Option<i64>) -> int {
    match o {
        Some(n) => n as int,
        None => 0,
    }
}

fn push_or_izero(out: &mut Vec<char>, o: Option<i64>)
    ensures
        final(out)@ == old(out)@ + idecimal(or_izero(o)),
{
    let n: i64 = match o {
        Some(n) => n,
        None => 0,
    };
    push_idecimal(out, n);
}

/// `s` right-aligned in three columns (`{:>3}`).
pub open spec fn right3(s: Seq<char>) -> Seq<char> {
    if s.len() < 3 {
        Seq::new((3 - s.len()) as nat, |i: int| ' ') + s
    } else {
        s
    }
}

/// The route of `cvg bus tail` for a resolved plan.
pub fn tail_path(plan_id: &str, since: i64, limit: i64, topic: Option<&str>) -> (r: String)
    ensures
        r@ == "/v1/plans/"@ + plan_id@ + "/messages/tail?cursor="@ + idecimal(since as int) + "&limit="@ + idecimal(
            limit as int,
        ) + match topic {
            Some(t) => "&topic="@ + t@,
            None => Seq::empty(),
        },
{
    let mut p: Vec<char> = chars_of("/v1/plans/");
    push_str(&mut p, plan_id);
    push_str(&mut p, "/messages/tail?cursor=");
    push_idecimal(&mut p, since);
    push_str(&mut p, "&limit=");
    push_idecimal(&mut p, limit);
    match topic {
        Some(t) => {
            push_str(&mut p, "&topic=");
            push_str(&mut p, t);
        },
        None => {},
    }
    string_of(&p)
}

/// One message as `cvg bus tail` shows it.
#[derive(Debug, Clone)]
pub struct TailEntry {
    pub seq: Option<i64>,
    pub topic: Option<String>,
    pub sender: Option<String>,
    /// Whether the message carries a consumption time.
    pub consumed: bool,
    /// The payload's `kind`, when it has one.
    pub kind: Option<String>,
}

pub open spec fn tail_line(m: TailEntry) -> Seq<char> {
    "  seq "@ + right3(idecimal(or_izero(m.seq))) + " ["@ + or_text(m.topic, "?"@) + "] sender="@ + or_text(
        m.sender,
        "-"@,
    ) + tail_suffix(m)
}

pub open spec fn tail_lines(ms: Seq<TailEntry>) -> Seq<char>
    decreases ms.len(),
{
    if ms.len() == 0 {
        Seq::empty()
    } else {
        tail_lines(ms.drop_last()) + tail_line(ms.last())
    }
}

pub open spec fn tail_plain_line(m: TailEntry) -> Seq<char> {
    "seq="@ + idecimal(or_izero(m.seq)) + " topic="@ + or_text(m.topic, "?"@) + " sender="@ + or_text(m.sender, "-"@)
        + "\n"@
}

pub open spec fn tail_plain_lines(ms: Seq<TailEntry>) -> Seq<char>
    decreases ms.len(),
{
    if ms.len() == 0 {
        Seq::empty()
    } else {
        tail_plain_lines(ms.drop_last()) + tail_plain_line(ms.last())
    }
}

fn push_right3(out: &mut Vec<char>, n: i64)
    ensures
        final(out)@ == old(out)@ + right3(idecimal(n as int)),
{
    let mut num: Vec<char> = Vec::new();
    push_idecimal(&mut num, n);
    let ghost nv = num@;
    let mut pad: Vec<char> = Vec::new();
    while pad.len() + num.len() < 3
        invariant
            num@ == nv,
            pad@ == Seq::new(pad@.len(), |i: int| ' '),
            pad@.len() + nv.len() <= 3 || pad@.len() == 0,
        decreases 3 - pad.len() - num.len(),
    {
        pad.push(' ');
        assert(pad@ =~= Seq::new(pad@.len(), |i: int| ' '));
    }
    assert(pad@ + num@ =~= right3(nv));
    crate::text::push_all(out, &pad);
    crate::text::push_all(out, &num);
    assert(out@ =~= old(out)@ + right3(nv)) by {
        assert(out@ =~= old(out)@ + (pad@ + num@));
    }
}

pub open spec fn tail_suffix(m: TailEntry) -> Seq<char> {
    let kind = or_text(m.kind, ""@);
    (if kind.len() == 0 {
        Seq::empty()
    } else {
        " "@ + kind
    }) + (if m.consumed {
        " [acked]"@
    } else {
        Seq::empty()
    }) + "\n"@
}

fn push_tail_suffix(out: &mut Vec<char>, m: &TailEntry)
    ensures
        final(out)@ == old(out)@ + tail_suffix(*m),
{
    proof {
        reveal_strlit("");
    }
    let ghost start = out@;
    match &m.kind {
        Some(k) => {
            if chars_of(k.as_str()).len() > 0 {
                push_str(out, " ");
                push_str(out, k.as_str());
            }
        },
        None => {},
    }
    if m.consumed {
        push_str(out, " [acked]");
    }
    push_str(out, "\n");
    assert(out@ =~= start + tail_suffix(*m));
}

fn push_tail_line(out: &mut Vec<char>, m: &TailEntry)
    ensures
        final(out)@ == old(out)@ + tail_line(*m),
{
    let ghost start = out@;
    push_str(out, "  seq ");
    push_right3(out, match m.seq {
        Some(n) => n,
        None => 0,
    });
    push_str(out, " [");
    push_or(out, &m.topic, "?");
    push_str(out, "] sender=");
    push_or(out, &m.sender, "-");
    push_tail_suffix(out, m);
    assert(out@ =~= start + tail_line(*m));
}

pub open spec fn tail_text(plan_id: Seq<char>, ms: Seq<TailEntry>) -> Seq<char> {
    "Plan "@ + plan_id + " — "@ + decimal(ms.len()) + " message(s)\n"@ + tail_lines(ms)
}

/// The human layout of `cvg bus tail`.
pub fn render_tail_human(plan_id: &str, messages: &Vec<TailEntry>) -> (s: String)
    ensures
        s@ == tail_text(plan_id@, messages@),
{
    let mut out: Vec<char> = chars_of("Plan ");
    push_str(&mut out, plan_id);
    push_str(&mut out, " — ");
    push_decimal(&mut out, messages.len() as u64);
    push_str(&mut out, " message(s)\n");
    let ghost head = out@;
    let mut i: usize = 0;
    while i < messages.len()
        invariant
            i <= messages.len(),
            out@ == head + tail_lines(messages@.take(i as int)),
        decreases messages.len() - i,
    {
        assert(messages@.take(i + 1).drop_last() =~= messages@.take(i as int));
        push_tail_line(&mut out, &messages[i]);
        i += 1;
    }
    assert(messages@.take(messages.len() as int) =~= messages@);
    string_of(&out)
}

/// The plain layout of `cvg bus tail`: one `seq= topic= sender=` line
/// per message.
pub fn render_tail_plain(messages: &Vec<TailEntry>) -> (s: String)
    ensures
        s@ == tail_plain_lines(messages@),
{
    let mut out: Vec<char> = Vec::new();
    let mut i: usize = 0;
    while i < messages.len()
        invariant
            i <= messages.len(),
            out@ == tail_plain_lines(messages@.take(i as int)),
        decreases messages.len() - i,
    {
        assert(messages@.take(i + 1).drop_last() =~= messages@.take(i as int));
        let m = &messages[i];
        let ghost before = out@;
        push_str(&mut out, "seq=");
        push_or_izero(&mut out, m.seq);
        push_str(&mut out, " topic=");
        push_or(&mut out, &m.topic, "?");
        push_str(&mut out, " sender=");
        push_or(&mut out, &m.sender, "-");
        push_str(&mut out, "\n");
        assert(out@ =~= before + tail_plain_line(*m));
        i += 1;
    }
    assert(messages@.take(messages.len() as int) =~= messages@);
    string_of(&out)
}

/// One topic of `cvg bus topics`.
#[derive(Debug, Clone)]
pub struct TopicLine {
    pub topic: Option<String>,
    pub count: Option<i64>,
    pub last_seq: Option<i64>,
    pub last_at: Option<String>,
}

pub open spec fn topic_human_line(t: TopicLine) -> Seq<char> {
    "  - "@ + or_text(t.topic, "?"@) + " ("@ + idecimal(or_izero(t.count)) + " msgs, last seq="@ + idecimal(
        or_izero(t.last_seq),
    ) + " at "@ + or_text(t.last_at, "?"@) + ")\n"@
}

pub open spec fn topic_plain_line(t: TopicLine) -> Seq<char> {
    "topic="@ + or_text(t.topic, "?"@) + " count="@ + idecimal(or_izero(t.count)) + " last_seq="@ + idecimal(
        or_izero(t.last_seq),
    ) + "\n"@
}

pub open spec fn topic_lines(ts: Seq<TopicLine>, human: bool) -> Seq<char>
    decreases ts.len(),
{
    if ts.len() == 0 {
        Seq::empty()
    } else {
        topic_lines(ts.drop_last(), human) + if human {
            topic_human_line(ts.last())
        } else {
            topic_plain_line(ts.last())
        }
    }
}

fn push_topic_human(out: &mut Vec<char>, t: &TopicLine)
    ensures
        final(out)@ == old(out)@ + topic_human_line(*t),
{
    let ghost before = out@;
    push_str(out, "  - ");
    push_or(out, &t.topic, "?");
    push_str(out, " (");
    push_or_izero(out, t.count);
    push_str(out, " msgs, last seq=");
    push_or_izero(out, t.last_seq);
    push_str(out, " at ");
    push_or(out, &t.last_at, "?");
    push_str(out, ")\n");
    assert(out@ =~= before + topic_human_line(*t));
}

fn push_topic_plain(out: &mut Vec<char>, t: &TopicLine)
    ensures
        final(out)@ == old(out)@ + topic_plain_line(*t),
{
    let ghost before = out@;
    push_str(out, "topic=");
    push_or(out, &t.topic, "?");
    push_str(out, " count=");
    push_or_izero(out, t.count);
    push_str(out, " last_seq=");
    push_or_izero(out, t.last_seq);
    push_str(out, "\n");
    assert(out@ =~= before + topic_plain_line(*t));
}

fn push_topic_lines(out: &mut Vec<char>, ts: &Vec<TopicLine>, human: bool)
    ensures
        final(out)@ == old(out)@ + topic_lines(ts@, human),
{
    let ghost start = out@;
    let mut i: usize = 0;
    while i < ts.len()
        invariant
            i <= ts.len(),
            out@ == start + topic_lines(ts@.take(i as int), human),
        decreases ts.len() - i,
    {
        assert(ts@.take(i + 1).drop_last() =~= ts@.take(i as int));
        if human {
            push_topic_human(out, &ts[i]);
        } else {
            push_topic_plain(out, &ts[i]);
        }
        i += 1;
    }
    assert(ts@.take(ts.len() as int) =~= ts@);
}

/// The human layout of `cvg bus topics`.
pub fn render_topics_human(plan_id: &str, topics: &Vec<TopicLine>) -> (s: String)
    ensures
        s@ == "Plan "@ + plan_id@ + " ("@ + decimal(topics@.len()) + " topics)\n"@ + topic_lines(topics@, true),
{
    let mut out: Vec<char> = chars_of("Plan ");
    push_str(&mut out, plan_id);
    push_str(&mut out, " (");
    push_decimal(&mut out, topics.len() as u64);
    push_str(&mut out, " topics)\n");
    push_topic_lines(&mut out, topics, true);
    string_of(&out)
}

/// The plain layout of `cvg bus topics`.
pub fn render_topics_plain(topics: &Vec<TopicLine>) -> (s: String)
    ensures
        s@ == topic_lines(topics@, false),
{
    let mut out: Vec<char> = Vec::new();
    push_topic_lines(&mut out, topics, false);
    string_of(&out)
}

/// The human line of `cvg bus post`.
pub fn render_posted_human(topic: &str, plan_id: &str, seq: Option<i64>) -> (s: String)
    ensures
        s@ == "Posted to "@ + topic@ + " on plan "@ + plan_id@ + " as seq "@ + idecimal(or_izero(seq)) + ".\n"@,
{
    let mut out: Vec<char> = chars_of("Posted to ");
    push_str(&mut out, topic);
    push_str(&mut out, " on plan ");
    push_str(&mut out, plan_id);
    push_str(&mut out, " as seq ");
    push_or_izero(&mut out, seq);
    push_str(&mut out, ".\n");
    string_of(&out)
}

/// The plain line of `cvg bus post`.
pub fn render_posted_plain(seq: Option<i64>, id: &Option<String>) -> (s: String)
    ensures
        s@ == "seq="@ + idecimal(or_izero(seq)) + " id="@ + or_text(*id, "?"@) + "\n"@,
{
    let mut out: Vec<char> = chars_of("seq=");
    push_or_izero(&mut out, seq);
    push_str(&mut out, " id=");
    push_or(&mut out, id, "?");
    push_str(&mut out, "\n");
    string_of(&out)
}

} // verus!
