//! Layouts of `cvg agent list` and `cvg agent show`. The daemon answers
//! in JSON; the caller copies the fields read here into [`AgentInfo`]
//! (absent or mistyped fields as `None`). The localised header words
//! come from the caller.
use vstd::prelude::*;
use crate::graph_render::{joined, or_text, present, push_joined, push_or};
use crate::text::{push_all, push_str, string_of};

verus! {

/// An agent of the registry, as the layouts read it.
#[derive(Debug, Clone)]
pub struct AgentInfo {
    pub id: Option<String>,
    pub kind: Option<String>,
    pub status: Option<String>,
    pub current_task_id: Option<String>,
    pub host: Option<String>,
    pub name: Option<String>,
    pub capabilities: Option<Vec<Option<String>>>,
    pub last_heartbeat_at: Option<String>,
}

/// `s` padded with spaces to `w` characters (`{:<w}`).
pub open spec fn pad_to(s: Seq<char>, w: nat) -> Seq<char> {
    if s.len() < w {
        s + Seq::new((w - s.len()) as nat, |i: int| ' ')
    } else {
        s
    }
}

fn push_padded(out: &mut Vec<char>, s: &str, w: usize)
    ensures
        final(out)@ == old(out)@ + pad_to(s@, w as nat),
{
    let t = crate::text::chars_of(s);
    let mut cells: Vec<char> = Vec::new();
    while cells.len() + t.len() < w
        invariant
            cells@ == Seq::new(cells@.len(), |i: int| ' '),
            cells@.len() + t@.len() <= w || cells@.len() == 0,
        decreases w - cells.len() - t.len(),
    {
        cells.push(' ');
        assert(cells@ =~= Seq::new(cells@.len(), |i: int| ' '));
    }
    let ghost start = out@;
    push_all(out, &t);
    push_all(out, &cells);
    assert(out@ =~= start + pad_to(s@, w as nat));
}

/// A row of the agent table: four cells of 28, 18, 10 and 36 columns.
pub open spec fn table_row(a: Seq<char>, b: Seq<char>, c: Seq<char>, d: Seq<char>) -> Seq<char> {
    pad_to(a, 28) + " "@ + pad_to(b, 18) + " "@ + pad_to(c, 10) + " "@ + pad_to(d, 36) + "\n"@
}

/// A row of the agent table; the header row passes the localised
/// column titles.
pub fn agent_table_row(a: &str, b: &str, c: &str, d: &str) -> (s: String)
    ensures
        s@ == table_row(a@, b@, c@, d@),
{
    let mut out: Vec<char> = Vec::new();
    push_padded(&mut out, a, 28);
    push_str(&mut out, " ");
    push_padded(&mut out, b, 18);
    push_str(&mut out, " ");
    push_padded(&mut out, c, 10);
    push_str(&mut out, " ");
    push_padded(&mut out, d, 36);
    push_str(&mut out, "\n");
    string_of(&out)
}

fn text_or<'a>(o: &'a Option<String>, d: &'a str) -> (r: &'a str)
    ensures
        r@ == or_text(*o, d@),
{
    match o {
        Some(s) => s.as_str(),
        None => d,
    }
}

/// The table row of an agent: id, kind, status (`?` when absent) and its
/// current task (`-` when none).
pub fn agent_list_row(a: &AgentInfo) -> (s: String)
    ensures
        s@ == table_row(
            or_text(a.id, "?"@),
            or_text(a.kind, "?"@),
            or_text(a.status, "?"@),
            or_text(a.current_task_id, "-"@),
        ),
{
    agent_table_row(
        text_or(&a.id, "?"),
        text_or(&a.kind, "?"),
        text_or(&a.status, "?"),
        text_or(&a.current_task_id, "-"),
    )
}

/// The plain line of an agent: id, status and current task, tab
/// separated.
pub fn agent_plain_line(a: &AgentInfo) -> (s: String)
    ensures
        s@ == or_text(a.id, "?"@) + "\t"@ + or_text(a.status, "?"@) + "\t"@ + or_text(a.current_task_id, "-"@) + "\n"@,
{
    let mut out: Vec<char> = Vec::new();
    push_or(&mut out, &a.id, "?");
    push_str(&mut out, "\t");
    push_or(&mut out, &a.status, "?");
    push_str(&mut out, "\t");
    push_or(&mut out, &a.current_task_id, "-");
    push_str(&mut out, "\n");
    string_of(&out)
}

pub open spec fn opt_line(label: Seq<char>, o: Option<String>) -> Seq<char> {
    match o {
        Some(v) => label + v@ + "\n"@,
        None => Seq::empty(),
    }
}

pub open spec fn caps_line(o: Option<Vec<Option<String>>>) -> Seq<char> {
    match o {
        Some(v) => {
            let j = joined(present(v@));
            if j.len() == 0 {
                Seq::empty()
            } else {
                "  capabilities:     "@ + j + "\n"@
            }
        },
        None => Seq::empty(),
    }
}

/// The detail lines of `cvg agent show` under the localised header.
pub open spec fn show_text(a: AgentInfo) -> Seq<char> {
    "  kind:             "@ + or_text(a.kind, "?"@) + "\n"@ + "  status:           "@ + or_text(a.status, "?"@)
        + "\n"@ + "  current_task_id:  "@ + or_text(a.current_task_id, "-"@) + "\n"@ + opt_line(
        "  host:             "@,
        a.host,
    ) + opt_line("  name:             "@, a.name) + caps_line(a.capabilities) + opt_line(
        "  last_heartbeat:   "@,
        a.last_heartbeat_at,
    )
}

fn push_opt_line(out: &mut Vec<char>, label: &str, o: &Option<String>)
    ensures
        final(out)@ == old(out)@ + opt_line(label@, *o),
{
    match o {
        Some(v) => {
            let ghost start = out@;
            push_str(out, label);
            push_str(out, v.as_str());
            push_str(out, "\n");
            assert(out@ =~= start + opt_line(label@, *o));
        },
        None => {
            assert(out@ =~= old(out)@ + opt_line(label@, *o));
        },
    }
}

fn push_caps_line(out: &mut Vec<char>, o: &Option<Vec<Option<String>>>)
    ensures
        final(out)@ == old(out)@ + caps_line(*o),
{
    match o {
        Some(v) => {
            let mut j: Vec<char> = Vec::new();
            push_joined(&mut j, v);
            assert(j@ =~= joined(present(v@)));
            if j.len() > 0 {
                let ghost start = out@;
                push_str(out, "  capabilities:     ");
                push_all(out, &j);
                push_str(out, "\n");
                assert(out@ =~= start + caps_line(*o));
            } else {
                assert(out@ =~= old(out)@ + caps_line(*o));
            }
        },
        None => {
            assert(out@ =~= old(out)@ + caps_line(*o));
        },
    }
}

/// The detail lines of `cvg agent show`: kind, status and current task,
/// then host, name, capabilities and last heartbeat where present.
pub fn agent_show_lines(a: &AgentInfo) -> (s: String)
    ensures
        s@ == show_text(*a),
{
    let mut out: Vec<char> = Vec::new();
    push_str(&mut out, "  kind:             ");
    push_or(&mut out, &a.kind, "?");
    push_str(&mut out, "\n");
    push_str(&mut out, "  status:           ");
    push_or(&mut out, &a.status, "?");
    push_str(&mut out, "\n");
    push_str(&mut out, "  current_task_id:  ");
    push_or(&mut out, &a.current_task_id, "-");
    push_str(&mut out, "\n");
    push_opt_line(&mut out, "  host:             ", &a.host);
    push_opt_line(&mut out, "  name:             ", &a.name);
    push_caps_line(&mut out, &a.capabilities);
    push_opt_line(&mut out, "  last_heartbeat:   ", &a.last_heartbeat_at);
    assert(out@ =~= show_text(*a));
    string_of(&out)
}

} // verus!
