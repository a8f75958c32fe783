//! Human layouts of the `cvg graph` reports. The daemon answers in JSON;
//! the caller copies the fields these layouts read into the plain types
//! below (absent or mistyped fields as `None`).
use vstd::prelude::*;
use crate::text::{decimal, push_all, push_decimal, push_str, string_of};

verus! {

pub open spec fn ov(o: Option<String>) -> Option<Seq<char>> {
    match o {
        Some(s) => Some(s@),
        None => None,
    }
}

/// The text of `o`, or `d` when absent.
pub open spec fn or_text(o: Option<String>, d: Seq<char>) -> Seq<char> {
    match o {
        Some(s) => s@,
        None => d,
    }
}

pub open spec fn or_zero(o: Option<u64>) -> nat {
    match o {
        Some(n) => n as nat,
        None => 0,
    }
}

/// The strings among `items`, in order.
pub open spec fn present(items: Seq<Option<String>>) -> Seq<Seq<char>>
    decreases items.len(),
{
    if items.len() == 0 {
        Seq::empty()
    } else {
        match items.last() {
            Some(s) => present(items.drop_last()).push(s@),
            None => present(items.drop_last()),
        }
    }
}

/// `items` joined by `, `.
pub open spec fn joined(items: Seq<Seq<char>>) -> Seq<char>
    decreases items.len(),
{
    if items.len() == 0 {
        Seq::empty()
    } else if items.len() == 1 {
        items[0]
    } else {
        joined(items.drop_last()) + ", "@ + items.last()
    }
}

pub(crate) fn push_or(out: &mut Vec<char>, o: &Option<String>, d: &str)
    ensures
        final(out)@ == old(out)@ + or_text(*o, d@),
{
    match o {
        Some(s) => push_str(out, s.as_str()),
        None => push_str(out, d),
    }
}

pub(crate) fn push_or_zero(out: &mut Vec<char>, o: Option<u64>)
    ensures
        final(out)@ == old(out)@ + decimal(or_zero(o)),
{
    let n: u64 = match o {
        Some(n) => n,
        None => 0,
    };
    push_decimal(out, n);
}

/// Appends the strings among `items`, joined by `, `.
pub(crate) fn push_joined(out: &mut Vec<char>, items: &Vec<Option<String>>)
    ensures
        final(out)@ == old(out)@ + joined(present(items@)),
{
    let ghost start = out@;
    let mut first = true;
    let mut i: usize = 0;
    while i < items.len()
        invariant
            i <= items.len(),
            out@ == start + joined(present(items@.take(i as int))),
            first == (present(items@.take(i as int)).len() == 0),
        decreases items.len() - i,
    {
        proof {
            assert(items@.take(i + 1).drop_last() =~= items@.take(i as int));
        }
        let ghost p = present(items@.take(i as int));
        match &items[i] {
            Some(s) => {
                proof {
                    assert(present(items@.take(i + 1)) == p.push(s@));
                    assert(p.push(s@).drop_last() =~= p);
                }
                if !first {
                    push_str(out, ", ");
                }
                push_str(out, s.as_str());
                first = false;
            },
            None => {},
        }
        i += 1;
    }
    assert(items@.take(items.len() as int) =~= items@);
}

/// Totals of a graph build.
#[derive(Debug, Clone)]
pub struct BuildSummary {
    pub nodes: Option<u64>,
    pub edges: Option<u64>,
    pub crates: Option<u64>,
    pub files_parsed: Option<u64>,
    pub files_skipped: Option<u64>,
}

pub open spec fn build_text(r: BuildSummary) -> Seq<char> {
    "Graph build: "@ + decimal(or_zero(r.crates)) + " crates, "@ + decimal(or_zero(r.files_parsed))
        + " files parsed ("@ + decimal(or_zero(r.files_skipped)) + " skipped). Total: "@ + decimal(or_zero(r.nodes))
        + " nodes / "@ + decimal(or_zero(r.edges)) + " edges.\n"@
}

/// The human line of `cvg graph build` (absent counts read as 0).
pub fn render_build_human(r: &BuildSummary) -> (s: String)
    ensures
        s@ == build_text(*r),
{
    let mut out: Vec<char> = Vec::new();
    push_str(&mut out, "Graph build: ");
    push_or_zero(&mut out, r.crates);
    push_str(&mut out, " crates, ");
    push_or_zero(&mut out, r.files_parsed);
    push_str(&mut out, " files parsed (");
    push_or_zero(&mut out, r.files_skipped);
    push_str(&mut out, " skipped). Total: ");
    push_or_zero(&mut out, r.nodes);
    push_str(&mut out, " nodes / ");
    push_or_zero(&mut out, r.edges);
    push_str(&mut out, " edges.\n");
    assert(out@ =~= build_text(*r));
    string_of(&out)
}

/// A drift report.
#[derive(Debug, Clone)]
pub struct DriftReport {
    pub since: Option<String>,
    pub adr_scope: Option<String>,
    /// Number of files changed, when the report lists them.
    pub files_changed: Option<u64>,
    pub actual_crates: Option<Vec<Option<String>>>,
    pub declared_crates: Option<Vec<Option<String>>>,
    pub drift: Option<Vec<Option<String>>>,
    pub ghosts: Option<Vec<Option<String>>>,
}

/// `label: a, b` or `label: (empty)`.
pub open spec fn set_line(label: Seq<char>, v: Option<Vec<Option<String>>>) -> Seq<char> {
    let items = match v {
        Some(x) => present(x@),
        None => Seq::empty(),
    };
    if items.len() == 0 {
        label + ": (empty)\n"@
    } else {
        label + ": "@ + joined(items) + "\n"@
    }
}

pub open spec fn drift_text(r: DriftReport) -> Seq<char> {
    "Drift report (since "@ + or_text(r.since, "?"@) + ", scope: "@ + or_text(
        r.adr_scope,
        "(all proposed/accepted ADRs)"@,
    ) + ")\n"@ + "  files changed: "@ + decimal(or_zero(r.files_changed)) + "\n"@ + set_line(
        "  actual crates"@,
        r.actual_crates,
    ) + set_line("  declared crates"@, r.declared_crates) + set_line("  DRIFT (touched but not declared)"@, r.drift)
        + set_line("  ghosts (declared but not touched)"@, r.ghosts)
}

fn push_set(out: &mut Vec<char>, label: &str, v: &Option<Vec<Option<String>>>)
    ensures
        final(out)@ == old(out)@ + set_line(label@, *v),
{
    let ghost start = out@;
    let empty: Vec<Option<String>> = Vec::new();
    let items = match v {
        Some(x) => x,
        None => &empty,
    };
    let mut any = false;
    let mut i: usize = 0;
    while i < items.len()
        invariant
            i <= items.len(),
            any == (present(items@.take(i as int)).len() > 0),
        decreases items.len() - i,
    {
        proof {
            assert(items@.take(i + 1).drop_last() =~= items@.take(i as int));
        }
        if items[i].is_some() {
            any = true;
        }
        i += 1;
    }
    assert(items@.take(items.len() as int) =~= items@);
    assert(present(items@) == match *v {
        Some(x) => present(x@),
        None => Seq::<Seq<char>>::empty(),
    }) by {
        if v.is_none() {
            assert(items@ =~= Seq::<Option<String>>::empty());
        }
    }
    push_str(out, label);
    if !any {
        push_str(out, ": (empty)\n");
    } else {
        push_str(out, ": ");
        push_joined(out, items);
        push_str(out, "\n");
    }
    assert(out@ =~= start + set_line(label@, *v));
}

/// The human report of `cvg graph drift`.
pub fn render_drift_human(r: &DriftReport) -> (s: String)
    ensures
        s@ == drift_text(*r),
{
    let mut out: Vec<char> = Vec::new();
    push_str(&mut out, "Drift report (since ");
    push_or(&mut out, &r.since, "?");
    push_str(&mut out, ", scope: ");
    push_or(&mut out, &r.adr_scope, "(all proposed/accepted ADRs)");
    push_str(&mut out, ")\n");
    push_str(&mut out, "  files changed: ");
    push_or_zero(&mut out, r.files_changed);
    push_str(&mut out, "\n");
    push_set(&mut out, "  actual crates", &r.actual_crates);
    push_set(&mut out, "  declared crates", &r.declared_crates);
    push_set(&mut out, "  DRIFT (touched but not declared)", &r.drift);
    push_set(&mut out, "  ghosts (declared but not touched)", &r.ghosts);
    assert(out@ =~= drift_text(*r));
    string_of(&out)
}

} // verus!

verus! {

/// A graph node matched for a task.
#[derive(Debug, Clone)]
pub struct PackNode {
    pub kind: Option<String>,
    pub name: Option<String>,
    pub crate_name: Option<String>,
    pub score: Option<u64>,
    pub file_path: Option<String>,
}

/// A file of a context pack.
#[derive(Debug, Clone)]
pub struct PackFile {
    pub path: Option<String>,
    pub node_count: Option<u64>,
}

/// An ADR related to a context pack.
#[derive(Debug, Clone)]
pub struct PackAdr {
    pub adr_id: Option<String>,
    pub via_crate: Option<String>,
    pub file_path: Option<String>,
}

/// A task context pack.
#[derive(Debug, Clone)]
pub struct ContextPack {
    pub task_id: Option<String>,
    pub query_tokens: Option<Vec<Option<String>>>,
    pub estimated_tokens: Option<u64>,
    pub matched_nodes: Option<Vec<PackNode>>,
    pub files: Option<Vec<PackFile>>,
    pub related_adrs: Option<Vec<PackAdr>>,
}

pub open spec fn node_line(n: PackNode) -> Seq<char> {
    "    ["@ + or_text(n.kind, ""@) + "] "@ + or_text(n.name, ""@) + " ("@ + or_text(n.crate_name, ""@) + ") score="@
        + decimal(or_zero(n.score)) + " "@ + or_text(n.file_path, "(no file)"@) + "\n"@
}

pub open spec fn node_lines(v: Seq<PackNode>) -> Seq<char>
    decreases v.len(),
{
    if v.len() == 0 {
        Seq::empty()
    } else {
        node_lines(v.drop_last()) + node_line(v.last())
    }
}

pub open spec fn file_line(f: PackFile) -> Seq<char> {
    "    "@ + or_text(f.path, ""@) + " ("@ + decimal(or_zero(f.node_count)) + " matches)\n"@
}

pub open spec fn file_lines(v: Seq<PackFile>) -> Seq<char>
    decreases v.len(),
{
    if v.len() == 0 {
        Seq::empty()
    } else {
        file_lines(v.drop_last()) + file_line(v.last())
    }
}

pub open spec fn adr_line(a: PackAdr) -> Seq<char> {
    "    "@ + or_text(a.adr_id, ""@) + " (via "@ + or_text(a.via_crate, ""@) + ") — "@ + or_text(a.file_path, ""@)
        + "\n"@
}

pub open spec fn adr_lines(v: Seq<PackAdr>) -> Seq<char>
    decreases v.len(),
{
    if v.len() == 0 {
        Seq::empty()
    } else {
        adr_lines(v.drop_last()) + adr_line(v.last())
    }
}

pub open spec fn first_n(len: nat, n: nat) -> int {
    if len < n {
        len as int
    } else {
        n as int
    }
}

pub open spec fn node_section(ns: Seq<PackNode>) -> Seq<char> {
    "  matched nodes ("@ + decimal(ns.len()) + "):\n"@ + node_lines(ns.take(first_n(ns.len(), 10))) + if ns.len() > 10 {
        "    ... and "@ + decimal((ns.len() - 10) as nat) + " more (use --output json for full list)\n"@
    } else {
        Seq::empty()
    }
}

pub open spec fn file_section(fs: Seq<PackFile>) -> Seq<char> {
    "  files ("@ + decimal(fs.len()) + "):\n"@ + file_lines(fs.take(first_n(fs.len(), 10)))
}

pub open spec fn adr_section(a: Seq<PackAdr>) -> Seq<char> {
    if a.len() > 0 {
        "  related ADRs:\n"@ + adr_lines(a)
    } else {
        Seq::empty()
    }
}

/// The human layout of a context pack: header, at most ten matched
/// nodes (with a count of the rest), at most ten files, and the related
/// ADRs when there are any.
pub open spec fn pack_text(p: ContextPack) -> Seq<char> {
    let tokens = match p.query_tokens {
        Some(t) => joined(present(t@)),
        None => Seq::empty(),
    };
    "Context-pack for task "@ + or_text(p.task_id, "?"@) + "\n"@ + "  query tokens: "@ + tokens + "\n"@
        + "  estimated_tokens: "@ + decimal(or_zero(p.estimated_tokens)) + "\n"@ + match p.matched_nodes {
        Some(ns) => node_section(ns@),
        None => Seq::empty(),
    } + match p.files {
        Some(fs) => file_section(fs@),
        None => Seq::empty(),
    } + match p.related_adrs {
        Some(a) => adr_section(a@),
        None => Seq::empty(),
    }
}

fn push_node_line(out: &mut Vec<char>, n: &PackNode)
    ensures
        final(out)@ == old(out)@ + node_line(*n),
{
    let ghost before = out@;
    push_str(out, "    [");
    push_or(out, &n.kind, "");
    push_str(out, "] ");
    push_or(out, &n.name, "");
    push_str(out, " (");
    push_or(out, &n.crate_name, "");
    push_str(out, ") score=");
    push_or_zero(out, n.score);
    push_str(out, " ");
    push_or(out, &n.file_path, "(no file)");
    push_str(out, "\n");
    assert(out@ =~= before + node_line(*n));
}

fn push_file_line(out: &mut Vec<char>, f: &PackFile)
    ensures
        final(out)@ == old(out)@ + file_line(*f),
{
    let ghost before = out@;
    push_str(out, "    ");
    push_or(out, &f.path, "");
    push_str(out, " (");
    push_or_zero(out, f.node_count);
    push_str(out, " matches)\n");
    assert(out@ =~= before + file_line(*f));
}

fn push_adr_line(out: &mut Vec<char>, r: &PackAdr)
    ensures
        final(out)@ == old(out)@ + adr_line(*r),
{
    let ghost before = out@;
    push_str(out, "    ");
    push_or(out, &r.adr_id, "");
    push_str(out, " (via ");
    push_or(out, &r.via_crate, "");
    push_str(out, ") — ");
    push_or(out, &r.file_path, "");
    push_str(out, "\n");
    assert(out@ =~= before + adr_line(*r));
}

fn push_node_section(out: &mut Vec<char>, ns: &Vec<PackNode>)
    ensures
        final(out)@ == old(out)@ + node_section(ns@),
{
    let ghost start = out@;
    push_str(out, "  matched nodes (");
    push_decimal(out, ns.len() as u64);
    push_str(out, "):\n");
    let ghost h = out@;
    let lim = if ns.len() < 10 {
        ns.len()
    } else {
        10
    };
    let mut i: usize = 0;
    while i < lim
        invariant
            i <= lim,
            lim <= ns.len(),
            out@ == h + node_lines(ns@.take(i as int)),
        decreases lim - i,
    {
        push_node_line(out, &ns[i]);
        assert(ns@.take(i + 1).drop_last() =~= ns@.take(i as int));
        i += 1;
    }
    let ghost h2 = out@;
    if ns.len() > 10 {
        push_str(out, "    ... and ");
        push_decimal(out, (ns.len() - 10) as u64);
        push_str(out, " more (use --output json for full list)\n");
    }
    assert(out@ =~= start + node_section(ns@));
}

fn push_file_section(out: &mut Vec<char>, fs: &Vec<PackFile>)
    ensures
        final(out)@ == old(out)@ + file_section(fs@),
{
    let ghost start = out@;
    push_str(out, "  files (");
    push_decimal(out, fs.len() as u64);
    push_str(out, "):\n");
    let ghost h = out@;
    let lim = if fs.len() < 10 {
        fs.len()
    } else {
        10
    };
    let mut i: usize = 0;
    while i < lim
        invariant
            i <= lim,
            lim <= fs.len(),
            out@ == h + file_lines(fs@.take(i as int)),
        decreases lim - i,
    {
        push_file_line(out, &fs[i]);
        assert(fs@.take(i + 1).drop_last() =~= fs@.take(i as int));
        i += 1;
    }
    assert(out@ =~= start + file_section(fs@));
}

fn push_adr_section(out: &mut Vec<char>, a: &Vec<PackAdr>)
    ensures
        final(out)@ == old(out)@ + adr_section(a@),
{
    let ghost start = out@;
    if a.len() > 0 {
        push_str(out, "  related ADRs:\n");
        let ghost h = out@;
        let mut i: usize = 0;
        while i < a.len()
            invariant
                i <= a.len(),
                out@ == h + adr_lines(a@.take(i as int)),
            decreases a.len() - i,
        {
            push_adr_line(out, &a[i]);
            assert(a@.take(i + 1).drop_last() =~= a@.take(i as int));
            i += 1;
        }
        assert(a@.take(a.len() as int) =~= a@);
    }
    assert(out@ =~= start + adr_section(a@));
}

/// The human layout of `cvg graph for-task`.
pub fn render_pack_human(p: &ContextPack) -> (s: String)
    ensures
        s@ == pack_text(*p),
{
    let mut out: Vec<char> = Vec::new();
    push_str(&mut out, "Context-pack for task ");
    push_or(&mut out, &p.task_id, "?");
    push_str(&mut out, "\n");
    push_str(&mut out, "  query tokens: ");
    match &p.query_tokens {
        Some(t) => push_joined(&mut out, t),
        None => {},
    }
    push_str(&mut out, "\n");
    push_str(&mut out, "  estimated_tokens: ");
    push_or_zero(&mut out, p.estimated_tokens);
    push_str(&mut out, "\n");
    match &p.matched_nodes {
        Some(ns) => push_node_section(&mut out, ns),
        None => {},
    }
    match &p.files {
        Some(fs) => push_file_section(&mut out, fs),
        None => {},
    }
    match &p.related_adrs {
        Some(a) => push_adr_section(&mut out, a),
        None => {},
    }
    assert(out@ =~= pack_text(*p));
    string_of(&out)
}

} // verus!

verus! {

/// One community of a cluster report.
#[derive(Debug, Clone)]
pub struct Community {
    pub label: Option<String>,
    pub loc: Option<u64>,
    pub item_count: Option<u64>,
    pub internal_edges: Option<u64>,
    pub external_edges: Option<u64>,
    /// The community's files (`None` for an entry that is not a string).
    pub files: Vec<Option<String>>,
}

/// A cluster report of one crate.
#[derive(Debug, Clone)]
pub struct ClusterReport {
    pub crate_name: Option<String>,
    pub total_files: Option<u64>,
    pub total_items: Option<u64>,
    pub total_loc: Option<u64>,
    pub target_loc: Option<u64>,
    pub above_target: Option<bool>,
    pub iterations: Option<u64>,
    pub communities: Vec<Community>,
}

/// One indented line per path.
pub open spec fn indented(ps: Seq<Seq<char>>) -> Seq<char>
    decreases ps.len(),
{
    if ps.len() == 0 {
        Seq::empty()
    } else {
        indented(ps.drop_last()) + "        "@ + ps.last() + "\n"@
    }
}

/// The summary line of community `i`.
pub open spec fn community_head(i: nat, c: Community) -> Seq<char> {
    "  ["@ + decimal(i) + "] community "@ + or_text(c.label, "?"@) + ": "@ + decimal(c.files@.len()) + " files / "@
        + decimal(or_zero(c.item_count)) + " items / "@ + decimal(or_zero(c.loc)) + " LOC (internal="@ + decimal(
        or_zero(c.internal_edges),
    ) + ", external="@ + decimal(or_zero(c.external_edges)) + ")\n"@
}

/// The first five files of a community and a count of the others.
pub open spec fn community_files(c: Community) -> Seq<char> {
    indented(present(c.files@.take(first_n(c.files@.len(), 5)))) + if c.files@.len() > 5 {
        "        ... and "@ + decimal((c.files@.len() - 5) as nat) + " more\n"@
    } else {
        Seq::empty()
    }
}

/// Community `i`: its summary line, its first five files and a count of
/// the others.
pub open spec fn community_block(i: nat, c: Community) -> Seq<char> {
    community_head(i, c) + community_files(c)
}

pub open spec fn communities_text(cs: Seq<Community>, n: int) -> Seq<char>
    decreases n,
{
    if n <= 0 {
        Seq::empty()
    } else {
        communities_text(cs, n - 1) + community_block((n - 1) as nat, cs[n - 1])
    }
}

pub open spec fn cluster_text(r: ClusterReport) -> Seq<char> {
    "Cluster report for "@ + or_text(r.crate_name, "?"@) + ": "@ + decimal(or_zero(r.total_files)) + " files, "@
        + decimal(or_zero(r.total_items)) + " items, "@ + decimal(or_zero(r.total_loc)) + " LOC, "@ + decimal(
        r.communities@.len(),
    ) + " communities (after "@ + decimal(or_zero(r.iterations)) + " iter)\n"@ + match r.target_loc {
        Some(t) => "  target LOC: "@ + decimal(t as nat) + (if r.above_target == Some(true) {
            " — ABOVE TARGET"@
        } else {
            Seq::<char>::empty()
        }) + "\n"@,
        None => Seq::empty(),
    } + communities_text(r.communities@, r.communities@.len() as int)
}

fn push_indented(out: &mut Vec<char>, items: &Vec<Option<String>>, lim: usize)
    requires
        lim <= items.len(),
    ensures
        final(out)@ == old(out)@ + indented(present(items@.take(lim as int))),
{
    let ghost start = out@;
    let mut i: usize = 0;
    while i < lim
        invariant
            i <= lim,
            lim <= items.len(),
            out@ == start + indented(present(items@.take(i as int))),
        decreases lim - i,
    {
        proof {
            assert(items@.take(i + 1).drop_last() =~= items@.take(i as int));
        }
        match &items[i] {
            Some(p) => {
                let ghost before = present(items@.take(i as int));
                push_str(out, "        ");
                push_str(out, p.as_str());
                push_str(out, "\n");
                proof {
                    assert(present(items@.take(i + 1)) == before.push(p@));
                    assert(before.push(p@).drop_last() =~= before);
                }
            },
            None => {},
        }
        i += 1;
    }
}

fn push_community_head(out: &mut Vec<char>, i: usize, c: &Community)
    ensures
        final(out)@ == old(out)@ + community_head(i as nat, *c),
{
    let ghost start = out@;
    push_str(out, "  [");
    push_decimal(out, i as u64);
    push_str(out, "] community ");
    push_or(out, &c.label, "?");
    push_str(out, ": ");
    push_decimal(out, c.files.len() as u64);
    push_str(out, " files / ");
    push_or_zero(out, c.item_count);
    push_str(out, " items / ");
    push_or_zero(out, c.loc);
    push_str(out, " LOC (internal=");
    push_or_zero(out, c.internal_edges);
    push_str(out, ", external=");
    push_or_zero(out, c.external_edges);
    push_str(out, ")\n");
    assert(out@ =~= start + community_head(i as nat, *c));
}

fn push_community_files(out: &mut Vec<char>, c: &Community)
    ensures
        final(out)@ == old(out)@ + community_files(*c),
{
    let ghost start = out@;
    let lim = if c.files.len() < 5 {
        c.files.len()
    } else {
        5
    };
    push_indented(out, &c.files, lim);
    if c.files.len() > 5 {
        push_str(out, "        ... and ");
        push_decimal(out, (c.files.len() - 5) as u64);
        push_str(out, " more\n");
    }
    assert(out@ =~= start + community_files(*c));
}

fn push_community(out: &mut Vec<char>, i: usize, c: &Community)
    ensures
        final(out)@ == old(out)@ + community_block(i as nat, *c),
{
    let ghost start = out@;
    push_community_head(out, i, c);
    push_community_files(out, c);
    assert(out@ =~= start + community_block(i as nat, *c));
}

/// The human layout of `cvg graph cluster`.
pub fn render_cluster_human(r: &ClusterReport) -> (s: String)
    ensures
        s@ == cluster_text(*r),
{
    let mut out: Vec<char> = Vec::new();
    push_str(&mut out, "Cluster report for ");
    push_or(&mut out, &r.crate_name, "?");
    push_str(&mut out, ": ");
    push_or_zero(&mut out, r.total_files);
    push_str(&mut out, " files, ");
    push_or_zero(&mut out, r.total_items);
    push_str(&mut out, " items, ");
    push_or_zero(&mut out, r.total_loc);
    push_str(&mut out, " LOC, ");
    push_decimal(&mut out, r.communities.len() as u64);
    push_str(&mut out, " communities (after ");
    push_or_zero(&mut out, r.iterations);
    push_str(&mut out, " iter)\n");
    match r.target_loc {
        Some(t) => {
            push_str(&mut out, "  target LOC: ");
            push_decimal(&mut out, t);
            if r.above_target == Some(true) {
                push_str(&mut out, " — ABOVE TARGET");
            }
            push_str(&mut out, "\n");
        },
        None => {},
    }
    let ghost h = out@;
    let mut i: usize = 0;
    while i < r.communities.len()
        invariant
            i <= r.communities.len(),
            out@ == h + communities_text(r.communities@, i as int),
        decreases r.communities.len() - i,
    {
        push_community(&mut out, i, &r.communities[i]);
        i += 1;
    }
    assert(out@ =~= cluster_text(*r));
    string_of(&out)
}

} // verus!
