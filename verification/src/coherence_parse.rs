//! Parsers of the coherence check: ADR frontmatter, the ADR index
//! table and the workspace member list.
use vstd::prelude::*;
use crate::text::{chars_of, is_ws, lemma_first_index_at, lemma_trim_pad_front, lemma_ws_prefix, lemma_ws_suffix, eq_str, first_index, has_prefix, is_digit, lemma_first_index, lines, lines_of, slice_of, split_char, split_on, starts_with, string_of, string_views, strip_both, strip_char, strip_lead, strip_leading, strip_trail, strip_trailing, trim, trim_end, trimmed, trimmed_end, views};

verus! {

/// Why a frontmatter block could not be read.
#[derive(Debug, PartialEq, Eq, Structural)]
pub enum FrontmatterError {
    /// The first line is not `---`.
    MissingOpening,
    /// No line `---` closes the block.
    MissingClosing,
}

/// The frontmatter fields the coherence check reads.
pub struct Frontmatter {
    pub status: String,
    pub related_adrs: Vec<String>,
    pub touches_crates: Vec<String>,
}

/// Frontmatter as text.
pub struct FrontmatterView {
    pub status: Seq<char>,
    pub related_adrs: Seq<Seq<char>>,
    pub touches_crates: Seq<Seq<char>>,
}

impl Frontmatter {
    pub open spec fn view(&self) -> FrontmatterView {
        FrontmatterView {
            status: self.status@,
            related_adrs: string_views(self.related_adrs@),
            touches_crates: string_views(self.touches_crates@),
        }
    }
}

/// One entry of an inline YAML list: trimmed, surrounding quotes removed.
pub open spec fn yaml_item(s: Seq<char>) -> Seq<char> {
    strip_both(trim(s), '"')
}

/// The brackets of an inline YAML list removed.
pub open spec fn yaml_inside(value: Seq<char>) -> Seq<char> {
    strip_trail(strip_lead(trim(value), '['), ']')
}

/// Entries of an inline YAML list `[a, "b"]`; empty entries dropped.
pub open spec fn yaml_list(value: Seq<char>) -> Seq<Seq<char>> {
    let inside = yaml_inside(value);
    if trim(inside).len() == 0 {
        Seq::empty()
    } else {
        split_on(inside, ',').map_values(|s: Seq<char>| yaml_item(s)).filter(|s: Seq<char>| s.len() > 0)
    }
}

pub open spec fn empty_frontmatter() -> FrontmatterView {
    FrontmatterView { status: Seq::empty(), related_adrs: Seq::empty(), touches_crates: Seq::empty() }
}

/// The effect of one frontmatter line `key: value`.
pub open spec fn fm_update(fm: FrontmatterView, line: Seq<char>) -> FrontmatterView {
    let t = trim_end(line);
    match first_index(t, ':') {
        None => fm,
        Some(k) => {
            let key = trim(t.take(k as int));
            let value = trim(t.skip(k as int + 1));
            if key == "status"@ {
                FrontmatterView { status: strip_both(value, '"'), ..fm }
            } else if key == "related_adrs"@ {
                FrontmatterView { related_adrs: yaml_list(value), ..fm }
            } else if key == "touches_crates"@ {
                FrontmatterView { touches_crates: yaml_list(value), ..fm }
            } else {
                fm
            }
        },
    }
}

/// Reads frontmatter lines from index `n` on, until the closing `---`.
pub open spec fn fm_scan(ls: Seq<Seq<char>>, n: int, fm: FrontmatterView) -> Result<FrontmatterView, FrontmatterError>
    decreases ls.len() - n,
{
    if n < 0 || n >= ls.len() {
        Err(FrontmatterError::MissingClosing)
    } else if trim(trim_end(ls[n])) == "---"@ {
        Ok(fm)
    } else {
        fm_scan(ls, n + 1, fm_update(fm, ls[n]))
    }
}

/// The frontmatter of a markdown body: a first line `---`, `key: value`
/// lines, and a closing `---`. Later keys overwrite earlier ones.
pub open spec fn frontmatter_of(body: Seq<char>) -> Result<FrontmatterView, FrontmatterError> {
    let ls = lines_of(body);
    if ls.len() == 0 || trim(ls[0]) != "---"@ {
        Err(FrontmatterError::MissingOpening)
    } else {
        fm_scan(ls, 1, empty_frontmatter())
    }
}

/// Strings from character vectors.
pub fn strings_of(v: &Vec<Vec<char>>) -> (r: Vec<String>)
    ensures
        string_views(r@) == views(v@),
{
    let mut r: Vec<String> = Vec::new();
    let mut i: usize = 0;
    while i < v.len()
        invariant
            i <= v.len(),
            string_views(r@) == views(v@).take(i as int),
        decreases v.len() - i,
    {
        let s = string_of(&v[i]);
        let ghost before = string_views(r@);
        r.push(s);
        proof {
            assert(string_views(r@) =~= before.push(s@));
            assert(views(v@).take(i + 1) =~= views(v@).take(i as int).push(v@[i as int]@));
        }
        i += 1;
    }
    assert(views(v@).take(v.len() as int) =~= views(v@));
    r
}

/// Entries of an inline YAML list.
pub fn parse_yaml_list(value: &Vec<char>) -> (r: Vec<Vec<char>>)
    ensures
        views(r@) == yaml_list(value@),
{
    let t = trimmed(value);
    let a = strip_leading(&t, '[');
    let inside = strip_trailing(&a, ']');
    let ti = trimmed(&inside);
    let mut out: Vec<Vec<char>> = Vec::new();
    if ti.len() == 0 {
        assert(views(out@) =~= Seq::<Seq<char>>::empty());
        return out;
    }
    let pieces = split_char(&inside, ',');
    let ghost items = views(pieces@).map_values(|s: Seq<char>| yaml_item(s));
    let mut i: usize = 0;
    while i < pieces.len()
        invariant
            i <= pieces.len(),
            views(pieces@) == split_on(inside@, ','),
            items == views(pieces@).map_values(|s: Seq<char>| yaml_item(s)),
            views(out@) == items.take(i as int).filter(|s: Seq<char>| s.len() > 0),
        decreases pieces.len() - i,
    {
        let tp = trimmed(&pieces[i]);
        let item = strip_char(&tp, '"');
        proof {
            assert(items[i as int] == item@);
            assert(items.take(i + 1) == items.take(i as int).push(item@));
            items.take(i as int).lemma_filter_push(item@, |s: Seq<char>| s.len() > 0);
        }
        if item.len() > 0 {
            let ghost before = views(out@);
            out.push(item);
            proof {
                assert(views(out@) =~= before.push(item@));
            }
        }
        i += 1;
    }
    assert(items.take(pieces.len() as int) =~= items);
    out
}

/// Parses the frontmatter block at the top of a markdown body.
pub fn parse_frontmatter(body: &str) -> (r: Result<Frontmatter, FrontmatterError>)
    ensures
        match r {
            Ok(fm) => frontmatter_of(body@) == Ok::<FrontmatterView, FrontmatterError>(fm.view()),
            Err(e) => frontmatter_of(body@) == Err::<FrontmatterView, FrontmatterError>(e),
        },
{
    let b = chars_of(body);
    let ls = lines(&b);
    if ls.len() == 0 {
        return Err(FrontmatterError::MissingOpening);
    }
    let first = trimmed(&ls[0]);
    assert(views(ls@)[0] == ls@[0]@);
    if !eq_str(&first, "---") {
        return Err(FrontmatterError::MissingOpening);
    }
    let mut status: Vec<char> = Vec::new();
    let mut related: Vec<Vec<char>> = Vec::new();
    let mut touches: Vec<Vec<char>> = Vec::new();
    let mut k: usize = 1;
    proof {
        assert(views(related@) =~= Seq::<Seq<char>>::empty());
        assert(views(touches@) =~= Seq::<Seq<char>>::empty());
        assert(status@ =~= Seq::<char>::empty());
    }
    while k < ls.len()
        invariant
            1 <= k <= ls.len(),
            views(ls@) == lines_of(body@),
            frontmatter_of(body@) == fm_scan(
                views(ls@),
                k as int,
                FrontmatterView { status: status@, related_adrs: views(related@), touches_crates: views(touches@) },
            ),
        decreases ls.len() - k,
    {
        let line = &ls[k];
        assert(views(ls@)[k as int] == line@);
        let t = trimmed_end(line);
        let tt = trimmed(&t);
        if eq_str(&tt, "---") {
            return Ok(
                Frontmatter {
                    status: string_of(&status),
                    related_adrs: strings_of(&related),
                    touches_crates: strings_of(&touches),
                },
            );
        }
        let mut c: usize = 0;
        while c < t.len() && t[c] != ':'
            invariant
                c <= t.len(),
                forall|j: int| 0 <= j < c ==> t@[j] != ':',
            decreases t.len() - c,
        {
            c += 1;
        }
        proof {
            crate::text::lemma_first_index_at(t@, ':', c as int);
        }
        if c < t.len() {
            let kraw = slice_of(&t, 0, c);
            let vraw = slice_of(&t, c + 1, t.len());
            let key = trimmed(&kraw);
            let value = trimmed(&vraw);
            proof {
                assert(kraw@ == t@.take(c as int));
                assert(vraw@ == t@.skip(c as int + 1));
            }
            if eq_str(&key, "status") {
                status = strip_char(&value, '"');
            } else if eq_str(&key, "related_adrs") {
                related = parse_yaml_list(&value);
            } else if eq_str(&key, "touches_crates") {
                touches = parse_yaml_list(&value);
            }
        }
        k += 1;
    }
    Err(FrontmatterError::MissingClosing)
}

/// One row of the ADR index table: `| [id](...) | title | status |`.
pub open spec fn index_row(line: Seq<char>) -> Option<(Seq<char>, Seq<char>)> {
    if !starts_with(line, "| ["@) {
        None
    } else {
        let cells = split_on(line, '|').map_values(|c: Seq<char>| trim(c));
        if cells.len() < 4 {
            None
        } else {
            let id = split_on(strip_lead(cells[1], '['), ']')[0];
            if id.len() > 0 && (forall|i: int| 0 <= i < id.len() ==> is_digit(#[trigger] id[i])) {
                Some((id, cells[3]))
            } else {
                None
            }
        }
    }
}

/// ADR id to index status, over the first `n` lines; a later row for the
/// same id overwrites an earlier one.
pub open spec fn index_fold(ls: Seq<Seq<char>>, n: int) -> Map<Seq<char>, Seq<char>>
    decreases n,
{
    if n <= 0 {
        Map::empty()
    } else {
        let m = index_fold(ls, n - 1);
        match index_row(ls[n - 1]) {
            Some((id, status)) => m.insert(id, status),
            None => m,
        }
    }
}

/// The ADR index of a `README.md` body.
pub open spec fn index_of(body: Seq<char>) -> Map<Seq<char>, Seq<char>> {
    index_fold(lines_of(body), lines_of(body).len() as int)
}

/// One ADR index entry.
pub struct IndexEntry {
    pub id: String,
    pub status: String,
}

/// `entries` lists each key of `m` once, with its value.
pub open spec fn lists_map(entries: Seq<IndexEntry>, m: Map<Seq<char>, Seq<char>>) -> bool {
    &&& forall|i: int, j: int| 0 <= i < j < entries.len() ==> entries[i].id@ != entries[j].id@
    &&& forall|i: int| 0 <= i < entries.len() ==> #[trigger] m.contains_key(entries[i].id@) && m[entries[i].id@]
        == entries[i].status@
    &&& forall|k: Seq<char>| #[trigger] m.contains_key(k) ==> exists|i: int| 0 <= i < entries.len() && entries[i].id@ == k
}

fn all_digits(s: &Vec<char>) -> (r: bool)
    ensures
        r == (forall|i: int| 0 <= i < s@.len() ==> is_digit(#[trigger] s@[i])),
{
    let mut i: usize = 0;
    while i < s.len()
        invariant
            i <= s.len(),
            forall|j: int| 0 <= j < i ==> is_digit(#[trigger] s@[j]),
        decreases s.len() - i,
    {
        if !('0' <= s[i] && s[i] <= '9') {
            return false;
        }
        i += 1;
    }
    true
}

fn parse_index_row(line: &Vec<char>) -> (r: Option<(Vec<char>, Vec<char>)>)
    ensures
        match r {
            Some((a, b)) => index_row(line@) == Some((a@, b@)),
            None => index_row(line@) is None,
        },
{
    if !has_prefix(line, "| [") {
        return None;
    }
    let raw = split_char(line, '|');
    let ghost cells = split_on(line@, '|').map_values(|c: Seq<char>| trim(c));
    if raw.len() < 4 {
        return None;
    }
    let c1 = trimmed(&raw[1]);
    let c3 = trimmed(&raw[3]);
    proof {
        assert(cells[1] == c1@);
        assert(cells[3] == c3@);
    }
    let s1 = strip_leading(&c1, '[');
    let parts = split_char(&s1, ']');
    proof {
        crate::text::lemma_split_nonempty(s1@, ']');
    }
    let id = parts[0].clone();
    assert(views(parts@)[0] == id@);
    if id.len() > 0 && all_digits(&id) {
        Some((id, c3))
    } else {
        None
    }
}

fn find_entry(es: &Vec<IndexEntry>, id: &Vec<char>) -> (r: Option<usize>)
    ensures
        match r {
            Some(i) => i < es.len() && es@[i as int].id@ == id@,
            None => forall|i: int| 0 <= i < es.len() ==> es@[i].id@ != id@,
        },
{
    let mut i: usize = 0;
    while i < es.len()
        invariant
            i <= es.len(),
            forall|j: int| 0 <= j < i ==> es@[j].id@ != id@,
        decreases es.len() - i,
    {
        let c = chars_of(es[i].id.as_str());
        if crate::text::eq(&c, id) {
            return Some(i);
        }
        i += 1;
    }
    None
}

/// Parses the ADR index table of `docs/adr/README.md`: each row whose id
/// cell is `[digits]` maps that id to the trimmed status cell.
pub fn parse_index(body: &str) -> (r: Vec<IndexEntry>)
    ensures
        lists_map(r@, index_of(body@)),
{
    let b = chars_of(body);
    let ls = lines(&b);
    let mut es: Vec<IndexEntry> = Vec::new();
    let mut k: usize = 0;
    while k < ls.len()
        invariant
            k <= ls.len(),
            views(ls@) == lines_of(body@),
            lists_map(es@, index_fold(views(ls@), k as int)),
        decreases ls.len() - k,
    {
        let ghost m = index_fold(views(ls@), k as int);
        assert(views(ls@)[k as int] == ls@[k as int]@);
        match parse_index_row(&ls[k]) {
            None => {},
            Some((id, status)) => {
                let ghost m2 = m.insert(id@, status@);
                match find_entry(&es, &id) {
                    Some(i) => {
                        let ghost old_es = es@;
                        let e = IndexEntry { id: string_of(&id), status: string_of(&status) };
                        es.set(i, e);
                        proof {
                            assert forall|k2: Seq<char>| #[trigger] m2.contains_key(k2) implies exists|j: int|
                                0 <= j < es@.len() && es@[j].id@ == k2 by {
                                if k2 != id@ {
                                    let j = choose|j: int| 0 <= j < old_es.len() && old_es[j].id@ == k2;
                                    assert(es@[j].id@ == k2);
                                } else {
                                    assert(es@[i as int].id@ == k2);
                                }
                            }
                        }
                    },
                    None => {
                        let ghost old_es = es@;
                        es.push(IndexEntry { id: string_of(&id), status: string_of(&status) });
                        proof {
                            assert forall|k2: Seq<char>| #[trigger] m2.contains_key(k2) implies exists|j: int|
                                0 <= j < es@.len() && es@[j].id@ == k2 by {
                                if k2 != id@ {
                                    let j = choose|j: int| 0 <= j < old_es.len() && old_es[j].id@ == k2;
                                    assert(es@[j].id@ == k2);
                                } else {
                                    assert(es@[old_es.len() as int].id@ == k2);
                                }
                            }
                        }
                    },
                }
            },
        }
        k += 1;
    }
    es
}

/// The crate name of a workspace member path: its last `/` segment.
pub open spec fn member_name(path: Seq<char>) -> Seq<char> {
    split_on(path, '/').last()
}

/// The crate name of a workspace member path such as `crates/convergio-cli`.
pub fn crate_name_of_member(path: &Vec<char>) -> (r: Vec<char>)
    ensures
        r@ == member_name(path@),
{
    let parts = split_char(path, '/');
    proof {
        crate::text::lemma_split_nonempty(path@, '/');
    }
    let r = parts[parts.len() - 1].clone();
    assert(views(parts@)[parts.len() - 1] == r@);
    r
}

} // verus!

verus! {

#[verifier::external_type_specification]
#[verifier::external_body]
pub struct ExTomlValue(toml::Value);

/// A TOML value as the workspace reading sees it: strings, arrays and
/// tables (entries in the parser's order); every other kind of value is
/// `Other`.
#[derive(Debug)]
pub enum TomlTree {
    Str(String),
    Array(Vec<TomlTree>),
    Table(Vec<(String, TomlTree)>),
    Other,
}

/// The document `toml` parses from a text, `None` when the text is not
/// TOML. A function of the text alone: the parser is deterministic and
/// its tables iterate in key order.
pub uninterp spec fn toml_document(src: Seq<char>) -> Option<TomlTree>;

/// `<toml::Value as FromStr>::from_str`, its tree copied into a
/// [`TomlTree`]: claimed to return the named parse of the text, `None`
/// exactly when `toml` refuses it. Nothing is claimed about which texts
/// `toml` accepts or what tree it builds.
#[verifier::external_body]
fn toml_parse(src: &str) -> (r: Option<TomlTree>)
    ensures
        r == toml_document(src@),
{
    src.parse::<toml::Value>().ok().map(tree_of)
}

/// The copying step of [`toml_parse`]: a `toml::Value` into a
/// [`TomlTree`], variant by variant, recursively. No contract: its result
/// is only ever seen through `toml_parse`.
#[verifier::external_body]
fn tree_of(v: toml::Value) -> TomlTree {
    match v {
        toml::Value::String(s) => TomlTree::Str(s),
        toml::Value::Array(a) => TomlTree::Array(a.into_iter().map(tree_of).collect()),
        toml::Value::Table(t) => TomlTree::Table(t.into_iter().map(|(k, x)| (k, tree_of(x))).collect()),
        _ => TomlTree::Other,
    }
}

/// The value of the first entry named `key`.
pub open spec fn table_entry(entries: Seq<(String, TomlTree)>, key: Seq<char>) -> Option<TomlTree>
    decreases entries.len(),
{
    if entries.len() == 0 {
        None
    } else if entries[0].0@ == key {
        Some(entries[0].1)
    } else {
        table_entry(entries.skip(1), key)
    }
}

/// `value.get(key)`: an entry of a table, nothing for other values.
pub open spec fn get_spec(v: TomlTree, key: Seq<char>) -> Option<TomlTree> {
    match v {
        TomlTree::Table(t) => table_entry(t@, key),
        _ => None,
    }
}

/// The entries of `workspace.members`, when it is an array.
pub open spec fn member_entries(doc: TomlTree) -> Option<Seq<TomlTree>> {
    match get_spec(doc, "workspace"@) {
        Some(w) => match get_spec(w, "members"@) {
            Some(TomlTree::Array(a)) => Some(a@),
            _ => None,
        },
        None => None,
    }
}

/// The crate names of the first `n` member entries: the last path
/// segment of each string entry, each name once, in first-seen order.
pub open spec fn member_names(es: Seq<TomlTree>, n: int) -> Seq<Seq<char>>
    decreases n,
{
    if n <= 0 {
        Seq::empty()
    } else {
        let acc = member_names(es, n - 1);
        match es[n - 1] {
            TomlTree::Str(s) => if acc.contains(member_name(s@)) {
                acc
            } else {
                acc.push(member_name(s@))
            },
            _ => acc,
        }
    }
}

fn table_get<'a>(v: &'a TomlTree, key: &str) -> (r: Option<&'a TomlTree>)
    ensures
        match r {
            Some(x) => get_spec(*v, key@) == Some(*x),
            None => get_spec(*v, key@) is None,
        },
{
    match v {
        TomlTree::Table(t) => {
            let k = chars_of(key);
            let mut i: usize = 0;
            assert(t@.skip(0) =~= t@);
            assert(get_spec(*v, key@) == table_entry(t@, key@));
            while i < t.len()
                invariant
                    i <= t.len(),
                    k@ == key@,
                    get_spec(*v, key@) == table_entry(t@, key@),
                    table_entry(t@, key@) == table_entry(t@.skip(i as int), key@),
                decreases t.len() - i,
            {
                assert(t@.skip(i as int).skip(1) =~= t@.skip(i + 1));
                assert(t@.skip(i as int)[0] == t@[i as int]);
                if crate::text::eq(&chars_of(t[i].0.as_str()), &k) {
                    assert(t@[i as int].0@ == key@);
                    assert(table_entry(t@.skip(i as int), key@) == Some(t@[i as int].1));
                    return Some(&t[i].1);
                }
                i += 1;
            }
            None
        },
        _ => None,
    }
}

/// Why the workspace members could not be read.
#[derive(Debug, PartialEq, Eq, Structural)]
pub enum MembersError {
    /// The manifest is not TOML.
    NotToml,
    /// `workspace.members` is missing or not an array.
    NoMembers,
}

/// The crate names listed in `workspace.members` of a `Cargo.toml` text:
/// the last path segment of each string entry, each name once.
pub fn parse_workspace_members(manifest: &str) -> (r: Result<Vec<String>, MembersError>)
    ensures
        match toml_document(manifest@) {
            None => r == Err::<Vec<String>, MembersError>(MembersError::NotToml),
            Some(doc) => match member_entries(doc) {
                None => r == Err::<Vec<String>, MembersError>(MembersError::NoMembers),
                Some(es) => r matches Ok(v) && string_views(v@) == member_names(es, es.len() as int),
            },
        },
        r matches Ok(v) ==> string_views(v@).no_duplicates(),
{
    let doc = match toml_parse(manifest) {
        Some(d) => d,
        None => return Err(MembersError::NotToml),
    };
    members_of_document(&doc)
}

/// The crate names listed in `workspace.members` of a parsed manifest:
/// the last path segment of each string entry, each name once.
pub fn members_of_document(doc: &TomlTree) -> (r: Result<Vec<String>, MembersError>)
    ensures
        match member_entries(*doc) {
            None => r == Err::<Vec<String>, MembersError>(MembersError::NoMembers),
            Some(es) => r matches Ok(v) && string_views(v@) == member_names(es, es.len() as int),
        },
        r matches Ok(v) ==> string_views(v@).no_duplicates(),
{
    let ws = match table_get(doc, "workspace") {
        Some(w) => w,
        None => return Err(MembersError::NoMembers),
    };
    let arr = match table_get(ws, "members") {
        Some(TomlTree::Array(a)) => a,
        _ => return Err(MembersError::NoMembers),
    };
    let mut out: Vec<String> = Vec::new();
    let mut i: usize = 0;
    while i < arr.len()
        invariant
            i <= arr.len(),
            string_views(out@) == member_names(arr@, i as int),
            string_views(out@).no_duplicates(),
        decreases arr.len() - i,
    {
        let ghost acc = string_views(out@);
        if let TomlTree::Str(s) = &arr[i] {
            let name = crate_name_of_member(&chars_of(s.as_str()));
            proof {
                if acc.contains(name@) {
                    let j = choose|j: int| 0 <= j < acc.len() && acc[j] == name@;
                    assert(out@[j]@ == name@);
                }
                if crate::text::list_has(out@, name@) {
                    let j = choose|j: int| 0 <= j < out@.len() && #[trigger] out@[j]@ == name@;
                    assert(acc[j] == name@);
                }
            }
            if !crate::text::contains_string(&out, &name) {
                let ghost before = string_views(out@);
                out.push(string_of(&name));
                proof {
                    assert(string_views(out@) =~= before.push(name@));
                    assert forall|a: int, b: int| 0 <= a < b < string_views(out@).len() implies string_views(out@)[a]
                        != string_views(out@)[b] by {
                        if b == before.len() {
                            assert(string_views(out@)[a] == out@[a]@);
                        }
                    }
                }
            }
        }
        i += 1;
    }
    Ok(out)
}

/// Neither the first nor the last character of `s` is a double quote.
pub open spec fn quote_free(s: Seq<char>) -> bool {
    s.len() == 0 || (s[0] != '"' && s.last() != '"')
}

proof fn lemma_strip_lead_first(s: Seq<char>, c: char)
    ensures
        strip_lead(s, c).len() == 0 || strip_lead(s, c)[0] != c,
    decreases s.len(),
{
    if s.len() > 0 && s[0] == c {
        lemma_strip_lead_first(s.skip(1), c);
    }
}

proof fn lemma_strip_trail_prefix(s: Seq<char>, c: char)
    ensures
        strip_trail(s, c).len() <= s.len(),
        strip_trail(s, c) == s.take(strip_trail(s, c).len() as int),
        strip_trail(s, c).len() == 0 || strip_trail(s, c).last() != c,
    decreases s.len(),
{
    if s.len() > 0 && s.last() == c {
        lemma_strip_trail_prefix(s.drop_last(), c);
        let r = strip_trail(s.drop_last(), c);
        assert(s.drop_last().take(r.len() as int) =~= s.take(r.len() as int));
    } else {
        assert(s.take(s.len() as int) =~= s);
    }
}

/// Quotes stripped from both ends leave none at either end.
proof fn lemma_strip_both_quote_free(s: Seq<char>)
    ensures
        quote_free(strip_both(s, '"')),
{
    let t = strip_lead(s, '"');
    lemma_strip_lead_first(s, '"');
    lemma_strip_trail_prefix(t, '"');
    let r = strip_trail(t, '"');
    if r.len() > 0 {
        assert(r[0] == t[0]);
    }
}

proof fn lemma_fm_scan_quote_free(ls: Seq<Seq<char>>, n: int, fm: FrontmatterView)
    requires
        quote_free(fm.status),
    ensures
        fm_scan(ls, n, fm) matches Ok(r) ==> quote_free(r.status),
    decreases ls.len() - n,
{
    if !(n < 0 || n >= ls.len()) && trim(trim_end(ls[n])) != "---"@ {
        let line = ls[n];
        let t = trim_end(line);
        match first_index(t, ':') {
            None => {},
            Some(k) => {
                let value = trim(t.skip(k as int + 1));
                lemma_strip_both_quote_free(value);
            },
        }
        lemma_fm_scan_quote_free(ls, n + 1, fm_update(fm, line));
    }
}

/// The status read from frontmatter never keeps surrounding double
/// quotes: `status: "x"` reads as `x`, like `status: x`.
pub proof fn law_status_unquoted(body: Seq<char>)
    ensures
        frontmatter_of(body) matches Ok(fm) ==> quote_free(fm.status),
{
    let ls = lines_of(body);
    if !(ls.len() == 0 || trim(ls[0]) != "---"@) {
        lemma_fm_scan_quote_free(ls, 1, empty_frontmatter());
    }
}

/// A text that neither starts nor ends with whitespace trims to itself,
/// and so does it after a leading space is trimmed.
proof fn lemma_trim_tight(v: Seq<char>)
    requires
        v.len() > 0,
        !is_ws(v[0]),
        !is_ws(v.last()),
    ensures
        trim(v) == v,
        trim(" "@ + v) == v,
        trim_end(v) == v,
{
    lemma_ws_prefix(v, 0);
    assert(v.skip(0) =~= v);
    lemma_ws_suffix(v, v.len() as int);
    assert(v.take(v.len() as int) =~= v);
    reveal_strlit(" ");
    assert(forall|j: int| 0 <= j < " "@.len() ==> is_ws(#[trigger] " "@[j]));
    lemma_trim_pad_front(" "@, v);
}

/// What a `status:` line sets: its value, trimmed, with surrounding
/// double quotes removed. A value written bare or in double quotes gives
/// the same status.
pub proof fn law_status_line(fm: FrontmatterView, v: Seq<char>)
    requires
        v.len() > 0,
        !is_ws(v[0]),
        !is_ws(v.last()),
        quote_free(v),
    ensures
        fm_update(fm, "status: "@ + v).status == v,
        fm_update(fm, "status: \""@ + v + "\""@).status == v,
{
    reveal_strlit("status: ");
    reveal_strlit("status: \"");
    reveal_strlit("\"");
    reveal_strlit("status");
    reveal_strlit(" ");
    let s6 = "status"@;
    lemma_ws_prefix(s6, 0);
    lemma_ws_suffix(s6, 6);
    assert(s6.skip(0) =~= s6);
    assert(s6.take(6) =~= s6);
    assert(trim(s6) == s6);
    // bare value
    let l1 = "status: "@ + v;
    lemma_ws_suffix(l1, l1.len() as int);
    assert(l1.take(l1.len() as int) =~= l1);
    assert(trim_end(l1) == l1);
    lemma_first_index_at(l1, ':', 6);
    assert(l1.take(6) =~= s6);
    assert(l1.skip(7) =~= " "@ + v);
    lemma_trim_tight(v);
    lemma_strip_lead_first(v, '"');
    assert(strip_lead(v, '"') == v);
    assert(strip_trail(v, '"') == v);
    // quoted value
    let q = "\""@ + v + "\""@;
    let l2 = "status: "@ + q;
    assert(l2 =~= "status: \""@ + v + "\""@);
    lemma_ws_suffix(l2, l2.len() as int);
    assert(l2.take(l2.len() as int) =~= l2);
    assert(trim_end(l2) == l2);
    lemma_first_index_at(l2, ':', 6);
    assert(l2.take(6) =~= s6);
    assert(l2.skip(7) =~= " "@ + q);
    lemma_trim_tight(q);
    assert(q.skip(1) =~= v + "\""@);
    assert(strip_lead(v + "\""@, '"') == v + "\""@);
    assert(strip_lead(q, '"') == v + "\""@);
    assert((v + "\""@).drop_last() =~= v);
    assert(strip_trail(v + "\""@, '"') == strip_trail(v, '"'));
}

} // verus!
