//! Query strings of `cvg graph`: percent-encoding of parameter values.
use vstd::prelude::*;
use vstd::string::StringExecFns;
use vstd::string::StringSliceAdditionalSpecFns;
use crate::text::{chars_of, char_from, push_all, push_str, string_of};

verus! {

/// A byte kept as is in a query value: `A-Z a-z 0-9 - . _ ~`.
pub open spec fn unreserved(b: u8) -> bool {
    (65 <= b <= 90) || (97 <= b <= 122) || (48 <= b <= 57) || b == 45 || b == 46 || b == 95 || b == 126
}

/// Upper-case hex digit of a value below 16.
pub open spec fn hex_digit(v: int) -> char {
    if v < 10 {
        (48 + v) as char
    } else {
        (55 + v) as char
    }
}

/// Value of an upper-case hex digit.
pub open spec fn hex_value(c: char) -> int {
    if '0' <= c && c <= '9' {
        (c as int) - 48
    } else {
        (c as int) - 55
    }
}

/// Encoding of one byte: itself, or `%XX` in upper-case hex.
pub open spec fn encode_byte(b: u8) -> Seq<char> {
    if unreserved(b) {
        seq![b as char]
    } else {
        seq!['%', hex_digit(b as int / 16), hex_digit(b as int % 16)]
    }
}

/// Percent-encoding of a byte string.
pub open spec fn encode_bytes(bs: Seq<u8>) -> Seq<char>
    decreases bs.len(),
{
    if bs.len() == 0 {
        Seq::empty()
    } else {
        encode_bytes(bs.drop_last()) + encode_byte(bs.last())
    }
}

/// The value of a query string: its UTF-8 bytes percent-encoded.
pub open spec fn encoded(v: &str) -> Seq<char> {
    encode_bytes(v.spec_bytes())
}

/// Percent-decoding (the inverse of [`encode_bytes`]).
pub open spec fn decode_chars(s: Seq<char>) -> Seq<u8>
    decreases s.len(),
{
    if s.len() == 0 {
        Seq::empty()
    } else if s[0] == '%' && s.len() >= 3 {
        seq![(hex_value(s[1]) * 16 + hex_value(s[2])) as u8] + decode_chars(s.skip(3))
    } else {
        seq![s[0] as u8] + decode_chars(s.skip(1))
    }
}

fn hex_char(v: u8) -> (c: char)
    requires
        v < 16,
    ensures
        c == hex_digit(v as int),
{
    if v < 10 {
        char_from(48 + v as u32)
    } else {
        char_from(55 + v as u32)
    }
}

/// Percent-encodes a query value byte by byte.
pub fn encode_query_value(value: &str) -> (r: String)
    ensures
        r@ == encoded(value),
{
    let bytes = value.as_bytes();
    let mut out: Vec<char> = Vec::new();
    let mut i: usize = 0;
    while i < bytes.len()
        invariant
            i <= bytes@.len(),
            bytes@ == value.spec_bytes(),
            out@ == encode_bytes(bytes@.take(i as int)),
        decreases bytes@.len() - i,
    {
        let b = bytes[i];
        proof {
            assert(bytes@.take(i + 1).drop_last() =~= bytes@.take(i as int));
            assert(bytes@.take(i + 1).last() == b);
        }
        if (65 <= b && b <= 90) || (97 <= b && b <= 122) || (48 <= b && b <= 57) || b == 45 || b == 46 || b == 95
            || b == 126 {
            out.push(char_from(b as u32));
            proof {
                assert(out@ =~= encode_bytes(bytes@.take(i as int)) + encode_byte(b));
            }
        } else {
            out.push('%');
            out.push(hex_char(b / 16));
            out.push(hex_char(b % 16));
            proof {
                assert(out@ =~= encode_bytes(bytes@.take(i as int)) + encode_byte(b));
            }
        }
        i += 1;
    }
    assert(bytes@.take(bytes@.len() as int) =~= bytes@);
    string_of(&out)
}

/// Appends `name=<encoded value>&` to `path` when a value is given.
pub fn append_query_param(path: &mut String, name: &str, value: Option<&str>)
    ensures
        final(path)@ == old(path)@ + match value {
            Some(v) => name@ + seq!['='] + encoded(v) + seq!['&'],
            None => Seq::empty(),
        },
{
    match value {
        None => {
            assert(path@ =~= old(path)@ + Seq::<char>::empty());
        },
        Some(v) => {
            let mut piece = chars_of(name);
            piece.push('=');
            let e = encode_query_value(v);
            push_all(&mut piece, &chars_of(e.as_str()));
            piece.push('&');
            let s = string_of(&piece);
            path.append(s.as_str());
        },
    }
}

pub proof fn lemma_hex_roundtrip(v: int)
    requires
        0 <= v < 16,
    ensures
        hex_value(hex_digit(v)) == v,
        hex_digit(v) != '%',
{
}

pub proof fn lemma_decode_append(a: Seq<char>, b: u8)
    requires
        decode_chars_splits(a),
    ensures
        decode_chars(a + encode_byte(b)) == decode_chars(a).push(b),
        decode_chars_splits(a + encode_byte(b)),
    decreases a.len(),
{
    reveal_with_fuel(decode_chars, 2);
    reveal_with_fuel(decode_chars_splits, 2);
    if a.len() == 0 {
        assert(a + encode_byte(b) =~= encode_byte(b));
        if unreserved(b) {
            assert(encode_byte(b).skip(1) =~= Seq::<char>::empty());
            assert((b as char) as u8 == b);
            assert(b as char != '%');
            assert(decode_chars_splits(encode_byte(b).skip(1)));
        } else {
            lemma_hex_roundtrip(b as int / 16);
            lemma_hex_roundtrip(b as int % 16);
            assert(encode_byte(b).skip(3) =~= Seq::<char>::empty());
            assert(decode_chars_splits(encode_byte(b).skip(3)));
            assert((hex_value(hex_digit(b as int / 16)) * 16 + hex_value(hex_digit(b as int % 16))) as u8 == b);
        }
        assert(decode_chars(Seq::<char>::empty()) =~= Seq::<u8>::empty());
    } else if a[0] == '%' && a.len() >= 3 {
        lemma_decode_append(a.skip(3), b);
        assert((a + encode_byte(b)).skip(3) =~= a.skip(3) + encode_byte(b));
        assert(decode_chars(a + encode_byte(b)) =~= decode_chars(a).push(b));
    } else {
        lemma_decode_append(a.skip(1), b);
        assert((a + encode_byte(b)).skip(1) =~= a.skip(1) + encode_byte(b));
        assert(decode_chars(a + encode_byte(b)) =~= decode_chars(a).push(b));
    }
}

/// `s` is a sequence of whole encoded bytes: a `%` always starts a full
/// `%XX` triple.
pub open spec fn decode_chars_splits(s: Seq<char>) -> bool
    decreases s.len(),
{
    if s.len() == 0 {
        true
    } else if s[0] == '%' {
        s.len() >= 3 && decode_chars_splits(s.skip(3))
    } else {
        decode_chars_splits(s.skip(1))
    }
}

/// Percent-decoding an encoded value gives back its bytes.
pub proof fn law_encode_decode_roundtrip(bs: Seq<u8>)
    ensures
        decode_chars(encode_bytes(bs)) == bs,
        decode_chars_splits(encode_bytes(bs)),
    decreases bs.len(),
{
    if bs.len() > 0 {
        law_encode_decode_roundtrip(bs.drop_last());
        lemma_decode_append(encode_bytes(bs.drop_last()), bs.last());
        assert(bs.drop_last().push(bs.last()) =~= bs);
    } else {
        assert(decode_chars(Seq::<char>::empty()) =~= Seq::<u8>::empty());
    }
}

/// An encoded value holds only unreserved characters and `%XX` escapes.
pub proof fn law_encoded_chars_are_safe(bs: Seq<u8>)
    ensures
        forall|i: int| 0 <= i < encode_bytes(bs).len() ==> {
            let c = #[trigger] encode_bytes(bs)[i];
            ('A' <= c && c <= 'Z') || ('a' <= c && c <= 'z') || ('0' <= c && c <= '9') || c == '-' || c == '.'
                || c == '_' || c == '~' || c == '%'
        },
    decreases bs.len(),
{
    if bs.len() > 0 {
        law_encoded_chars_are_safe(bs.drop_last());
        let prev = encode_bytes(bs.drop_last());
        let e = encode_byte(bs.last());
        assert(encode_bytes(bs) == prev + e);
        assert forall|i: int| 0 <= i < encode_bytes(bs).len() implies {
            let c = #[trigger] encode_bytes(bs)[i];
            ('A' <= c && c <= 'Z') || ('a' <= c && c <= 'z') || ('0' <= c && c <= '9') || c == '-' || c == '.'
                || c == '_' || c == '~' || c == '%'
        } by {
            if i < prev.len() {
                assert(encode_bytes(bs)[i] == prev[i]);
            } else {
                assert(encode_bytes(bs)[i] == e[i - prev.len()]);
            }
        }
    }
}

} // verus!

verus! {

/// `name=<value>&` for a given value, nothing otherwise.
pub open spec fn query_param(name: Seq<char>, value: Option<&str>) -> Seq<char> {
    match value {
        Some(v) => name + seq!['='] + encoded(v) + seq!['&'],
        None => Seq::empty(),
    }
}

/// `name=<number>&` for a given number, nothing otherwise.
pub open spec fn number_param(name: Seq<char>, value: Option<u64>) -> Seq<char> {
    match value {
        Some(n) => name + seq!['='] + crate::text::decimal(n as nat) + seq!['&'],
        None => Seq::empty(),
    }
}

/// The context-pack route of a task with its optional limits and hints,
/// hint values percent-encoded.
pub open spec fn for_task_path_spec(
    task_id: Seq<char>,
    node_limit: Option<u64>,
    token_budget: Option<u64>,
    crate_name: Option<&str>,
    related_crates: Option<&str>,
    adr_required: Option<&str>,
    docs_required: Option<&str>,
    validation_profile: Option<&str>,
) -> Seq<char> {
    "/v1/graph/for-task/"@ + task_id + "?"@ + number_param("node_limit"@, node_limit) + number_param(
        "token_budget"@,
        token_budget,
    ) + query_param("crate"@, crate_name) + query_param("related_crates"@, related_crates) + query_param(
        "adr_required"@,
        adr_required,
    ) + query_param("docs_required"@, docs_required) + query_param("validation_profile"@, validation_profile)
}

fn push_number_param(path: &mut Vec<char>, name: &str, value: Option<u64>)
    ensures
        final(path)@ == old(path)@ + number_param(name@, value),
{
    match value {
        Some(n) => {
            let ghost before = path@;
            push_str(path, name);
            path.push('=');
            crate::text::push_decimal(path, n);
            path.push('&');
            assert(path@ =~= before + number_param(name@, value));
        },
        None => {
            assert(path@ =~= old(path)@ + number_param(name@, value));
        },
    }
}

/// The route of `cvg graph for-task`.
pub fn for_task_path(
    task_id: &str,
    node_limit: Option<u64>,
    token_budget: Option<u64>,
    crate_name: Option<&str>,
    related_crates: Option<&str>,
    adr_required: Option<&str>,
    docs_required: Option<&str>,
    validation_profile: Option<&str>,
) -> (r: String)
    ensures
        r@ == for_task_path_spec(
            task_id@,
            node_limit,
            token_budget,
            crate_name,
            related_crates,
            adr_required,
            docs_required,
            validation_profile,
        ),
{
    let mut head: Vec<char> = chars_of("/v1/graph/for-task/");
    push_str(&mut head, task_id);
    push_str(&mut head, "?");
    push_number_param(&mut head, "node_limit", node_limit);
    push_number_param(&mut head, "token_budget", token_budget);
    let mut path = string_of(&head);
    append_query_param(&mut path, "crate", crate_name);
    append_query_param(&mut path, "related_crates", related_crates);
    append_query_param(&mut path, "adr_required", adr_required);
    append_query_param(&mut path, "docs_required", docs_required);
    append_query_param(&mut path, "validation_profile", validation_profile);
    assert(path@ =~= for_task_path_spec(
        task_id@,
        node_limit,
        token_budget,
        crate_name,
        related_crates,
        adr_required,
        docs_required,
        validation_profile,
    ));
    path
}

/// `name=<value>&` with the value as given (not encoded).
pub open spec fn raw_param(name: Seq<char>, value: Option<&str>) -> Seq<char> {
    match value {
        Some(v) => name + seq!['='] + v@ + seq!['&'],
        None => Seq::empty(),
    }
}

fn push_raw_param(path: &mut Vec<char>, name: &str, value: Option<&str>)
    ensures
        final(path)@ == old(path)@ + raw_param(name@, value),
{
    match value {
        Some(v) => {
            let ghost before = path@;
            push_str(path, name);
            path.push('=');
            push_str(path, v);
            path.push('&');
            assert(path@ =~= before + raw_param(name@, value));
        },
        None => {
            assert(path@ =~= old(path)@ + raw_param(name@, value));
        },
    }
}

/// The route of `cvg graph drift`; the values are passed as given.
pub fn drift_path(since: Option<&str>, adr: Option<&str>, repo_root: Option<&str>) -> (r: String)
    ensures
        r@ == "/v1/graph/drift?"@ + raw_param("since"@, since) + raw_param("adr"@, adr) + raw_param(
            "repo_root"@,
            repo_root,
        ),
{
    let mut p: Vec<char> = chars_of("/v1/graph/drift?");
    push_raw_param(&mut p, "since", since);
    push_raw_param(&mut p, "adr", adr);
    push_raw_param(&mut p, "repo_root", repo_root);
    string_of(&p)
}

/// The route of `cvg graph cluster`.
pub fn cluster_path(crate_name: &str, target_loc: Option<u64>) -> (r: String)
    ensures
        r@ == "/v1/graph/cluster/"@ + crate_name@ + "?"@ + match target_loc {
            Some(t) => "target_loc="@ + crate::text::decimal(t as nat),
            None => Seq::empty(),
        },
{
    let mut p: Vec<char> = chars_of("/v1/graph/cluster/");
    push_str(&mut p, crate_name);
    push_str(&mut p, "?");
    match target_loc {
        Some(t) => {
            push_str(&mut p, "target_loc=");
            crate::text::push_decimal(&mut p, t);
        },
        None => {},
    }
    string_of(&p)
}

} // verus!
