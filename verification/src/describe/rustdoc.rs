//! Reading rustdoc sections (`# Arguments`, `# Returns`, `# Errors`,
//! `# Parameters`) out of documentation lines.
use vstd::prelude::*;

use crate::text::{
    find_char, find_str, first_index, first_match, first_non_space, is_space, lemma_first_non_space,
    starts_with, strip_prefix, trim, trim_str,
};

verus! {

/// A text of characters.
pub type Text = Seq<char>;

/// Key/value pairs where a later value for a key replaces the earlier one.
pub type TextMap = Seq<(Text, Text)>;

/// The first position of `k` in `m`, or `-1`.
pub open spec fn map_index(m: TextMap, k: Text) -> int
    decreases m.len(),
{
    if m.len() == 0 {
        -1
    } else if map_index(m.drop_last(), k) >= 0 {
        map_index(m.drop_last(), k)
    } else if m.last().0 == k {
        m.len() - 1
    } else {
        -1
    }
}

/// The value stored for `k`.
pub open spec fn map_get(m: TextMap, k: Text) -> Option<Text> {
    if map_index(m, k) >= 0 {
        Some(m[map_index(m, k)].1)
    } else {
        None
    }
}

/// `m` with `v` stored for `k`.
pub open spec fn map_put(m: TextMap, k: Text, v: Text) -> TextMap {
    if map_index(m, k) >= 0 {
        m.update(map_index(m, k), (k, v))
    } else {
        m.push((k, v))
    }
}

/// The parsed sections of a documentation block.
pub struct DocView {
    /// Lines before the first section header.
    pub summary: Seq<Text>,
    /// Parameter descriptions by name.
    pub params: TextMap,
    /// Parameter type overrides by name.
    pub param_types: TextMap,
    /// The description of the return value.
    pub return_desc: Option<Text>,
    /// Error descriptions.
    pub errors: Seq<Text>,
}

/// `s` without a leading `$`.
pub open spec fn strip_dollar(s: Text) -> Text {
    if s.len() > 0 && s[0] == '$' {
        s.subrange(1, s.len() as int)
    } else {
        s
    }
}

/// The description after a name: trimmed, without a leading `-` or `:`.
pub open spec fn after_separator(rest: Text) -> Text {
    let t = trim(rest);
    if t.len() > 0 && (t[0] == '-' || t[0] == ':') {
        trim(t.subrange(1, t.len() as int))
    } else {
        t
    }
}

/// A parameter line of an `# Arguments` section: `` `name` - description ``
/// or `name - description`, with an optional `$` before the name.
pub open spec fn param_line(line: Text) -> Option<(Text, Text)> {
    let rest = line.subrange(1, line.len() as int);
    if line.len() > 0 && line[0] == '`' && first_index(rest, '`') is Some {
        let e = first_index(rest, '`').unwrap();
        Some((strip_dollar(rest.subrange(0, e)), after_separator(rest.subrange(e + 1, rest.len() as int))))
    } else if first_match(line, " - "@) is Some {
        let p = first_match(line, " - "@).unwrap();
        Some((strip_dollar(trim(line.subrange(0, p))), trim(line.subrange(p + 3, line.len() as int))))
    } else {
        None
    }
}

/// A line of a `# Parameters` section: `` `name`: `type` description ``.
pub open spec fn typed_param_line(line: Text) -> Option<(Text, Text, Text)> {
    let rest = line.subrange(1, line.len() as int);
    if !(line.len() > 0 && line[0] == '`') || first_index(rest, '`') is None {
        None
    } else {
        let e = first_index(rest, '`').unwrap();
        let name = rest.subrange(0, e);
        let after_name = trim(rest.subrange(e + 1, rest.len() as int));
        if !(after_name.len() > 0 && after_name[0] == ':') {
            None
        } else {
            let after_colon = trim(after_name.subrange(1, after_name.len() as int));
            let type_rest = after_colon.subrange(1, after_colon.len() as int);
            if !(after_colon.len() > 0 && after_colon[0] == '`') || first_index(type_rest, '`') is None {
                None
            } else {
                let te = first_index(type_rest, '`').unwrap();
                Some((
                    strip_dollar(name),
                    type_rest.subrange(0, te),
                    trim(type_rest.subrange(te + 1, type_rest.len() as int)),
                ))
            }
        }
    }
}

/// Index of the first whitespace character at or after `from` (`s.len()` when
/// there is none).
pub open spec fn word_end(s: Text, from: int) -> int
    decreases s.len() - from,
{
    if from >= s.len() {
        s.len() as int
    } else if is_space(s[from]) {
        from
    } else {
        word_end(s, from + 1)
    }
}

/// The first whitespace-separated word of a type override, or `mixed`.
pub open spec fn php_type_word(s: Text) -> Text {
    let a = first_non_space(s, 0);
    if a >= s.len() {
        "mixed"@
    } else {
        s.subrange(a, word_end(s, a))
    }
}

/// The item of a list line: the trimmed line without its `* ` or `- ` bullet.
pub open spec fn list_item(line: Text) -> Option<Text> {
    let t = trim(line);
    if starts_with(t, "* "@) || starts_with(t, "- "@) {
        Some(t.subrange(2, t.len() as int))
    } else {
        None
    }
}

/// Reads the lines of an `# Arguments` section into the parameter
/// descriptions.
pub open spec fn read_arguments(params: TextMap, content: Seq<Text>) -> TextMap
    decreases content.len(),
{
    if content.len() == 0 {
        params
    } else {
        let m = read_arguments(params, content.drop_last());
        match list_item(content.last()) {
            Some(item) => match param_line(trim(item)) {
                Some((n, d)) => map_put(m, n, d),
                None => m,
            },
            None => m,
        }
    }
}

/// Reads the lines of a `# Parameters` section into the type overrides and
/// descriptions.
pub open spec fn read_parameters(types: TextMap, params: TextMap, content: Seq<Text>) -> (TextMap, TextMap)
    decreases content.len(),
{
    if content.len() == 0 {
        (types, params)
    } else {
        let (t, p) = read_parameters(types, params, content.drop_last());
        match list_item(content.last()) {
            Some(item) => match typed_param_line(trim(item)) {
                Some((n, ty, d)) => (map_put(t, n, ty), if d.len() == 0 { p } else { map_put(p, n, d) }),
                None => (t, p),
            },
            None => (t, p),
        }
    }
}

/// The trimmed lines that are not empty.
pub open spec fn nonblank(content: Seq<Text>) -> Seq<Text>
    decreases content.len(),
{
    if content.len() == 0 {
        Seq::empty()
    } else {
        let t = trim(content.last());
        if t.len() == 0 {
            nonblank(content.drop_last())
        } else {
            nonblank(content.drop_last()).push(t)
        }
    }
}

/// The document once the section `section` with lines `content` is read.
pub open spec fn finish_section(doc: DocView, section: Option<Text>, content: Seq<Text>) -> DocView {
    match section {
        None => doc,
        Some(name) => if name == "Arguments"@ {
            DocView { params: read_arguments(doc.params, content), ..doc }
        } else if name == "Returns"@ {
            let desc = crate::text::seq_join(nonblank(content), " "@);
            if desc.len() == 0 {
                doc
            } else {
                DocView { return_desc: Some(desc), ..doc }
            }
        } else if name == "Errors"@ {
            DocView { errors: doc.errors + nonblank(content), ..doc }
        } else if name == "Parameters"@ {
            let (t, p) = read_parameters(doc.param_types, doc.params, content);
            DocView { param_types: t, params: p, ..doc }
        } else {
            doc
        },
    }
}

/// An empty document.
pub open spec fn empty_doc() -> DocView {
    DocView { summary: Seq::empty(), params: Seq::empty(), param_types: Seq::empty(), return_desc: None, errors: Seq::empty() }
}

/// The reading state after `lines`: the document so far, the open section
/// and its lines.
pub open spec fn read_lines(lines: Seq<Text>) -> (DocView, Option<Text>, Seq<Text>)
    decreases lines.len(),
{
    if lines.len() == 0 {
        (empty_doc(), None, Seq::empty())
    } else {
        let (doc, section, content) = read_lines(lines.drop_last());
        let line = lines.last();
        let t = trim(line);
        if starts_with(t, "# "@) {
            (finish_section(doc, section, content), Some(t.subrange(2, t.len() as int)), Seq::empty())
        } else if section is Some {
            (doc, section, content.push(line))
        } else {
            (DocView { summary: doc.summary.push(line), ..doc }, section, content)
        }
    }
}

/// The sections of a documentation block.
#[verifier::opaque]
pub open spec fn parse_doc(lines: Seq<Text>) -> DocView {
    let (doc, section, content) = read_lines(lines);
    finish_section(doc, section, content)
}

proof fn lemma_nonblank_filter(c: Seq<Text>)
    ensures
        nonblank(c) == c.map_values(|l: Text| trim(l)).filter(|t: Text| t.len() > 0),
    decreases c.len(),
{
    reveal(Seq::filter);
    let m = c.map_values(|l: Text| trim(l));
    if c.len() > 0 {
        lemma_nonblank_filter(c.drop_last());
        assert(m.drop_last() =~= c.drop_last().map_values(|l: Text| trim(l)));
        assert(m.last() == trim(c.last()));
    } else {
        assert(m =~= Seq::<Text>::empty());
    }
}

/// Reading an `# Errors` section adds each of its nonblank lines, trimmed
/// and in order, to the errors, and changes nothing else.
pub proof fn law_errors_section_keeps_its_lines(doc: DocView, content: Seq<Text>)
    ensures
        finish_section(doc, Some("Errors"@), content) == (DocView {
            errors: doc.errors + content.map_values(|l: Text| trim(l)).filter(|t: Text| t.len() > 0),
            ..doc
        }),
{
    reveal_strlit("Errors");
    reveal_strlit("Arguments");
    reveal_strlit("Returns");
    assert("Errors"@ != "Arguments"@) by {
        assert("Errors"@.len() != "Arguments"@.len());
    }
    assert("Errors"@ != "Returns"@) by {
        assert("Errors"@[0] != "Returns"@[0]);
    }
    lemma_nonblank_filter(content);
}

/// Reading a `# Returns` section sets the return description to its
/// nonblank lines, trimmed and joined with spaces, and leaves the document as
/// it was when the section has no such line.
pub proof fn law_returns_section_joins_its_lines(doc: DocView, content: Seq<Text>)
    ensures
        ({
            let ls = content.map_values(|l: Text| trim(l)).filter(|t: Text| t.len() > 0);
            finish_section(doc, Some("Returns"@), content) == if ls.len() == 0 {
                doc
            } else {
                DocView { return_desc: Some(crate::text::seq_join(ls, " "@)), ..doc }
            }
        }),
{
    reveal_strlit("Returns");
    reveal_strlit("Arguments");
    assert("Returns"@ != "Arguments"@) by {
        assert("Returns"@.len() != "Arguments"@.len());
    }
    lemma_nonblank_filter(content);
    let ls = content.map_values(|l: Text| trim(l)).filter(|t: Text| t.len() > 0);
    if ls.len() > 0 {
        let pred = |t: Text| t.len() > 0;
        content.map_values(|l: Text| trim(l)).lemma_filter_pred(pred, ls.len() - 1);
        assert(ls.last().len() > 0);
        if ls.len() >= 2 {
            assert(crate::text::seq_join(ls, " "@) == crate::text::seq_join(ls.drop_last(), " "@) + " "@
                + ls.last());
        }
        assert(crate::text::seq_join(ls, " "@).len() > 0);
    }
}

proof fn lemma_read_no_headers(lines: Seq<Text>)
    requires
        forall|k: int| 0 <= k < lines.len() ==> !starts_with(trim(#[trigger] lines[k]), "# "@),
    ensures
        read_lines(lines).0.errors == Seq::<Text>::empty(),
        read_lines(lines).1 is None,
    decreases lines.len(),
{
    if lines.len() > 0 {
        lemma_read_no_headers(lines.drop_last());
        assert(!starts_with(trim(lines[lines.len() - 1]), "# "@));
    }
}

proof fn lemma_read_section_body(head: Seq<Text>, body: Seq<Text>)
    requires
        read_lines(head).1 is Some,
        forall|k: int| 0 <= k < body.len() ==> !starts_with(trim(#[trigger] body[k]), "# "@),
    ensures
        read_lines(head + body) == (read_lines(head).0, read_lines(head).1, read_lines(head).2 + body),
    decreases body.len(),
{
    if body.len() == 0 {
        assert(head + body =~= head);
        assert(read_lines(head).2 + body =~= read_lines(head).2);
    } else {
        lemma_read_section_body(head, body.drop_last());
        assert((head + body).drop_last() =~= head + body.drop_last());
        assert((head + body).last() == body.last());
        assert(!starts_with(trim(body[body.len() - 1]), "# "@));
        assert(read_lines(head).2 + body =~= (read_lines(head).2 + body.drop_last()).push(body.last()));
    }
}

/// In a documentation block whose only section header is an `# Errors`
/// line, the parsed errors are the nonblank lines after it, trimmed and in
/// order.
pub proof fn law_parse_doc_reads_errors(summary: Seq<Text>, header: Text, body: Seq<Text>)
    requires
        trim(header) == "# Errors"@,
        forall|k: int| 0 <= k < summary.len() ==> !starts_with(trim(#[trigger] summary[k]), "# "@),
        forall|k: int| 0 <= k < body.len() ==> !starts_with(trim(#[trigger] body[k]), "# "@),
    ensures
        parse_doc(summary.push(header) + body).errors == body.map_values(|l: Text| trim(l)).filter(
            |t: Text| t.len() > 0,
        ),
{
    reveal(parse_doc);
    reveal_strlit("# Errors");
    reveal_strlit("# ");
    reveal_strlit("Errors");
    lemma_read_no_headers(summary);
    let head = summary.push(header);
    assert(head.drop_last() =~= summary);
    assert(starts_with(trim(header), "# "@)) by {
        assert(trim(header).subrange(0, 2) =~= "# "@);
    }
    assert(trim(header).subrange(2, trim(header).len() as int) =~= "Errors"@);
    assert(read_lines(head).1 == Some("Errors"@));
    assert(read_lines(head).2 == Seq::<Text>::empty());
    lemma_read_section_body(head, body);
    assert(read_lines(head).2 + body =~= body);
    law_errors_section_keeps_its_lines(read_lines(head).0, body);
    assert(read_lines(head).0.errors == Seq::<Text>::empty());
    assert(Seq::<Text>::empty() + body.map_values(|l: Text| trim(l)).filter(|t: Text| t.len() > 0)
        =~= body.map_values(|l: Text| trim(l)).filter(|t: Text| t.len() > 0));
}

/// The character views of string pairs.
pub open spec fn pair_views(v: Seq<(String, String)>) -> TextMap {
    v.map_values(|p: (String, String)| (p.0@, p.1@))
}

/// The parsed sections of a documentation block.
pub struct ParsedRustDoc {
    /// Lines before the first section header.
    pub summary: Vec<String>,
    /// Parameter descriptions by name.
    pub params: Vec<(String, String)>,
    /// Parameter type overrides by name.
    pub param_types: Vec<(String, String)>,
    /// The description of the return value.
    pub return_desc: Option<String>,
    /// Error descriptions.
    pub errors: Vec<String>,
}

impl ParsedRustDoc {
    /// The abstract sections.
    pub open spec fn view_doc(&self) -> DocView {
        DocView {
            summary: crate::text::views(self.summary@),
            params: pair_views(self.params@),
            param_types: pair_views(self.param_types@),
            return_desc: match self.return_desc {
                Some(s) => Some(s@),
                None => None,
            },
            errors: crate::text::views(self.errors@),
        }
    }
}

/// The value stored for `k`.
pub fn lookup<'m>(m: &'m Vec<(String, String)>, k: &str) -> (r: Option<&'m String>)
    ensures
        match r {
            Some(v) => map_get(pair_views(m@), k@) == Some(v@),
            None => map_get(pair_views(m@), k@) is None,
        },
{
    let ghost pv = pair_views(m@);
    let mut i: usize = 0;
    while i < m.len()
        invariant
            i <= m@.len(),
            pv == pair_views(m@),
            map_index(pv.take(i as int), k@) == -1,
        decreases m.len() - i,
    {
        assert(pv.take(i + 1).drop_last() =~= pv.take(i as int));
        if crate::flags::str_eq(m[i].0.as_str(), k) {
            assert(pv[i as int].0 == k@);
            assert(map_index(pv.take(i + 1), k@) == i);
            proof {
                lemma_map_index_prefix(pv, k@, i + 1);
            }
            return Some(&m[i].1);
        }
        i = i + 1;
    }
    assert(pv.take(i as int) =~= pv);
    None
}

proof fn lemma_map_index_prefix(m: TextMap, k: Text, n: int)
    requires
        0 <= n <= m.len(),
        map_index(m.take(n), k) >= 0,
    ensures
        map_index(m, k) == map_index(m.take(n), k),
    decreases m.len() - n,
{
    if n < m.len() {
        assert(m.take(n + 1).drop_last() =~= m.take(n));
        lemma_map_index_prefix(m, k, n + 1);
    } else {
        assert(m.take(n) =~= m);
    }
}

proof fn lemma_map_index_bounds(m: TextMap, k: Text)
    ensures
        -1 <= map_index(m, k) < m.len(),
        map_index(m, k) >= 0 ==> m[map_index(m, k)].0 == k,
        map_index(m, k) == -1 ==> forall|j: int| 0 <= j < m.len() ==> m[j].0 != k,
    decreases m.len(),
{
    if m.len() > 0 {
        lemma_map_index_bounds(m.drop_last(), k);
        assert forall|j: int| 0 <= j < m.len() - 1 implies m.drop_last()[j] == m[j] by {}
    }
}

proof fn lemma_map_index_update(m: TextMap, k: Text, i: int, v: Text, q: Text)
    requires
        0 <= i < m.len(),
        m[i].0 == k,
        map_index(m, q) >= 0,
    ensures
        map_index(m.update(i, (k, v)), q) == map_index(m, q),
    decreases m.len(),
{
    let m2 = m.update(i, (k, v));
    if i < m.len() - 1 {
        assert(m2.drop_last() =~= m.drop_last().update(i, (k, v)));
        if map_index(m.drop_last(), q) >= 0 {
            lemma_map_index_update(m.drop_last(), k, i, v, q);
        } else {
            lemma_map_index_bounds(m.drop_last(), q);
            lemma_map_index_bounds(m2.drop_last(), q);
            if map_index(m2.drop_last(), q) >= 0 {
                let j = map_index(m2.drop_last(), q);
                assert(m2.drop_last()[j].0 == q);
                if j == i {
                    assert(m.drop_last()[i].0 == q);
                } else {
                    assert(m.drop_last()[j].0 == q);
                }
            }
        }
    } else {
        assert(m2.drop_last() =~= m.drop_last());
    }
}

/// Stores `v` for `k`, replacing an earlier value.
pub fn put(m: &mut Vec<(String, String)>, k: String, v: String)
    ensures
        pair_views(final(m)@) == map_put(pair_views(old(m)@), k@, v@),
{
    let ghost pv = pair_views(m@);
    let mut i: usize = 0;
    while i < m.len()
        invariant
            i <= m@.len(),
            pv == pair_views(m@),
            m@ == old(m)@,
            map_index(pv.take(i as int), k@) == -1,
        decreases m.len() - i,
    {
        assert(pv.take(i + 1).drop_last() =~= pv.take(i as int));
        if crate::flags::str_eq(m[i].0.as_str(), k.as_str()) {
            assert(pv[i as int].0 == k@);
            assert(map_index(pv.take(i + 1), k@) == i);
            proof {
                lemma_map_index_prefix(pv, k@, i + 1);
            }
            let ghost kv = k@;
            let ghost vv = v@;
            m.set(i, (k, v));
            assert(pair_views(m@) =~= pv.update(i as int, (kv, vv)));
            return;
        }
        i = i + 1;
    }
    assert(pv.take(i as int) =~= pv);
    let ghost kv = k@;
    let ghost vv = v@;
    m.push((k, v));
    assert(pair_views(m@) =~= pv.push((kv, vv)));
}

/// `s` without a leading `$`.
fn without_dollar(s: &str) -> (r: &str)
    ensures
        r@ == strip_dollar(s@),
{
    let n = s.unicode_len();
    if n > 0 && s.get_char(0) == '$' {
        s.substring_char(1, n)
    } else {
        s
    }
}

/// The description after a name.
fn description_after(rest: &str) -> (r: &str)
    ensures
        r@ == after_separator(rest@),
{
    let t = trim_str(rest);
    let n = t.unicode_len();
    if n > 0 && (t.get_char(0) == '-' || t.get_char(0) == ':') {
        trim_str(t.substring_char(1, n))
    } else {
        t
    }
}

/// Reads a parameter line of an `# Arguments` section into name and
/// description.
pub fn parse_param_line(line: &str) -> (r: Option<(String, String)>)
    ensures
        match r {
            Some((n, d)) => param_line(line@) == Some((n@, d@)),
            None => param_line(line@) is None,
        },
{
    let n = line.unicode_len();
    if n > 0 && line.get_char(0) == '`' {
        let rest = line.substring_char(1, n);
        match find_char(rest, '`') {
            Some(e) => {
                let name = without_dollar(rest.substring_char(0, e));
                let desc = description_after(rest.substring_char(e + 1, rest.unicode_len()));
                return Some((String::from_str(name), String::from_str(desc)));
            },
            None => {},
        }
    }
    proof {
        reveal_strlit(" - ");
    }
    match find_str(line, " - ") {
        Some(p) => {
            let name = without_dollar(trim_str(line.substring_char(0, p)));
            let desc = trim_str(line.substring_char(p + 3, n));
            Some((String::from_str(name), String::from_str(desc)))
        },
        None => None,
    }
}

/// Reads a line of a `# Parameters` section into name, type and description.
pub fn parse_typed_param_line(line: &str) -> (r: Option<(String, String, String)>)
    ensures
        match r {
            Some((n, t, d)) => typed_param_line(line@) == Some((n@, t@, d@)),
            None => typed_param_line(line@) is None,
        },
{
    let n = line.unicode_len();
    if !(n > 0 && line.get_char(0) == '`') {
        return None;
    }
    let rest = line.substring_char(1, n);
    let e = match find_char(rest, '`') {
        Some(e) => e,
        None => return None,
    };
    let name = rest.substring_char(0, e);
    let after_name = trim_str(rest.substring_char(e + 1, rest.unicode_len()));
    let an = after_name.unicode_len();
    if !(an > 0 && after_name.get_char(0) == ':') {
        return None;
    }
    let after_colon = trim_str(after_name.substring_char(1, an));
    let cn = after_colon.unicode_len();
    if !(cn > 0 && after_colon.get_char(0) == '`') {
        return None;
    }
    let type_rest = after_colon.substring_char(1, cn);
    let te = match find_char(type_rest, '`') {
        Some(te) => te,
        None => return None,
    };
    let ty = type_rest.substring_char(0, te);
    let desc = trim_str(type_rest.substring_char(te + 1, type_rest.unicode_len()));
    Some((String::from_str(without_dollar(name)), String::from_str(ty), String::from_str(desc)))
}

/// The PHP type of a type override: its first whitespace-separated word, or
/// `mixed` when there is none.
pub fn extract_php_type(type_str: &str) -> (r: String)
    ensures
        r@ == php_type_word(type_str@),
{
    let n = type_str.unicode_len();
    let mut a: usize = 0;
    while a < n && crate::text::char_is_space(type_str.get_char(a))
        invariant
            n == type_str@.len(),
            a <= n,
            first_non_space(type_str@, 0) == first_non_space(type_str@, a as int),
        decreases n - a,
    {
        a = a + 1;
    }
    proof {
        lemma_first_non_space(type_str@, a as int);
    }
    if a >= n {
        proof {
            reveal_strlit("mixed");
        }
        return String::from_str("mixed");
    }
    let mut b: usize = a;
    while b < n && !crate::text::char_is_space(type_str.get_char(b))
        invariant
            n == type_str@.len(),
            a <= b <= n,
            word_end(type_str@, a as int) == word_end(type_str@, b as int),
        decreases n - b,
    {
        b = b + 1;
    }
    String::from_str(type_str.substring_char(a, b))
}

/// The item of a list line, without its bullet.
fn list_item_of(line: &str) -> (r: Option<&str>)
    ensures
        match r {
            Some(t) => list_item(line@) == Some(t@),
            None => list_item(line@) is None,
        },
{
    let t = trim_str(line);
    proof {
        reveal_strlit("* ");
        reveal_strlit("- ");
    }
    match strip_prefix(t, "* ") {
        Some(rest) => Some(rest),
        None => strip_prefix(t, "- "),
    }
}

proof fn lemma_take_step<A>(s: Seq<A>, i: int)
    requires
        0 <= i < s.len(),
    ensures
        s.take(i + 1).drop_last() == s.take(i),
        s.take(i + 1).last() == s[i],
{
    assert(s.take(i + 1).drop_last() =~= s.take(i));
}

/// The trimmed lines of `content` that are not empty.
fn nonblank_lines(content: &Vec<String>) -> (r: Vec<String>)
    ensures
        crate::text::views(r@) == nonblank(crate::text::views(content@)),
{
    let ghost cv = crate::text::views(content@);
    let mut out: Vec<String> = Vec::new();
    let mut i: usize = 0;
    while i < content.len()
        invariant
            i <= content@.len(),
            cv == crate::text::views(content@),
            crate::text::views(out@) == nonblank(cv.take(i as int)),
        decreases content.len() - i,
    {
        proof {
            lemma_take_step(cv, i as int);
        }
        let t = trim_str(content[i].as_str());
        if t.unicode_len() > 0 {
            let ghost before = out@;
            out.push(String::from_str(t));
            assert(crate::text::views(out@) =~= crate::text::views(before).push(t@));
        }
        i = i + 1;
    }
    assert(cv.take(content@.len() as int) =~= cv);
    out
}

fn read_arguments_into(params: &mut Vec<(String, String)>, content: &Vec<String>)
    ensures
        pair_views(final(params)@) == read_arguments(pair_views(old(params)@), crate::text::views(content@)),
{
    let ghost cv = crate::text::views(content@);
    let ghost start = pair_views(params@);
    let mut i: usize = 0;
    while i < content.len()
        invariant
            i <= content@.len(),
            cv == crate::text::views(content@),
            pair_views(params@) == read_arguments(start, cv.take(i as int)),
        decreases content.len() - i,
    {
        proof {
            lemma_take_step(cv, i as int);
        }
        match list_item_of(content[i].as_str()) {
            Some(item) => match parse_param_line(trim_str(item)) {
                Some((n, d)) => put(params, n, d),
                None => {},
            },
            None => {},
        }
        i = i + 1;
    }
    assert(cv.take(content@.len() as int) =~= cv);
}

fn read_parameters_into(types: &mut Vec<(String, String)>, params: &mut Vec<(String, String)>, content: &Vec<String>)
    ensures
        (pair_views(final(types)@), pair_views(final(params)@)) == read_parameters(
            pair_views(old(types)@),
            pair_views(old(params)@),
            crate::text::views(content@),
        ),
{
    let ghost cv = crate::text::views(content@);
    let ghost t0 = pair_views(types@);
    let ghost p0 = pair_views(params@);
    let mut i: usize = 0;
    while i < content.len()
        invariant
            i <= content@.len(),
            cv == crate::text::views(content@),
            (pair_views(types@), pair_views(params@)) == read_parameters(t0, p0, cv.take(i as int)),
        decreases content.len() - i,
    {
        proof {
            lemma_take_step(cv, i as int);
        }
        match list_item_of(content[i].as_str()) {
            Some(item) => match parse_typed_param_line(trim_str(item)) {
                Some((n, ty, d)) => {
                    let n2 = String::from_str(n.as_str());
                    put(types, n, ty);
                    if d.unicode_len() > 0 {
                        put(params, n2, d);
                    }
                },
                None => {},
            },
            None => {},
        }
        i = i + 1;
    }
    assert(cv.take(content@.len() as int) =~= cv);
}

fn push_all(errors: &mut Vec<String>, lines: &Vec<String>)
    ensures
        crate::text::views(final(errors)@) == crate::text::views(old(errors)@) + crate::text::views(lines@),
{
    let ghost start = crate::text::views(errors@);
    let ghost lv = crate::text::views(lines@);
    let mut i: usize = 0;
    while i < lines.len()
        invariant
            i <= lines@.len(),
            lv == crate::text::views(lines@),
            crate::text::views(errors@) == start + lv.take(i as int),
        decreases lines.len() - i,
    {
        let ghost before = errors@;
        errors.push(String::from_str(lines[i].as_str()));
        assert(crate::text::views(errors@) =~= crate::text::views(before).push(lv[i as int]));
        assert(lv.take(i + 1) =~= lv.take(i as int).push(lv[i as int]));
        assert(start + lv.take(i + 1) =~= (start + lv.take(i as int)).push(lv[i as int]));
        i = i + 1;
    }
    assert(lv.take(lines@.len() as int) =~= lv);
}

/// Reads the lines of a section into `result`.
pub fn finalize_section(result: &mut ParsedRustDoc, section: Option<&str>, content: &Vec<String>)
    ensures
        final(result).view_doc() == finish_section(
            old(result).view_doc(),
            match section {
                Some(s) => Some(s@),
                None => None,
            },
            crate::text::views(content@),
        ),
{
    let name = match section {
        Some(n) => n,
        None => return,
    };
    let ghost cv = crate::text::views(content@);
    proof {
        reveal_strlit("Arguments");
        reveal_strlit("Returns");
        reveal_strlit("Errors");
        reveal_strlit("Parameters");
        reveal_strlit(" ");
    }
    if crate::flags::str_eq(name, "Arguments") {
        read_arguments_into(&mut result.params, content);
    } else if crate::flags::str_eq(name, "Returns") {
        let lines = nonblank_lines(content);
        let mut desc = String::new();
        crate::text::append_joined(&mut desc, &lines, " ");
        assert(desc@ =~= crate::text::seq_join(nonblank(cv), " "@));
        if desc.unicode_len() > 0 {
            result.return_desc = Some(desc);
        }
    } else if crate::flags::str_eq(name, "Errors") {
        let lines = nonblank_lines(content);
        push_all(&mut result.errors, &lines);
    } else if crate::flags::str_eq(name, "Parameters") {
        read_parameters_into(&mut result.param_types, &mut result.params, content);
    }
}

/// Reads the sections of a documentation block.
pub fn parse_rustdoc(docs: &Vec<String>) -> (r: ParsedRustDoc)
    ensures
        r.view_doc() == parse_doc(crate::text::views(docs@)),
{
    reveal(parse_doc);
    let ghost dv = crate::text::views(docs@);
    let mut result = ParsedRustDoc {
        summary: Vec::new(),
        params: Vec::new(),
        param_types: Vec::new(),
        return_desc: None,
        errors: Vec::new(),
    };
    let mut current: Option<String> = None;
    let mut content: Vec<String> = Vec::new();
    assert(crate::text::views(result.summary@) =~= Seq::<Text>::empty());
    assert(crate::text::views(result.errors@) =~= Seq::<Text>::empty());
    assert(pair_views(result.params@) =~= Seq::<(Text, Text)>::empty());
    assert(pair_views(result.param_types@) =~= Seq::<(Text, Text)>::empty());
    assert(crate::text::views(content@) =~= Seq::<Text>::empty());
    let mut i: usize = 0;
    while i < docs.len()
        invariant
            i <= docs@.len(),
            dv == crate::text::views(docs@),
            read_lines(dv.take(i as int)) == (
                result.view_doc(),
                match current {
                    Some(s) => Some(s@),
                    None => None,
                },
                crate::text::views(content@),
            ),
        decreases docs.len() - i,
    {
        proof {
            lemma_take_step(dv, i as int);
        }
        let line = docs[i].as_str();
        let t = trim_str(line);
        proof {
            reveal_strlit("# ");
        }
        if crate::text::has_prefix(t, "# ") {
            let section = match &current {
                Some(s) => Some(s.as_str()),
                None => None,
            };
            finalize_section(&mut result, section, &content);
            content = Vec::new();
            current = Some(String::from_str(t.substring_char(2, t.unicode_len())));
            assert(crate::text::views(content@) =~= Seq::<Text>::empty());
        } else if current.is_some() {
            let ghost before = content@;
            content.push(String::from_str(line));
            assert(crate::text::views(content@) =~= crate::text::views(before).push(line@));
        } else {
            let ghost before = result.summary@;
            result.summary.push(String::from_str(line));
            assert(crate::text::views(result.summary@) =~= crate::text::views(before).push(line@));
        }
        i = i + 1;
    }
    assert(dv.take(docs@.len() as int) =~= dv);
    let section = match &current {
        Some(s) => Some(s.as_str()),
        None => None,
    };
    finalize_section(&mut result, section, &content);
    result
}

} // verus!
