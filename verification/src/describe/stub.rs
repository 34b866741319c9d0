//! Rendering descriptions as PHP stub code.
use vstd::prelude::*;

use crate::describe::rustdoc::{
    DocView, TextMap, extract_php_type, lookup, map_get, pair_views, parse_doc, parse_rustdoc,
    php_type_word,
};
use crate::describe::{
    Class, Constant, DocBlock, Enum, EnumCase, Function, Method, MethodType, Module, Parameter,
    Property, Retval, Visibility,
};
use crate::flags::DataType;
use crate::text::{is_space, last_index, rfind_char, seq_join, starts_with, trim, views};
use crate::types::php_type::{PhpType, append_stub_name, php_type_text, stub_name};

verus! {

/// The line separator of generated stubs.
pub const NEW_LINE_SEPARATOR: &'static str = "\n";

/// The namespace of a class name and the name without it: `None` when the
/// name holds no `\`.
pub open spec fn namespace_split(class: Seq<char>) -> (Option<Seq<char>>, Seq<char>) {
    match last_index(class, '\\') {
        Some(i) => (Some(class.subrange(0, i)), class.subrange(i + 1, class.len() as int)),
        None => (None, class),
    }
}

/// Splits the namespace off a class name, at its last `\`.
pub fn split_namespace(class: &str) -> (r: (Option<&str>, &str))
    ensures
        namespace_split(class@) == (match r.0 {
            Some(ns) => Some(ns@),
            None => None,
        }, r.1@),
{
    let n = class.unicode_len();
    match rfind_char(class, '\\') {
        Some(idx) => (Some(class.substring_char(0, idx)), class.substring_char(idx + 1, n)),
        None => (None, class),
    }
}

/// Splitting a name at its last `\` and joining the parts with `\` gives the
/// name back; the name part holds no `\`.
pub proof fn law_split_namespace_rejoins(class: Seq<char>)
    ensures
        match namespace_split(class).0 {
            Some(ns) => ns + seq!['\\'] + namespace_split(class).1 == class,
            None => namespace_split(class).1 == class,
        },
        forall|i: int| 0 <= i < namespace_split(class).1.len() ==> namespace_split(class).1[i] != '\\',
{
    crate::text::lemma_last_index(class, '\\');
    match last_index(class, '\\') {
        Some(k) => {
            let name = class.subrange(k + 1, class.len() as int);
            assert(class.subrange(0, k) + seq!['\\'] + name =~= class);
            assert forall|i: int| 0 <= i < name.len() implies name[i] != '\\' by {
                assert(name[i] == class[k + 1 + i]);
            }
        },
        None => {},
    }
}

/// The pieces of `s` between occurrences of `c`.
pub open spec fn split_on(s: Seq<char>, c: char) -> Seq<Seq<char>>
    decreases s.len(),
{
    if s.len() == 0 {
        seq![Seq::empty()]
    } else {
        let parts = split_on(s.drop_last(), c);
        if s.last() == c {
            parts.push(Seq::empty())
        } else {
            parts.update(parts.len() - 1, parts.last().push(s.last()))
        }
    }
}

proof fn lemma_split_on_nonempty(s: Seq<char>, c: char)
    ensures
        split_on(s, c).len() >= 1,
    decreases s.len(),
{
    if s.len() > 0 {
        lemma_split_on_nonempty(s.drop_last(), c);
    }
}

/// `depth` spaces.
pub open spec fn spaces(depth: nat) -> Seq<char> {
    Seq::new(depth, |i: int| ' ')
}

/// Whether `line` holds a character that is not whitespace.
pub open spec fn has_text(line: Seq<char>) -> bool {
    exists|i: int| 0 <= i < line.len() && !is_space(line[i])
}

/// One line of indented output: blank lines become empty.
pub open spec fn indent_line(line: Seq<char>, depth: nat) -> Seq<char> {
    if has_text(line) {
        spaces(depth) + line
    } else {
        Seq::empty()
    }
}

/// `s` with every line that holds text indented by `depth` spaces, and blank
/// lines emptied.
pub open spec fn indented(s: Seq<char>, depth: nat) -> Seq<char> {
    seq_join(split_on(s, '\n').map_values(|l: Seq<char>| indent_line(l, depth)), "\n"@)
}

fn line_has_text(line: &String) -> (r: bool)
    ensures
        r == has_text(line@),
{
    let n = line.as_str().unicode_len();
    let mut i: usize = 0;
    while i < n
        invariant
            n == line@.len(),
            i <= n,
            forall|j: int| 0 <= j < i ==> is_space(line@[j]),
        decreases n - i,
    {
        if !crate::text::char_is_space(line.as_str().get_char(i)) {
            return true;
        }
        i = i + 1;
    }
    false
}

/// Indents every line of `s` that holds text by `depth` spaces; blank lines
/// become empty.
pub fn indent(s: &str, depth: usize) -> (r: String)
    ensures
        r@ == indented(s@, depth as nat),
{
    let n = s.unicode_len();
    let mut lines: Vec<String> = Vec::new();
    lines.push(String::new());
    let mut i: usize = 0;
    assert(views(lines@) =~= split_on(s@.take(0), '\n'));
    while i < n
        invariant
            n == s@.len(),
            i <= n,
            lines@.len() >= 1,
            views(lines@) == split_on(s@.take(i as int), '\n'),
        decreases n - i,
    {
        assert(s@.take(i + 1).drop_last() =~= s@.take(i as int));
        let c = s.get_char(i);
        let ghost before = views(lines@);
        if c == '\n' {
            lines.push(String::new());
            assert(views(lines@) =~= before.push(Seq::empty()));
        } else {
            let last = lines.len() - 1;
            let mut cur = String::new();
            std::mem::swap(&mut cur, &mut lines[last]);
            crate::text::push_char(&mut cur, c);
            lines.set(last, cur);
            assert(views(lines@) =~= before.update(before.len() - 1, before.last().push(c)));
        }
        i = i + 1;
    }
    assert(s@.take(n as int) =~= s@);
    let ghost parts = views(lines@);
    let ghost mapped = parts.map_values(|l: Seq<char>| indent_line(l, depth as nat));
    let mut out = String::new();
    let mut k: usize = 0;
    while k < lines.len()
        invariant
            k <= lines@.len(),
            parts == views(lines@),
            mapped == parts.map_values(|l: Seq<char>| indent_line(l, depth as nat)),
            out@ == seq_join(mapped.take(k as int), "\n"@),
        decreases lines.len() - k,
    {
        assert(mapped.take(k + 1).drop_last() =~= mapped.take(k as int));
        if k != 0 {
            out.append("\n");
            proof {
                reveal_strlit("\n");
            }
        }
        if line_has_text(&lines[k]) {
            let mut j: usize = 0;
            let ghost base = out@;
            while j < depth
                invariant
                    j <= depth,
                    out@ == base + spaces(j as nat),
                decreases depth - j,
            {
                crate::text::push_char(&mut out, ' ');
                assert(spaces((j + 1) as nat) =~= spaces(j as nat).push(' '));
                j = j + 1;
            }
            out.append(lines[k].as_str());
        }
        assert(mapped[k as int] == indent_line(parts[k as int], depth as nat));
        k = k + 1;
    }
    assert(mapped.take(lines@.len() as int) =~= mapped);
    out
}

/// Types that can be rendered as PHP stub code.
pub trait ToStub {
    /// The stub code.
    spec fn stub_text(&self) -> Seq<char>;

    /// Appends the stub code to `buf`.
    fn fmt_stub(&self, buf: &mut String)
        ensures
            final(buf)@ == old(buf)@ + self.stub_text(),
    ;

    /// The stub code as a new string.
    fn to_stub(&self) -> (r: String)
        ensures
            r@ == self.stub_text(),
    {
        let mut buf = String::new();
        self.fmt_stub(&mut buf);
        assert(buf@ =~= self.stub_text());
        buf
    }
}

impl ToStub for DataType {
    open spec fn stub_text(&self) -> Seq<char> {
        stub_name(*self)
    }

    fn fmt_stub(&self, buf: &mut String) {
        append_stub_name(buf, self);
    }
}

/// The `PHPDoc` spelling of a class type: fully qualified, with `|null` when
/// nullable.
pub open spec fn class_type_doc(name: Seq<char>, nullable: bool) -> Seq<char> {
    let qualified = if starts_with(name, "\\"@) {
        name
    } else {
        "\\"@ + name
    };
    if nullable {
        qualified + "|null"@
    } else {
        qualified
    }
}

/// The `PHPDoc` spelling of a data type; nullable types gain `|null`, except
/// the ones that already admit null or hold no value.
pub open spec fn datatype_doc(ty: DataType, nullable: bool) -> Seq<char> {
    let base = match ty {
        DataType::Bool | DataType::True | DataType::False => "bool"@,
        DataType::Long => "int"@,
        DataType::Double => "float"@,
        DataType::String => "string"@,
        DataType::Array => "array"@,
        DataType::Object(None) => "object"@,
        DataType::Resource => "resource"@,
        DataType::Callable => "callable"@,
        DataType::Void => "void"@,
        DataType::Null => "null"@,
        DataType::Iterable => "iterable"@,
        _ => "mixed"@,
    };
    match ty {
        DataType::Object(Some(name)) => class_type_doc(name@, nullable),
        DataType::Mixed | DataType::Null | DataType::Void => base,
        _ => if nullable {
            base + "|null"@
        } else {
            base
        },
    }
}

/// Appends a string literal.
fn put_str(buf: &mut String, s: &str)
    ensures
        final(buf)@ == old(buf)@ + s@,
{
    buf.append(s);
}

/// The `PHPDoc` spelling of a class type.
pub fn format_class_type(name: &str, nullable: bool) -> (r: String)
    ensures
        r@ == class_type_doc(name@, nullable),
{
    proof {
        reveal_strlit("\\");
        reveal_strlit("|null");
    }
    let mut out = String::new();
    if !crate::text::has_prefix(name, "\\") {
        put_str(&mut out, "\\");
    }
    put_str(&mut out, name);
    if nullable {
        put_str(&mut out, "|null");
    }
    assert(out@ =~= class_type_doc(name@, nullable));
    out
}

/// The `PHPDoc` spelling of a data type.
pub fn datatype_to_phpdoc(ty: &DataType, nullable: bool) -> (r: String)
    ensures
        r@ == datatype_doc(*ty, nullable),
{
    let base: &str = match ty {
        DataType::Bool | DataType::True | DataType::False => "bool",
        DataType::Long => "int",
        DataType::Double => "float",
        DataType::String => "string",
        DataType::Array => "array",
        DataType::Object(Some(name)) => return format_class_type(name, nullable),
        DataType::Object(None) => "object",
        DataType::Resource => "resource",
        DataType::Callable => "callable",
        DataType::Void => "void",
        DataType::Null => "null",
        DataType::Iterable => "iterable",
        _ => "mixed",
    };
    proof {
        reveal_strlit("bool");
        reveal_strlit("int");
        reveal_strlit("float");
        reveal_strlit("string");
        reveal_strlit("array");
        reveal_strlit("object");
        reveal_strlit("resource");
        reveal_strlit("callable");
        reveal_strlit("void");
        reveal_strlit("null");
        reveal_strlit("iterable");
        reveal_strlit("mixed");
        reveal_strlit("|null");
    }
    let mut out = String::from_str(base);
    let keeps = match ty {
        DataType::Mixed | DataType::Null | DataType::Void => true,
        _ => false,
    };
    if nullable && !keeps {
        put_str(&mut out, "|null");
    }
    out
}

/// The stub code of a documentation block: a `/** */` comment, or nothing
/// when there are no lines.
pub open spec fn doc_block_text(lines: Seq<Seq<char>>) -> Seq<char> {
    if lines.len() == 0 {
        Seq::empty()
    } else {
        "/**\n"@ + comment_lines(lines) + " */\n"@
    }
}

/// Each line as a ` *` comment line.
pub open spec fn comment_lines(lines: Seq<Seq<char>>) -> Seq<char>
    decreases lines.len(),
{
    if lines.len() == 0 {
        Seq::empty()
    } else {
        comment_lines(lines.drop_last()) + " *"@ + lines.last() + "\n"@
    }
}

/// Appends each line as a ` *` comment line.
fn append_comment_lines(buf: &mut String, lines: &Vec<String>)
    ensures
        final(buf)@ == old(buf)@ + comment_lines(views(lines@)),
{
    let ghost lv = views(lines@);
    let ghost start = buf@;
    let mut i: usize = 0;
    while i < lines.len()
        invariant
            i <= lines@.len(),
            lv == views(lines@),
            buf@ == start + comment_lines(lv.take(i as int)),
        decreases lines.len() - i,
    {
        assert(lv.take(i + 1).drop_last() =~= lv.take(i as int));
        put_str(buf, " *");
        put_str(buf, lines[i].as_str());
        put_str(buf, "\n");
        proof {
            reveal_strlit(" *");
            reveal_strlit("\n");
        }
        assert(buf@ =~= start + comment_lines(lv.take(i + 1)));
        i = i + 1;
    }
    assert(lv.take(lines@.len() as int) =~= lv);
}

impl ToStub for DocBlock {
    open spec fn stub_text(&self) -> Seq<char> {
        doc_block_text(views(self.0@))
    }

    fn fmt_stub(&self, buf: &mut String) {
        if self.0.len() > 0 {
            put_str(buf, "/**\n");
            append_comment_lines(buf, &self.0);
            put_str(buf, " */\n");
            proof {
                reveal_strlit("/**\n");
                reveal_strlit(" */\n");
            }
            assert(buf@ =~= old(buf)@ + self.stub_text());
        } else {
            assert(buf@ =~= old(buf)@ + self.stub_text());
        }
    }
}

/// The keyword of a visibility.
pub open spec fn visibility_text(v: Visibility) -> Seq<char> {
    match v {
        Visibility::Private => "private"@,
        Visibility::Protected => "protected"@,
        Visibility::Public => "public"@,
    }
}

impl ToStub for Visibility {
    open spec fn stub_text(&self) -> Seq<char> {
        visibility_text(*self)
    }

    fn fmt_stub(&self, buf: &mut String) {
        proof {
            reveal_strlit("private");
            reveal_strlit("protected");
            reveal_strlit("public");
        }
        match self {
            Visibility::Private => put_str(buf, "private"),
            Visibility::Protected => put_str(buf, "protected"),
            Visibility::Public => put_str(buf, "public"),
        }
    }
}

/// The stub code of a constant: `const NAME = value;`, `null` without a value.
pub open spec fn constant_text(c: Constant) -> Seq<char> {
    doc_block_text(views(c.docs.0@)) + "const "@ + c.name@ + " = "@ + match c.value {
        Some(v) => v@,
        None => "null"@,
    } + ";\n"@
}

impl ToStub for Constant {
    open spec fn stub_text(&self) -> Seq<char> {
        constant_text(*self)
    }

    fn fmt_stub(&self, buf: &mut String) {
        proof {
            reveal_strlit("const ");
            reveal_strlit(" = ");
            reveal_strlit("null");
            reveal_strlit(";\n");
        }
        self.docs.fmt_stub(buf);
        put_str(buf, "const ");
        put_str(buf, self.name.as_str());
        put_str(buf, " = ");
        match &self.value {
            Some(v) => put_str(buf, v.as_str()),
            None => put_str(buf, "null"),
        }
        put_str(buf, ";\n");
        assert(buf@ =~= old(buf)@ + self.stub_text());
    }
}

/// The stub code of an enum case: `  case NAME = value;`.
pub open spec fn enum_case_text(c: EnumCase) -> Seq<char> {
    doc_block_text(views(c.docs.0@)) + "  case "@ + c.name@ + match c.value {
        Some(v) => " = "@ + v@,
        None => Seq::empty(),
    } + ";\n"@
}

impl ToStub for EnumCase {
    open spec fn stub_text(&self) -> Seq<char> {
        enum_case_text(*self)
    }

    fn fmt_stub(&self, buf: &mut String) {
        proof {
            reveal_strlit("  case ");
            reveal_strlit(" = ");
            reveal_strlit(";\n");
        }
        self.docs.fmt_stub(buf);
        put_str(buf, "  case ");
        put_str(buf, self.name.as_str());
        match &self.value {
            Some(v) => {
                put_str(buf, " = ");
                put_str(buf, v.as_str());
            },
            None => {},
        }
        put_str(buf, ";\n");
        assert(buf@ =~= old(buf)@ + self.stub_text());
    }
}

/// The stub code of a sequence of enum cases.
pub open spec fn cases_text(cases: Seq<EnumCase>) -> Seq<char>
    decreases cases.len(),
{
    if cases.len() == 0 {
        Seq::empty()
    } else {
        cases_text(cases.drop_last()) + enum_case_text(cases.last())
    }
}

/// The stub code of an enum: `enum Name: backing { cases }`, the name without
/// its namespace.
pub open spec fn enum_text(e: Enum) -> Seq<char> {
    doc_block_text(views(e.docs.0@)) + "enum "@ + namespace_split(e.name@).1 + match e.backing_type {
        Some(b) => ": "@ + b@,
        None => Seq::empty(),
    } + " {\n"@ + cases_text(e.cases@) + "}\n"@
}

impl ToStub for Enum {
    open spec fn stub_text(&self) -> Seq<char> {
        enum_text(*self)
    }

    fn fmt_stub(&self, buf: &mut String) {
        proof {
            reveal_strlit("enum ");
            reveal_strlit(": ");
            reveal_strlit(" {\n");
            reveal_strlit("}\n");
        }
        self.docs.fmt_stub(buf);
        let (_, name) = split_namespace(self.name.as_str());
        put_str(buf, "enum ");
        put_str(buf, name);
        match &self.backing_type {
            Some(b) => {
                put_str(buf, ": ");
                put_str(buf, b.as_str());
            },
            None => {},
        }
        put_str(buf, " {\n");
        let ghost mid = buf@;
        let mut i: usize = 0;
        while i < self.cases.len()
            invariant
                i <= self.cases@.len(),
                buf@ == mid + cases_text(self.cases@.take(i as int)),
            decreases self.cases.len() - i,
        {
            assert(self.cases@.take(i + 1).drop_last() =~= self.cases@.take(i as int));
            self.cases[i].fmt_stub(buf);
            assert(buf@ =~= mid + cases_text(self.cases@.take(i + 1)));
            i = i + 1;
        }
        assert(self.cases@.take(self.cases@.len() as int) =~= self.cases@);
        put_str(buf, "}\n");
        assert(buf@ =~= old(buf)@ + self.stub_text());
    }
}

/// The stub code of a property: `visibility [static ]type$name[ = default];`
/// (the type is written directly before the `$`).
pub open spec fn property_text(p: Property) -> Seq<char> {
    doc_block_text(views(p.docs.0@)) + visibility_text(p.vis) + " "@ + (if p.static_ {
        "static "@
    } else {
        Seq::empty()
    }) + match p.ty {
        Some(t) => stub_name(t),
        None => Seq::empty(),
    } + "$"@ + p.name@ + match p.default {
        Some(d) => " = "@ + d@,
        None => Seq::empty(),
    } + ";\n"@
}

impl ToStub for Property {
    open spec fn stub_text(&self) -> Seq<char> {
        property_text(*self)
    }

    #[verifier::spinoff_prover]
    #[verifier::rlimit(40)]
    fn fmt_stub(&self, buf: &mut String) {
        proof {
            reveal_strlit(" ");
            reveal_strlit("static ");
            reveal_strlit("$");
            reveal_strlit(" = ");
            reveal_strlit(";\n");
        }
        self.docs.fmt_stub(buf);
        self.vis.fmt_stub(buf);
        put_str(buf, " ");
        if self.static_ {
            put_str(buf, "static ");
        }
        match &self.ty {
            Some(t) => t.fmt_stub(buf),
            None => {},
        }
        put_str(buf, "$");
        put_str(buf, self.name.as_str());
        match &self.default {
            Some(d) => {
                put_str(buf, " = ");
                put_str(buf, d.as_str());
            },
            None => {},
        }
        put_str(buf, ";\n");
        assert(buf@ =~= old(buf)@ + self.stub_text());
    }
}

/// Whether a nullable single type is marked with `?`: not for `mixed`,
/// `null` or `void`, which admit null already or hold no value.
pub open spec fn takes_marker(t: PhpType) -> bool {
    match t {
        PhpType::Simple(dt) => !(dt == DataType::Mixed || dt == DataType::Null || dt == DataType::Void),
        _ => false,
    }
}

/// A declared type in a signature: `?T` for a nullable single type, `A|B|null`
/// for a nullable compound one.
pub open spec fn signature_type(t: PhpType, nullable: bool) -> Seq<char> {
    match t {
        PhpType::Simple(_) => (if nullable && takes_marker(t) {
            "?"@
        } else {
            Seq::empty()
        }) + php_type_text(t),
        _ => php_type_text(t) + (if nullable {
            "|null"@
        } else {
            Seq::empty()
        }),
    }
}

fn is_marker_free(dt: &DataType) -> (r: bool)
    ensures
        r == (*dt == DataType::Mixed || *dt == DataType::Null || *dt == DataType::Void),
{
    match dt {
        DataType::Mixed | DataType::Null | DataType::Void => true,
        _ => false,
    }
}

/// Appends a declared type as a signature writes it.
fn append_signature_type(buf: &mut String, t: &PhpType, nullable: bool)
    ensures
        final(buf)@ == old(buf)@ + signature_type(*t, nullable),
{
    proof {
        reveal_strlit("?");
        reveal_strlit("|null");
    }
    match t {
        PhpType::Simple(dt) => {
            if nullable && !is_marker_free(dt) {
                put_str(buf, "?");
            }
            append_stub_name(buf, dt);
        },
        _ => {
            let text = t.to_php_string();
            put_str(buf, text.as_str());
            if nullable {
                put_str(buf, "|null");
            }
        },
    }
    assert(buf@ =~= old(buf)@ + signature_type(*t, nullable));
}

/// The type override documented for a parameter, used only when its declared
/// type is missing or `mixed`.
pub open spec fn param_override(p: Parameter, overrides: TextMap) -> Option<Seq<char>> {
    if p.ty is None || p.ty == Some(PhpType::Simple(DataType::Mixed)) {
        map_get(overrides, p.name@)
    } else {
        None
    }
}

/// The stub code of a parameter: type, `...` when variadic, `$name`, and the
/// default (`= null` for a nullable parameter without one).
pub open spec fn param_text(p: Parameter, overrides: TextMap) -> Seq<char> {
    (match param_override(p, overrides) {
        Some(o) => php_type_word(o) + " "@,
        None => match p.ty {
            Some(t) => signature_type(t, p.nullable) + " "@,
            None => Seq::empty(),
        },
    }) + (if p.variadic {
        "..."@
    } else {
        Seq::empty()
    }) + "$"@ + p.name@ + match p.default {
        Some(d) => " = "@ + d@,
        None => if p.nullable {
            " = null"@
        } else {
            Seq::empty()
        },
    }
}

/// In a rendered parameter, `$` and the name stand together, and directly
/// before them stands the variadic marker `...` exactly when the parameter is
/// variadic.
pub proof fn law_variadic_marker_precedes_name(p: Parameter, overrides: TextMap)
    ensures
        exists|i: int|
            #![trigger param_text(p, overrides).subrange(i, i + 1 + p.name@.len())]
            0 <= i && i + 1 + p.name@.len() <= param_text(p, overrides).len()
                && param_text(p, overrides).subrange(i, i + 1 + p.name@.len()) == "$"@ + p.name@
                && (p.variadic <==> (i >= 3 && param_text(p, overrides).subrange(i - 3, i) == "..."@)),
{
    reveal_strlit("...");
    reveal_strlit("$");
    reveal_strlit(" ");
    let t = param_text(p, overrides);
    let pre: Seq<char> = match param_override(p, overrides) {
        Some(o) => php_type_word(o) + " "@,
        None => match p.ty {
            Some(ty) => signature_type(ty, p.nullable) + " "@,
            None => Seq::empty(),
        },
    };
    let marker: Seq<char> = if p.variadic { "..."@ } else { Seq::empty() };
    let tail: Seq<char> = match p.default {
        Some(d) => " = "@ + d@,
        None => if p.nullable {
            " = null"@
        } else {
            Seq::empty()
        },
    };
    assert(t =~= pre + marker + ("$"@ + p.name@) + tail);
    let i: int = (pre.len() + marker.len()) as int;
    assert(t.subrange(i, i + 1 + p.name@.len()) =~= "$"@ + p.name@);
    if p.variadic {
        assert(t.subrange(i - 3, i) =~= "..."@);
    } else if i >= 3 {
        assert(pre.len() > 0 && pre.last() == ' ');
        assert(t.subrange(i - 3, i)[2] == ' ');
        assert(("..."@)[2] == '.');
    }
}

/// A rendered parameter ends with its default (` = ` and the default's
/// text) when it has one, with ` = null` when it is nullable without one, and
/// otherwise with `$` and its name.
pub proof fn law_param_text_ends_with_default(p: Parameter, overrides: TextMap)
    ensures
        ({
            let t = param_text(p, overrides);
            let end: Seq<char> = match p.default {
                Some(d) => " = "@ + d@,
                None => if p.nullable {
                    " = null"@
                } else {
                    "$"@ + p.name@
                },
            };
            end.len() <= t.len() && t.subrange(t.len() - end.len(), t.len() as int) == end
        }),
{
    let t = param_text(p, overrides);
    let pre: Seq<char> = match param_override(p, overrides) {
        Some(o) => php_type_word(o) + " "@,
        None => match p.ty {
            Some(ty) => signature_type(ty, p.nullable) + " "@,
            None => Seq::empty(),
        },
    };
    let marker: Seq<char> = if p.variadic { "..."@ } else { Seq::empty() };
    let tail: Seq<char> = match p.default {
        Some(d) => " = "@ + d@,
        None => if p.nullable {
            " = null"@
        } else {
            Seq::empty()
        },
    };
    assert(t =~= pre + marker + ("$"@ + p.name@) + tail);
    if p.default is Some || p.nullable {
        assert(t.subrange(t.len() - tail.len(), t.len() as int) =~= tail);
    } else {
        assert(tail =~= Seq::<char>::empty());
        let end = "$"@ + p.name@;
        assert(t.subrange(t.len() - end.len(), t.len() as int) =~= end);
    }
}

/// Renders a parameter, taking a documented type override for a parameter
/// without a precise type.
pub fn param_to_stub(param: &Parameter, type_overrides: &Vec<(String, String)>) -> (r: String)
    ensures
        r@ == param_text(*param, pair_views(type_overrides@)),
{
    proof {
        reveal_strlit(" ");
        reveal_strlit("...");
        reveal_strlit("$");
        reveal_strlit(" = ");
        reveal_strlit(" = null");
    }
    let mut buf = String::new();
    let mixed_or_none = match &param.ty {
        None => true,
        Some(PhpType::Simple(dt)) => dt.same_as(&DataType::Mixed),
        Some(_) => false,
    };
    let type_override = if mixed_or_none {
        lookup(type_overrides, param.name.as_str())
    } else {
        None
    };
    match type_override {
        Some(o) => {
            let t = extract_php_type(o.as_str());
            put_str(&mut buf, t.as_str());
            put_str(&mut buf, " ");
        },
        None => match &param.ty {
            Some(t) => {
                append_signature_type(&mut buf, t, param.nullable);
                put_str(&mut buf, " ");
            },
            None => {},
        },
    }
    if param.variadic {
        put_str(&mut buf, "...");
    }
    put_str(&mut buf, "$");
    put_str(&mut buf, param.name.as_str());
    match &param.default {
        Some(d) => {
            put_str(&mut buf, " = ");
            put_str(&mut buf, d.as_str());
        },
        None => if param.nullable {
            put_str(&mut buf, " = null");
        },
    }
    assert(buf@ =~= param_text(*param, pair_views(type_overrides@)));
    buf
}

impl ToStub for Parameter {
    open spec fn stub_text(&self) -> Seq<char> {
        param_text(*self, Seq::empty())
    }

    fn fmt_stub(&self, buf: &mut String) {
        let empty: Vec<(String, String)> = Vec::new();
        assert(pair_views(empty@) =~= Seq::<(Seq<char>, Seq<char>)>::empty());
        let text = param_to_stub(self, &empty);
        put_str(buf, text.as_str());
    }
}

/// The parameters of a signature, comma separated.
pub open spec fn params_text(params: Seq<Parameter>, overrides: TextMap) -> Seq<char> {
    seq_join(params.map_values(|p: Parameter| param_text(p, overrides)), ", "@)
}

/// Appends the parameters of a signature.
fn append_params(buf: &mut String, params: &Vec<Parameter>, overrides: &Vec<(String, String)>)
    ensures
        final(buf)@ == old(buf)@ + params_text(params@, pair_views(overrides@)),
{
    let ghost ov = pair_views(overrides@);
    let ghost pv = params@.map_values(|p: Parameter| param_text(p, ov));
    let ghost start = buf@;
    let mut i: usize = 0;
    while i < params.len()
        invariant
            i <= params@.len(),
            ov == pair_views(overrides@),
            pv == params@.map_values(|p: Parameter| param_text(p, ov)),
            buf@ == start + seq_join(pv.take(i as int), ", "@),
        decreases params.len() - i,
    {
        assert(pv.take(i + 1).drop_last() =~= pv.take(i as int));
        if i != 0 {
            put_str(buf, ", ");
            proof {
                reveal_strlit(", ");
            }
        }
        let text = param_to_stub(&params[i], overrides);
        put_str(buf, text.as_str());
        assert(buf@ =~= start + seq_join(pv.take(i + 1), ", "@));
        i = i + 1;
    }
    assert(pv.take(params@.len() as int) =~= pv);
}

/// The `PHPDoc` spelling of a declared type.
pub open spec fn type_doc(t: PhpType, nullable: bool) -> Seq<char> {
    match t {
        PhpType::Simple(dt) => datatype_doc(dt, nullable),
        _ => php_type_text(t) + (if nullable {
            "|null"@
        } else {
            Seq::empty()
        }),
    }
}

fn type_to_phpdoc(t: &PhpType, nullable: bool) -> (r: String)
    ensures
        r@ == type_doc(*t, nullable),
{
    match t {
        PhpType::Simple(dt) => datatype_to_phpdoc(dt, nullable),
        _ => {
            let mut s = t.to_php_string();
            if nullable {
                put_str(&mut s, "|null");
                proof {
                    reveal_strlit("|null");
                }
            }
            s
        },
    }
}

/// The `@param` line of a parameter.
pub open spec fn param_doc_line(p: Parameter, doc: DocView) -> Seq<char> {
    let ty = match map_get(doc.param_types, p.name@) {
        Some(o) => php_type_word(o),
        None => match p.ty {
            Some(t) => type_doc(t, p.nullable),
            None => "mixed"@,
        },
    };
    " * @param "@ + ty + " $"@ + p.name@ + match map_get(doc.params, p.name@) {
        Some(d) => " "@ + d,
        None => Seq::empty(),
    } + "\n"@
}

/// The `@param` lines of a sequence of parameters.
pub open spec fn param_doc_lines(params: Seq<Parameter>, doc: DocView) -> Seq<char>
    decreases params.len(),
{
    if params.len() == 0 {
        Seq::empty()
    } else {
        param_doc_lines(params.drop_last(), doc) + param_doc_line(params.last(), doc)
    }
}

/// The `@throws` lines of the error descriptions.
pub open spec fn throws_lines(errors: Seq<Seq<char>>) -> Seq<char>
    decreases errors.len(),
{
    if errors.len() == 0 {
        Seq::empty()
    } else {
        throws_lines(errors.drop_last()) + " * @throws \\Exception "@ + errors.last() + "\n"@
    }
}

/// The summary without its trailing blank lines.
pub open spec fn without_trailing_blank(lines: Seq<Seq<char>>) -> Seq<Seq<char>>
    decreases lines.len(),
{
    if lines.len() > 0 && trim(lines.last()).len() == 0 {
        without_trailing_blank(lines.drop_last())
    } else {
        lines
    }
}

/// The character view of an optional string.
pub open spec fn opt_text(s: Option<String>) -> Option<Seq<char>> {
    match s {
        Some(t) => Some(t@),
        None => None,
    }
}

/// The `@return` line.
pub open spec fn return_doc_line(r: Retval, desc: Option<Seq<char>>) -> Seq<char> {
    " * @return "@ + type_doc(r.ty, r.nullable) + match desc {
        Some(d) => " "@ + d,
        None => Seq::empty(),
    } + "\n"@
}

/// Whether a summary line holds text.
pub open spec fn has_summary(doc: DocView) -> bool {
    exists|i: int| 0 <= i < doc.summary.len() && trim(#[trigger] doc.summary[i]).len() > 0
}

/// Whether any tag is written.
pub open spec fn has_tags(doc: DocView, params: Seq<Parameter>, ret: Option<Retval>) -> bool {
    params.len() > 0 || ret is Some || doc.errors.len() > 0
}

/// The `PHPDoc` block of a function or method: its summary, `@param`,
/// `@return` and `@throws` tags; nothing when there is nothing to say.
#[verifier::opaque]
pub open spec fn phpdoc_text(docs: Seq<Seq<char>>, params: Seq<Parameter>, ret: Option<Retval>) -> Seq<char> {
    let doc = parse_doc(docs);
    if (docs.len() == 0 && params.len() == 0 && ret is None) || !(has_summary(doc) || has_tags(doc, params, ret)) {
        Seq::empty()
    } else {
        phpdoc_block(doc, params, ret)
    }
}

/// The `/** */` block written for parsed documentation.
pub open spec fn phpdoc_block(doc: DocView, params: Seq<Parameter>, ret: Option<Retval>) -> Seq<char> {
    let lines = without_trailing_blank(doc.summary);
    "/**\n"@ + comment_lines(lines) + summary_gap(lines.len() > 0 && has_tags(doc, params, ret))
        + param_doc_lines(params, doc) + return_doc(ret, doc.return_desc) + throws_lines(doc.errors)
        + " */\n"@
}

/// The blank comment line between the summary and the tags.
pub open spec fn summary_gap(gap: bool) -> Seq<char> {
    if gap {
        " *\n"@
    } else {
        Seq::empty()
    }
}

/// The `@return` line, if there is a return.
pub open spec fn return_doc(ret: Option<Retval>, desc: Option<Seq<char>>) -> Seq<char> {
    match ret {
        Some(r) => return_doc_line(r, desc),
        None => Seq::empty(),
    }
}

/// The type overrides documented for the parameters.
#[verifier::opaque]
pub open spec fn phpdoc_overrides(docs: Seq<Seq<char>>, params: Seq<Parameter>, ret: Option<Retval>) -> TextMap {
    if docs.len() == 0 && params.len() == 0 && ret is None {
        Seq::empty()
    } else {
        parse_doc(docs).param_types
    }
}

/// The retval a reference points at.
pub open spec fn opt_retval(ret: Option<&Retval>) -> Option<Retval> {
    match ret {
        Some(r) => Some(*r),
        None => None,
    }
}

proof fn lemma_trailing_blank(s: Seq<Seq<char>>, k: int)
    requires
        0 <= k <= s.len(),
        forall|j: int| k <= j < s.len() ==> trim(#[trigger] s[j]).len() == 0,
    ensures
        without_trailing_blank(s) == without_trailing_blank(s.take(k)),
    decreases s.len() - k,
{
    if k < s.len() {
        assert(s.drop_last() =~= s.drop_last());
        let t = s.drop_last();
        assert forall|j: int| k <= j < t.len() implies trim(#[trigger] t[j]).len() == 0 by {
            assert(t[j] == s[j]);
        }
        lemma_trailing_blank(t, k);
        assert(t.take(k) =~= s.take(k));
    } else {
        assert(s.take(k) =~= s);
    }
}

fn summary_has_text(parsed: &crate::describe::rustdoc::ParsedRustDoc) -> (r: bool)
    ensures
        r == has_summary(parsed.view_doc()),
{
    let ghost doc = parsed.view_doc();
    let mut any_summary = false;
    let mut i: usize = 0;
    while i < parsed.summary.len()
        invariant
            i <= parsed.summary@.len(),
            parsed.view_doc() == doc,
            any_summary == exists|j: int| 0 <= j < i && trim(#[trigger] doc.summary[j]).len() > 0,
        decreases parsed.summary.len() - i,
    {
        assert(doc.summary[i as int] == parsed.summary@[i as int]@);
        if crate::text::trim_str(parsed.summary[i].as_str()).unicode_len() > 0 {
            any_summary = true;
        }
        i = i + 1;
    }
    any_summary
}

/// Writes the summary lines, trailing blank ones left out; hands back whether
/// any was written.
fn append_summary(buf: &mut String, summary: &Vec<String>) -> (r: bool)
    ensures
        final(buf)@ == old(buf)@ + comment_lines(without_trailing_blank(views(summary@))),
        r == (without_trailing_blank(views(summary@)).len() > 0),
{
    let ghost sv = views(summary@);
    let mut k: usize = summary.len();
    while k > 0 && crate::text::trim_str(summary[k - 1].as_str()).unicode_len() == 0
        invariant
            k <= summary@.len(),
            sv == views(summary@),
            forall|j: int| k <= j < sv.len() ==> trim(#[trigger] sv[j]).len() == 0,
        decreases k,
    {
        assert(sv[k - 1] == summary@[k - 1]@);
        k = k - 1;
    }
    proof {
        lemma_trailing_blank(sv, k as int);
        if k > 0 {
            assert(sv[k - 1] == summary@[k - 1]@);
            assert(sv.take(k as int).last() == sv[k - 1]);
        }
        assert(without_trailing_blank(sv.take(k as int)) == sv.take(k as int));
    }
    let ghost lines = sv.take(k as int);
    let ghost mid = buf@;
    let mut j: usize = 0;
    while j < k
        invariant
            j <= k <= summary@.len(),
            sv == views(summary@),
            lines == sv.take(k as int),
            buf@ == mid + comment_lines(lines.take(j as int)),
        decreases k - j,
    {
        assert(lines.take(j + 1).drop_last() =~= lines.take(j as int));
        assert(lines[j as int] == summary@[j as int]@);
        put_str(buf, " *");
        put_str(buf, summary[j].as_str());
        put_str(buf, "\n");
        proof {
            reveal_strlit(" *");
            reveal_strlit("\n");
        }
        assert(buf@ =~= mid + comment_lines(lines.take(j + 1)));
        j = j + 1;
    }
    assert(lines.take(k as int) =~= lines);
    k > 0
}

/// Writes the `@param` lines.
fn append_param_docs(buf: &mut String, params: &Vec<Parameter>, parsed: &crate::describe::rustdoc::ParsedRustDoc)
    ensures
        final(buf)@ == old(buf)@ + param_doc_lines(params@, parsed.view_doc()),
{
    proof {
        reveal_strlit(" * @param ");
        reveal_strlit(" $");
        reveal_strlit(" ");
        reveal_strlit("\n");
        reveal_strlit("mixed");
    }
    let ghost doc = parsed.view_doc();
    let ghost mid = buf@;
    let mut p: usize = 0;
    while p < params.len()
        invariant
            p <= params@.len(),
            parsed.view_doc() == doc,
            buf@ == mid + param_doc_lines(params@.take(p as int), doc),
        decreases params.len() - p,
    {
        assert(params@.take(p + 1).drop_last() =~= params@.take(p as int));
        let param = &params[p];
        let type_str = match lookup(&parsed.param_types, param.name.as_str()) {
            Some(o) => extract_php_type(o.as_str()),
            None => match &param.ty {
                Some(t) => type_to_phpdoc(t, param.nullable),
                None => String::from_str("mixed"),
            },
        };
        put_str(buf, " * @param ");
        put_str(buf, type_str.as_str());
        put_str(buf, " $");
        put_str(buf, param.name.as_str());
        match lookup(&parsed.params, param.name.as_str()) {
            Some(d) => {
                put_str(buf, " ");
                put_str(buf, d.as_str());
            },
            None => {},
        }
        put_str(buf, "\n");
        assert(buf@ =~= mid + param_doc_lines(params@.take(p + 1), doc));
        p = p + 1;
    }
    assert(params@.take(params@.len() as int) =~= params@);
}

/// Writes the `@throws` lines.
fn append_throws(buf: &mut String, errors: &Vec<String>)
    ensures
        final(buf)@ == old(buf)@ + throws_lines(views(errors@)),
{
    proof {
        reveal_strlit(" * @throws \\Exception ");
        reveal_strlit("\n");
    }
    let ghost ev = views(errors@);
    let ghost mid = buf@;
    let mut e: usize = 0;
    while e < errors.len()
        invariant
            e <= errors@.len(),
            ev == views(errors@),
            buf@ == mid + throws_lines(ev.take(e as int)),
        decreases errors.len() - e,
    {
        assert(ev.take(e + 1).drop_last() =~= ev.take(e as int));
        assert(ev[e as int] == errors@[e as int]@);
        put_str(buf, " * @throws \\Exception ");
        put_str(buf, errors[e].as_str());
        put_str(buf, "\n");
        assert(buf@ =~= mid + throws_lines(ev.take(e + 1)));
        e = e + 1;
    }
    assert(ev.take(errors@.len() as int) =~= ev);
}

/// Writes the `@return` line.
fn append_return_doc(buf: &mut String, retval: &Retval, return_desc: &Option<String>)
    ensures
        final(buf)@ == old(buf)@ + return_doc_line(*retval, opt_text(*return_desc)),
{
    proof {
        reveal_strlit(" * @return ");
        reveal_strlit(" ");
        reveal_strlit("\n");
    }
    let type_str = type_to_phpdoc(&retval.ty, retval.nullable);
    put_str(buf, " * @return ");
    put_str(buf, type_str.as_str());
    match return_desc {
        Some(d) => {
            put_str(buf, " ");
            put_str(buf, d.as_str());
        },
        None => {},
    }
    put_str(buf, "\n");
    assert(buf@ =~= old(buf)@ + return_doc_line(*retval, opt_text(*return_desc)));
}

/// Writes the `PHPDoc` block of a function or method from its rustdoc, and
/// hands back the parameter type overrides its `# Parameters` section
/// documents.
#[verifier::spinoff_prover]
pub fn format_phpdoc(docs: &DocBlock, params: &Vec<Parameter>, ret: Option<&Retval>, buf: &mut String) -> (r: Vec<(String, String)>)
    ensures
        final(buf)@ == old(buf)@ + phpdoc_text(views(docs.0@), params@, opt_retval(ret)),
        pair_views(r@) == phpdoc_overrides(views(docs.0@), params@, opt_retval(ret)),
{
    proof {
        reveal(phpdoc_text);
        reveal(phpdoc_overrides);
        reveal_strlit("/**\n");
        reveal_strlit(" *\n");
        reveal_strlit(" */\n");
    }
    let ghost dv = views(docs.0@);
    let ghost rv = opt_retval(ret);
    if docs.0.len() == 0 && params.len() == 0 && ret.is_none() {
        let empty: Vec<(String, String)> = Vec::new();
        assert(pair_views(empty@) =~= Seq::<(Seq<char>, Seq<char>)>::empty());
        assert(buf@ =~= old(buf)@ + phpdoc_text(dv, params@, rv));
        return empty;
    }
    let parsed = parse_rustdoc(&docs.0);
    let ghost doc = parse_doc(dv);
    let any_summary = summary_has_text(&parsed);
    let tags = params.len() > 0 || ret.is_some() || parsed.errors.len() > 0;
    assert(tags == has_tags(doc, params@, rv));
    if !any_summary && !tags {
        assert(buf@ =~= old(buf)@ + phpdoc_text(dv, params@, rv));
        return parsed.param_types;
    }
    put_str(buf, "/**\n");
    let ghost a = buf@;
    let wrote = append_summary(buf, &parsed.summary);
    let ghost b = buf@;
    if wrote && tags {
        put_str(buf, " *\n");
    }
    let ghost c = buf@;
    append_param_docs(buf, params, &parsed);
    let ghost d = buf@;
    match ret {
        Some(retval) => append_return_doc(buf, retval, &parsed.return_desc),
        None => {},
    }
    let ghost e = buf@;
    append_throws(buf, &parsed.errors);
    put_str(buf, " */\n");
    proof {
        assert(parsed.view_doc() == doc);
        assert(c == b + summary_gap(without_trailing_blank(doc.summary).len() > 0 && has_tags(doc, params@, rv)));
        assert(e == d + return_doc(rv, doc.return_desc));
        assert(buf@ =~= old(buf)@ + phpdoc_block(doc, params@, rv));
    }
    parsed.param_types
}

/// The return part of a signature: `: type`, or nothing.
pub open spec fn return_signature(ret: Option<Retval>) -> Seq<char> {
    match ret {
        Some(r) => ": "@ + signature_type(r.ty, r.nullable),
        None => Seq::empty(),
    }
}

fn append_return_signature(buf: &mut String, ret: Option<&Retval>)
    ensures
        final(buf)@ == old(buf)@ + return_signature(opt_retval(ret)),
{
    proof {
        reveal_strlit(": ");
    }
    match ret {
        Some(r) => {
            put_str(buf, ": ");
            append_signature_type(buf, &r.ty, r.nullable);
        },
        None => {},
    }
    assert(buf@ =~= old(buf)@ + return_signature(opt_retval(ret)));
}

/// The stub code of a function: its `PHPDoc`, then
/// `function name(params): type {}` with the name outside its namespace.
pub open spec fn function_text(f: Function) -> Seq<char> {
    let docs = views(f.docs.0@);
    phpdoc_text(docs, f.params@, f.ret) + "function "@ + namespace_split(f.name@).1 + "("@
        + params_text(f.params@, phpdoc_overrides(docs, f.params@, f.ret)) + ")"@
        + return_signature(f.ret) + " {}\n"@
}

impl ToStub for Function {
    open spec fn stub_text(&self) -> Seq<char> {
        function_text(*self)
    }

    fn fmt_stub(&self, buf: &mut String) {
        proof {
            reveal_strlit("function ");
            reveal_strlit("(");
            reveal_strlit(")");
            reveal_strlit(" {}\n");
        }
        let ret_ref = match &self.ret {
            Some(r) => Some(r),
            None => None,
        };
        assert(opt_retval(ret_ref) == self.ret);
        let overrides = format_phpdoc(&self.docs, &self.params, ret_ref, buf);
        let (_, name) = split_namespace(self.name.as_str());
        put_str(buf, "function ");
        put_str(buf, name);
        put_str(buf, "(");
        append_params(buf, &self.params, &overrides);
        put_str(buf, ")");
        append_return_signature(buf, ret_ref);
        put_str(buf, " {}\n");
        assert(buf@ =~= old(buf)@ + self.stub_text());
    }
}

/// The return a method documents: none for a constructor.
pub open spec fn method_doc_return(m: Method) -> Option<Retval> {
    if m.ty == MethodType::Constructor {
        None
    } else {
        m.retval
    }
}

/// The stub code of a method: its `PHPDoc`, then
/// `visibility [static ]function name(params): type {}`, with no return type
/// for a constructor and `;` in place of the body for an abstract method.
pub open spec fn method_text(m: Method) -> Seq<char> {
    let docs = views(m.docs.0@);
    let ret = method_doc_return(m);
    phpdoc_text(docs, m.params@, ret) + visibility_text(m.visibility) + " "@ + (if m.ty
        == MethodType::Static {
        "static "@
    } else {
        Seq::empty()
    }) + "function "@ + m.name@ + "("@ + params_text(m.params@, phpdoc_overrides(docs, m.params@, ret))
        + ")"@ + return_signature(ret) + (if m.is_abstract {
        ";\n"@
    } else {
        " {}\n"@
    })
}

impl ToStub for Method {
    open spec fn stub_text(&self) -> Seq<char> {
        method_text(*self)
    }

    #[verifier::spinoff_prover]
    #[verifier::rlimit(40)]
    fn fmt_stub(&self, buf: &mut String) {
        proof {
            reveal_strlit(" ");
            reveal_strlit("static ");
            reveal_strlit("function ");
            reveal_strlit("(");
            reveal_strlit(")");
            reveal_strlit(";\n");
            reveal_strlit(" {}\n");
        }
        let is_ctor = match self.ty {
            MethodType::Constructor => true,
            _ => false,
        };
        let ret_ref: Option<&Retval> = if is_ctor {
            None
        } else {
            match &self.retval {
                Some(r) => Some(r),
                None => None,
            }
        };
        assert(opt_retval(ret_ref) == method_doc_return(*self));
        let overrides = format_phpdoc(&self.docs, &self.params, ret_ref, buf);
        self.visibility.fmt_stub(buf);
        put_str(buf, " ");
        match self.ty {
            MethodType::Static => put_str(buf, "static "),
            _ => {},
        }
        put_str(buf, "function ");
        put_str(buf, self.name.as_str());
        put_str(buf, "(");
        append_params(buf, &self.params, &overrides);
        put_str(buf, ")");
        append_return_signature(buf, ret_ref);
        if self.is_abstract {
            put_str(buf, ";\n");
        } else {
            put_str(buf, " {}\n");
        }
        assert(buf@ =~= old(buf)@ + self.stub_text());
    }
}

/// Whether `a` sorts before `b`: character by character, a proper prefix
/// first (the order of Rust's `str`, as UTF-8 keeps code point order).
pub open spec fn text_less(a: Seq<char>, b: Seq<char>) -> bool
    decreases a.len(),
{
    if a.len() == 0 {
        b.len() > 0
    } else if b.len() == 0 {
        false
    } else if a[0] != b[0] {
        (a[0] as u32) < (b[0] as u32)
    } else {
        text_less(a.subrange(1, a.len() as int), b.subrange(1, b.len() as int))
    }
}

/// Whether `a` sorts before `b`.
pub fn name_less(a: &str, b: &str) -> (r: bool)
    ensures
        r == text_less(a@, b@),
{
    let n = a.unicode_len();
    let m = b.unicode_len();
    let mut i: usize = 0;
    assert(a@.subrange(0, n as int) =~= a@);
    assert(b@.subrange(0, m as int) =~= b@);
    while i < n && i < m && a.get_char(i) == b.get_char(i)
        invariant
            n == a@.len(),
            m == b@.len(),
            i <= n,
            i <= m,
            text_less(a@, b@) == text_less(a@.subrange(i as int, n as int), b@.subrange(i as int, m as int)),
        decreases n - i,
    {
        let ghost x = a@.subrange(i as int, n as int);
        let ghost y = b@.subrange(i as int, m as int);
        assert(x.subrange(1, x.len() as int) =~= a@.subrange(i + 1, n as int));
        assert(y.subrange(1, y.len() as int) =~= b@.subrange(i + 1, m as int));
        i = i + 1;
    }
    if i == n {
        i < m
    } else if i == m {
        false
    } else {
        (a.get_char(i) as u32) < (b.get_char(i) as u32)
    }
}

/// A name and the stub code it sorts by.
pub type Entry = (Seq<char>, Seq<char>);

/// Where a stable insertion puts an entry with `key`: after every entry whose
/// name does not sort after it.
pub open spec fn insert_pos(sorted: Seq<Entry>, key: Seq<char>) -> int
    decreases sorted.len(),
{
    if sorted.len() == 0 {
        0
    } else if text_less(key, sorted.last().0) {
        insert_pos(sorted.drop_last(), key)
    } else {
        sorted.len() as int
    }
}

/// `s` stably sorted by name.
pub open spec fn sort_by_name(s: Seq<Entry>) -> Seq<Entry>
    decreases s.len(),
{
    if s.len() == 0 {
        s
    } else {
        let sorted = sort_by_name(s.drop_last());
        sorted.insert(insert_pos(sorted, s.last().0), s.last())
    }
}

proof fn lemma_insert_pos_bounds(sorted: Seq<Entry>, key: Seq<char>)
    ensures
        0 <= insert_pos(sorted, key) <= sorted.len(),
    decreases sorted.len(),
{
    if sorted.len() > 0 {
        lemma_insert_pos_bounds(sorted.drop_last(), key);
    }
}

proof fn lemma_sort_len(s: Seq<Entry>)
    ensures
        sort_by_name(s).len() == s.len(),
    decreases s.len(),
{
    if s.len() > 0 {
        lemma_sort_len(s.drop_last());
        lemma_insert_pos_bounds(sort_by_name(s.drop_last()), s.last().0);
    }
}

proof fn lemma_text_less_irreflexive(a: Seq<char>)
    ensures
        !text_less(a, a),
    decreases a.len(),
{
    if a.len() > 0 {
        lemma_text_less_irreflexive(a.subrange(1, a.len() as int));
    }
}

proof fn lemma_text_less_transitive(a: Seq<char>, b: Seq<char>, c: Seq<char>)
    requires
        text_less(a, b),
        text_less(b, c),
    ensures
        text_less(a, c),
    decreases a.len(),
{
    if a.len() > 0 && b.len() > 0 && c.len() > 0 && a[0] == b[0] && b[0] == c[0] {
        lemma_text_less_transitive(
            a.subrange(1, a.len() as int),
            b.subrange(1, b.len() as int),
            c.subrange(1, c.len() as int),
        );
    }
}

proof fn lemma_text_less_total(a: Seq<char>, b: Seq<char>)
    ensures
        a == b || text_less(a, b) || text_less(b, a),
    decreases a.len(),
{
    if a.len() > 0 && b.len() > 0 && a[0] == b[0] {
        let a1 = a.subrange(1, a.len() as int);
        let b1 = b.subrange(1, b.len() as int);
        lemma_text_less_total(a1, b1);
        if a1 == b1 {
            assert(a =~= seq![a[0]] + a1);
            assert(b =~= seq![b[0]] + b1);
        }
    } else if a.len() > 0 && b.len() > 0 {
        let x = a[0];
        let y = b[0];
        vstd::utf8::char_u32_cast(x, x as u32);
        vstd::utf8::char_u32_cast(y, y as u32);
        assert((x as u32) != (y as u32));
    } else if a.len() == 0 && b.len() == 0 {
        assert(a =~= b);
    }
}

/// Whether entries come in name order: no name sorts before an earlier one.
pub open spec fn sorted_by_name(s: Seq<Entry>) -> bool {
    forall|i: int, j: int| 0 <= i < j < s.len() ==> !text_less(#[trigger] s[j].0, #[trigger] s[i].0)
}

proof fn lemma_insert_pos(t: Seq<Entry>, k: Seq<char>)
    ensures
        0 <= insert_pos(t, k) <= t.len(),
        forall|j: int| insert_pos(t, k) <= j < t.len() ==> text_less(k, #[trigger] t[j].0),
        insert_pos(t, k) > 0 ==> !text_less(k, t[insert_pos(t, k) - 1].0),
    decreases t.len(),
{
    if t.len() > 0 && text_less(k, t.last().0) {
        lemma_insert_pos(t.drop_last(), k);
        assert forall|j: int| insert_pos(t, k) <= j < t.len() implies text_less(k, #[trigger] t[j].0) by {
            if j < t.len() - 1 {
                assert(t.drop_last()[j] == t[j]);
            }
        }
        if insert_pos(t, k) > 0 {
            assert(t.drop_last()[insert_pos(t, k) - 1] == t[insert_pos(t, k) - 1]);
        }
    }
}

proof fn lemma_insert_sorted(t: Seq<Entry>, e: Entry)
    requires
        sorted_by_name(t),
    ensures
        sorted_by_name(t.insert(insert_pos(t, e.0), e)),
{
    lemma_insert_pos(t, e.0);
    let p = insert_pos(t, e.0);
    let u = t.insert(p, e);
    assert forall|i: int, j: int| 0 <= i < j < u.len() implies !text_less(#[trigger] u[j].0, #[trigger] u[i].0) by {
        if j < p {
            assert(u[i] == t[i] && u[j] == t[j]);
        } else if j == p {
            assert(u[i] == t[i]);
            if text_less(e.0, t[i].0) {
                lemma_text_less_total(t[i].0, t[p - 1].0);
                if t[i].0 != t[p - 1].0 {
                    if text_less(t[i].0, t[p - 1].0) {
                        lemma_text_less_transitive(e.0, t[i].0, t[p - 1].0);
                    } else {
                        assert(!text_less(t[p - 1].0, t[i].0));
                    }
                }
            }
        } else if i == p {
            assert(u[j] == t[j - 1]);
            if text_less(t[j - 1].0, e.0) {
                lemma_text_less_transitive(e.0, t[j - 1].0, e.0);
                lemma_text_less_irreflexive(e.0);
            }
        } else if i < p {
            assert(u[i] == t[i] && u[j] == t[j - 1]);
        } else {
            assert(u[i] == t[i - 1] && u[j] == t[j - 1]);
        }
    }
}

/// Sorting by name puts entries in name order and keeps every entry: the
/// stub groups list their members in name order.
pub proof fn law_sort_by_name_sorts(s: Seq<Entry>)
    ensures
        sorted_by_name(sort_by_name(s)),
        sort_by_name(s).to_multiset() == s.to_multiset(),
    decreases s.len(),
{
    if s.len() > 0 {
        law_sort_by_name_sorts(s.drop_last());
        let t = sort_by_name(s.drop_last());
        lemma_insert_sorted(t, s.last());
        lemma_insert_pos(t, s.last().0);
        vstd::seq_lib::to_multiset_insert(t, insert_pos(t, s.last().0), s.last());
        assert(s =~= s.drop_last().push(s.last()));
        vstd::seq_lib::to_multiset_build(s.drop_last(), s.last());
    }
}

/// Sorts entries stably by name.
pub fn sort_entries(v: Vec<(String, String)>) -> (r: Vec<(String, String)>)
    ensures
        pair_views(r@) == sort_by_name(pair_views(v@)),
{
    let ghost vv = pair_views(v@);
    let mut rest = v;
    let mut out: Vec<(String, String)> = Vec::new();
    let mut i: usize = 0;
    let n = rest.len();
    while rest.len() > 0
        invariant
            i + rest@.len() == n,
            n == vv.len(),
            pair_views(rest@) == vv.subrange(i as int, n as int),
            pair_views(out@) == sort_by_name(vv.take(i as int)),
        decreases rest@.len(),
    {
        assert(vv.take(i + 1).drop_last() =~= vv.take(i as int));
        let ghost before = rest@;
        let e = rest.remove(0);
        assert(pair_views(before)[0] == vv.subrange(i as int, n as int)[0]);
        assert((e.0@, e.1@) == vv[i as int]);
        assert forall|j: int| 0 <= j < rest@.len() implies #[trigger] pair_views(rest@)[j] == vv.subrange(i + 1, n as int)[j] by {
            assert(rest@[j] == before[j + 1]);
            assert(pair_views(before)[j + 1] == vv.subrange(i as int, n as int)[j + 1]);
        }
        assert(pair_views(rest@) =~= vv.subrange(i + 1, n as int));
        let ghost sorted = pair_views(out@);
        let mut pos: usize = out.len();
        assert(sorted.take(pos as int) =~= sorted);
        while pos > 0 && name_less(e.0.as_str(), out[pos - 1].0.as_str())
            invariant
                pos <= out@.len(),
                sorted == pair_views(out@),
                insert_pos(sorted, e.0@) == insert_pos(sorted.take(pos as int), e.0@),
            decreases pos,
        {
            assert(sorted.take(pos as int).drop_last() =~= sorted.take(pos - 1));
            pos = pos - 1;
        }
        assert(insert_pos(sorted.take(pos as int), e.0@) == pos) by {
            if pos > 0 {
                assert(sorted.take(pos as int).last() == sorted[pos - 1]);
            }
        }
        let ghost ev = (e.0@, e.1@);
        out.insert(pos, e);
        assert(pair_views(out@) =~= sorted.insert(pos as int, ev));
        i = i + 1;
    }
    assert(vv.take(n as int) =~= vv);
    out
}

/// The stub code of each entry, indented by four spaces.
pub open spec fn indented_stubs(s: Seq<Entry>) -> Seq<Seq<char>> {
    s.map_values(|e: Entry| indented(e.1, 4))
}

/// Appends the stub code of sorted entries, indented and line separated.
fn append_indented(buf: &mut String, v: &Vec<(String, String)>, first: bool) -> (wrote: bool)
    ensures
        final(buf)@ == old(buf)@ + (if first || v@.len() == 0 { Seq::empty() } else { "\n"@ })
            + seq_join(indented_stubs(pair_views(v@)), "\n"@),
        wrote == (!first || v@.len() > 0),
{
    proof {
        reveal_strlit("\n");
    }
    let ghost pv = indented_stubs(pair_views(v@));
    let ghost start = buf@;
    let mut i: usize = 0;
    while i < v.len()
        invariant
            i <= v@.len(),
            pv == indented_stubs(pair_views(v@)),
            pv.len() == v@.len(),
            buf@ == start + (if first || i == 0 { Seq::empty() } else { "\n"@ }) + seq_join(pv.take(i as int), "\n"@),
        decreases v.len() - i,
    {
        assert(pv.take(i + 1).drop_last() =~= pv.take(i as int));
        if i != 0 || !first {
            put_str(buf, "\n");
        }
        let text = indent(v[i].1.as_str(), 4);
        put_str(buf, text.as_str());
        assert(pv[i as int] == indented(v@[i as int].1@, 4));
        assert(buf@ =~= start + (if first || i + 1 == 0 { Seq::empty() } else { "\n"@ }) + seq_join(pv.take(i + 1), "\n"@));
        i = i + 1;
    }
    assert(pv.take(v@.len() as int) =~= pv);
    !first || v.len() > 0
}

/// The entries of constants: name and stub code.
pub open spec fn constant_entries(v: Seq<Constant>) -> Seq<Entry> {
    v.map_values(|k: Constant| (k.name@, constant_text(k)))
}

/// The entries of properties.
pub open spec fn property_entries(v: Seq<Property>) -> Seq<Entry> {
    v.map_values(|p: Property| (p.name@, property_text(p)))
}

/// The entries of methods.
pub open spec fn method_entries(v: Seq<Method>) -> Seq<Entry> {
    v.map_values(|m: Method| (m.name@, method_text(m)))
}

/// The heading of a class: `class Name ` or `interface Name `, then
/// `extends` and the interfaces (`implements`, or `extends` for an interface).
pub open spec fn class_heading(c: Class) -> Seq<char> {
    class_keyword(c.is_interface) + namespace_split(c.name@).1 + " "@ + extends_part(c.extends)
        + implements_part(c.is_interface, views(c.implements@))
}

/// `class ` or `interface `.
pub open spec fn class_keyword(is_interface: bool) -> Seq<char> {
    if is_interface {
        "interface "@
    } else {
        "class "@
    }
}

/// `extends Parent `, or nothing.
pub open spec fn extends_part(extends: Option<String>) -> Seq<char> {
    match extends {
        Some(e) => "extends "@ + e@ + " "@,
        None => Seq::empty(),
    }
}

/// The interfaces: `implements A, B ` (`extends` for an interface), or
/// nothing.
pub open spec fn implements_part(is_interface: bool, names: Seq<Seq<char>>) -> Seq<char> {
    if names.len() > 0 {
        (if is_interface {
            "extends "@
        } else {
            "implements "@
        }) + seq_join(names, ", "@) + " "@
    } else {
        Seq::empty()
    }
}

/// The members of a class, each group sorted by name: constants, then
/// properties, then methods.
#[verifier::opaque]
pub open spec fn class_members(c: Class) -> Seq<Seq<char>> {
    indented_stubs(sort_by_name(constant_entries(c.constants@))) + indented_stubs(
        sort_by_name(property_entries(c.properties@)),
    ) + indented_stubs(sort_by_name(method_entries(c.methods@)))
}

/// The stub code of a class or interface.
pub open spec fn class_text(c: Class) -> Seq<char> {
    doc_block_text(views(c.docs.0@)) + class_heading(c) + "{\n"@ + seq_join(class_members(c), "\n"@) + "}\n"@
}

fn constants_to_entries(v: &Vec<Constant>) -> (r: Vec<(String, String)>)
    ensures
        pair_views(r@) == constant_entries(v@),
{
    let mut out: Vec<(String, String)> = Vec::new();
    let mut i: usize = 0;
    while i < v.len()
        invariant
            i <= v@.len(),
            out@.len() == i,
            pair_views(out@) == constant_entries(v@.take(i as int)),
        decreases v.len() - i,
    {
        let ghost before = out@;
        let name = String::from_str(v[i].name.as_str());
        let text = v[i].to_stub();
        assert(text@ == constant_text(v@[i as int]));
        out.push((name, text));
        assert forall|j: int| 0 <= j < i + 1 implies #[trigger] pair_views(out@)[j] == constant_entries(v@.take(i + 1))[j] by {
            if j < i {
                assert(out@[j] == before[j]);
                assert(pair_views(before)[j] == constant_entries(v@.take(i as int))[j]);
            }
        }
        assert(pair_views(out@) =~= constant_entries(v@.take(i + 1)));
        i = i + 1;
    }
    assert(v@.take(v@.len() as int) =~= v@);
    out
}

fn properties_to_entries(v: &Vec<Property>) -> (r: Vec<(String, String)>)
    ensures
        pair_views(r@) == property_entries(v@),
{
    let mut out: Vec<(String, String)> = Vec::new();
    let mut i: usize = 0;
    while i < v.len()
        invariant
            i <= v@.len(),
            out@.len() == i,
            pair_views(out@) == property_entries(v@.take(i as int)),
        decreases v.len() - i,
    {
        let ghost before = out@;
        let name = String::from_str(v[i].name.as_str());
        let text = v[i].to_stub();
        assert(text@ == property_text(v@[i as int]));
        out.push((name, text));
        assert forall|j: int| 0 <= j < i + 1 implies #[trigger] pair_views(out@)[j] == property_entries(v@.take(i + 1))[j] by {
            if j < i {
                assert(out@[j] == before[j]);
                assert(pair_views(before)[j] == property_entries(v@.take(i as int))[j]);
            }
        }
        assert(pair_views(out@) =~= property_entries(v@.take(i + 1)));
        i = i + 1;
    }
    assert(v@.take(v@.len() as int) =~= v@);
    out
}

fn methods_to_entries(v: &Vec<Method>) -> (r: Vec<(String, String)>)
    ensures
        pair_views(r@) == method_entries(v@),
{
    let mut out: Vec<(String, String)> = Vec::new();
    let mut i: usize = 0;
    while i < v.len()
        invariant
            i <= v@.len(),
            out@.len() == i,
            pair_views(out@) == method_entries(v@.take(i as int)),
        decreases v.len() - i,
    {
        let ghost before = out@;
        let name = String::from_str(v[i].name.as_str());
        let text = v[i].to_stub();
        assert(text@ == method_text(v@[i as int]));
        out.push((name, text));
        assert forall|j: int| 0 <= j < i + 1 implies #[trigger] pair_views(out@)[j] == method_entries(v@.take(i + 1))[j] by {
            if j < i {
                assert(out@[j] == before[j]);
                assert(pair_views(before)[j] == method_entries(v@.take(i as int))[j]);
            }
        }
        assert(pair_views(out@) =~= method_entries(v@.take(i + 1)));
        i = i + 1;
    }
    assert(v@.take(v@.len() as int) =~= v@);
    out
}

fn append_class_heading(buf: &mut String, c: &Class)
    ensures
        final(buf)@ == old(buf)@ + class_heading(*c),
{
    proof {
        reveal_strlit("interface ");
        reveal_strlit("class ");
        reveal_strlit(" ");
        reveal_strlit("extends ");
        reveal_strlit("implements ");
        reveal_strlit(", ");
    }
    let ghost s0 = buf@;
    if c.is_interface {
        put_str(buf, "interface ");
    } else {
        put_str(buf, "class ");
    }
    let ghost s1 = buf@;
    assert(s1 == s0 + class_keyword(c.is_interface));
    let (_, name) = split_namespace(c.name.as_str());
    put_str(buf, name);
    put_str(buf, " ");
    let ghost s2 = buf@;
    match &c.extends {
        Some(e) => {
            put_str(buf, "extends ");
            put_str(buf, e.as_str());
            put_str(buf, " ");
        },
        None => {},
    }
    let ghost s3 = buf@;
    assert(s3 =~= s2 + extends_part(c.extends));
    if c.implements.len() > 0 {
        if c.is_interface {
            put_str(buf, "extends ");
        } else {
            put_str(buf, "implements ");
        }
        crate::text::append_joined(buf, &c.implements, ", ");
        put_str(buf, " ");
    }
    assert(buf@ =~= s3 + implements_part(c.is_interface, views(c.implements@)));
    assert(buf@ =~= old(buf)@ + class_heading(*c));
}

fn append_members(buf: &mut String, c: &Class)
    ensures
        final(buf)@ == old(buf)@ + seq_join(class_members(*c), "\n"@),
{
    let consts = sort_entries(constants_to_entries(&c.constants));
    let props = sort_entries(properties_to_entries(&c.properties));
    let methods = sort_entries(methods_to_entries(&c.methods));
    let ghost a = indented_stubs(pair_views(consts@));
    let ghost b = indented_stubs(pair_views(props@));
    let ghost d = indented_stubs(pair_views(methods@));
    let ghost start = buf@;
    let w1 = append_indented(buf, &consts, true);
    let ghost s1 = buf@;
    assert(s1 == start + seq_join(a, "\n"@));
    let w2 = append_indented(buf, &props, !w1);
    let ghost s2 = buf@;
    proof {
        crate::text::lemma_join_concat(a, b, "\n"@);
        assert(s2 =~= start + seq_join(a + b, "\n"@));
    }
    let _ = append_indented(buf, &methods, !w2);
    proof {
        crate::text::lemma_join_concat(a + b, d, "\n"@);
        assert(buf@ =~= start + seq_join(a + b + d, "\n"@));
        assert(class_members(*c) == a + b + d) by {
            reveal(class_members);
        }
    }
}

impl ToStub for Class {
    open spec fn stub_text(&self) -> Seq<char> {
        class_text(*self)
    }

    fn fmt_stub(&self, buf: &mut String) {
        proof {
            reveal_strlit("{\n");
            reveal_strlit("}\n");
        }
        self.docs.fmt_stub(buf);
        append_class_heading(buf, self);
        put_str(buf, "{\n");
        append_members(buf, self);
        put_str(buf, "}\n");
        assert(buf@ =~= old(buf)@ + self.stub_text());
    }
}

/// An item of a module: its namespace, its name within it, and its stub code.
pub type ModEntry = (Option<Seq<char>>, Seq<char>, Seq<char>);

/// The namespace, name and stub code of a named item.
pub open spec fn mod_entry(name: Seq<char>, stub: Seq<char>) -> ModEntry {
    (namespace_split(name).0, namespace_split(name).1, stub)
}

/// The items of a module: constants, then functions, classes and enums.
pub open spec fn module_entries(m: Module) -> Seq<ModEntry> {
    m.constants@.map_values(|c: Constant| mod_entry(c.name@, constant_text(c)))
        + m.functions@.map_values(|f: Function| mod_entry(f.name@, function_text(f)))
        + m.classes@.map_values(|c: Class| mod_entry(c.name@, class_text(c)))
        + m.enums@.map_values(|e: Enum| mod_entry(e.name@, enum_text(e)))
}

/// The items of namespace `ns`, as name and stub code.
pub open spec fn in_namespace(e: Seq<ModEntry>, ns: Option<Seq<char>>) -> Seq<Entry>
    decreases e.len(),
{
    if e.len() == 0 {
        Seq::empty()
    } else if e.last().0 == ns {
        in_namespace(e.drop_last(), ns).push((e.last().1, e.last().2))
    } else {
        in_namespace(e.drop_last(), ns)
    }
}

/// Where `ns` goes in a sorted list of namespaces.
pub open spec fn namespace_pos(list: Seq<Seq<char>>, ns: Seq<char>) -> int
    decreases list.len(),
{
    if list.len() == 0 {
        0
    } else if text_less(ns, list.last()) {
        namespace_pos(list.drop_last(), ns)
    } else {
        list.len() as int
    }
}

/// The sorted namespaces the items use.
pub open spec fn namespaces(e: Seq<ModEntry>) -> Seq<Seq<char>>
    decreases e.len(),
{
    if e.len() == 0 {
        Seq::empty()
    } else {
        let list = namespaces(e.drop_last());
        match e.last().0 {
            Some(ns) => if list.contains(ns) {
                list
            } else {
                list.insert(namespace_pos(list, ns), ns)
            },
            None => list,
        }
    }
}

/// Whether an item lies outside every namespace.
pub open spec fn has_global(e: Seq<ModEntry>) -> bool {
    exists|i: int| 0 <= i < e.len() && (#[trigger] e[i]).0 is None
}

/// The block of one namespace: its items sorted by name and indented.
pub open spec fn group_text(ns: Option<Seq<char>>, e: Seq<ModEntry>) -> Seq<char> {
    (match ns {
        Some(n) => "namespace "@ + n + " {\n"@,
        None => "namespace {\n"@,
    }) + seq_join(indented_stubs(sort_by_name(in_namespace(e, ns))), "\n"@) + "}\n"@
}

/// The namespace blocks: named ones in order, the global one last.
pub open spec fn module_groups(e: Seq<ModEntry>) -> Seq<Seq<char>> {
    namespaces(e).map_values(|n: Seq<char>| group_text(Some(n), e)) + (if has_global(e) {
        seq![group_text(None, e)]
    } else {
        Seq::empty()
    })
}

/// The stub file of a module.
pub open spec fn module_text(m: Module) -> Seq<char> {
    "<?php\n\n// Stubs for "@ + m.name@ + "\n\n"@ + seq_join(module_groups(module_entries(m)), "\n"@)
}

/// The character views of module items.
pub open spec fn entry_views(v: Seq<(Option<String>, String, String)>) -> Seq<ModEntry> {
    v.map_values(|x: (Option<String>, String, String)| (match x.0 {
        Some(n) => Some(n@),
        None => None,
    }, x.1@, x.2@))
}

fn push_entry(v: &mut Vec<(Option<String>, String, String)>, name: &str, stub: String)
    ensures
        entry_views(final(v)@) == entry_views(old(v)@).push(mod_entry(name@, stub@)),
{
    let (ns, n) = split_namespace(name);
    let ns_owned = match ns {
        Some(x) => Some(String::from_str(x)),
        None => None,
    };
    let ghost before = v@;
    let ghost sv = stub@;
    v.push((ns_owned, String::from_str(n), stub));
    assert(entry_views(v@) =~= entry_views(before).push(mod_entry(name@, sv)));
}

fn collect_entries(m: &Module) -> (r: Vec<(Option<String>, String, String)>)
    ensures
        entry_views(r@) == module_entries(*m),
{
    let mut out: Vec<(Option<String>, String, String)> = Vec::new();
    let ghost a = m.constants@.map_values(|c: Constant| mod_entry(c.name@, constant_text(c)));
    let ghost b = m.functions@.map_values(|f: Function| mod_entry(f.name@, function_text(f)));
    let ghost c = m.classes@.map_values(|c: Class| mod_entry(c.name@, class_text(c)));
    let ghost d = m.enums@.map_values(|e: Enum| mod_entry(e.name@, enum_text(e)));
    let mut i: usize = 0;
    assert(entry_views(out@) =~= a.take(0));
    while i < m.constants.len()
        invariant
            i <= m.constants@.len(),
            a == m.constants@.map_values(|c: Constant| mod_entry(c.name@, constant_text(c))),
            entry_views(out@) == a.take(i as int),
        decreases m.constants.len() - i,
    {
        push_entry(&mut out, m.constants[i].name.as_str(), m.constants[i].to_stub());
        assert(a.take(i + 1) =~= a.take(i as int).push(a[i as int]));
        i = i + 1;
    }
    assert(a.take(i as int) =~= a);
    let mut i: usize = 0;
    assert(a + b.take(0) =~= a);
    while i < m.functions.len()
        invariant
            i <= m.functions@.len(),
            b == m.functions@.map_values(|f: Function| mod_entry(f.name@, function_text(f))),
            entry_views(out@) == a + b.take(i as int),
        decreases m.functions.len() - i,
    {
        push_entry(&mut out, m.functions[i].name.as_str(), m.functions[i].to_stub());
        assert(a + b.take(i + 1) =~= (a + b.take(i as int)).push(b[i as int]));
        i = i + 1;
    }
    assert(b.take(i as int) =~= b);
    let mut i: usize = 0;
    assert(a + b + c.take(0) =~= a + b);
    while i < m.classes.len()
        invariant
            i <= m.classes@.len(),
            c == m.classes@.map_values(|c: Class| mod_entry(c.name@, class_text(c))),
            entry_views(out@) == a + b + c.take(i as int),
        decreases m.classes.len() - i,
    {
        push_entry(&mut out, m.classes[i].name.as_str(), m.classes[i].to_stub());
        assert(a + b + c.take(i + 1) =~= (a + b + c.take(i as int)).push(c[i as int]));
        i = i + 1;
    }
    assert(c.take(i as int) =~= c);
    let mut i: usize = 0;
    assert(a + b + c + d.take(0) =~= a + b + c);
    while i < m.enums.len()
        invariant
            i <= m.enums@.len(),
            d == m.enums@.map_values(|e: Enum| mod_entry(e.name@, enum_text(e))),
            entry_views(out@) == a + b + c + d.take(i as int),
        decreases m.enums.len() - i,
    {
        push_entry(&mut out, m.enums[i].name.as_str(), m.enums[i].to_stub());
        assert(a + b + c + d.take(i + 1) =~= (a + b + c + d.take(i as int)).push(d[i as int]));
        i = i + 1;
    }
    assert(d.take(i as int) =~= d);
    out
}

fn namespace_list(e: &Vec<(Option<String>, String, String)>) -> (r: Vec<String>)
    ensures
        views(r@) == namespaces(entry_views(e@)),
{
    let ghost ev = entry_views(e@);
    let mut list: Vec<String> = Vec::new();
    let mut i: usize = 0;
    assert(views(list@) =~= namespaces(ev.take(0)));
    while i < e.len()
        invariant
            i <= e@.len(),
            ev == entry_views(e@),
            views(list@) == namespaces(ev.take(i as int)),
        decreases e.len() - i,
    {
        assert(ev.take(i + 1).drop_last() =~= ev.take(i as int));
        let ghost lv = views(list@);
        match &e[i].0 {
            Some(ns) => {
                let mut found = false;
                let mut j: usize = 0;
                while j < list.len()
                    invariant
                        j <= list@.len(),
                        lv == views(list@),
                        found == exists|k: int| 0 <= k < j && lv[k] == ns@,
                    decreases list.len() - j,
                {
                    assert(lv[j as int] == list@[j as int]@);
                    if crate::flags::str_eq(list[j].as_str(), ns.as_str()) {
                        found = true;
                    }
                    j = j + 1;
                }
                assert(found == lv.contains(ns@));
                if !found {
                    let mut pos: usize = list.len();
                    assert(lv.take(pos as int) =~= lv);
                    while pos > 0 && name_less(ns.as_str(), list[pos - 1].as_str())
                        invariant
                            pos <= list@.len(),
                            lv == views(list@),
                            namespace_pos(lv, ns@) == namespace_pos(lv.take(pos as int), ns@),
                        decreases pos,
                    {
                        assert(lv.take(pos as int).drop_last() =~= lv.take(pos - 1));
                        pos = pos - 1;
                    }
                    assert(namespace_pos(lv.take(pos as int), ns@) == pos) by {
                        if pos > 0 {
                            assert(lv.take(pos as int).last() == lv[pos - 1]);
                        }
                    }
                    let ghost nv = ns@;
                    list.insert(pos, String::from_str(ns.as_str()));
                    assert(views(list@) =~= lv.insert(pos as int, nv));
                }
            },
            None => {},
        }
        i = i + 1;
    }
    assert(ev.take(e@.len() as int) =~= ev);
    list
}

fn entries_in(e: &Vec<(Option<String>, String, String)>, ns: Option<&str>) -> (r: Vec<(String, String)>)
    ensures
        pair_views(r@) == in_namespace(entry_views(e@), match ns {
            Some(n) => Some(n@),
            None => None,
        }),
{
    let ghost ev = entry_views(e@);
    let ghost nv: Option<Seq<char>> = match ns {
        Some(n) => Some(n@),
        None => None,
    };
    let mut out: Vec<(String, String)> = Vec::new();
    let mut i: usize = 0;
    assert(pair_views(out@) =~= in_namespace(ev.take(0), nv));
    while i < e.len()
        invariant
            i <= e@.len(),
            ev == entry_views(e@),
            nv == (match ns {
                Some(n) => Some(n@),
                None => None,
            }),
            pair_views(out@) == in_namespace(ev.take(i as int), nv),
        decreases e.len() - i,
    {
        assert(ev.take(i + 1).drop_last() =~= ev.take(i as int));
        let same = match &e[i].0 {
            Some(a) => match ns {
                Some(b) => crate::flags::str_eq(a.as_str(), b),
                None => false,
            },
            None => ns.is_none(),
        };
        assert(ev[i as int] == (match e@[i as int].0 {
            Some(n) => Some(n@),
            None => None,
        }, e@[i as int].1@, e@[i as int].2@));
        assert(same == (ev[i as int].0 == nv));
        if same {
            let ghost before = pair_views(out@);
            out.push((String::from_str(e[i].1.as_str()), String::from_str(e[i].2.as_str())));
            assert(pair_views(out@) =~= before.push((ev[i as int].1, ev[i as int].2)));
        }
        i = i + 1;
    }
    assert(ev.take(e@.len() as int) =~= ev);
    out
}

fn append_group(buf: &mut String, e: &Vec<(Option<String>, String, String)>, ns: Option<&str>)
    ensures
        final(buf)@ == old(buf)@ + group_text(match ns {
            Some(n) => Some(n@),
            None => None,
        }, entry_views(e@)),
{
    proof {
        reveal_strlit("namespace ");
        reveal_strlit(" {\n");
        reveal_strlit("namespace {\n");
        reveal_strlit("}\n");
    }
    match ns {
        Some(n) => {
            put_str(buf, "namespace ");
            put_str(buf, n);
            put_str(buf, " {\n");
        },
        None => put_str(buf, "namespace {\n"),
    }
    let ghost mid = buf@;
    let sorted = sort_entries(entries_in(e, ns));
    let _ = append_indented(buf, &sorted, true);
    put_str(buf, "}\n");
    assert(buf@ =~= old(buf)@ + group_text(match ns {
        Some(n) => Some(n@),
        None => None,
    }, entry_views(e@)));
}

impl ToStub for Module {
    open spec fn stub_text(&self) -> Seq<char> {
        module_text(*self)
    }

    fn fmt_stub(&self, buf: &mut String) {
        proof {
            reveal_strlit("<?php\n\n// Stubs for ");
            reveal_strlit("\n\n");
            reveal_strlit("\n");
        }
        put_str(buf, "<?php\n\n// Stubs for ");
        put_str(buf, self.name.as_str());
        put_str(buf, "\n\n");
        let e = collect_entries(self);
        let list = namespace_list(&e);
        let ghost ev = entry_views(e@);
        let ghost groups = module_groups(ev);
        let ghost start = buf@;
        let mut k: usize = 0;
        assert(seq_join(groups.take(0), "\n"@) =~= Seq::<char>::empty());
        while k < list.len()
            invariant
                k <= list@.len(),
                ev == entry_views(e@),
                views(list@) == namespaces(ev),
                groups == module_groups(ev),
                buf@ == start + seq_join(groups.take(k as int), "\n"@),
            decreases list.len() - k,
        {
            assert(groups.take(k + 1).drop_last() =~= groups.take(k as int));
            assert(groups[k as int] == group_text(Some(list@[k as int]@), ev));
            if k > 0 {
                put_str(buf, "\n");
            }
            append_group(buf, &e, Some(list[k].as_str()));
            assert(buf@ =~= start + seq_join(groups.take(k + 1), "\n"@));
            k = k + 1;
        }
        let mut global = false;
        let mut i: usize = 0;
        while i < e.len()
            invariant
                i <= e@.len(),
                ev == entry_views(e@),
                global == exists|j: int| 0 <= j < i && (#[trigger] ev[j]).0 is None,
            decreases e.len() - i,
        {
            assert(ev[i as int].0 is None <==> e@[i as int].0 is None);
            if e[i].0.is_none() {
                global = true;
            }
            i = i + 1;
        }
        assert(global == has_global(ev));
        if global {
            assert(groups.take(k + 1).drop_last() =~= groups.take(k as int));
            if k > 0 {
                put_str(buf, "\n");
            }
            append_group(buf, &e, None);
            assert(buf@ =~= start + seq_join(groups.take(k + 1), "\n"@));
            assert(groups.take(k + 1) =~= groups);
        } else {
            assert(groups.take(k as int) =~= groups);
        }
        assert(buf@ =~= old(buf)@ + self.stub_text());
    }
}

} // verus!
