//! Type-directed serializer for variable values: renders a value map against
//! a variable schema into declarative source text.
//!
//! Variables are emitted in schema order, only when a value is present.
//! String values are reinterpreted against the declared type: map- and
//! list-typed strings are parsed as JSON and rendered as multi-line
//! literals, boolean-looking strings under a `bool` type are emitted
//! unquoted, and anything unparseable falls back to a quoted scalar.
//! Native booleans, numbers, lists and objects bypass those heuristics.

use vstd::prelude::*;

use serde_json::Value as JsonValue;

use crate::schema::{TerraformVariable, VarView};
use crate::text::{
    chars_of, contains_seq, contains_seq_s, eq_chars, extend_chars, lower, lower_seq, starts_with,
    starts_with_s, string_from_chars, trim, trimmed,
};
use crate::value::{
    lookup, FieldVal, FieldValV, ListItem, ListItemV, Scalar, ScalarV, Value, ValueMap, ValueV,
};

verus! {

broadcast use crate::text::lemma_vec_char_deep_view;

// ─── Rendering specification ────────────────────────────────────────────────

/// `true` or `false` as text.
pub open spec fn bool_text(b: bool) -> Seq<char> {
    if b {
        "true"@
    } else {
        "false"@
    }
}

/// `name = "value"`, the quoted scalar form.
pub open spec fn quoted_line(name: Seq<char>, s: Seq<char>) -> Seq<char> {
    name + " = \""@ + s + "\""@
}

/// Join parts with a separator, no trailing separator.
pub open spec fn join_with(parts: Seq<Seq<char>>, sep: Seq<char>) -> Seq<char>
    decreases parts.len(),
{
    if parts.len() == 0 {
        Seq::empty()
    } else if parts.len() == 1 {
        parts[0]
    } else {
        parts[0] + sep + join_with(parts.drop_first(), sep)
    }
}

/// One `  "key" = value` line of a map literal; members that are not
/// printable scalars yield no line.
pub open spec fn map_entry_line(k: Seq<char>, v: FieldValV) -> Option<Seq<char>> {
    match v {
        FieldValV::Sc(sc) => match sc {
            ScalarV::Text(s) => Some("  \""@ + k + "\" = \""@ + s + "\""@),
            ScalarV::Num(n) => Some("  \""@ + k + "\" = "@ + n),
            ScalarV::Flag(b) => Some("  \""@ + k + "\" = "@ + bool_text(b)),
        },
        FieldValV::Other => None,
    }
}

/// The member lines of a map literal, in member order.
pub open spec fn map_lines(obj: Seq<(Seq<char>, FieldValV)>) -> Seq<Seq<char>>
    decreases obj.len(),
{
    if obj.len() == 0 {
        Seq::empty()
    } else {
        let rest = map_lines(obj.drop_first());
        match map_entry_line(obj[0].0, obj[0].1) {
            Some(l) => seq![l] + rest,
            None => rest,
        }
    }
}

/// A map value: `name = {}` when empty, else a multi-line literal with one
/// member per line and the closing brace on its own line.
pub open spec fn format_map_s(name: Seq<char>, obj: Seq<(Seq<char>, FieldValV)>) -> Seq<char> {
    if obj.len() == 0 {
        name + " = {}"@
    } else {
        join_with(seq![name + " = {"@] + map_lines(obj) + seq!["}"@], "\n"@)
    }
}

/// A list element rendered as a scalar; anything else prints as `null`.
pub open spec fn list_scalar_text(it: ListItemV) -> Seq<char> {
    match it {
        ListItemV::Sc(sc) => match sc {
            ScalarV::Text(s) => "\""@ + s + "\""@,
            ScalarV::Num(n) => n,
            ScalarV::Flag(b) => bool_text(b),
        },
        _ => "null"@,
    }
}

/// All elements rendered as scalars.
pub open spec fn scalar_items(arr: Seq<ListItemV>) -> Seq<Seq<char>> {
    arr.map_values(|it: ListItemV| list_scalar_text(it))
}

/// One `    key = value` line of an object block.
pub open spec fn obj_field_line(k: Seq<char>, v: FieldValV) -> Option<Seq<char>> {
    match v {
        FieldValV::Sc(sc) => match sc {
            ScalarV::Text(s) => Some("    "@ + k + " = \""@ + s + "\""@),
            ScalarV::Num(n) => Some("    "@ + k + " = "@ + n),
            ScalarV::Flag(b) => Some("    "@ + k + " = "@ + bool_text(b)),
        },
        FieldValV::Other => None,
    }
}

/// The field lines of one object block.
pub open spec fn obj_field_lines(fields: Seq<(Seq<char>, FieldValV)>) -> Seq<Seq<char>>
    decreases fields.len(),
{
    if fields.len() == 0 {
        Seq::empty()
    } else {
        let rest = obj_field_lines(fields.drop_first());
        match obj_field_line(fields[0].0, fields[0].1) {
            Some(l) => seq![l] + rest,
            None => rest,
        }
    }
}

/// One indented object block of a list-of-objects literal.
pub open spec fn obj_block(fields: Seq<(Seq<char>, FieldValV)>) -> Seq<char> {
    "  {\n"@ + join_with(obj_field_lines(fields), "\n"@) + "\n  }"@
}

/// The object blocks of a list, one per object element; other elements
/// yield no block.
pub open spec fn obj_blocks(arr: Seq<ListItemV>) -> Seq<Seq<char>>
    decreases arr.len(),
{
    if arr.len() == 0 {
        Seq::empty()
    } else {
        let rest = obj_blocks(arr.drop_first());
        match arr[0] {
            ListItemV::Obj(fields) => seq![obj_block(fields)] + rest,
            _ => rest,
        }
    }
}

/// Whether any element of the list is an object.
pub open spec fn has_objects(arr: Seq<ListItemV>) -> bool {
    exists|i: int| 0 <= i < arr.len() && arr[i] is Obj
}

/// A list value: a multi-line list of object blocks when any element is an
/// object, else a single-line bracketed list of scalars.
pub open spec fn format_list_s(name: Seq<char>, arr: Seq<ListItemV>) -> Seq<char> {
    if has_objects(arr) {
        name + " = [\n"@ + join_with(obj_blocks(arr), ",\n"@) + "\n]"@
    } else {
        name + " = ["@ + join_with(scalar_items(arr), ", "@) + "]"@
    }
}

// ─── What the JSON reinterpretation of string values returns ───────────────

/// The members of the JSON object a string parses as, in the parser's
/// member order, with non-scalar members marked; absent when the string is
/// not a JSON object. A function of the string's characters alone.
pub uninterp spec fn json_object_entries(s: Seq<char>) -> Option<Seq<(Seq<char>, FieldValV)>>;

/// The elements of the JSON array a string parses as, with object elements
/// carried as their scalar fields and other non-scalars marked; absent when
/// the string is not a JSON array. A function of the string's characters
/// alone.
pub uninterp spec fn json_array_items(s: Seq<char>) -> Option<Seq<ListItemV>>;

/// Relies on `serde_json::from_str` for maps of values: whether and how a
/// string parses as a JSON object depends on its characters alone. String,
/// boolean and number members are moved over, a number as its decimal
/// rendering; any other member is marked and later skipped.
#[verifier::external_body]
pub(crate) fn parse_json_object(s: &str) -> (r: Option<Vec<(String, FieldVal)>>)
    ensures
        r.deep_view() == json_object_entries(s@),
{
    let field = |w: JsonValue| match w {
        JsonValue::String(t) => FieldVal::Sc(Scalar::Text(t)),
        JsonValue::Bool(b) => FieldVal::Sc(Scalar::Flag(b)),
        JsonValue::Number(n) => FieldVal::Sc(Scalar::Num(n.to_string())),
        _ => FieldVal::Other,
    };
    let parsed = serde_json::from_str::<serde_json::Map<String, JsonValue>>(s).ok();
    parsed.map(|m| m.into_iter().map(|(k, w)| (k, field(w))).collect())
}

/// Relies on `serde_json::from_str` for vectors of values: whether and how
/// a string parses as a JSON array depends on its characters alone. Scalar
/// elements are moved over, object elements as their scalar fields, a
/// number as its decimal rendering; any other element or field is marked.
#[verifier::external_body]
fn parse_json_array(s: &str) -> (r: Option<Vec<ListItem>>)
    ensures
        r.deep_view() == json_array_items(s@),
{
    let sc = |w: JsonValue| match w {
        JsonValue::String(t) => Some(Scalar::Text(t)),
        JsonValue::Bool(b) => Some(Scalar::Flag(b)),
        JsonValue::Number(n) => Some(Scalar::Num(n.to_string())),
        _ => None,
    };
    let item = |v: JsonValue| match v {
        JsonValue::Object(m) => ListItem::Obj(
            m.into_iter().map(|(k, w)| (k, sc(w).map_or(FieldVal::Other, FieldVal::Sc))).collect(),
        ),
        w => sc(w).map_or(ListItem::Other, ListItem::Sc),
    };
    serde_json::from_str::<Vec<JsonValue>>(s).ok().map(|a| a.into_iter().map(item).collect())
}

// ─── Executable building blocks ─────────────────────────────────────────────

/// Append the characters of a literal.
fn push_lit(dst: &mut Vec<char>, lit: &str)
    ensures
        final(dst)@ == old(dst)@ + lit@,
{
    let cs = chars_of(lit);
    extend_chars(dst, &cs);
}

proof fn lemma_join_with_snoc(parts: Seq<Seq<char>>, x: Seq<char>, sep: Seq<char>)
    ensures
        join_with(parts.push(x), sep) == if parts.len() == 0 {
            x
        } else {
            join_with(parts, sep) + sep + x
        },
    decreases parts.len(),
{
    if parts.len() == 0 {
        assert(parts.push(x)[0] == x);
    } else if parts.len() == 1 {
        assert(parts.push(x)[0] == parts[0]);
        assert(parts.push(x).drop_first() =~= seq![x]);
        assert(join_with(seq![x], sep) == x);
    } else {
        assert(parts.push(x)[0] == parts[0]);
        assert(parts.push(x).drop_first() =~= parts.drop_first().push(x));
        lemma_join_with_snoc(parts.drop_first(), x, sep);
        assert((parts[0] + sep + (join_with(parts.drop_first(), sep) + sep + x)) =~= ((parts[0]
            + sep + join_with(parts.drop_first(), sep)) + sep + x));
    }
}

/// Join parts with a separator, executably.
fn join_exec(parts: &Vec<Vec<char>>, sep: &str) -> (r: Vec<char>)
    ensures
        r@ == join_with(parts.deep_view(), sep@),
{
    let ghost pdv = parts.deep_view();
    let mut r: Vec<char> = Vec::new();
    let mut i: usize = 0;
    proof {
        assert(pdv.take(0) =~= Seq::<Seq<char>>::empty());
    }
    while i < parts.len()
        invariant
            pdv == parts.deep_view(),
            parts@.len() == pdv.len(),
            i <= parts.len(),
            r@ == join_with(pdv.take(i as int), sep@),
        decreases parts.len() - i,
    {
        if i > 0 {
            push_lit(&mut r, sep);
        }
        extend_chars(&mut r, &parts[i]);
        proof {
            assert(pdv[i as int] == parts@[i as int].deep_view());
            assert(pdv.take(i + 1 as int) =~= pdv.take(i as int).push(pdv[i as int]));
            lemma_join_with_snoc(pdv.take(i as int), pdv[i as int], sep@);
        }
        i = i + 1;
    }
    proof {
        assert(pdv.take(pdv.len() as int) =~= pdv);
    }
    r
}

/// One map member line, executably.
fn map_entry_line_exec(k: &String, v: &FieldVal) -> (r: Option<Vec<char>>)
    ensures
        r.deep_view() == map_entry_line(k@, v@),
{
    let kv = chars_of(k.as_str());
    match v {
        FieldVal::Sc(sc) => {
            let mut line: Vec<char> = Vec::new();
            push_lit(&mut line, "  \"");
            extend_chars(&mut line, &kv);
            match sc {
                Scalar::Text(s) => {
                    push_lit(&mut line, "\" = \"");
                    let sv = chars_of(s.as_str());
                    extend_chars(&mut line, &sv);
                    push_lit(&mut line, "\"");
                    proof {
                        assert(line@ =~= "  \""@ + k@ + "\" = \""@ + s@ + "\""@);
                    }
                },
                Scalar::Num(n) => {
                    push_lit(&mut line, "\" = ");
                    let nv = chars_of(n.as_str());
                    extend_chars(&mut line, &nv);
                    proof {
                        assert(line@ =~= "  \""@ + k@ + "\" = "@ + n@);
                    }
                },
                Scalar::Flag(b) => {
                    push_lit(&mut line, "\" = ");
                    if *b {
                        push_lit(&mut line, "true");
                    } else {
                        push_lit(&mut line, "false");
                    }
                    proof {
                        assert(line@ =~= "  \""@ + k@ + "\" = "@ + bool_text(*b));
                    }
                },
            }
            Some(line)
        },
        FieldVal::Other => None,
    }
}

proof fn lemma_map_lines_snoc(obj: Seq<(Seq<char>, FieldValV)>, e: (Seq<char>, FieldValV))
    ensures
        map_lines(obj.push(e)) == map_lines(obj) + match map_entry_line(e.0, e.1) {
            Some(l) => seq![l],
            None => Seq::<Seq<char>>::empty(),
        },
    decreases obj.len(),
{
    if obj.len() == 0 {
        let p = obj.push(e);
        assert(p[0] == e);
        assert(p.drop_first() =~= Seq::<(Seq<char>, FieldValV)>::empty());
        assert(map_lines(p.drop_first()) == Seq::<Seq<char>>::empty());
        match map_entry_line(e.0, e.1) {
            Some(l) => {
                assert(map_entry_line(p[0].0, p[0].1) == Some(l));
                assert(map_lines(p) == seq![l] + map_lines(p.drop_first()));
                assert(map_lines(p) =~= map_lines(obj) + seq![l]);
            },
            None => {
                assert(map_entry_line(p[0].0, p[0].1) is None);
                assert(map_lines(p) == map_lines(p.drop_first()));
                assert(map_lines(p) =~= map_lines(obj));
            },
        }
    } else {
        assert(obj.push(e)[0] == obj[0]);
        assert(obj.push(e).drop_first() =~= obj.drop_first().push(e));
        lemma_map_lines_snoc(obj.drop_first(), e);
        match map_entry_line(e.0, e.1) {
            Some(l) => {
                assert(map_lines(obj.push(e)) =~= map_lines(obj) + seq![l]);
            },
            None => {
                assert(map_lines(obj.push(e)) =~= map_lines(obj));
            },
        }
    }
}

/// Render a map value as declarative text.
pub fn format_map(name: &Vec<char>, obj: &Vec<(String, FieldVal)>) -> (r: Vec<char>)
    ensures
        r@ == format_map_s(name@, obj.deep_view()),
{
    let ghost odv = obj.deep_view();
    if obj.len() == 0 {
        let mut r: Vec<char> = Vec::new();
        extend_chars(&mut r, name);
        push_lit(&mut r, " = {}");
        proof {
            assert(r@ =~= name@ + " = {}"@);
        }
        return r;
    }
    let mut lines: Vec<Vec<char>> = Vec::new();
    let mut hdr: Vec<char> = Vec::new();
    extend_chars(&mut hdr, name);
    push_lit(&mut hdr, " = {");
    proof {
        assert(hdr@ =~= name@ + " = {"@);
    }
    lines.push(hdr);
    proof {
        assert(odv.take(0) =~= Seq::<(Seq<char>, FieldValV)>::empty());
        assert(lines.deep_view() =~~= seq![name@ + " = {"@] + map_lines(odv.take(0)));
    }
    let mut i: usize = 0;
    while i < obj.len()
        invariant
            odv == obj.deep_view(),
            obj@.len() == odv.len(),
            i <= obj.len(),
            lines.deep_view() == seq![name@ + " = {"@] + map_lines(odv.take(i as int)),
        decreases obj.len() - i,
    {
        let ghost prev = lines.deep_view();
        proof {
            assert(odv[i as int] == obj@[i as int].deep_view());
            assert(odv.take(i + 1 as int) =~= odv.take(i as int).push(odv[i as int]));
            lemma_map_lines_snoc(odv.take(i as int), odv[i as int]);
        }
        if let Some(line) = map_entry_line_exec(&obj[i].0, &obj[i].1) {
            let ghost lv = line@;
            proof {
                assert(map_entry_line(odv[i as int].0, odv[i as int].1) == Some(lv));
                assert(map_lines(odv.take(i + 1 as int)) == map_lines(odv.take(i as int))
                    + seq![lv]);
            }
            lines.push(line);
            proof {
                assert(lines.deep_view() =~~= prev.push(lv));
                assert(prev.push(lv) =~= seq![name@ + " = {"@] + map_lines(
                    odv.take(i + 1 as int),
                ));
            }
        } else {
            proof {
                assert(map_entry_line(odv[i as int].0, odv[i as int].1) is None);
                assert(map_lines(odv.take(i + 1 as int)) == map_lines(odv.take(i as int)));
            }
        }
        i = i + 1;
    }
    let mut closing: Vec<char> = Vec::new();
    push_lit(&mut closing, "}");
    proof {
        assert(closing@ =~= "}"@);
    }
    lines.push(closing);
    proof {
        assert(odv.take(odv.len() as int) =~= odv);
        assert(lines.deep_view() =~~= seq![name@ + " = {"@] + map_lines(odv) + seq!["}"@]);
    }
    join_exec(&lines, "\n")
}

/// One object field line, executably.
fn obj_field_line_exec(k: &String, v: &FieldVal) -> (r: Option<Vec<char>>)
    ensures
        r.deep_view() == obj_field_line(k@, v@),
{
    let kv = chars_of(k.as_str());
    match v {
        FieldVal::Sc(sc) => {
            let mut line: Vec<char> = Vec::new();
            push_lit(&mut line, "    ");
            extend_chars(&mut line, &kv);
            match sc {
                Scalar::Text(s) => {
                    push_lit(&mut line, " = \"");
                    let sv = chars_of(s.as_str());
                    extend_chars(&mut line, &sv);
                    push_lit(&mut line, "\"");
                    proof {
                        assert(line@ =~= "    "@ + k@ + " = \""@ + s@ + "\""@);
                    }
                },
                Scalar::Num(n) => {
                    push_lit(&mut line, " = ");
                    let nv = chars_of(n.as_str());
                    extend_chars(&mut line, &nv);
                    proof {
                        assert(line@ =~= "    "@ + k@ + " = "@ + n@);
                    }
                },
                Scalar::Flag(b) => {
                    push_lit(&mut line, " = ");
                    if *b {
                        push_lit(&mut line, "true");
                    } else {
                        push_lit(&mut line, "false");
                    }
                    proof {
                        assert(line@ =~= "    "@ + k@ + " = "@ + bool_text(*b));
                    }
                },
            }
            Some(line)
        },
        FieldVal::Other => None,
    }
}

proof fn lemma_obj_field_lines_snoc(fields: Seq<(Seq<char>, FieldValV)>, e: (Seq<char>, FieldValV))
    ensures
        obj_field_lines(fields.push(e)) == obj_field_lines(fields) + match obj_field_line(
            e.0,
            e.1,
        ) {
            Some(l) => seq![l],
            None => Seq::<Seq<char>>::empty(),
        },
    decreases fields.len(),
{
    if fields.len() == 0 {
        let p = fields.push(e);
        assert(p[0] == e);
        assert(p.drop_first() =~= Seq::<(Seq<char>, FieldValV)>::empty());
        assert(obj_field_lines(p.drop_first()) == Seq::<Seq<char>>::empty());
        match obj_field_line(e.0, e.1) {
            Some(l) => {
                assert(obj_field_line(p[0].0, p[0].1) == Some(l));
                assert(obj_field_lines(p) == seq![l] + obj_field_lines(p.drop_first()));
                assert(obj_field_lines(p) =~= obj_field_lines(fields) + seq![l]);
            },
            None => {
                assert(obj_field_line(p[0].0, p[0].1) is None);
                assert(obj_field_lines(p) == obj_field_lines(p.drop_first()));
                assert(obj_field_lines(p) =~= obj_field_lines(fields));
            },
        }
    } else {
        assert(fields.push(e)[0] == fields[0]);
        assert(fields.push(e).drop_first() =~= fields.drop_first().push(e));
        lemma_obj_field_lines_snoc(fields.drop_first(), e);
        match obj_field_line(e.0, e.1) {
            Some(l) => {
                assert(obj_field_lines(fields.push(e)) =~= obj_field_lines(fields) + seq![l]);
            },
            None => {
                assert(obj_field_lines(fields.push(e)) =~= obj_field_lines(fields));
            },
        }
    }
}

/// One indented object block, executably.
fn obj_block_exec(fields: &Vec<(String, FieldVal)>) -> (r: Vec<char>)
    ensures
        r@ == obj_block(fields.deep_view()),
{
    let ghost fdv = fields.deep_view();
    let mut lines: Vec<Vec<char>> = Vec::new();
    proof {
        assert(fdv.take(0) =~= Seq::<(Seq<char>, FieldValV)>::empty());
        assert(lines.deep_view() =~~= obj_field_lines(fdv.take(0)));
    }
    let mut i: usize = 0;
    while i < fields.len()
        invariant
            fdv == fields.deep_view(),
            fields@.len() == fdv.len(),
            i <= fields.len(),
            lines.deep_view() == obj_field_lines(fdv.take(i as int)),
        decreases fields.len() - i,
    {
        let ghost prev = lines.deep_view();
        proof {
            assert(fdv[i as int] == fields@[i as int].deep_view());
            assert(fdv.take(i + 1 as int) =~= fdv.take(i as int).push(fdv[i as int]));
            lemma_obj_field_lines_snoc(fdv.take(i as int), fdv[i as int]);
        }
        if let Some(line) = obj_field_line_exec(&fields[i].0, &fields[i].1) {
            let ghost lv = line@;
            proof {
                assert(obj_field_line(fdv[i as int].0, fdv[i as int].1) == Some(lv));
            }
            lines.push(line);
            proof {
                assert(lines.deep_view() =~~= prev.push(lv));
                assert(prev.push(lv) =~= obj_field_lines(fdv.take(i + 1 as int)));
            }
        } else {
            proof {
                assert(obj_field_line(fdv[i as int].0, fdv[i as int].1) is None);
            }
        }
        i = i + 1;
    }
    proof {
        assert(fdv.take(fdv.len() as int) =~= fdv);
    }
    let body = join_exec(&lines, "\n");
    let mut r: Vec<char> = Vec::new();
    push_lit(&mut r, "  {\n");
    extend_chars(&mut r, &body);
    push_lit(&mut r, "\n  }");
    proof {
        assert(r@ =~= obj_block(fdv));
    }
    r
}

/// One list element rendered as a scalar, executably.
fn list_scalar_exec(it: &ListItem) -> (r: Vec<char>)
    ensures
        r@ == list_scalar_text(it@),
{
    let mut r: Vec<char> = Vec::new();
    match it {
        ListItem::Sc(sc) => match sc {
            Scalar::Text(s) => {
                push_lit(&mut r, "\"");
                let sv = chars_of(s.as_str());
                extend_chars(&mut r, &sv);
                push_lit(&mut r, "\"");
                proof {
                    assert(r@ =~= "\""@ + s@ + "\""@);
                }
            },
            Scalar::Num(n) => {
                let nv = chars_of(n.as_str());
                extend_chars(&mut r, &nv);
                proof {
                    assert(r@ =~= n@);
                }
            },
            Scalar::Flag(b) => {
                if *b {
                    push_lit(&mut r, "true");
                } else {
                    push_lit(&mut r, "false");
                }
                proof {
                    assert(r@ =~= bool_text(*b));
                }
            },
        },
        _ => {
            push_lit(&mut r, "null");
            proof {
                assert(r@ =~= "null"@);
            }
        },
    }
    r
}

proof fn lemma_obj_blocks_snoc(arr: Seq<ListItemV>, e: ListItemV)
    ensures
        obj_blocks(arr.push(e)) == obj_blocks(arr) + match e {
            ListItemV::Obj(fields) => seq![obj_block(fields)],
            _ => Seq::<Seq<char>>::empty(),
        },
    decreases arr.len(),
{
    if arr.len() == 0 {
        let p = arr.push(e);
        assert(p[0] == e);
        assert(p.drop_first() =~= Seq::<ListItemV>::empty());
        assert(obj_blocks(p.drop_first()) == Seq::<Seq<char>>::empty());
        match e {
            ListItemV::Obj(fields) => {
                assert(p[0] is Obj);
                assert(obj_blocks(p) == seq![obj_block(fields)] + obj_blocks(p.drop_first()));
                assert(obj_blocks(p) =~= obj_blocks(arr) + seq![obj_block(fields)]);
            },
            _ => {
                assert(!(p[0] is Obj));
                assert(obj_blocks(p) == obj_blocks(p.drop_first()));
                assert(obj_blocks(p) =~= obj_blocks(arr));
            },
        }
    } else {
        assert(arr.push(e)[0] == arr[0]);
        assert(arr.push(e).drop_first() =~= arr.drop_first().push(e));
        lemma_obj_blocks_snoc(arr.drop_first(), e);
        match e {
            ListItemV::Obj(fields) => {
                assert(obj_blocks(arr.push(e)) =~= obj_blocks(arr) + seq![obj_block(fields)]);
            },
            _ => {
                assert(obj_blocks(arr.push(e)) =~= obj_blocks(arr));
            },
        }
    }
}

/// Render a list value as declarative text.
pub fn format_list(name: &Vec<char>, arr: &Vec<ListItem>) -> (r: Vec<char>)
    ensures
        r@ == format_list_s(name@, arr.deep_view()),
{
    let ghost adv = arr.deep_view();
    let mut any_obj = false;
    let mut i: usize = 0;
    while i < arr.len()
        invariant
            adv == arr.deep_view(),
            arr@.len() == adv.len(),
            i <= arr.len(),
            any_obj == exists|k: int| 0 <= k < i && (#[trigger] adv[k]) is Obj,
        decreases arr.len() - i,
    {
        proof {
            assert(adv[i as int] == arr@[i as int].deep_view());
        }
        let is_obj = match &arr[i] {
            ListItem::Obj(_) => true,
            _ => false,
        };
        proof {
            if is_obj {
                assert(adv[i as int] is Obj);
            }
        }
        any_obj = any_obj || is_obj;
        i = i + 1;
    }
    proof {
        assert(any_obj == has_objects(adv));
    }
    if any_obj {
        let mut blocks: Vec<Vec<char>> = Vec::new();
        proof {
            assert(adv.take(0) =~= Seq::<ListItemV>::empty());
            assert(blocks.deep_view() =~~= obj_blocks(adv.take(0)));
        }
        let mut j: usize = 0;
        while j < arr.len()
            invariant
                adv == arr.deep_view(),
                arr@.len() == adv.len(),
                j <= arr.len(),
                blocks.deep_view() == obj_blocks(adv.take(j as int)),
            decreases arr.len() - j,
        {
            let ghost prev = blocks.deep_view();
            proof {
                assert(adv[j as int] == arr@[j as int].deep_view());
                assert(adv.take(j + 1 as int) =~= adv.take(j as int).push(adv[j as int]));
                lemma_obj_blocks_snoc(adv.take(j as int), adv[j as int]);
            }
            if let ListItem::Obj(fields) = &arr[j] {
                let block = obj_block_exec(fields);
                let ghost bv = block@;
                blocks.push(block);
                proof {
                    assert(blocks.deep_view() =~~= prev.push(bv));
                    assert(prev.push(bv) =~= obj_blocks(adv.take(j + 1 as int)));
                }
            }
            j = j + 1;
        }
        proof {
            assert(adv.take(adv.len() as int) =~= adv);
        }
        let body = join_exec(&blocks, ",\n");
        let mut r: Vec<char> = Vec::new();
        extend_chars(&mut r, name);
        push_lit(&mut r, " = [\n");
        extend_chars(&mut r, &body);
        push_lit(&mut r, "\n]");
        proof {
            assert(r@ =~= format_list_s(name@, adv));
        }
        r
    } else {
        let mut items: Vec<Vec<char>> = Vec::new();
        proof {
            assert(adv.take(0) =~= Seq::<ListItemV>::empty());
            assert(items.deep_view() =~~= scalar_items(adv.take(0)));
        }
        let mut j: usize = 0;
        while j < arr.len()
            invariant
                adv == arr.deep_view(),
                arr@.len() == adv.len(),
                j <= arr.len(),
                items.deep_view() == scalar_items(adv.take(j as int)),
            decreases arr.len() - j,
        {
            let ghost prev = items.deep_view();
            proof {
                assert(adv[j as int] == arr@[j as int].deep_view());
            }
            let item = list_scalar_exec(&arr[j]);
            let ghost iv = item@;
            items.push(item);
            proof {
                assert(items.deep_view() =~~= prev.push(iv));
                assert(prev.push(iv) =~= scalar_items(adv.take(j + 1 as int)));
            }
            j = j + 1;
        }
        proof {
            assert(adv.take(adv.len() as int) =~= adv);
        }
        let body = join_exec(&items, ", ");
        let mut r: Vec<char> = Vec::new();
        extend_chars(&mut r, name);
        push_lit(&mut r, " = [");
        extend_chars(&mut r, &body);
        push_lit(&mut r, "]");
        proof {
            assert(r@ =~= format_list_s(name@, adv));
        }
        r
    }
}

// ─── Per-variable rendering ─────────────────────────────────────────────────

/// The text a string value yields under the declared type: map- and
/// list-typed strings are parsed as JSON (with an empty-literal fallback),
/// boolean-looking strings under `bool` print unquoted, everything else is
/// a quoted scalar.
pub open spec fn render_text_var(name: Seq<char>, s: Seq<char>, ty: Seq<char>) -> Seq<char> {
    let lt = lower_seq(ty);
    if starts_with_s(lt, "map"@) || contains_seq_s(lt, "map("@) {
        match json_object_entries(s) {
            Some(obj) => format_map_s(name, obj),
            None => if trimmed(s).len() == 0 || trimmed(s) == "{}"@ {
                name + " = {}"@
            } else {
                quoted_line(name, s)
            },
        }
    } else if starts_with_s(lt, "list"@) || contains_seq_s(lt, "list("@) {
        match json_array_items(s) {
            Some(arr) => format_list_s(name, arr),
            None => if trimmed(s).len() == 0 || trimmed(s) == "[]"@ {
                name + " = []"@
            } else {
                quoted_line(name, s)
            },
        }
    } else if lt == "bool"@ {
        let ls = lower_seq(s);
        if ls == "true"@ || ls == "false"@ {
            name + " = "@ + ls
        } else {
            quoted_line(name, s)
        }
    } else {
        quoted_line(name, s)
    }
}

/// The assignment emitted for one variable, absent when the variable has no
/// value, the value is a skipped kind, or an empty string stands for a
/// required variable.
pub open spec fn render_var(values: Seq<(Seq<char>, ValueV)>, v: VarView) -> Option<Seq<char>> {
    match lookup(values, v.name) {
        None => None,
        Some(val) => match val {
            ValueV::Text(s) => if trimmed(s).len() == 0 && v.default is None {
                None
            } else {
                Some(render_text_var(v.name, s, v.var_type))
            },
            ValueV::Flag(b) => Some(v.name + " = "@ + bool_text(b)),
            ValueV::Num(n) => Some(v.name + " = "@ + n),
            ValueV::List(arr) => Some(format_list_s(v.name, arr)),
            ValueV::Obj(obj) => Some(format_map_s(v.name, obj)),
            ValueV::Null => None,
        },
    }
}

/// The emitted assignments, in schema order.
pub open spec fn render_entries(values: Seq<(Seq<char>, ValueV)>, schema: Seq<VarView>) -> Seq<
    Seq<char>,
>
    decreases schema.len(),
{
    if schema.len() == 0 {
        Seq::empty()
    } else {
        let rest = render_entries(values, schema.drop_first());
        match render_var(values, schema[0]) {
            Some(l) => seq![l] + rest,
            None => rest,
        }
    }
}

/// The whole generated text: the assignments joined by newlines, with no
/// trailing newline.
pub open spec fn render_tfvars(values: Seq<(Seq<char>, ValueV)>, schema: Seq<VarView>) -> Seq<
    char,
> {
    join_with(render_entries(values, schema), "\n"@)
}

proof fn lemma_render_entries_snoc(values: Seq<(Seq<char>, ValueV)>, schema: Seq<VarView>, v: VarView)
    ensures
        render_entries(values, schema.push(v)) == render_entries(values, schema) + match render_var(
            values,
            v,
        ) {
            Some(l) => seq![l],
            None => Seq::<Seq<char>>::empty(),
        },
    decreases schema.len(),
{
    if schema.len() == 0 {
        let p = schema.push(v);
        assert(p[0] == v);
        assert(p.drop_first() =~= Seq::<VarView>::empty());
        assert(render_entries(values, p.drop_first()) == Seq::<Seq<char>>::empty());
        match render_var(values, v) {
            Some(l) => {
                assert(render_var(values, p[0]) == Some(l));
                assert(render_entries(values, p) == seq![l] + render_entries(
                    values,
                    p.drop_first(),
                ));
                assert(render_entries(values, p) =~= render_entries(values, schema) + seq![l]);
            },
            None => {
                assert(render_var(values, p[0]) is None);
                assert(render_entries(values, p) == render_entries(values, p.drop_first()));
                assert(render_entries(values, p) =~= render_entries(values, schema));
            },
        }
    } else {
        assert(schema.push(v)[0] == schema[0]);
        assert(schema.push(v).drop_first() =~= schema.drop_first().push(v));
        lemma_render_entries_snoc(values, schema.drop_first(), v);
        match render_var(values, v) {
            Some(l) => {
                assert(render_entries(values, schema.push(v)) =~= render_entries(values, schema)
                    + seq![l]);
            },
            None => {
                assert(render_entries(values, schema.push(v)) =~= render_entries(values, schema));
            },
        }
    }
}

/// The assignment for one variable, executably.
fn render_var_exec(values: &ValueMap, v: &TerraformVariable) -> (r: Option<Vec<char>>)
    ensures
        r.deep_view() == render_var(values@, v@),
{
    let name = chars_of(v.name.as_str());
    match values.get(v.name.as_str()) {
        None => None,
        Some(val) => match val {
            Value::Text(s) => {
                let sv = chars_of(s.as_str());
                let st = trim(&sv);
                if st.len() == 0 && v.default.is_none() {
                    None
                } else {
                    let tyv = chars_of(v.var_type.as_str());
                    let lt = lower(&tyv);
                    if starts_with(&lt, &chars_of("map")) || contains_seq(&lt, &chars_of("map(")) {
                        match parse_json_object(s.as_str()) {
                            Some(obj) => Some(format_map(&name, &obj)),
                            None => {
                                if st.len() == 0 || eq_chars(&st, &chars_of("{}")) {
                                    let mut r: Vec<char> = Vec::new();
                                    extend_chars(&mut r, &name);
                                    push_lit(&mut r, " = {}");
                                    proof {
                                        assert(r@ =~= v@.name + " = {}"@);
                                    }
                                    Some(r)
                                } else {
                                    Some(quoted_exec(&name, &sv))
                                }
                            },
                        }
                    } else if starts_with(&lt, &chars_of("list")) || contains_seq(
                        &lt,
                        &chars_of("list("),
                    ) {
                        match parse_json_array(s.as_str()) {
                            Some(arr) => Some(format_list(&name, &arr)),
                            None => {
                                if st.len() == 0 || eq_chars(&st, &chars_of("[]")) {
                                    let mut r: Vec<char> = Vec::new();
                                    extend_chars(&mut r, &name);
                                    push_lit(&mut r, " = []");
                                    proof {
                                        assert(r@ =~= v@.name + " = []"@);
                                    }
                                    Some(r)
                                } else {
                                    Some(quoted_exec(&name, &sv))
                                }
                            },
                        }
                    } else if eq_chars(&lt, &chars_of("bool")) {
                        let ls = lower(&sv);
                        if eq_chars(&ls, &chars_of("true")) || eq_chars(&ls, &chars_of("false")) {
                            let mut r: Vec<char> = Vec::new();
                            extend_chars(&mut r, &name);
                            push_lit(&mut r, " = ");
                            extend_chars(&mut r, &ls);
                            proof {
                                assert(r@ =~= v@.name + " = "@ + lower_seq(s@));
                            }
                            Some(r)
                        } else {
                            Some(quoted_exec(&name, &sv))
                        }
                    } else {
                        Some(quoted_exec(&name, &sv))
                    }
                }
            },
            Value::Flag(b) => {
                let mut r: Vec<char> = Vec::new();
                extend_chars(&mut r, &name);
                push_lit(&mut r, " = ");
                if *b {
                    push_lit(&mut r, "true");
                } else {
                    push_lit(&mut r, "false");
                }
                proof {
                    assert(r@ =~= v@.name + " = "@ + bool_text(*b));
                }
                Some(r)
            },
            Value::Num(n) => {
                let mut r: Vec<char> = Vec::new();
                extend_chars(&mut r, &name);
                push_lit(&mut r, " = ");
                let nv = chars_of(n.as_str());
                extend_chars(&mut r, &nv);
                proof {
                    assert(r@ =~= v@.name + " = "@ + n@);
                }
                Some(r)
            },
            Value::List(arr) => Some(format_list(&name, arr)),
            Value::Obj(obj) => Some(format_map(&name, obj)),
            Value::Null => None,
        },
    }
}

/// `name = "value"`, executably.
fn quoted_exec(name: &Vec<char>, s: &Vec<char>) -> (r: Vec<char>)
    ensures
        r@ == quoted_line(name@, s@),
{
    let mut r: Vec<char> = Vec::new();
    extend_chars(&mut r, name);
    push_lit(&mut r, " = \"");
    extend_chars(&mut r, s);
    push_lit(&mut r, "\"");
    proof {
        assert(r@ =~= quoted_line(name@, s@));
    }
    r
}

/// Serialize a value map against a schema: each declared variable with a
/// value is emitted in schema order under the serializer's typing rules;
/// the result is exactly `render_tfvars` of the inputs.
pub fn generate_tfvars(values: &ValueMap, variables: &Vec<TerraformVariable>) -> (r: String)
    ensures
        r@ == render_tfvars(values@, variables.deep_view()),
{
    let ghost vdv = variables.deep_view();
    let mut entries: Vec<Vec<char>> = Vec::new();
    proof {
        assert(vdv.take(0) =~= Seq::<VarView>::empty());
        assert(entries.deep_view() =~~= render_entries(values@, vdv.take(0)));
    }
    let mut i: usize = 0;
    while i < variables.len()
        invariant
            vdv == variables.deep_view(),
            variables@.len() == vdv.len(),
            i <= variables.len(),
            entries.deep_view() == render_entries(values@, vdv.take(i as int)),
        decreases variables.len() - i,
    {
        let ghost prev = entries.deep_view();
        proof {
            assert(vdv[i as int] == variables@[i as int].deep_view());
            assert(vdv.take(i + 1 as int) =~= vdv.take(i as int).push(vdv[i as int]));
            lemma_render_entries_snoc(values@, vdv.take(i as int), vdv[i as int]);
        }
        if let Some(entry) = render_var_exec(values, &variables[i]) {
            let ghost ev = entry@;
            proof {
                assert(render_var(values@, vdv[i as int]) == Some(ev));
            }
            entries.push(entry);
            proof {
                assert(entries.deep_view() =~~= prev.push(ev));
                assert(prev.push(ev) =~= render_entries(values@, vdv.take(i + 1 as int)));
            }
        } else {
            proof {
                assert(render_var(values@, vdv[i as int]) is None);
            }
        }
        i = i + 1;
    }
    proof {
        assert(vdv.take(vdv.len() as int) =~= vdv);
    }
    let joined = join_exec(&entries, "\n");
    string_from_chars(&joined)
}

/// Serialization is deterministic: two runs over the same value map and the
/// same schema yield byte-identical text.
pub proof fn lemma_generate_deterministic(
    out1: Seq<char>,
    out2: Seq<char>,
    values: Seq<(Seq<char>, ValueV)>,
    schema: Seq<VarView>,
)
    requires
        out1 == render_tfvars(values, schema),
        out2 == render_tfvars(values, schema),
    ensures
        out1 == out2,
{
}

} // verus!
