//! Round-trip law: serializing a value map and re-reading the text with the
//! tolerant reader recovers the serialized values.
//!
//! The law is stated for plainly-named, string-typed variables whose string
//! values carry no quotes or newlines: exactly the assignments the
//! serializer emits as single `name = "value"` lines. Values the serializer
//! re-shapes (map, list and boolean typed strings, skipped empties) do not
//! read back verbatim and stay outside the law.

use vstd::prelude::*;

use crate::reader::{parse_lines, parse_tfvars_spec, strip_lead_q, strip_quotes, strip_trail_q};
use crate::schema::VarView;
use crate::text::{
    contains_seq_s, is_space_char, lines_of, lower_seq, split_rec, starts_with_s, strip_cr,
    trim_front, trimmed,
};
use crate::tfvars::{
    join_with, quoted_line, render_entries, render_text_var, render_tfvars, render_var,
};
use crate::value::{lookup, ValueV};

verus! {

// ─── The inputs the law speaks of ───────────────────────────────────────────

/// A name the reader splits back out unchanged: non-empty, no surrounding
/// whitespace, not a comment opener, and free of `=` and newlines.
pub open spec fn plain_name(n: Seq<char>) -> bool {
    n.len() > 0 && !is_space_char(n[0]) && !is_space_char(n[n.len() - 1]) && n[0] != '#' && forall|
        i: int,
    |
        0 <= i < n.len() ==> #[trigger] n[i] != '=' && n[i] != '\n'
}

/// A string value the serializer quotes verbatim and the reader unquotes
/// verbatim: not all whitespace, and free of quotes and newlines.
pub open spec fn plain_text(s: Seq<char>) -> bool {
    trimmed(s).len() > 0 && forall|i: int|
        0 <= i < s.len() ==> #[trigger] s[i] != '"' && s[i] != '\n'
}

/// A declared type under which a string value is emitted as a plain quoted
/// scalar: not map-like, not list-like, not `bool`.
pub open spec fn plain_string_type(ty: Seq<char>) -> bool {
    let lt = lower_seq(ty);
    !starts_with_s(lt, "map"@) && !contains_seq_s(lt, "map("@) && !starts_with_s(lt, "list"@)
        && !contains_seq_s(lt, "list("@) && lt != "bool"@
}

/// One variable within the law: plainly named, plainly typed, bound to a
/// plain string value.
pub open spec fn round_trip_var(values: Seq<(Seq<char>, ValueV)>, v: VarView) -> bool {
    &&& plain_name(v.name)
    &&& plain_string_type(v.var_type)
    &&& match lookup(values, v.name) {
        Some(val) => match val {
            ValueV::Text(s) => plain_text(s),
            _ => false,
        },
        None => false,
    }
}

/// The string bound to a name, where one is.
pub open spec fn text_of(values: Seq<(Seq<char>, ValueV)>, name: Seq<char>) -> Seq<char> {
    match lookup(values, name) {
        Some(val) => match val {
            ValueV::Text(s) => s,
            _ => Seq::empty(),
        },
        None => Seq::empty(),
    }
}

/// The bindings serialization writes, folded over the schema in order.
pub open spec fn serialized_bindings(
    values: Seq<(Seq<char>, ValueV)>,
    schema: Seq<VarView>,
    acc: Map<Seq<char>, Seq<char>>,
) -> Map<Seq<char>, Seq<char>>
    decreases schema.len(),
{
    if schema.len() == 0 {
        acc
    } else {
        serialized_bindings(
            values,
            schema.drop_first(),
            acc.insert(schema[0].name, text_of(values, schema[0].name)),
        )
    }
}

// ─── The shape of one emitted line ──────────────────────────────────────────

proof fn lemma_quoted_line_chars(n: Seq<char>, s: Seq<char>)
    ensures
        quoted_line(n, s).len() == n.len() + s.len() + 5,
        forall|i: int| 0 <= i < n.len() ==> quoted_line(n, s)[i] == n[i],
        quoted_line(n, s)[n.len() as int] == ' ',
        quoted_line(n, s)[n.len() + 1int] == '=',
        quoted_line(n, s)[n.len() + 2int] == ' ',
        quoted_line(n, s)[n.len() + 3int] == '"',
        forall|i: int| 0 <= i < s.len() ==> quoted_line(n, s)[n.len() + 4 + i] == s[i],
        quoted_line(n, s)[n.len() + s.len() + 4int] == '"',
{
    reveal_strlit(" = \"");
    reveal_strlit("\"");
    assert(" = \""@.len() == 4);
    assert(" = \""@[0] == ' ' && " = \""@[1] == '=' && " = \""@[2] == ' ' && " = \""@[3] == '"');
    assert("\""@.len() == 1 && "\""@[0] == '"');
}

/// A line the joiner and splitter pass through unchanged.
pub open spec fn good_line(l: Seq<char>) -> bool {
    l.len() > 0 && l[l.len() - 1] != '\r' && forall|i: int| 0 <= i < l.len() ==> l[i] != '\n'
}

proof fn lemma_quoted_line_good(n: Seq<char>, s: Seq<char>)
    requires
        plain_name(n),
        plain_text(s),
    ensures
        good_line(quoted_line(n, s)),
{
    lemma_quoted_line_chars(n, s);
    let l = quoted_line(n, s);
    assert forall|i: int| 0 <= i < l.len() implies l[i] != '\n' by {
        if i < n.len() {
            assert(l[i] == n[i]);
        } else if n.len() + 4 <= i < n.len() + 4 + s.len() {
            assert(l[i] == s[i - n.len() - 4]);
        }
    }
    assert(l[l.len() - 1] == '"');
}

// ─── Reading one emitted line ───────────────────────────────────────────────

proof fn lemma_strip_lead_q_quote(x: Seq<char>)
    ensures
        strip_lead_q(seq!['"'] + x) == strip_lead_q(x),
{
    assert((seq!['"'] + x)[0] == '"');
    assert((seq!['"'] + x).drop_first() =~= x);
}

proof fn lemma_strip_trail_q_quote(x: Seq<char>)
    ensures
        strip_trail_q(x + seq!['"']) == strip_trail_q(x),
{
    assert((x + seq!['"']).last() == '"');
    assert((x + seq!['"']).drop_last() =~= x);
}

proof fn lemma_strip_quotes_plain(s: Seq<char>)
    requires
        s.len() > 0,
        s[0] != '"',
        s[s.len() - 1] != '"',
    ensures
        strip_quotes(seq!['"'] + s + seq!['"']) == s,
{
    assert(seq!['"'] + s + seq!['"'] =~= seq!['"'] + (s + seq!['"']));
    lemma_strip_lead_q_quote(s + seq!['"']);
    assert((s + seq!['"'])[0] == s[0]);
    assert(strip_lead_q(s + seq!['"']) == s + seq!['"']);
    lemma_strip_trail_q_quote(s);
    assert(strip_trail_q(s) == s);
}

/// Reading the line `name = "value"` binds the name to the value and moves
/// on.
proof fn lemma_parse_one_line(
    n: Seq<char>,
    s: Seq<char>,
    rest: Seq<Seq<char>>,
    acc: Map<Seq<char>, Seq<char>>,
)
    requires
        plain_name(n),
        plain_text(s),
    ensures
        parse_lines(seq![quoted_line(n, s)] + rest, acc) == parse_lines(rest, acc.insert(n, s)),
{
    crate::text::lemma_trimmed_len(s);
    lemma_quoted_line_chars(n, s);
    let all = seq![quoted_line(n, s)] + rest;
    let l = quoted_line(n, s);
    assert(all[0] == l);
    assert(all.drop_first() =~= rest);

    // the line is already trimmed
    crate::text::lemma_trim_front_at(l, 0);
    assert(l.skip(0) =~= l);
    assert(!is_space_char(l[l.len() - 1])) by {
        assert(l[l.len() - 1] == '"');
    }
    crate::text::lemma_trim_back_at(l, l.len() as int);
    assert(l.take(l.len() as int) =~= l);
    assert(trimmed(l) == l);

    // the first `=` sits right after the name
    crate::text::lemma_find_in_first(l, '=');
    let p = n.len() as int + 1;
    assert(l[p] == '=');
    let fi = crate::text::find_in(l, '=');
    assert(fi is Some);
    let i = fi.unwrap();
    assert(l[i] == '=');
    assert forall|k: int| 0 <= k < p implies l[k] != '=' by {
        if k < n.len() {
            assert(l[k] == n[k]);
        } else {
            assert(l[k] == ' ');
        }
    }
    assert(i == p);

    // the key is the name
    assert(l.take(p) =~= n + seq![' ']);
    crate::text::lemma_trim_front_at(n + seq![' '], 0);
    assert((n + seq![' ']).skip(0) =~= n + seq![' ']);
    assert(forall|k: int|
        n.len() <= k < (n + seq![' ']).len() ==> is_space_char((n + seq![' '])[k]));
    assert((n + seq![' '])[n.len() - 1] == n[n.len() - 1]);
    crate::text::lemma_trim_back_at(n + seq![' '], n.len() as int);
    assert((n + seq![' ']).take(n.len() as int) =~= n);
    assert(trimmed(l.take(p)) == n);

    // the value text is the quoted string
    let w = l.skip(p + 1);
    assert(w.len() == s.len() + 3);
    assert(w[0] == ' ');
    assert(w[1] == '"');
    assert(forall|k: int| 0 <= k < s.len() ==> w[2 + k] == s[k]);
    assert(w[w.len() - 1] == '"');
    crate::text::lemma_trim_front_at(w, 1);
    let v = w.skip(1);
    assert(trim_front(w) == v);
    assert(v[v.len() - 1] == '"');
    crate::text::lemma_trim_back_at(v, v.len() as int);
    assert(v.take(v.len() as int) =~= v);
    assert(trimmed(w) == v);
    assert(v =~= seq!['"'] + s + seq!['"']);
    assert(v[0] == '"');
    assert(v[0] != '{' && v[0] != '[');

    // unquoting recovers the value
    assert(s[0] != '"' && s[s.len() - 1] != '"');
    lemma_strip_quotes_plain(s);
    assert(strip_quotes(v) == s);

    // the line is neither blank nor a comment
    assert(trimmed(l).len() > 0);
    assert(trimmed(l)[0] == n[0]);
    assert(n[0] != '#');
}

// ─── Splitting the joined text back into its lines ──────────────────────────

proof fn lemma_split_no_newline(a: Seq<char>, rest: Seq<char>, cur: Seq<char>)
    requires
        forall|i: int| 0 <= i < a.len() ==> #[trigger] a[i] != '\n',
    ensures
        split_rec(a + rest, cur) == split_rec(rest, cur + a),
    decreases a.len(),
{
    if a.len() == 0 {
        assert(a + rest =~= rest);
        assert(cur + a =~= cur);
    } else {
        assert((a + rest)[0] == a[0]);
        assert((a + rest).drop_first() =~= a.drop_first() + rest);
        lemma_split_no_newline(a.drop_first(), rest, cur.push(a[0]));
        assert(cur.push(a[0]) + a.drop_first() =~= cur + a);
    }
}

/// Splitting the newline-join of well-shaped lines gives back the lines.
proof fn lemma_lines_of_join(parts: Seq<Seq<char>>)
    requires
        forall|i: int| 0 <= i < parts.len() ==> good_line(#[trigger] parts[i]),
    ensures
        lines_of(join_with(parts, "\n"@)) == parts,
    decreases parts.len(),
{
    reveal_strlit("\n");
    assert("\n"@ =~= seq!['\n']);
    if parts.len() == 0 {
        assert(lines_of(Seq::<char>::empty()) =~= Seq::<Seq<char>>::empty());
    } else if parts.len() == 1 {
        let a = parts[0];
        assert(join_with(parts, "\n"@) == a);
        assert(a =~= a + Seq::<char>::empty());
        lemma_split_no_newline(a, Seq::empty(), Seq::empty());
        assert(split_rec(a + Seq::<char>::empty(), Seq::<char>::empty()) == split_rec(
            Seq::<char>::empty(),
            Seq::<char>::empty() + a,
        ));
        assert(Seq::<char>::empty() + a =~= a);
        assert(a.len() > 0);
        assert(strip_cr(a) == a);
        assert(split_rec(Seq::<char>::empty(), a) == seq![a]);
        assert(lines_of(a) =~= parts);
    } else {
        let a = parts[0];
        let jr = join_with(parts.drop_first(), "\n"@);
        assert(join_with(parts, "\n"@) == a + "\n"@ + jr);
        assert(a + "\n"@ + jr =~= a + (seq!['\n'] + jr));
        lemma_split_no_newline(a, seq!['\n'] + jr, Seq::empty());
        assert(Seq::<char>::empty() + a =~= a);
        let tail = seq!['\n'] + jr;
        assert(tail[0] == '\n');
        assert(tail.drop_first() =~= jr);
        assert(split_rec(tail, a) == seq![strip_cr(a)] + split_rec(jr, Seq::<char>::empty()));
        assert(strip_cr(a) == a);
        lemma_lines_of_join(parts.drop_first());
        assert(seq![a] + parts.drop_first() =~= parts);
    }
}

// ─── The emitted entries under the law's conditions ─────────────────────────

proof fn lemma_render_entries_plain(values: Seq<(Seq<char>, ValueV)>, schema: Seq<VarView>)
    requires
        forall|i: int| 0 <= i < schema.len() ==> round_trip_var(values, #[trigger] schema[i]),
    ensures
        render_entries(values, schema) == Seq::new(
            schema.len(),
            |i: int| quoted_line(schema[i].name, text_of(values, schema[i].name)),
        ),
    decreases schema.len(),
{
    if schema.len() == 0 {
        assert(render_entries(values, schema) =~= Seq::new(
            schema.len(),
            |i: int| quoted_line(schema[i].name, text_of(values, schema[i].name)),
        ));
    } else {
        let v = schema[0];
        let s = text_of(values, v.name);
        assert(round_trip_var(values, v));
        assert(render_var(values, v) == Some(quoted_line(v.name, s))) by {
            assert(render_text_var(v.name, s, v.var_type) == quoted_line(v.name, s));
        }
        lemma_render_entries_plain(values, schema.drop_first());
        assert(forall|i: int|
            0 <= i < schema.drop_first().len() ==> schema.drop_first()[i] == schema[i + 1]);
        assert(render_entries(values, schema) =~= Seq::new(
            schema.len(),
            |i: int| quoted_line(schema[i].name, text_of(values, schema[i].name)),
        ));
    }
}

// ─── Folding the parse over the emitted lines ───────────────────────────────

proof fn lemma_parse_emitted(values: Seq<(Seq<char>, ValueV)>, schema: Seq<VarView>, acc: Map<
    Seq<char>,
    Seq<char>,
>)
    requires
        forall|i: int| 0 <= i < schema.len() ==> round_trip_var(values, #[trigger] schema[i]),
    ensures
        parse_lines(render_entries(values, schema), acc) == serialized_bindings(
            values,
            schema,
            acc,
        ),
    decreases schema.len(),
{
    if schema.len() > 0 {
        let v = schema[0];
        let s = text_of(values, v.name);
        assert(round_trip_var(values, v));
        assert(render_var(values, v) == Some(quoted_line(v.name, s))) by {
            assert(render_text_var(v.name, s, v.var_type) == quoted_line(v.name, s));
        }
        let rest = render_entries(values, schema.drop_first());
        assert(render_entries(values, schema) == seq![quoted_line(v.name, s)] + rest);
        lemma_parse_one_line(v.name, s, rest, acc);
        assert(forall|i: int|
            0 <= i < schema.drop_first().len() ==> round_trip_var(
                values,
                #[trigger] schema.drop_first()[i],
            ));
        lemma_parse_emitted(values, schema.drop_first(), acc.insert(v.name, s));
    }
}

proof fn lemma_serialized_preserves(
    values: Seq<(Seq<char>, ValueV)>,
    schema: Seq<VarView>,
    acc: Map<Seq<char>, Seq<char>>,
    k: Seq<char>,
)
    requires
        acc.dom().contains(k),
        acc[k] == text_of(values, k),
    ensures
        serialized_bindings(values, schema, acc).dom().contains(k),
        serialized_bindings(values, schema, acc)[k] == text_of(values, k),
    decreases schema.len(),
{
    if schema.len() > 0 {
        lemma_serialized_preserves(
            values,
            schema.drop_first(),
            acc.insert(schema[0].name, text_of(values, schema[0].name)),
            k,
        );
    }
}

proof fn lemma_serialized_bindings_at(
    values: Seq<(Seq<char>, ValueV)>,
    schema: Seq<VarView>,
    acc: Map<Seq<char>, Seq<char>>,
    i: int,
)
    requires
        0 <= i < schema.len(),
    ensures
        serialized_bindings(values, schema, acc).dom().contains(schema[i].name),
        serialized_bindings(values, schema, acc)[schema[i].name] == text_of(
            values,
            schema[i].name,
        ),
    decreases schema.len(),
{
    if i == 0 {
        lemma_serialized_preserves(
            values,
            schema.drop_first(),
            acc.insert(schema[0].name, text_of(values, schema[0].name)),
            schema[0].name,
        );
    } else {
        lemma_serialized_bindings_at(
            values,
            schema.drop_first(),
            acc.insert(schema[0].name, text_of(values, schema[0].name)),
            i - 1,
        );
    }
}

// ─── The law ────────────────────────────────────────────────────────────────

/// Round-trip: for plainly-named, string-typed variables bound to plain
/// string values, re-reading the serialized text recovers exactly the
/// serialized bindings — every schema variable's name maps back to the
/// string that was written for it.
pub proof fn lemma_tfvars_round_trip(values: Seq<(Seq<char>, ValueV)>, schema: Seq<VarView>)
    requires
        forall|i: int| 0 <= i < schema.len() ==> round_trip_var(values, #[trigger] schema[i]),
    ensures
        parse_tfvars_spec(render_tfvars(values, schema)) == serialized_bindings(
            values,
            schema,
            Map::empty(),
        ),
        forall|i: int|
            0 <= i < schema.len() ==> parse_tfvars_spec(render_tfvars(values, schema)).dom().contains(
                (#[trigger] schema[i]).name,
            ) && parse_tfvars_spec(render_tfvars(values, schema))[schema[i].name] == text_of(
                values,
                schema[i].name,
            ),
{
    let entries = render_entries(values, schema);
    lemma_render_entries_plain(values, schema);
    assert forall|i: int| 0 <= i < entries.len() implies good_line(#[trigger] entries[i]) by {
        let v = schema[i];
        assert(round_trip_var(values, v));
        lemma_quoted_line_good(v.name, text_of(values, v.name));
        assert(entries[i] == quoted_line(v.name, text_of(values, v.name)));
    }
    lemma_lines_of_join(entries);
    lemma_parse_emitted(values, schema, Map::empty());
    assert forall|i: int| 0 <= i < schema.len() implies serialized_bindings(
        values,
        schema,
        Map::<Seq<char>, Seq<char>>::empty(),
    ).dom().contains((#[trigger] schema[i]).name) && serialized_bindings(
        values,
        schema,
        Map::<Seq<char>, Seq<char>>::empty(),
    )[schema[i].name] == text_of(values, schema[i].name) by {
        lemma_serialized_bindings_at(values, schema, Map::empty(), i);
    }
}

} // verus!
