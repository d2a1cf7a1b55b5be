//! Template-level variable handling: hiding the variables the application
//! sets automatically, and previewing a deployment's variable values for
//! an example file with sensitive values masked.

use vstd::prelude::*;

use crate::reader::TfvarsMap;
use crate::schema::{TerraformVariable, VarView};
use crate::text::{chars_of, eq_chars, extend_chars, string_from_chars};

verus! {

broadcast use crate::text::lemma_vec_char_deep_view;

// ─── Internal variables ─────────────────────────────────────────────────────

/// Whether a variable is set automatically by the application and hidden
/// from the caller's form.
pub open spec fn is_internal_variable(name: Seq<char>) -> bool {
    name == "gcp_auth_method"@ || name == "google_credentials_json"@
}

/// The descriptors that are not internal, in order.
pub open spec fn visible_variables(vs: Seq<VarView>) -> Seq<VarView>
    decreases vs.len(),
{
    if vs.len() == 0 {
        Seq::empty()
    } else {
        let rest = visible_variables(vs.drop_first());
        if is_internal_variable(vs[0].name) {
            rest
        } else {
            seq![vs[0]] + rest
        }
    }
}

proof fn lemma_visible_variables_snoc(vs: Seq<VarView>, v: VarView)
    ensures
        visible_variables(vs.push(v)) == visible_variables(vs) + if is_internal_variable(v.name) {
            Seq::<VarView>::empty()
        } else {
            seq![v]
        },
    decreases vs.len(),
{
    if vs.len() == 0 {
        let q = vs.push(v);
        assert(q[0] == v);
        assert(q.drop_first() =~= Seq::<VarView>::empty());
        assert(visible_variables(q.drop_first()) == Seq::<VarView>::empty());
        if is_internal_variable(v.name) {
            assert(visible_variables(q) == visible_variables(q.drop_first()));
            assert(visible_variables(q) =~= visible_variables(vs));
        } else {
            assert(visible_variables(q) == seq![q[0]] + visible_variables(q.drop_first()));
            assert(visible_variables(q) =~= visible_variables(vs) + seq![v]);
        }
    } else {
        assert(vs.push(v)[0] == vs[0]);
        assert(vs.push(v).drop_first() =~= vs.drop_first().push(v));
        lemma_visible_variables_snoc(vs.drop_first(), v);
        if is_internal_variable(v.name) {
            assert(visible_variables(vs.push(v)) =~= visible_variables(vs));
        } else {
            assert(visible_variables(vs.push(v)) =~= visible_variables(vs) + seq![v]);
        }
    }
}

/// Drop the variables the application sets automatically, keeping the
/// declaration order of the rest.
pub fn filter_internal_variables(variables: Vec<TerraformVariable>) -> (r: Vec<TerraformVariable>)
    ensures
        r.deep_view() == visible_variables(variables.deep_view()),
{
    let ghost vdv = variables.deep_view();
    let mut variables = variables;
    let mut out: Vec<TerraformVariable> = Vec::new();
    let mut i: usize = 0;
    proof {
        assert(vdv.take(0) =~= Seq::<VarView>::empty());
        assert(out.deep_view() =~~= visible_variables(vdv.take(0)));
    }
    while i < variables.len()
        invariant
            vdv == variables.deep_view(),
            variables@.len() == vdv.len(),
            i <= variables.len(),
            out.deep_view() == visible_variables(vdv.take(i as int)),
        decreases variables.len() - i,
    {
        let ghost prev = out.deep_view();
        proof {
            assert(vdv[i as int] == variables@[i as int]@);
            assert(vdv.take(i + 1 as int) =~= vdv.take(i as int).push(vdv[i as int]));
            lemma_visible_variables_snoc(vdv.take(i as int), vdv[i as int]);
        }
        let nv = chars_of(variables[i].name.as_str());
        let internal = eq_chars(&nv, &chars_of("gcp_auth_method")) || eq_chars(
            &nv,
            &chars_of("google_credentials_json"),
        );
        if !internal {
            let v = variables[i].duplicate();
            out.push(v);
            proof {
                assert(out.deep_view() =~~= prev.push(vdv[i as int]));
                assert(prev.push(vdv[i as int]) =~= visible_variables(vdv.take(i + 1 as int)));
            }
        }
        i = i + 1;
    }
    proof {
        assert(vdv.take(vdv.len() as int) =~= vdv);
    }
    out
}

// ─── Preview entries ────────────────────────────────────────────────────────

/// Preview entry for one variable in the example-file preview.
#[derive(Debug, Clone)]
pub struct TfVarPreviewEntry {
    pub name: String,
    pub value: String,
    pub is_sensitive: bool,
    pub placeholder: String,
}

/// View of a preview entry.
pub struct PreviewView {
    pub name: Seq<char>,
    pub value: Seq<char>,
    pub is_sensitive: bool,
    pub placeholder: Seq<char>,
}

impl View for TfVarPreviewEntry {
    type V = PreviewView;

    open spec fn view(&self) -> PreviewView {
        PreviewView {
            name: self.name@,
            value: self.value@,
            is_sensitive: self.is_sensitive,
            placeholder: self.placeholder@,
        }
    }
}

impl DeepView for TfVarPreviewEntry {
    type V = PreviewView;

    open spec fn deep_view(&self) -> PreviewView {
        self.view()
    }
}

/// A name with its underscores written as hyphens.
pub open spec fn hyphenated(name: Seq<char>) -> Seq<char> {
    name.map_values(
        |c: char|
            if c == '_' {
                '-'
            } else {
                c
            },
    )
}

/// The preview entry for one variable bound to a value: a sensitive
/// variable shows its environment-variable placeholder in both fields,
/// any other shows the value and a bracketed hyphenated placeholder.
pub open spec fn preview_entry(v: VarView, value: Seq<char>) -> PreviewView {
    let placeholder = "<"@ + hyphenated(v.name) + ">"@;
    let sensitive_placeholder = "<SENSITIVE - set via TF_VAR_"@ + v.name + ">"@;
    if v.sensitive {
        PreviewView {
            name: v.name,
            value: sensitive_placeholder,
            is_sensitive: true,
            placeholder: sensitive_placeholder,
        }
    } else {
        PreviewView { name: v.name, value, is_sensitive: false, placeholder }
    }
}

fn hyphenated_exec(name: &Vec<char>) -> (r: Vec<char>)
    ensures
        r@ == hyphenated(name@),
{
    let mut r: Vec<char> = Vec::new();
    let mut i: usize = 0;
    proof {
        assert(r@ =~= hyphenated(name@.take(0)));
    }
    while i < name.len()
        invariant
            i <= name.len(),
            r@ == hyphenated(name@.take(i as int)),
        decreases name.len() - i,
    {
        let c = name[i];
        let h: char = if c == '_' {
            '-'
        } else {
            c
        };
        r.push(h);
        proof {
            assert(hyphenated(name@.take(i + 1 as int)) =~= hyphenated(name@.take(i as int)).push(
                if name@[i as int] == '_' {
                    '-'
                } else {
                    name@[i as int]
                },
            ));
        }
        i = i + 1;
    }
    proof {
        assert(name@.take(name@.len() as int) =~= name@);
    }
    r
}

fn preview_entry_exec(v: &TerraformVariable, value: &String) -> (r: TfVarPreviewEntry)
    ensures
        r@ == preview_entry(v@, value@),
{
    let nv = chars_of(v.name.as_str());
    let mut ph: Vec<char> = Vec::new();
    extend_chars(&mut ph, &chars_of("<"));
    let hy = hyphenated_exec(&nv);
    extend_chars(&mut ph, &hy);
    extend_chars(&mut ph, &chars_of(">"));
    let mut sp: Vec<char> = Vec::new();
    extend_chars(&mut sp, &chars_of("<SENSITIVE - set via TF_VAR_"));
    extend_chars(&mut sp, &nv);
    extend_chars(&mut sp, &chars_of(">"));
    proof {
        assert(ph@ =~= "<"@ + hyphenated(v@.name) + ">"@);
        assert(sp@ =~= "<SENSITIVE - set via TF_VAR_"@ + v@.name + ">"@);
    }
    if v.sensitive {
        let text = string_from_chars(&sp);
        TfVarPreviewEntry {
            name: v.name.clone(),
            value: text.clone(),
            is_sensitive: true,
            placeholder: text,
        }
    } else {
        TfVarPreviewEntry {
            name: v.name.clone(),
            value: value.clone(),
            is_sensitive: false,
            placeholder: string_from_chars(&ph),
        }
    }
}

/// The preview entries: one per declared variable that the read values
/// bind, in declaration order.
pub open spec fn preview_entries_spec(vs: Seq<VarView>, values: Map<Seq<char>, Seq<char>>) -> Seq<
    PreviewView,
>
    decreases vs.len(),
{
    if vs.len() == 0 {
        Seq::empty()
    } else {
        let rest = preview_entries_spec(vs.drop_first(), values);
        if values.dom().contains(vs[0].name) {
            seq![preview_entry(vs[0], values[vs[0].name])] + rest
        } else {
            rest
        }
    }
}

proof fn lemma_preview_entries_snoc(vs: Seq<VarView>, values: Map<Seq<char>, Seq<char>>, v: VarView)
    ensures
        preview_entries_spec(vs.push(v), values) == preview_entries_spec(vs, values) + if values.dom().contains(
            v.name,
        ) {
            seq![preview_entry(v, values[v.name])]
        } else {
            Seq::<PreviewView>::empty()
        },
    decreases vs.len(),
{
    if vs.len() == 0 {
        let q = vs.push(v);
        assert(q[0] == v);
        assert(q.drop_first() =~= Seq::<VarView>::empty());
        assert(preview_entries_spec(q.drop_first(), values) == Seq::<PreviewView>::empty());
        if values.dom().contains(v.name) {
            assert(preview_entries_spec(q, values) == seq![preview_entry(q[0], values[q[0].name])]
                + preview_entries_spec(q.drop_first(), values));
            assert(preview_entries_spec(q, values) =~= preview_entries_spec(vs, values) + seq![
                preview_entry(v, values[v.name]),
            ]);
        } else {
            assert(preview_entries_spec(q, values) == preview_entries_spec(q.drop_first(), values));
            assert(preview_entries_spec(q, values) =~= preview_entries_spec(vs, values));
        }
    } else {
        assert(vs.push(v)[0] == vs[0]);
        assert(vs.push(v).drop_first() =~= vs.drop_first().push(v));
        lemma_preview_entries_snoc(vs.drop_first(), values, v);
        if values.dom().contains(v.name) {
            assert(preview_entries_spec(vs.push(v), values) =~= preview_entries_spec(vs, values)
                + seq![preview_entry(v, values[v.name])]);
        } else {
            assert(preview_entries_spec(vs.push(v), values) =~= preview_entries_spec(vs, values));
        }
    }
}

/// Cross-reference declared variables with the values read from a
/// generated file: one preview entry per bound variable, in declaration
/// order, sensitive values masked.
pub fn build_preview_entries(variables: &Vec<TerraformVariable>, values: &TfvarsMap) -> (r: Vec<
    TfVarPreviewEntry,
>)
    requires
        values.wf(),
    ensures
        r.deep_view() == preview_entries_spec(variables.deep_view(), values@),
{
    let ghost vdv = variables.deep_view();
    let mut out: Vec<TfVarPreviewEntry> = Vec::new();
    let mut i: usize = 0;
    proof {
        assert(vdv.take(0) =~= Seq::<VarView>::empty());
        assert(out.deep_view() =~~= preview_entries_spec(vdv.take(0), values@));
    }
    while i < variables.len()
        invariant
            vdv == variables.deep_view(),
            variables@.len() == vdv.len(),
            i <= variables.len(),
            values.wf(),
            out.deep_view() == preview_entries_spec(vdv.take(i as int), values@),
        decreases variables.len() - i,
    {
        let ghost prev = out.deep_view();
        proof {
            assert(vdv[i as int] == variables@[i as int]@);
            assert(vdv.take(i + 1 as int) =~= vdv.take(i as int).push(vdv[i as int]));
            lemma_preview_entries_snoc(vdv.take(i as int), values@, vdv[i as int]);
        }
        match values.get(variables[i].name.as_str()) {
            Some(value) => {
                let entry = preview_entry_exec(&variables[i], value);
                out.push(entry);
                proof {
                    assert(out.deep_view() =~~= prev.push(
                        preview_entry(vdv[i as int], values@[vdv[i as int].name]),
                    ));
                    assert(prev.push(preview_entry(vdv[i as int], values@[vdv[i as int].name]))
                        =~= preview_entries_spec(vdv.take(i + 1 as int), values@));
                }
            },
            None => {},
        }
        i = i + 1;
    }
    proof {
        assert(vdv.take(vdv.len() as int) =~= vdv);
    }
    out
}

/// One line of the example file: the display value is the placeholder for
/// sensitive entries or when values are excluded; it is quoted unless it
/// opens a brace or bracket, spells a boolean, or reads as a number —
/// which the caller decides and passes in.
pub open spec fn example_line_spec(e: PreviewView, include_values: bool, numeric: bool) -> Seq<
    char,
> {
    let dv = if e.is_sensitive {
        e.placeholder
    } else if include_values {
        e.value
    } else {
        e.placeholder
    };
    let unquoted = (dv.len() > 0 && (dv[0] == '{' || dv[0] == '[')) || dv == "true"@ || dv
        == "false"@ || numeric;
    if unquoted {
        e.name + " = "@ + dv
    } else {
        e.name + " = \""@ + dv + "\""@
    }
}

/// Render one example-file line for an entry. `numeric` reports whether
/// the displayed value parses as a number, which decides quoting and is
/// computed by the caller.
pub fn example_line(entry: &TfVarPreviewEntry, include_values: bool, numeric: bool) -> (r: String)
    ensures
        r@ == example_line_spec(entry@, include_values, numeric),
{
    let dv: &String = if entry.is_sensitive {
        &entry.placeholder
    } else if include_values {
        &entry.value
    } else {
        &entry.placeholder
    };
    let dvc = chars_of(dv.as_str());
    let opens = dvc.len() > 0 && (dvc[0] == '{' || dvc[0] == '[');
    let boolish = eq_chars(&dvc, &chars_of("true")) || eq_chars(&dvc, &chars_of("false"));
    let mut out: Vec<char> = Vec::new();
    extend_chars(&mut out, &chars_of(entry.name.as_str()));
    if opens || boolish || numeric {
        extend_chars(&mut out, &chars_of(" = "));
        extend_chars(&mut out, &dvc);
        proof {
            assert(out@ =~= example_line_spec(entry@, include_values, numeric));
        }
    } else {
        extend_chars(&mut out, &chars_of(" = \""));
        extend_chars(&mut out, &dvc);
        extend_chars(&mut out, &chars_of("\""));
        proof {
            assert(out@ =~= example_line_spec(entry@, include_values, numeric));
        }
    }
    string_from_chars(&out)
}

// ─── Keeping variable files out of version control ─────────────────────────

/// Whether ignore-file text already excludes generated variable files: a
/// line is exactly one of the two patterns.
pub open spec fn has_tfvars_rule(lines: Seq<Seq<char>>) -> bool {
    exists|i: int|
        0 <= i < lines.len() && (crate::text::trimmed(#[trigger] lines[i]) == "*.tfvars"@
            || crate::text::trimmed(lines[i]) == "*.tfvars.json"@)
}

/// The ignore-file text with the variable-file rules appended when they
/// are missing: the block is separated by a blank line unless the text is
/// empty or already ends in a newline.
pub open spec fn with_tfvars_rules(content: Seq<char>) -> Seq<char> {
    if has_tfvars_rule(crate::text::lines_of(content)) {
        content
    } else if content.len() == 0 || content[content.len() - 1] == '\n' {
        content
            + "# Terraform variable files (may contain secrets)\n*.tfvars\n*.tfvars.json\n!*.tfvars.example\n"@
    } else {
        content
            + "\n\n# Terraform variable files (may contain secrets)\n*.tfvars\n*.tfvars.json\n!*.tfvars.example\n"@
    }
}

/// Append the variable-file ignore rules to ignore-file text when they
/// are missing.
pub fn ensure_tfvars_ignored(content: &str) -> (r: String)
    ensures
        r@ == with_tfvars_rules(content@),
{
    let cs = chars_of(content);
    let lines = crate::text::split_lines(&cs);
    let ghost ldv = lines.deep_view();
    let mut found = false;
    let mut i: usize = 0;
    while i < lines.len()
        invariant
            ldv == lines.deep_view(),
            lines@.len() == ldv.len(),
            i <= lines.len(),
            found == exists|k: int|
                0 <= k < i && (crate::text::trimmed(#[trigger] ldv[k]) == "*.tfvars"@
                    || crate::text::trimmed(ldv[k]) == "*.tfvars.json"@),
        decreases lines.len() - i,
    {
        proof {
            assert(ldv[i as int] == lines@[i as int].deep_view());
        }
        let t = crate::text::trim(&lines[i]);
        let hit = eq_chars(&t, &chars_of("*.tfvars")) || eq_chars(&t, &chars_of("*.tfvars.json"));
        proof {
            if hit {
                assert(crate::text::trimmed(ldv[i as int]) == "*.tfvars"@ || crate::text::trimmed(
                    ldv[i as int],
                ) == "*.tfvars.json"@);
            }
        }
        found = found || hit;
        i = i + 1;
    }
    proof {
        assert(found == has_tfvars_rule(crate::text::lines_of(content@)));
    }
    if found {
        return String::from_str(content);
    }
    let mut out: Vec<char> = Vec::new();
    extend_chars(&mut out, &cs);
    if cs.len() == 0 || cs[cs.len() - 1] == '\n' {
        extend_chars(
            &mut out,
            &chars_of(
                "# Terraform variable files (may contain secrets)\n*.tfvars\n*.tfvars.json\n!*.tfvars.example\n",
            ),
        );
    } else {
        extend_chars(
            &mut out,
            &chars_of(
                "\n\n# Terraform variable files (may contain secrets)\n*.tfvars\n*.tfvars.json\n!*.tfvars.example\n",
            ),
        );
    }
    string_from_chars(&out)
}

} // verus!
