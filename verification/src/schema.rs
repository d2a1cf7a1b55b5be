//! Tolerant scanner for `variable "<name>" { ... }` blocks in declarative
//! configuration source text.
//!
//! The scanner walks the text line by line, tracking a block-level brace
//! depth and, independently, the brace/bracket balance of a multi-line
//! `default` value being collected. Unparseable constructs are skipped; the
//! scanner never fails. Its behaviour is specified by the state machine
//! `scan_line` / `scan_lines` over the lines of the input.

use vstd::prelude::*;

use crate::text::{
    chars_of, contains_char, contains_char_s, contains_seq, contains_seq_s, count_char,
    count_char_s, find_char, find_in, lemma_find_in_first, lemma_lines_total_len,
    lemma_rfind_in_last, lemma_total_len_nonneg, lemma_total_len_push, lemma_total_len_take_le,
    lemma_trimmed_len, lemma_count_char_bound, extend_chars, lines_of, rfind_char,
    rfind_in, split_lines, starts_with, starts_with_s, string_from_chars, subrange_vec, total_len,
    trim, trimmed,
};

verus! {

broadcast use crate::text::lemma_vec_char_deep_view;

// ─── Public data type ───────────────────────────────────────────────────────

/// One declared variable: name, documentation, raw type expression, raw
/// default expression (absent for required variables), sensitivity flag and
/// optional validation condition text.
#[derive(Debug, Clone)]
pub struct TerraformVariable {
    pub name: String,
    pub description: String,
    pub var_type: String,
    pub default: Option<String>,
    pub required: bool,
    pub sensitive: bool,
    pub validation: Option<String>,
}

/// Mathematical view of a `TerraformVariable`.
pub struct VarView {
    pub name: Seq<char>,
    pub description: Seq<char>,
    pub var_type: Seq<char>,
    pub default: Option<Seq<char>>,
    pub required: bool,
    pub sensitive: bool,
    pub validation: Option<Seq<char>>,
}

impl View for TerraformVariable {
    type V = VarView;

    open spec fn view(&self) -> VarView {
        VarView {
            name: self.name@,
            description: self.description@,
            var_type: self.var_type@,
            default: self.default.deep_view(),
            required: self.required,
            sensitive: self.sensitive,
            validation: self.validation.deep_view(),
        }
    }
}

impl DeepView for TerraformVariable {
    type V = VarView;

    open spec fn deep_view(&self) -> VarView {
        self.view()
    }
}

impl TerraformVariable {
    /// An independent copy of the descriptor.
    pub fn duplicate(&self) -> (r: TerraformVariable)
        ensures
            r@ == self@,
    {
        TerraformVariable {
            name: self.name.clone(),
            description: self.description.clone(),
            var_type: self.var_type.clone(),
            default: match &self.default {
                Some(d) => Some(d.clone()),
                None => None,
            },
            required: self.required,
            sensitive: self.sensitive,
            validation: match &self.validation {
                Some(v) => Some(v.clone()),
                None => None,
            },
        }
    }
}

// ─── Value-extraction helpers ───────────────────────────────────────────────

/// The text between the first quote and the following quote, if both exist.
pub open spec fn quoted_name_s(t: Seq<char>) -> Option<Seq<char>> {
    match find_in(t, '"') {
        Some(a) => match find_in(t.skip(a + 1), '"') {
            Some(b) => Some(t.subrange(a + 1, a + 1 + b)),
            None => None,
        },
        None => None,
    }
}

/// The text between the first quote and the last quote after it.
pub open spec fn extract_string_value_s(line: Seq<char>) -> Option<Seq<char>> {
    match find_in(line, '"') {
        Some(a) => match rfind_in(line.skip(a + 1), '"') {
            Some(b) => Some(line.subrange(a + 1, a + 1 + b)),
            None => None,
        },
        None => None,
    }
}

/// The trimmed text after the first `=`.
pub open spec fn extract_type_value_s(line: Seq<char>) -> Option<Seq<char>> {
    let l = trimmed(line);
    match find_in(l, '=') {
        Some(i) => Some(trimmed(l.skip(i + 1))),
        None => None,
    }
}

/// The trimmed text after the first `=`, unquoted when it is a quoted
/// string, and absent when it is empty or a lone opening brace or bracket.
pub open spec fn extract_default_value_s(line: Seq<char>) -> Option<Seq<char>> {
    let l = trimmed(line);
    match find_in(l, '=') {
        Some(i) => {
            let v = trimmed(l.skip(i + 1));
            if v.len() >= 2 && v[0] == '"' && v[v.len() - 1] == '"' {
                Some(v.subrange(1, v.len() - 1))
            } else if v.len() > 0 && v != seq!['{'] && v != seq!['['] {
                Some(v)
            } else {
                None
            }
        },
        None => None,
    }
}

// ─── Scanner state ──────────────────────────────────────────────────────────

/// Balance counters and buffer of a multi-line `default` value being
/// collected.
pub struct MlSt {
    pub brace: int,
    pub bracket: int,
    pub buf: Seq<char>,
}

/// Accumulated attributes of the variable block being scanned.
pub struct BlockSt {
    pub name: Option<Seq<char>>,
    pub description: Seq<char>,
    pub var_type: Seq<char>,
    pub default: Option<Seq<char>>,
    pub sensitive: bool,
    pub validation: Option<Seq<char>>,
    pub depth: int,
    pub ml: Option<MlSt>,
}

/// Whole scanner state: completed descriptors and the open block, if any.
pub struct ScanSt {
    pub done: Seq<VarView>,
    pub block: Option<BlockSt>,
}

pub open spec fn init_scan() -> ScanSt {
    ScanSt { done: Seq::empty(), block: None }
}

pub open spec fn brace_delta(t: Seq<char>) -> int {
    count_char_s(t, '{') - count_char_s(t, '}')
}

pub open spec fn bracket_delta(t: Seq<char>) -> int {
    count_char_s(t, '[') - count_char_s(t, ']')
}

/// A fresh block opened by a `variable "<name>" {` line: type defaults to
/// `string`, no default, not sensitive, depth one.
pub open spec fn open_block(t: Seq<char>) -> BlockSt {
    BlockSt {
        name: quoted_name_s(t),
        description: Seq::empty(),
        var_type: "string"@,
        default: None,
        sensitive: false,
        validation: None,
        depth: 1,
        ml: None,
    }
}

/// Attribute recognition on one line at block depth at least one.
pub open spec fn apply_attr(b: BlockSt, t: Seq<char>, line: Seq<char>) -> BlockSt {
    if starts_with_s(t, "description"@) {
        match extract_string_value_s(t) {
            Some(v) => BlockSt { description: v, ..b },
            None => b,
        }
    } else if starts_with_s(t, "type"@) {
        match extract_type_value_s(t) {
            Some(v) => BlockSt { var_type: v, ..b },
            None => b,
        }
    } else if starts_with_s(t, "default"@) {
        let after_eq = match find_in(t, '=') {
            Some(i) => trimmed(t.skip(i + 1)),
            None => Seq::<char>::empty(),
        };
        if after_eq.len() > 0 && (after_eq[0] == '{' || after_eq[0] == '[') {
            let ob = count_char_s(after_eq, '{');
            let cb = count_char_s(after_eq, '}');
            let obr = count_char_s(after_eq, '[');
            let cbr = count_char_s(after_eq, ']');
            if ob > cb || obr > cbr {
                BlockSt {
                    ml: Some(MlSt { brace: ob - cb, bracket: obr - cbr, buf: after_eq + seq![' '] }),
                    ..b
                }
            } else {
                BlockSt { default: Some(after_eq), ..b }
            }
        } else {
            BlockSt { default: extract_default_value_s(t), ..b }
        }
    } else if starts_with_s(t, "sensitive"@) && contains_seq_s(t, "true"@) {
        BlockSt { sensitive: true, ..b }
    } else if starts_with_s(t, "condition"@) {
        match extract_string_value_s(line) {
            Some(v) => BlockSt { validation: Some(v), ..b },
            None => b,
        }
    } else {
        b
    }
}

/// Advance an open block by one line: either feed the multi-line default
/// collector, or count braces and recognize attributes.
pub open spec fn advance_block(b: BlockSt, t: Seq<char>, line: Seq<char>) -> BlockSt {
    match b.ml {
        Some(m) => {
            let nbrace = m.brace + brace_delta(t);
            let nbracket = m.bracket + bracket_delta(t);
            let buf = m.buf + t + seq![' '];
            let d = b.depth + brace_delta(t);
            if nbrace <= 0 && nbracket <= 0 {
                BlockSt { default: Some(trimmed(buf)), ml: None, depth: d, ..b }
            } else {
                BlockSt { ml: Some(MlSt { brace: nbrace, bracket: nbracket, buf }), depth: d, ..b }
            }
        },
        None => {
            let b2 = BlockSt { depth: b.depth + brace_delta(t), ..b };
            if b2.depth >= 1 {
                apply_attr(b2, t, line)
            } else {
                b2
            }
        },
    }
}

/// A block whose depth has returned to zero is assembled into a descriptor,
/// provided a name was found on its opening line; `required` is derived
/// from the absence of a default.
pub open spec fn close_block(done: Seq<VarView>, b: BlockSt) -> Seq<VarView> {
    match b.name {
        Some(n) => done.push(
            VarView {
                name: n,
                description: b.description,
                var_type: b.var_type,
                default: b.default,
                required: b.default is None,
                sensitive: b.sensitive,
                validation: b.validation,
            },
        ),
        None => done,
    }
}

/// One line of the scan.
pub open spec fn scan_line(st: ScanSt, line: Seq<char>) -> ScanSt {
    let t = trimmed(line);
    match st.block {
        None => {
            if starts_with_s(t, "variable "@) && contains_char_s(t, '{') {
                ScanSt { done: st.done, block: Some(open_block(t)) }
            } else {
                st
            }
        },
        Some(b0) => {
            let b1 = advance_block(b0, t, line);
            if b1.depth == 0 && b1.ml is None {
                ScanSt { done: close_block(st.done, b1), block: None }
            } else {
                ScanSt { done: st.done, block: Some(b1) }
            }
        },
    }
}

/// The whole scan, folded over the lines.
pub open spec fn scan_lines(st: ScanSt, lines: Seq<Seq<char>>) -> ScanSt
    decreases lines.len(),
{
    if lines.len() == 0 {
        st
    } else {
        scan_lines(scan_line(st, lines[0]), lines.drop_first())
    }
}

/// The descriptors extracted from a source text. An unterminated trailing
/// block is discarded, exactly as the scanner leaves it unfinished.
pub open spec fn parse_variables_spec(content: Seq<char>) -> Seq<VarView> {
    scan_lines(init_scan(), lines_of(content)).done
}

// ─── Law: `required` is derived from `default` ─────────────────────────────

/// Every descriptor has `required` true exactly when it has no default.
pub open spec fn required_matches_default(vs: Seq<VarView>) -> bool {
    forall|i: int|
        0 <= i < vs.len() ==> ((#[trigger] vs[i].required) <==> vs[i].default is None)
}

proof fn lemma_scan_lines_required(st: ScanSt, lines: Seq<Seq<char>>)
    requires
        required_matches_default(st.done),
    ensures
        required_matches_default(scan_lines(st, lines).done),
    decreases lines.len(),
{
    if lines.len() > 0 {
        let st1 = scan_line(st, lines[0]);
        assert(required_matches_default(st1.done));
        lemma_scan_lines_required(st1, lines.drop_first());
    }
}

/// For all source texts: a variable with an explicit default is not
/// required, and one without a default is required.
pub proof fn lemma_default_determines_required(content: Seq<char>)
    ensures
        required_matches_default(parse_variables_spec(content)),
{
    lemma_scan_lines_required(init_scan(), lines_of(content));
}

// ─── Executable scanner ─────────────────────────────────────────────────────

struct ScanBlock {
    name: Option<Vec<char>>,
    description: Vec<char>,
    var_type: Vec<char>,
    default: Option<Vec<char>>,
    sensitive: bool,
    validation: Option<Vec<char>>,
    depth: i128,
    ml_active: bool,
    ml_brace: i128,
    ml_bracket: i128,
    ml_buf: Vec<char>,
}

impl ScanBlock {
    spec fn view_s(&self) -> BlockSt {
        BlockSt {
            name: self.name.deep_view(),
            description: self.description@,
            var_type: self.var_type@,
            default: self.default.deep_view(),
            sensitive: self.sensitive,
            validation: self.validation.deep_view(),
            depth: self.depth as int,
            ml: if self.ml_active {
                Some(
                    MlSt {
                        brace: self.ml_brace as int,
                        bracket: self.ml_bracket as int,
                        buf: self.ml_buf@,
                    },
                )
            } else {
                None
            },
        }
    }
}

spec fn opt_block_view(b: &Option<ScanBlock>) -> Option<BlockSt> {
    match b {
        Some(sb) => Some(sb.view_s()),
        None => None,
    }
}

spec fn iabs(x: int) -> int {
    if x < 0 {
        -x
    } else {
        x
    }
}

/// Largest counter magnitude of an open block, for overflow reasoning: the
/// scan grows it by at most one line's length per step.
spec fn max_counter(b: Option<BlockSt>) -> int {
    match b {
        Some(bs) => {
            let d = iabs(bs.depth);
            match bs.ml {
                Some(ml) => {
                    let e = if iabs(ml.brace) > iabs(ml.bracket) {
                        iabs(ml.brace)
                    } else {
                        iabs(ml.bracket)
                    };
                    if d > e {
                        d
                    } else {
                        e
                    }
                },
                None => d,
            }
        },
        None => 0,
    }
}

fn quoted_name_exec(t: &Vec<char>) -> (r: Option<Vec<char>>)
    ensures
        r.deep_view() == quoted_name_s(t@),
{
    match find_char(t, '"') {
        Some(a) => {
            proof {
                lemma_find_in_first(t@, '"');
                assert(a < t@.len());
            }
            let n = t.len();
            let rest = subrange_vec(t, a + 1, n);
            proof {
                assert(rest@ =~= t@.skip(a + 1));
            }
            match find_char(&rest, '"') {
                Some(b) => {
                    proof {
                        lemma_find_in_first(rest@, '"');
                    }
                    Some(subrange_vec(t, a + 1, a + 1 + b))
                },
                None => None,
            }
        },
        None => None,
    }
}

fn extract_string_value_vec(line: &Vec<char>) -> (r: Option<Vec<char>>)
    ensures
        r.deep_view() == extract_string_value_s(line@),
{
    match find_char(line, '"') {
        Some(a) => {
            proof {
                lemma_find_in_first(line@, '"');
                assert(a < line@.len());
            }
            let n = line.len();
            let rest = subrange_vec(line, a + 1, n);
            proof {
                assert(rest@ =~= line@.skip(a + 1));
            }
            match rfind_char(&rest, '"') {
                Some(b) => {
                    proof {
                        lemma_rfind_in_last(rest@, '"');
                    }
                    Some(subrange_vec(line, a + 1, a + 1 + b))
                },
                None => None,
            }
        },
        None => None,
    }
}

fn extract_type_value_vec(line: &Vec<char>) -> (r: Option<Vec<char>>)
    ensures
        r.deep_view() == extract_type_value_s(line@),
{
    let l = trim(line);
    match find_char(&l, '=') {
        Some(i) => {
            proof {
                lemma_find_in_first(l@, '=');
                assert(i < l@.len());
            }
            let n = l.len();
            let rest = subrange_vec(&l, i + 1, n);
            proof {
                assert(rest@ =~= l@.skip(i + 1));
            }
            Some(trim(&rest))
        },
        None => None,
    }
}

fn extract_default_value_vec(line: &Vec<char>) -> (r: Option<Vec<char>>)
    ensures
        r.deep_view() == extract_default_value_s(line@),
{
    let l = trim(line);
    match find_char(&l, '=') {
        Some(i) => {
            proof {
                lemma_find_in_first(l@, '=');
                assert(i < l@.len());
            }
            let n = l.len();
            let rest = subrange_vec(&l, i + 1, n);
            proof {
                assert(rest@ =~= l@.skip(i + 1));
            }
            let v = trim(&rest);
            if v.len() >= 2 && v[0] == '"' && v[v.len() - 1] == '"' {
                Some(subrange_vec(&v, 1, v.len() - 1))
            } else {
                let brace_only = v.len() == 1 && v[0] == '{';
                let bracket_only = v.len() == 1 && v[0] == '[';
                proof {
                    if v@.len() == 1 && v@[0] == '{' {
                        assert(v@ =~= seq!['{']);
                    }
                    if v@.len() == 1 && v@[0] == '[' {
                        assert(v@ =~= seq!['[']);
                    }
                }
                if v.len() > 0 && !brace_only && !bracket_only {
                    Some(v)
                } else {
                    None
                }
            }
        },
        None => None,
    }
}

/// One scanner step outside a block: recognize a block-opening line.
fn open_step(t: &Vec<char>) -> (r: Option<ScanBlock>)
    ensures
        match r {
            Some(sb) => Some(sb.view_s()) == Some(open_block(t@)) && starts_with_s(t@, "variable "@)
                && contains_char_s(t@, '{'),
            None => !(starts_with_s(t@, "variable "@) && contains_char_s(t@, '{')),
        },
{
    let pat = chars_of("variable ");
    if starts_with(t, &pat) && contains_char(t, '{') {
        let name = quoted_name_exec(t);
        let sb = ScanBlock {
            name,
            description: Vec::new(),
            var_type: chars_of("string"),
            default: None,
            sensitive: false,
            validation: None,
            depth: 1,
            ml_active: false,
            ml_brace: 0,
            ml_bracket: 0,
            ml_buf: Vec::new(),
        };
        Some(sb)
    } else {
        None
    }
}

/// Attribute recognition, executable side of `apply_attr`.
fn apply_attr_exec(b: ScanBlock, t: &Vec<char>, line: &Vec<char>) -> (r: ScanBlock)
    ensures
        r.view_s() == apply_attr(b.view_s(), t@, line@),
{
    let mut b = b;
    if starts_with(t, &chars_of("description")) {
        if let Some(v) = extract_string_value_vec(t) {
            b.description = v;
        }
        b
    } else if starts_with(t, &chars_of("type")) {
        if let Some(v) = extract_type_value_vec(t) {
            b.var_type = v;
        }
        b
    } else if starts_with(t, &chars_of("default")) {
        let after_eq: Vec<char> = match find_char(t, '=') {
            Some(i) => {
                proof {
                    lemma_find_in_first(t@, '=');
                    assert(i < t@.len());
                }
                let n = t.len();
                let rest = subrange_vec(t, i + 1, n);
                proof {
                    assert(rest@ =~= t@.skip(i + 1));
                }
                trim(&rest)
            },
            None => Vec::new(),
        };
        if after_eq.len() > 0 && (after_eq[0] == '{' || after_eq[0] == '[') {
            let ob = count_char(&after_eq, '{');
            let cb = count_char(&after_eq, '}');
            let obr = count_char(&after_eq, '[');
            let cbr = count_char(&after_eq, ']');
            if ob > cb || obr > cbr {
                b.ml_active = true;
                b.ml_brace = ob as i128 - cb as i128;
                b.ml_bracket = obr as i128 - cbr as i128;
                let ghost ae = after_eq@;
                let mut buf = after_eq;
                buf.push(' ');
                proof {
                    assert(buf@ =~= ae + seq![' ']);
                }
                b.ml_buf = buf;
                b
            } else {
                b.default = Some(after_eq);
                b
            }
        } else {
            b.default = extract_default_value_vec(t);
            b
        }
    } else if starts_with(t, &chars_of("sensitive")) && contains_seq(t, &chars_of("true")) {
        b.sensitive = true;
        b
    } else if starts_with(t, &chars_of("condition")) {
        if let Some(v) = extract_string_value_vec(line) {
            b.validation = Some(v);
        }
        b
    } else {
        b
    }
}

/// One scanner step: `scan_line`, executably.
fn scan_step(vars: &mut Vec<TerraformVariable>, block: Option<ScanBlock>, line: &Vec<char>) -> (r: Option<ScanBlock>)
    requires
        max_counter(opt_block_view(&block)) <= usize::MAX as int,
    ensures
        (ScanSt { done: final(vars).deep_view(), block: opt_block_view(&r) }) == scan_line(
            (ScanSt { done: old(vars).deep_view(), block: opt_block_view(&block) }),
            line@,
        ),
        max_counter(opt_block_view(&r)) <= max_counter(opt_block_view(&block)) + line@.len(),
{
    let ghost st0 = ScanSt { done: vars.deep_view(), block: opt_block_view(&block) };
    let ghost expected = scan_line(st0, line@);
    let t = trim(line);
    proof {
        lemma_trimmed_len(line@);
    }
    match block {
        None => {
            let r = open_step(&t);
            proof {
                if r is Some {
                    assert(opt_block_view(&r) == Some(open_block(t@)));
                    assert(t@.len() >= 1);
                    assert(max_counter(opt_block_view(&r)) == 1);
                }
            }
            r
        },
        Some(b) => {
            let mut b = b;
            let ghost b0 = b.view_s();
            proof {
                lemma_count_char_bound(t@, '{');
                lemma_count_char_bound(t@, '}');
                lemma_count_char_bound(t@, '[');
                lemma_count_char_bound(t@, ']');
            }
            if b.ml_active {
                extend_chars(&mut b.ml_buf, &t);
                b.ml_buf.push(' ');
                proof {
                    assert(b.ml_buf@ =~= b0.ml.unwrap().buf + t@ + seq![' ']);
                }
                let ob = count_char(&t, '{');
                let cb = count_char(&t, '}');
                let obr = count_char(&t, '[');
                let cbr = count_char(&t, ']');
                let dbr: i128 = ob as i128 - cb as i128;
                let dbk: i128 = obr as i128 - cbr as i128;
                b.ml_brace = b.ml_brace + dbr;
                b.ml_bracket = b.ml_bracket + dbk;
                if b.ml_brace <= 0 && b.ml_bracket <= 0 {
                    b.ml_active = false;
                    b.default = Some(trim(&b.ml_buf));
                }
                b.depth = b.depth + dbr;
            } else {
                let ob = count_char(&t, '{');
                let cb = count_char(&t, '}');
                let dbr: i128 = ob as i128 - cb as i128;
                b.depth = b.depth + dbr;
                if b.depth >= 1 {
                    b = apply_attr_exec(b, &t, line);
                    proof {
                        match find_in(t@, '=') {
                            Some(i) => {
                                lemma_find_in_first(t@, '=');
                                let ae = trimmed(t@.skip(i + 1));
                                lemma_trimmed_len(t@.skip(i + 1));
                                lemma_count_char_bound(ae, '{');
                                lemma_count_char_bound(ae, '}');
                                lemma_count_char_bound(ae, '[');
                                lemma_count_char_bound(ae, ']');
                            },
                            None => {},
                        }
                    }
                }
            }
            proof {
                assert(b.view_s() == advance_block(b0, t@, line@));
            }
            if b.depth == 0 && !b.ml_active {
                let ghost prev = vars.deep_view();
                if let Some(n) = b.name {
                    let tv = TerraformVariable {
                        name: string_from_chars(&n),
                        description: string_from_chars(&b.description),
                        var_type: string_from_chars(&b.var_type),
                        required: b.default.is_none(),
                        default: match &b.default {
                            Some(d) => Some(string_from_chars(d)),
                            None => None,
                        },
                        sensitive: b.sensitive,
                        validation: match &b.validation {
                            Some(v) => Some(string_from_chars(v)),
                            None => None,
                        },
                    };
                    vars.push(tv);
                    proof {
                        assert(vars.deep_view() =~~= expected.done);
                    }
                } else {
                    proof {
                        assert(vars.deep_view() =~~= expected.done);
                    }
                }
                None
            } else {
                Some(b)
            }
        },
    }
}

/// Scan declarative source text and collect its variable descriptors, in
/// declaration order. Malformed constructs are skipped, never an error:
/// the result is exactly `parse_variables_spec` of the text, and in every
/// descriptor `required` holds exactly when `default` is absent.
pub fn parse_variables_tf(content: &str) -> (r: Vec<TerraformVariable>)
    ensures
        r.deep_view() == parse_variables_spec(content@),
        required_matches_default(r.deep_view()),
{
    let cs = chars_of(content);
    let total = cs.len();
    let lines = split_lines(&cs);
    let ghost ldv = lines.deep_view();
    proof {
        lemma_lines_total_len(cs@);
        lemma_total_len_nonneg(ldv);
    }
    let mut vars: Vec<TerraformVariable> = Vec::new();
    let mut block: Option<ScanBlock> = None;
    let mut j: usize = 0;
    proof {
        assert(ldv.take(0) =~= Seq::<Seq<char>>::empty());
        assert(vars.deep_view() =~~= Seq::<VarView>::empty());
    }
    while j < lines.len()
        invariant
            ldv == lines.deep_view(),
            lines@.len() == ldv.len(),
            total_len(ldv) <= total as int,
            j <= lines.len(),
            (ScanSt { done: vars.deep_view(), block: opt_block_view(&block) }) == scan_lines(
                init_scan(),
                ldv.take(j as int),
            ),
            max_counter(opt_block_view(&block)) <= total_len(ldv.take(j as int)),
        decreases lines.len() - j,
    {
        let ghost st_before = ScanSt { done: vars.deep_view(), block: opt_block_view(&block) };
        proof {
            lemma_total_len_take_le(ldv, j as int);
            lemma_total_len_nonneg(ldv.take(j as int));
            assert(ldv[j as int] == lines@[j as int].deep_view());
        }
        let line = &lines[j];
        let b2 = scan_step(&mut vars, block, line);
        block = b2;
        proof {
            lemma_total_len_push(ldv.take(j as int), ldv[j as int]);
            assert(ldv.take(j + 1 as int) =~= ldv.take(j as int).push(ldv[j as int]));
            lemma_scan_lines_snoc(init_scan(), ldv.take(j as int), ldv[j as int]);
        }
        j = j + 1;
    }
    proof {
        assert(ldv.take(ldv.len() as int) =~= ldv);
        lemma_default_determines_required(content@);
    }
    vars
}

/// Folding one more line is a step on the folded state.
proof fn lemma_scan_lines_snoc(st: ScanSt, lines: Seq<Seq<char>>, line: Seq<char>)
    ensures
        scan_lines(st, lines.push(line)) == scan_line(scan_lines(st, lines), line),
    decreases lines.len(),
{
    if lines.len() == 0 {
        assert(lines.push(line)[0] == line);
        assert(lines.push(line).drop_first() =~= Seq::<Seq<char>>::empty());
        assert(scan_lines(st, lines.push(line)) == scan_lines(
            scan_line(st, line),
            Seq::<Seq<char>>::empty(),
        ));
        assert(scan_lines(scan_line(st, line), Seq::<Seq<char>>::empty()) == scan_line(st, line));
    } else {
        let st1 = scan_line(st, lines[0]);
        assert(lines.push(line)[0] == lines[0]);
        assert(lines.push(line).drop_first() =~= lines.drop_first().push(line));
        lemma_scan_lines_snoc(st1, lines.drop_first(), line);
        assert(scan_lines(st, lines.push(line)) == scan_lines(st1, lines.drop_first().push(line)));
        assert(scan_lines(st, lines) == scan_lines(st1, lines.drop_first()));
    }
}

// ─── String-based helpers matching the scanner's extraction rules ──────────

/// The text between the first quote and the last quote of a line, if two
/// quotes exist.
pub fn extract_string_value(line: &str) -> (r: Option<String>)
    ensures
        r.deep_view() == extract_string_value_s(line@),
{
    let cs = chars_of(line);
    match extract_string_value_vec(&cs) {
        Some(v) => Some(string_from_chars(&v)),
        None => None,
    }
}

/// The trimmed text after the first `=` of a line.
pub fn extract_type_value(line: &str) -> (r: Option<String>)
    ensures
        r.deep_view() == extract_type_value_s(line@),
{
    let cs = chars_of(line);
    match extract_type_value_vec(&cs) {
        Some(v) => Some(string_from_chars(&v)),
        None => None,
    }
}

/// The trimmed, unquoted text after the first `=` of a line.
pub fn extract_default_value(line: &str) -> (r: Option<String>)
    ensures
        r.deep_view() == extract_default_value_s(line@),
{
    let cs = chars_of(line);
    match extract_default_value_vec(&cs) {
        Some(v) => Some(string_from_chars(&v)),
        None => None,
    }
}

} // verus!
