//! Tolerant reader for generated variable-assignment text: recovers a map
//! from variable name to raw value string.
//!
//! The reader walks the text line by line, skipping blanks and comments,
//! splitting each assignment at its first `=`, collecting brace- or
//! bracket-balanced multi-line values, and unquoting quoted scalars. It
//! never fails; lines it cannot read are skipped.

use vstd::prelude::*;

use crate::text::{
    chars_of, count_char, count_char_s, eq_chars, extend_chars, find_char, find_in,
    lemma_count_char_bound, lemma_find_in_first, lemma_lines_total_len, lemma_total_len_nonneg,
    lemma_total_len_push, lemma_total_len_take_le, lemma_trimmed_len, lines_of, split_lines,
    string_from_chars, subrange_vec, total_len, trim, trimmed,
};

verus! {

broadcast use crate::text::lemma_vec_char_deep_view;

// ─── Specification ──────────────────────────────────────────────────────────

/// Drop every leading double quote.
pub open spec fn strip_lead_q(s: Seq<char>) -> Seq<char>
    decreases s.len(),
{
    if s.len() > 0 && s[0] == '"' {
        strip_lead_q(s.drop_first())
    } else {
        s
    }
}

/// Drop every trailing double quote.
pub open spec fn strip_trail_q(s: Seq<char>) -> Seq<char>
    decreases s.len(),
{
    if s.len() > 0 && s[s.len() - 1] == '"' {
        strip_trail_q(s.drop_last())
    } else {
        s
    }
}

/// Drop the surrounding quotes of a quoted scalar.
pub open spec fn strip_quotes(s: Seq<char>) -> Seq<char> {
    strip_trail_q(strip_lead_q(s))
}

/// Collect a balanced multi-line value: keep consuming lines, each trimmed
/// and appended after a newline, until the open/close balance is spent.
/// Returns the collected value and the remaining lines.
pub open spec fn collect_value(
    lines: Seq<Seq<char>>,
    buf: Seq<char>,
    depth: int,
    open: char,
    close: char,
) -> (Seq<char>, Seq<Seq<char>>)
    decreases lines.len(),
{
    if depth <= 0 || lines.len() == 0 {
        (buf, lines)
    } else {
        let t = trimmed(lines[0]);
        collect_value(
            lines.drop_first(),
            buf + seq!['\n'] + t,
            depth + count_char_s(t, open) - count_char_s(t, close),
            open,
            close,
        )
    }
}

/// Read one line and the lines a multi-line value consumes, updating the
/// accumulated map; then continue with the remaining lines.
pub open spec fn parse_lines(lines: Seq<Seq<char>>, acc: Map<Seq<char>, Seq<char>>) -> Map<
    Seq<char>,
    Seq<char>,
>
    decreases lines.len(),
    via parse_lines_decreases
{
    if lines.len() == 0 {
        acc
    } else {
        let t = trimmed(lines[0]);
        if t.len() == 0 || t[0] == '#' {
            parse_lines(lines.drop_first(), acc)
        } else {
            match find_in(t, '=') {
                None => parse_lines(lines.drop_first(), acc),
                Some(i) => {
                    let key = trimmed(t.take(i));
                    let vs = trimmed(t.skip(i + 1));
                    if vs.len() > 0 && (vs[0] == '{' || vs[0] == '[') {
                        let open = if vs[0] == '{' {
                            '{'
                        } else {
                            '['
                        };
                        let close = if vs[0] == '{' {
                            '}'
                        } else {
                            ']'
                        };
                        let d0 = count_char_s(vs, open) - count_char_s(vs, close);
                        let collected = collect_value(lines.drop_first(), vs, d0, open, close);
                        parse_lines(collected.1, acc.insert(key, collected.0))
                    } else if vs.len() > 0 && vs[0] == '"' {
                        parse_lines(lines.drop_first(), acc.insert(key, strip_quotes(vs)))
                    } else {
                        parse_lines(lines.drop_first(), acc.insert(key, vs))
                    }
                },
            }
        }
    }
}

/// The collector consumes lines, never makes more.
proof fn lemma_collect_value_len(
    lines: Seq<Seq<char>>,
    buf: Seq<char>,
    depth: int,
    open: char,
    close: char,
)
    ensures
        collect_value(lines, buf, depth, open, close).1.len() <= lines.len(),
    decreases lines.len(),
{
    if depth <= 0 || lines.len() == 0 {
    } else {
        let t = trimmed(lines[0]);
        lemma_collect_value_len(
            lines.drop_first(),
            buf + seq!['\n'] + t,
            depth + count_char_s(t, open) - count_char_s(t, close),
            open,
            close,
        );
    }
}

#[via_fn]
proof fn parse_lines_decreases(lines: Seq<Seq<char>>, acc: Map<Seq<char>, Seq<char>>) {
    if lines.len() > 0 {
        let t = trimmed(lines[0]);
        if !(t.len() == 0 || t[0] == '#') {
            match find_in(t, '=') {
                None => {},
                Some(i) => {
                    let vs = trimmed(t.skip(i + 1));
                    if vs.len() > 0 && (vs[0] == '{' || vs[0] == '[') {
                        let open = if vs[0] == '{' {
                            '{'
                        } else {
                            '['
                        };
                        let close = if vs[0] == '{' {
                            '}'
                        } else {
                            ']'
                        };
                        let d0 = count_char_s(vs, open) - count_char_s(vs, close);
                        lemma_collect_value_len(lines.drop_first(), vs, d0, open, close);
                    }
                },
            }
        }
    }
}

/// The map a variable-assignment text denotes.
pub open spec fn parse_tfvars_spec(content: Seq<char>) -> Map<Seq<char>, Seq<char>> {
    parse_lines(lines_of(content), Map::empty())
}

// ─── The result map ─────────────────────────────────────────────────────────

/// The map denoted by an association list, later bindings overriding.
pub open spec fn map_of(es: Seq<(Seq<char>, Seq<char>)>) -> Map<Seq<char>, Seq<char>>
    decreases es.len(),
{
    if es.len() == 0 {
        Map::empty()
    } else {
        map_of(es.drop_last()).insert(es.last().0, es.last().1)
    }
}

/// Whether the keys of an association list are distinct.
pub open spec fn distinct_keys(es: Seq<(Seq<char>, Seq<char>)>) -> bool {
    forall|i: int, j: int| 0 <= i < j < es.len() ==> (#[trigger] es[i]).0 != (#[trigger] es[j]).0
}

proof fn lemma_map_of_get(es: Seq<(Seq<char>, Seq<char>)>, i: int)
    requires
        0 <= i < es.len(),
        forall|j: int| i < j < es.len() ==> (#[trigger] es[j]).0 != es[i].0,
    ensures
        map_of(es).dom().contains(es[i].0),
        map_of(es)[es[i].0] == es[i].1,
    decreases es.len(),
{
    if i < es.len() - 1 {
        assert(forall|j: int|
            i < j < es.drop_last().len() ==> (#[trigger] es.drop_last()[j]).0 != es.drop_last()[i].0);
        lemma_map_of_get(es.drop_last(), i);
    }
}

proof fn lemma_map_of_absent(es: Seq<(Seq<char>, Seq<char>)>, k: Seq<char>)
    requires
        forall|i: int| 0 <= i < es.len() ==> (#[trigger] es[i]).0 != k,
    ensures
        !map_of(es).dom().contains(k),
    decreases es.len(),
{
    if es.len() > 0 {
        lemma_map_of_absent(es.drop_last(), k);
    }
}

proof fn lemma_map_of_update(es: Seq<(Seq<char>, Seq<char>)>, i: int, v: Seq<char>)
    requires
        distinct_keys(es),
        0 <= i < es.len(),
    ensures
        map_of(es.update(i, (es[i].0, v))) == map_of(es).insert(es[i].0, v),
    decreases es.len(),
{
    let u = es.update(i, (es[i].0, v));
    if i == es.len() - 1 {
        assert(u.drop_last() =~= es.drop_last());
        assert(u.last() == (es[i].0, v));
        assert(map_of(u) == map_of(es.drop_last()).insert(es[i].0, v));
        assert(map_of(es.drop_last()).insert(es[i].0, es[i].1).insert(es[i].0, v) =~= map_of(
            es.drop_last(),
        ).insert(es[i].0, v));
    } else {
        assert(u.drop_last() =~= es.drop_last().update(i, (es[i].0, v)));
        assert(u.last() == es.last());
        lemma_map_of_update(es.drop_last(), i, v);
        assert(es.drop_last()[i] == es[i]);
        assert(es[i].0 != es.last().0);
        assert(map_of(es.drop_last()).insert(es[i].0, v).insert(es.last().0, es.last().1) =~= map_of(
            es.drop_last(),
        ).insert(es.last().0, es.last().1).insert(es[i].0, v));
    }
}

proof fn lemma_map_of_card(es: Seq<(Seq<char>, Seq<char>)>)
    requires
        distinct_keys(es),
    ensures
        map_of(es).dom().finite(),
        map_of(es).dom().len() == es.len(),
    decreases es.len(),
{
    if es.len() > 0 {
        lemma_map_of_card(es.drop_last());
        lemma_map_of_absent(es.drop_last(), es.last().0);
    }
}

/// Map from variable name to raw value text, with distinct keys; a repeated
/// binding replaces the earlier one.
#[derive(Debug, Clone)]
pub struct TfvarsMap {
    pub entries: Vec<(String, String)>,
}

impl View for TfvarsMap {
    type V = Map<Seq<char>, Seq<char>>;

    open spec fn view(&self) -> Map<Seq<char>, Seq<char>> {
        map_of(self.entries.deep_view())
    }
}

impl TfvarsMap {
    /// The keys are distinct, so the entry count is the map's size.
    pub open spec fn wf(&self) -> bool {
        distinct_keys(self.entries.deep_view())
    }

    /// An empty map.
    pub fn new() -> (r: TfvarsMap)
        ensures
            r@ == Map::<Seq<char>, Seq<char>>::empty(),
            r.wf(),
    {
        let r = TfvarsMap { entries: Vec::new() };
        proof {
            assert(r.entries.deep_view() =~~= Seq::<(Seq<char>, Seq<char>)>::empty());
        }
        r
    }

    /// Bind `key` to `value`, replacing any earlier binding.
    pub fn insert(&mut self, key: String, value: String)
        requires
            old(self).wf(),
        ensures
            final(self)@ == old(self)@.insert(key@, value@),
            final(self).wf(),
    {
        let ghost es = self.entries.deep_view();
        let kv = chars_of(key.as_str());
        let n = self.entries.len();
        let mut i: usize = 0;
        while i < n
            invariant
                n == self.entries.len(),
                self.entries.deep_view() == es,
                i <= n,
                es.len() == n,
                kv@ == key@,
                distinct_keys(es),
                es == old(self).entries.deep_view(),
                forall|j: int| 0 <= j < i ==> (#[trigger] es[j]).0 != key@,
            decreases n - i,
        {
            let en = chars_of(self.entries[i].0.as_str());
            proof {
                assert(es[i as int].0 == self.entries@[i as int].0@);
            }
            if eq_chars(&en, &kv) {
                let ghost gi = i as int;
                self.entries[i].1 = value;
                proof {
                    let now = self.entries.deep_view();
                    assert(es[gi].0 == key@);
                    assert(self.entries@[gi].1@ == value@);
                    assert(now =~~= es.update(gi, (es[gi].0, self.entries@[gi].1@)));
                    lemma_map_of_update(es, gi, self.entries@[gi].1@);
                    assert(map_of(now) == map_of(es.update(gi, (es[gi].0, value@))));
                    assert(map_of(now) == map_of(es).insert(key@, value@));
                    assert(old(self)@ == map_of(es));
                    assert(self@ == old(self)@.insert(key@, value@));
                    assert forall|a: int, b: int| 0 <= a < b < now.len() implies (
                    #[trigger] now[a]).0 != (#[trigger] now[b]).0 by {
                        assert(now[a].0 == es[a].0);
                        assert(now[b].0 == es[b].0);
                    }
                }
                return ;
            }
            i = i + 1;
        }
        let ghost prev = self.entries.deep_view();
        self.entries.push((key, value));
        proof {
            assert(self.entries.deep_view() =~~= prev.push(
                (self.entries@.last().0@, self.entries@.last().1@),
            ));
            assert(self.entries.deep_view().drop_last() =~~= prev);
            assert(distinct_keys(self.entries.deep_view()));
        }
    }

    /// The value bound to `key`, if any.
    pub fn get(&self, key: &str) -> (r: Option<&String>)
        requires
            self.wf(),
        ensures
            match r {
                Some(v) => self@.dom().contains(key@) && self@[key@] == v@,
                None => !self@.dom().contains(key@),
            },
    {
        let ghost es = self.entries.deep_view();
        let kv = chars_of(key);
        let n = self.entries.len();
        let mut i: usize = 0;
        while i < n
            invariant
                n == self.entries.len(),
                self.entries.deep_view() == es,
                self.wf(),
                i <= n,
                es.len() == n,
                kv@ == key@,
                forall|j: int| 0 <= j < i ==> (#[trigger] es[j]).0 != key@,
            decreases n - i,
        {
            let en = chars_of(self.entries[i].0.as_str());
            proof {
                assert(es[i as int].0 == self.entries@[i as int].0@);
            }
            if eq_chars(&en, &kv) {
                proof {
                    lemma_map_of_get(es, i as int);
                    assert(es[i as int].1 == self.entries@[i as int].1@);
                }
                return Some(&self.entries[i].1);
            }
            i = i + 1;
        }
        proof {
            lemma_map_of_absent(es, key@);
        }
        None
    }

    /// The number of bindings, which is the size of the map.
    pub fn len(&self) -> (r: usize)
        requires
            self.wf(),
        ensures
            r == self@.dom().len(),
    {
        proof {
            lemma_map_of_card(self.entries.deep_view());
        }
        self.entries.len()
    }
}

// ─── Executable reader ──────────────────────────────────────────────────────

proof fn lemma_strip_lead_at(s: Seq<char>, i: int)
    requires
        0 <= i <= s.len(),
        forall|k: int| 0 <= k < i ==> s[k] == '"',
        i == s.len() || s[i] != '"',
    ensures
        strip_lead_q(s) == s.skip(i),
    decreases i,
{
    if i == 0 {
        assert(s.skip(0) =~= s);
    } else {
        assert(s[0] == '"');
        lemma_strip_lead_at(s.drop_first(), i - 1);
        assert(s.drop_first().skip(i - 1) =~= s.skip(i));
    }
}

proof fn lemma_strip_trail_at(s: Seq<char>, j: int)
    requires
        0 <= j <= s.len(),
        forall|k: int| j <= k < s.len() ==> s[k] == '"',
        j == 0 || s[j - 1] != '"',
    ensures
        strip_trail_q(s) == s.take(j),
    decreases s.len() - j,
{
    if j == s.len() {
        assert(s.take(j) =~= s);
    } else {
        assert(s[s.len() - 1] == '"');
        lemma_strip_trail_at(s.drop_last(), j);
        assert(s.drop_last().take(j) =~= s.take(j));
    }
}

/// Drop all surrounding quotes, executably.
fn strip_quotes_exec(v: &Vec<char>) -> (r: Vec<char>)
    ensures
        r@ == strip_quotes(v@),
{
    let n = v.len();
    let mut a: usize = 0;
    while a < n && v[a] == '"'
        invariant
            n == v.len(),
            a <= n,
            forall|k: int| 0 <= k < a ==> v@[k] == '"',
        decreases n - a,
    {
        a = a + 1;
    }
    proof {
        lemma_strip_lead_at(v@, a as int);
    }
    if a == n {
        proof {
            assert(v@.skip(a as int) =~= Seq::<char>::empty());
        }
        return Vec::new();
    }
    let ghost w = v@.skip(a as int);
    let mut b: usize = n;
    while b > a && v[b - 1] == '"'
        invariant
            n == v.len(),
            a <= b <= n,
            v@[a as int] != '"',
            forall|k: int| b <= k < n ==> v@[k] == '"',
        decreases b,
    {
        b = b - 1;
    }
    // v[a] is not a quote, so the backward scan stops at b >= a + 1.
    proof {
        assert(forall|k: int| (b - a) <= k < w.len() ==> w[k] == '"');
        assert(w[(b - a) - 1] == v@[b - 1]);
        lemma_strip_trail_at(w, b - a);
        assert(w.take(b - a) =~= v@.subrange(a as int, b as int));
    }
    subrange_vec(v, a, b)
}

/// Read variable assignments from generated text: blank and comment lines
/// are skipped, each assignment is split at its first `=`, brace- or
/// bracket-opened values collect following lines until balanced, quoted
/// scalars are unquoted, and anything else is kept as raw text. The result
/// is exactly `parse_tfvars_spec` of the text.
pub fn parse_tfvars_file(content: &str) -> (r: TfvarsMap)
    ensures
        r@ == parse_tfvars_spec(content@),
        r.wf(),
{
    let cs = chars_of(content);
    let total = cs.len();
    let lines = split_lines(&cs);
    let ghost ldv = lines.deep_view();
    proof {
        lemma_lines_total_len(cs@);
        lemma_total_len_nonneg(ldv);
        assert(ldv.skip(0) =~~= ldv);
    }
    let mut map = TfvarsMap::new();
    let mut j: usize = 0;
    while j < lines.len()
        invariant
            ldv == lines.deep_view(),
            lines@.len() == ldv.len(),
            total_len(ldv) <= total as int,
            j <= lines.len(),
            map.wf(),
            parse_lines(ldv, Map::<Seq<char>, Seq<char>>::empty()) == parse_lines(
                ldv.skip(j as int),
                map@,
            ),
        decreases lines.len() - j,
    {
        proof {
            assert(ldv[j as int] == lines@[j as int].deep_view());
            assert(ldv.skip(j as int)[0] == ldv[j as int]);
            assert(ldv.skip(j as int).drop_first() =~~= ldv.skip(j + 1 as int));
        }
        let t = trim(&lines[j]);
        if t.len() == 0 || t[0] == '#' {
            j = j + 1;
        } else {
            match find_char(&t, '=') {
                None => {
                    j = j + 1;
                },
                Some(i) => {
                    proof {
                        lemma_find_in_first(t@, '=');
                    }
                    let n_t = t.len();
                    let before = subrange_vec(&t, 0, i);
                    proof {
                        assert(before@ =~= t@.take(i as int));
                    }
                    let key = trim(&before);
                    let rest = subrange_vec(&t, i + 1, n_t);
                    proof {
                        assert(rest@ =~= t@.skip(i + 1));
                    }
                    let vs = trim(&rest);
                    if vs.len() > 0 && (vs[0] == '{' || vs[0] == '[') {
                        let open: char = if vs[0] == '{' {
                            '{'
                        } else {
                            '['
                        };
                        let close: char = if vs[0] == '{' {
                            '}'
                        } else {
                            ']'
                        };
                        proof {
                            lemma_count_char_bound(vs@, open);
                            lemma_count_char_bound(vs@, close);
                            lemma_trimmed_len(rest@);
                            lemma_trimmed_len(ldv[j as int]);
                            lemma_total_len_push(ldv.take(j as int), ldv[j as int]);
                            lemma_total_len_nonneg(ldv.take(j as int));
                            assert(ldv.take(j + 1 as int) =~~= ldv.take(j as int).push(
                                ldv[j as int],
                            ));
                            lemma_total_len_take_le(ldv, j + 1 as int);
                        }
                        let co = count_char(&vs, open);
                        let cc = count_char(&vs, close);
                        let mut depth: i128 = co as i128 - cc as i128;
                        let ghost vs0 = vs@;
                        let ghost d0 = depth as int;
                        let ghost m0 = map@;
                        let mut buf = vs;
                        let mut k: usize = j + 1;
                        while depth > 0 && k < lines.len()
                            invariant
                                ldv == lines.deep_view(),
                                lines@.len() == ldv.len(),
                                total_len(ldv) <= total as int,
                                j < k <= lines.len(),
                                -total_len(ldv.take(k as int)) <= depth as int <= total_len(
                                    ldv.take(k as int),
                                ),
                                total_len(ldv.take(k as int)) <= total as int,
                                collect_value(ldv.skip(j + 1 as int), vs0, d0, open, close)
                                    == collect_value(
                                    ldv.skip(k as int),
                                    buf@,
                                    depth as int,
                                    open,
                                    close,
                                ),
                            decreases lines.len() - k,
                        {
                            proof {
                                assert(ldv[k as int] == lines@[k as int].deep_view());
                                assert(ldv.skip(k as int)[0] == ldv[k as int]);
                                assert(ldv.skip(k as int).drop_first() =~~= ldv.skip(k + 1 as int));
                                lemma_trimmed_len(ldv[k as int]);
                                lemma_total_len_push(ldv.take(k as int), ldv[k as int]);
                                lemma_total_len_nonneg(ldv.take(k as int));
                                assert(ldv.take(k + 1 as int) =~~= ldv.take(k as int).push(
                                    ldv[k as int],
                                ));
                                lemma_total_len_take_le(ldv, k + 1 as int);
                            }
                            let lt = trim(&lines[k]);
                            proof {
                                lemma_count_char_bound(lt@, open);
                                lemma_count_char_bound(lt@, close);
                            }
                            let ghost buf0 = buf@;
                            let ghost depth0 = depth as int;
                            buf.push('\n');
                            extend_chars(&mut buf, &lt);
                            proof {
                                assert(buf@ =~= buf0 + seq!['\n'] + lt@);
                            }
                            let lo = count_char(&lt, open);
                            let lc = count_char(&lt, close);
                            depth = depth + lo as i128 - lc as i128;
                            proof {
                                assert(collect_value(ldv.skip(k as int), buf0, depth0, open, close)
                                    == collect_value(
                                    ldv.skip(k + 1 as int),
                                    buf@,
                                    depth as int,
                                    open,
                                    close,
                                ));
                            }
                            k = k + 1;
                        }
                        proof {
                            if depth > 0 {
                                assert(k == lines@.len());
                                assert(ldv.skip(k as int) =~~= Seq::<Seq<char>>::empty());
                            }
                            assert(collect_value(ldv.skip(k as int), buf@, depth as int, open, close)
                                == (buf@, ldv.skip(k as int)));
                            assert(parse_lines(ldv.skip(j as int), m0) == parse_lines(
                                ldv.skip(k as int),
                                m0.insert(key@, buf@),
                            ));
                        }
                        let key_string = string_from_chars(&key);
                        let buf_string = string_from_chars(&buf);
                        map.insert(key_string, buf_string);
                        j = k;
                    } else if vs.len() > 0 && vs[0] == '"' {
                        let stripped = strip_quotes_exec(&vs);
                        let key_string = string_from_chars(&key);
                        let val_string = string_from_chars(&stripped);
                        map.insert(key_string, val_string);
                        j = j + 1;
                    } else {
                        let key_string = string_from_chars(&key);
                        let val_string = string_from_chars(&vs);
                        map.insert(key_string, val_string);
                        j = j + 1;
                    }
                },
            }
        }
    }
    proof {
        assert(ldv.skip(ldv.len() as int) =~~= Seq::<Seq<char>>::empty());
    }
    map
}

} // verus!
