//! Verified text utilities: character classification, trimming, searching,
//! counting and line splitting over character sequences.
//!
//! Executable code works on `Vec<char>`; every function is specified against
//! a spec function over `Seq<char>`, so that the parser and serializer can
//! state their contracts purely over mathematical sequences.

use vstd::prelude::*;

verus! {

/// The deep view of a character vector is its view.
pub broadcast proof fn lemma_vec_char_deep_view(v: Vec<char>)
    ensures
        #[trigger] v.deep_view() == v@,
{
    assert(v.deep_view() =~= v@);
}

// ─── Character classes ──────────────────────────────────────────────────────

/// Whitespace as this library trims it: the ASCII whitespace characters.
pub open spec fn is_space_char(c: char) -> bool {
    c == ' ' || c == '\t' || c == '\n' || c == '\r' || c == '\u{000B}' || c == '\u{000C}'
}

/// Executable test matching `is_space_char`.
pub fn is_space(c: char) -> (r: bool)
    ensures
        r == is_space_char(c),
{
    c == ' ' || c == '\t' || c == '\n' || c == '\r' || c == '\u{000B}' || c == '\u{000C}'
}

/// ASCII lower-casing of a single character; other characters are unchanged.
pub open spec fn lower_char(c: char) -> char {
    if 'A' <= c && c <= 'Z' {
        (((c as u8) + 32) as char)
    } else {
        c
    }
}

/// ASCII lower-casing of a character sequence.
pub open spec fn lower_seq(s: Seq<char>) -> Seq<char> {
    s.map_values(|c: char| lower_char(c))
}

/// Executable ASCII lower-casing.
pub fn lower(s: &Vec<char>) -> (r: Vec<char>)
    ensures
        r@ == lower_seq(s@),
{
    let mut r: Vec<char> = Vec::new();
    let mut i: usize = 0;
    while i < s.len()
        invariant
            i <= s.len(),
            r@ == lower_seq(s@.take(i as int)),
        decreases s.len() - i,
    {
        let c = s[i];
        let lc: char = if 'A' <= c && c <= 'Z' {
            (((c as u8) + 32) as char)
        } else {
            c
        };
        r.push(lc);
        proof {
            assert(s@.take(i + 1 as int).map_values(|c: char| lower_char(c)) =~= s@.take(
                i as int,
            ).map_values(|c: char| lower_char(c)).push(lower_char(s@[i as int])));
        }
        i = i + 1;
    }
    proof {
        assert(s@.take(s@.len() as int) =~= s@);
    }
    r
}

// ─── Trimming ───────────────────────────────────────────────────────────────

/// Drop leading whitespace.
pub open spec fn trim_front(s: Seq<char>) -> Seq<char>
    decreases s.len(),
{
    if s.len() == 0 {
        s
    } else if is_space_char(s[0]) {
        trim_front(s.drop_first())
    } else {
        s
    }
}

/// Drop trailing whitespace.
pub open spec fn trim_back(s: Seq<char>) -> Seq<char>
    decreases s.len(),
{
    if s.len() == 0 {
        s
    } else if is_space_char(s[s.len() - 1]) {
        trim_back(s.drop_last())
    } else {
        s
    }
}

/// Drop leading and trailing whitespace.
pub open spec fn trimmed(s: Seq<char>) -> Seq<char> {
    trim_back(trim_front(s))
}

pub proof fn lemma_trim_front_at(s: Seq<char>, i: int)
    requires
        0 <= i <= s.len(),
        forall|k: int| 0 <= k < i ==> is_space_char(s[k]),
        i == s.len() || !is_space_char(s[i]),
    ensures
        trim_front(s) == s.skip(i),
    decreases i,
{
    if i == 0 {
        assert(s.skip(0) =~= s);
    } else {
        assert(is_space_char(s[0]));
        lemma_trim_front_at(s.drop_first(), i - 1);
        assert(s.drop_first().skip(i - 1) =~= s.skip(i));
    }
}

pub proof fn lemma_trim_back_at(s: Seq<char>, j: int)
    requires
        0 <= j <= s.len(),
        forall|k: int| j <= k < s.len() ==> is_space_char(s[k]),
        j == 0 || !is_space_char(s[j - 1]),
    ensures
        trim_back(s) == s.take(j),
    decreases s.len() - j,
{
    if j == s.len() {
        assert(s.take(j) =~= s);
    } else {
        assert(is_space_char(s[s.len() - 1]));
        lemma_trim_back_at(s.drop_last(), j);
        assert(s.drop_last().take(j) =~= s.take(j));
    }
}

/// Executable trim matching `trimmed`.
pub fn trim(s: &Vec<char>) -> (r: Vec<char>)
    ensures
        r@ == trimmed(s@),
{
    let n = s.len();
    let mut i: usize = 0;
    while i < n && is_space(s[i])
        invariant
            n == s.len(),
            i <= n,
            forall|k: int| 0 <= k < i ==> is_space_char(s@[k]),
        decreases n - i,
    {
        i = i + 1;
    }
    proof {
        lemma_trim_front_at(s@, i as int);
    }
    if i == n {
        proof {
            assert(trim_front(s@) =~= Seq::<char>::empty());
            assert(trim_back(Seq::<char>::empty()) =~= Seq::<char>::empty());
        }
        return Vec::new();
    }
    let mut j: usize = n;
    while j > i && is_space(s[j - 1])
        invariant
            n == s.len(),
            i <= j <= n,
            !is_space_char(s@[i as int]),
            forall|k: int| j <= k < n ==> is_space_char(s@[k]),
        decreases j,
    {
        j = j - 1;
    }
    // j > i here: s[i] is not a space, so the backward scan stops at j >= i + 1.
    proof {
        let t = s@.skip(i as int);
        assert(trim_front(s@) == t);
        assert(forall|k: int| (j - i) <= k < t.len() ==> is_space_char(t[k]));
        assert(t[(j - i) - 1] == s@[j - 1]);
        lemma_trim_back_at(t, j - i);
        assert(t.take(j - i) =~= s@.subrange(i as int, j as int));
    }
    let mut r: Vec<char> = Vec::new();
    let mut k: usize = i;
    while k < j
        invariant
            i <= k <= j <= s.len(),
            r@ == s@.subrange(i as int, k as int),
        decreases j - k,
    {
        r.push(s[k]);
        proof {
            assert(s@.subrange(i as int, k + 1 as int) =~= s@.subrange(i as int, k as int).push(
                s@[k as int],
            ));
        }
        k = k + 1;
    }
    r
}

// ─── Searching and counting ─────────────────────────────────────────────────

/// Index of the first occurrence of `c` in `s`, if any.
pub open spec fn find_in(s: Seq<char>, c: char) -> Option<int>
    decreases s.len(),
{
    if s.len() == 0 {
        None
    } else if s[0] == c {
        Some(0)
    } else {
        match find_in(s.drop_first(), c) {
            Some(i) => Some(i + 1),
            None => None,
        }
    }
}

/// Index of the last occurrence of `c` in `s`, if any.
pub open spec fn rfind_in(s: Seq<char>, c: char) -> Option<int>
    decreases s.len(),
{
    if s.len() == 0 {
        None
    } else if s[s.len() - 1] == c {
        Some(s.len() - 1)
    } else {
        rfind_in(s.drop_last(), c)
    }
}

/// `find_in` finds the first occurrence: everything before it differs from `c`.
pub proof fn lemma_find_in_first(s: Seq<char>, c: char)
    ensures
        match find_in(s, c) {
            Some(i) => 0 <= i < s.len() && s[i] == c && forall|k: int| 0 <= k < i ==> s[k] != c,
            None => forall|k: int| 0 <= k < s.len() ==> s[k] != c,
        },
    decreases s.len(),
{
    if s.len() > 0 && s[0] != c {
        lemma_find_in_first(s.drop_first(), c);
        match find_in(s.drop_first(), c) {
            Some(i) => {
                assert forall|k: int| 0 <= k < i + 1 implies s[k] != c by {
                    if k > 0 {
                        assert(s[k] == s.drop_first()[k - 1]);
                    }
                }
            },
            None => {
                assert forall|k: int| 0 <= k < s.len() implies s[k] != c by {
                    if k > 0 {
                        assert(s[k] == s.drop_first()[k - 1]);
                    }
                }
            },
        }
    }
}

/// `rfind_in` finds the last occurrence: everything after it differs from `c`.
pub proof fn lemma_rfind_in_last(s: Seq<char>, c: char)
    ensures
        match rfind_in(s, c) {
            Some(i) => 0 <= i < s.len() && s[i] == c && forall|k: int|
                i < k < s.len() ==> s[k] != c,
            None => forall|k: int| 0 <= k < s.len() ==> s[k] != c,
        },
    decreases s.len(),
{
    if s.len() > 0 && s[s.len() - 1] != c {
        lemma_rfind_in_last(s.drop_last(), c);
        assert(forall|k: int| 0 <= k < s.len() - 1 ==> s[k] == s.drop_last()[k]);
    }
}

/// Whether `c` occurs in `s`.
pub open spec fn contains_char_s(s: Seq<char>, c: char) -> bool {
    exists|i: int| 0 <= i < s.len() && s[i] == c
}

/// Executable first-occurrence search.
pub fn find_char(s: &Vec<char>, c: char) -> (r: Option<usize>)
    ensures
        match r {
            Some(i) => find_in(s@, c) == Some(i as int),
            None => find_in(s@, c) is None,
        },
{
    let ghost gs = s@;
    proof {
        assert(gs.skip(0) =~= gs);
    }
    let mut i: usize = 0;
    while i < s.len()
        invariant
            gs == s@,
            i <= s.len(),
            find_in(gs, c) == match find_in(gs.skip(i as int), c) {
                Some(j) => Some(j + i),
                None => None::<int>,
            },
        decreases s.len() - i,
    {
        if s[i] == c {
            proof {
                assert(gs.skip(i as int)[0] == c);
            }
            return Some(i);
        }
        proof {
            assert(gs.skip(i as int)[0] != c);
            assert(gs.skip(i as int).drop_first() =~= gs.skip(i + 1 as int));
        }
        i = i + 1;
    }
    proof {
        assert(gs.skip(gs.len() as int) =~= Seq::<char>::empty());
    }
    None
}

/// Executable last-occurrence search.
pub fn rfind_char(s: &Vec<char>, c: char) -> (r: Option<usize>)
    ensures
        match r {
            Some(i) => rfind_in(s@, c) == Some(i as int),
            None => rfind_in(s@, c) is None,
        },
{
    let ghost gs = s@;
    proof {
        assert(gs.take(gs.len() as int) =~= gs);
    }
    let mut j: usize = s.len();
    while j > 0
        invariant
            gs == s@,
            j <= s.len(),
            rfind_in(gs, c) == rfind_in(gs.take(j as int), c),
        decreases j,
    {
        if s[j - 1] == c {
            proof {
                assert(gs.take(j as int)[j - 1] == c);
            }
            return Some(j - 1);
        }
        proof {
            assert(gs.take(j as int)[j - 1] != c);
            assert(gs.take(j as int).drop_last() =~= gs.take(j - 1 as int));
        }
        j = j - 1;
    }
    proof {
        assert(gs.take(0) =~= Seq::<char>::empty());
    }
    None
}

/// Executable membership test.
pub fn contains_char(s: &Vec<char>, c: char) -> (r: bool)
    ensures
        r == contains_char_s(s@, c),
{
    let r = find_char(s, c);
    proof {
        lemma_find_in_first(s@, c);
    }
    match r {
        Some(_) => true,
        None => false,
    }
}

/// Number of occurrences of `c` in `s`.
pub open spec fn count_char_s(s: Seq<char>, c: char) -> int
    decreases s.len(),
{
    if s.len() == 0 {
        0
    } else {
        count_char_s(s.drop_last(), c) + if s[s.len() - 1] == c {
            1int
        } else {
            0int
        }
    }
}

pub proof fn lemma_count_char_bound(s: Seq<char>, c: char)
    ensures
        0 <= count_char_s(s, c) <= s.len(),
    decreases s.len(),
{
    if s.len() > 0 {
        lemma_count_char_bound(s.drop_last(), c);
    }
}

/// Executable occurrence count.
pub fn count_char(s: &Vec<char>, c: char) -> (r: usize)
    ensures
        r as int == count_char_s(s@, c),
        r <= s.len(),
{
    let mut i: usize = 0;
    let mut n: usize = 0;
    while i < s.len()
        invariant
            i <= s.len(),
            n as int == count_char_s(s@.take(i as int), c),
            n <= i,
        decreases s.len() - i,
    {
        proof {
            assert(s@.take(i + 1 as int).drop_last() =~= s@.take(i as int));
            assert(s@.take(i + 1 as int)[i as int] == s@[i as int]);
        }
        if s[i] == c {
            n = n + 1;
        }
        i = i + 1;
    }
    proof {
        assert(s@.take(s@.len() as int) =~= s@);
    }
    n
}

// ─── Prefix and substring tests ─────────────────────────────────────────────

/// Whether `p` is a prefix of `s`.
pub open spec fn starts_with_s(s: Seq<char>, p: Seq<char>) -> bool {
    p.len() <= s.len() && s.take(p.len() as int) == p
}

/// Whether `p` occurs in `s` starting at `i`.
pub open spec fn matches_at_s(s: Seq<char>, i: int, p: Seq<char>) -> bool {
    0 <= i && i + p.len() <= s.len() && s.subrange(i, i + p.len()) == p
}

/// Whether `p` occurs anywhere in `s`.
pub open spec fn contains_seq_s(s: Seq<char>, p: Seq<char>) -> bool {
    exists|i: int| matches_at_s(s, i, p)
}

/// Executable match test at a fixed offset.
pub fn matches_at(s: &Vec<char>, i: usize, p: &Vec<char>) -> (r: bool)
    ensures
        r == matches_at_s(s@, i as int, p@),
{
    if i > s.len() || p.len() > s.len() - i {
        return false;
    }
    let mut k: usize = 0;
    while k < p.len()
        invariant
            i + p.len() <= s.len(),
            k <= p.len(),
            forall|m: int| 0 <= m < k ==> s@[i + m] == p@[m],
        decreases p.len() - k,
    {
        if s[i + k] != p[k] {
            return false;
        }
        k = k + 1;
    }
    proof {
        assert(s@.subrange(i as int, i + p@.len()) =~= p@);
    }
    true
}

/// Executable prefix test.
pub fn starts_with(s: &Vec<char>, p: &Vec<char>) -> (r: bool)
    ensures
        r == starts_with_s(s@, p@),
{
    let r = matches_at(s, 0, p);
    proof {
        if p@.len() <= s@.len() {
            assert(s@.subrange(0, p@.len() as int) =~= s@.take(p@.len() as int));
        }
    }
    r
}

/// Executable substring search.
pub fn contains_seq(s: &Vec<char>, p: &Vec<char>) -> (r: bool)
    ensures
        r == contains_seq_s(s@, p@),
{
    if p.len() > s.len() {
        return false;
    }
    if p.len() == 0 {
        proof {
            assert(matches_at_s(s@, 0, p@)) by {
                assert(s@.subrange(0, 0) =~= p@);
            }
        }
        return true;
    }
    let mut i: usize = 0;
    while i <= s.len() - p.len()
        invariant
            1 <= p.len() <= s.len(),
            i <= s.len(),
            forall|m: int| 0 <= m < i ==> !matches_at_s(s@, m, p@),
        decreases s.len() - i,
    {
        if matches_at(s, i, p) {
            return true;
        }
        i = i + 1;
    }
    false
}

/// Executable sequence equality.
pub fn eq_chars(a: &Vec<char>, b: &Vec<char>) -> (r: bool)
    ensures
        r == (a@ == b@),
{
    if a.len() != b.len() {
        return false;
    }
    let mut i: usize = 0;
    while i < a.len()
        invariant
            a.len() == b.len(),
            i <= a.len(),
            forall|k: int| 0 <= k < i ==> a@[k] == b@[k],
        decreases a.len() - i,
    {
        if a[i] != b[i] {
            return false;
        }
        i = i + 1;
    }
    proof {
        assert(a@ =~= b@);
    }
    true
}

// ─── Building and converting ────────────────────────────────────────────────

/// Relies on `String::push`: appends exactly the given character.
#[verifier::external_body]
fn push_char(s: &mut String, c: char)
    ensures
        final(s)@ == old(s)@.push(c),
{
    s.push(c);
}

/// The characters of a `&str`, as a vector.
pub fn chars_of(s: &str) -> (r: Vec<char>)
    ensures
        r@ == s@,
{
    let n = s.unicode_len();
    let mut r: Vec<char> = Vec::new();
    let mut i: usize = 0;
    while i < n
        invariant
            n == s@.len(),
            i <= n,
            r@ == s@.take(i as int),
        decreases n - i,
    {
        r.push(s.get_char(i));
        proof {
            assert(s@.take(i + 1 as int) =~= s@.take(i as int).push(s@[i as int]));
        }
        i = i + 1;
    }
    proof {
        assert(s@.take(s@.len() as int) =~= s@);
    }
    r
}

/// A `String` holding exactly the given characters.
pub fn string_from_chars(v: &Vec<char>) -> (r: String)
    ensures
        r@ == v@,
{
    let mut r = String::new();
    let mut i: usize = 0;
    while i < v.len()
        invariant
            i <= v.len(),
            r@ == v@.take(i as int),
        decreases v.len() - i,
    {
        push_char(&mut r, v[i]);
        proof {
            assert(v@.take(i + 1 as int) =~= v@.take(i as int).push(v@[i as int]));
        }
        i = i + 1;
    }
    proof {
        assert(v@.take(v@.len() as int) =~= v@);
    }
    r
}

/// Append all characters of `src` to `dst`.
pub fn extend_chars(dst: &mut Vec<char>, src: &Vec<char>)
    ensures
        final(dst)@ == old(dst)@ + src@,
{
    let mut i: usize = 0;
    while i < src.len()
        invariant
            i <= src.len(),
            dst@ == old(dst)@ + src@.take(i as int),
        decreases src.len() - i,
    {
        dst.push(src[i]);
        proof {
            assert(old(dst)@ + src@.take(i + 1 as int) =~= (old(dst)@ + src@.take(i as int)).push(
                src@[i as int],
            ));
        }
        i = i + 1;
    }
    proof {
        assert(old(dst)@ + src@.take(src@.len() as int) =~= old(dst)@ + src@);
    }
}

/// Copy of `s@.subrange(a, b)`.
pub fn subrange_vec(s: &Vec<char>, a: usize, b: usize) -> (r: Vec<char>)
    requires
        a <= b <= s@.len(),
    ensures
        r@ == s@.subrange(a as int, b as int),
{
    let mut r: Vec<char> = Vec::new();
    let mut k: usize = a;
    while k < b
        invariant
            a <= k <= b <= s@.len(),
            r@ == s@.subrange(a as int, k as int),
        decreases b - k,
    {
        r.push(s[k]);
        proof {
            assert(s@.subrange(a as int, k + 1 as int) =~= s@.subrange(a as int, k as int).push(
                s@[k as int],
            ));
        }
        k = k + 1;
    }
    r
}

// ─── Line splitting ─────────────────────────────────────────────────────────

/// Drop a single trailing carriage return, as `str::lines` does.
pub open spec fn strip_cr(s: Seq<char>) -> Seq<char> {
    if s.len() > 0 && s[s.len() - 1] == '\r' {
        s.drop_last()
    } else {
        s
    }
}

/// Line splitting, scanning `s` with `cur` holding the unfinished line.
pub open spec fn split_rec(s: Seq<char>, cur: Seq<char>) -> Seq<Seq<char>>
    decreases s.len(),
{
    if s.len() == 0 {
        if cur.len() == 0 {
            Seq::empty()
        } else {
            seq![strip_cr(cur)]
        }
    } else if s[0] == '\n' {
        seq![strip_cr(cur)] + split_rec(s.drop_first(), Seq::empty())
    } else {
        split_rec(s.drop_first(), cur.push(s[0]))
    }
}

/// The lines of `s`, split at newlines with trailing carriage returns
/// removed, and with no final empty line when `s` ends in a newline.
/// This matches how `str::lines` reads text.
pub open spec fn lines_of(s: Seq<char>) -> Seq<Seq<char>> {
    split_rec(s, Seq::empty())
}

/// Executable line splitting matching `lines_of`.
pub fn split_lines(s: &Vec<char>) -> (r: Vec<Vec<char>>)
    ensures
        r.deep_view() == lines_of(s@),
{
    let ghost gs = s@;
    let mut r: Vec<Vec<char>> = Vec::new();
    let mut cur: Vec<char> = Vec::new();
    proof {
        assert(gs.skip(0) =~= gs);
        assert(r.deep_view() + split_rec(gs, Seq::empty()) =~= split_rec(gs, Seq::empty()));
    }
    let mut i: usize = 0;
    while i < s.len()
        invariant
            gs == s@,
            i <= s.len(),
            lines_of(gs) == r.deep_view() + split_rec(gs.skip(i as int), cur@),
        decreases s.len() - i,
    {
        let c = s[i];
        proof {
            assert(gs.skip(i as int)[0] == gs[i as int]);
            assert(gs.skip(i as int).drop_first() =~= gs.skip(i + 1 as int));
        }
        if c == '\n' {
            let ghost prev_r = r.deep_view();
            let ghost old_cur = cur@;
            let mut line = cur;
            if line.len() > 0 && line[line.len() - 1] == '\r' {
                line.pop();
            }
            proof {
                assert(line@ == strip_cr(old_cur));
            }
            r.push(line);
            cur = Vec::new();
            proof {
                assert(r.deep_view() =~~= prev_r.push(strip_cr(old_cur)));
                assert(prev_r + split_rec(gs.skip(i as int), old_cur) =~~= r.deep_view()
                    + split_rec(gs.skip(i + 1 as int), Seq::empty()));
            }
        } else {
            cur.push(c);
        }
        i = i + 1;
    }
    proof {
        assert(gs.skip(gs.len() as int) =~= Seq::<char>::empty());
    }
    if cur.len() > 0 {
        let ghost prev_r = r.deep_view();
        let ghost old_cur = cur@;
        let mut line = cur;
        if line[line.len() - 1] == '\r' {
            line.pop();
        }
        proof {
            assert(line@ == strip_cr(old_cur));
        }
        r.push(line);
        proof {
            assert(r.deep_view() =~~= prev_r.push(strip_cr(old_cur)));
            assert(prev_r + split_rec(Seq::<char>::empty(), old_cur) =~~= r.deep_view());
        }
    } else {
        proof {
            assert(r.deep_view() + split_rec(Seq::<char>::empty(), cur@) =~~= r.deep_view());
        }
    }
    proof {
        assert(r.deep_view() =~~= lines_of(gs));
    }
    r
}

/// Total length of a sequence of lines.
pub open spec fn total_len(lines: Seq<Seq<char>>) -> int
    decreases lines.len(),
{
    if lines.len() == 0 {
        0
    } else {
        lines[0].len() + total_len(lines.drop_first())
    }
}

proof fn lemma_total_len_split_rec(s: Seq<char>, cur: Seq<char>)
    ensures
        total_len(split_rec(s, cur)) <= s.len() + cur.len(),
    decreases s.len(),
{
    if s.len() == 0 {
        if cur.len() != 0 {
            let w = seq![strip_cr(cur)];
            assert(total_len(w.drop_first()) == 0);
            assert(total_len(w) == strip_cr(cur).len() + total_len(w.drop_first()));
        }
    } else if s[0] == '\n' {
        lemma_total_len_split_rec(s.drop_first(), Seq::empty());
        let whole = seq![strip_cr(cur)] + split_rec(s.drop_first(), Seq::empty());
        assert(whole[0] == strip_cr(cur));
        assert(whole.drop_first() =~= split_rec(s.drop_first(), Seq::empty()));
        assert(total_len(whole) == strip_cr(cur).len() + total_len(whole.drop_first()));
    } else {
        lemma_total_len_split_rec(s.drop_first(), cur.push(s[0]));
    }
}

/// No line of a text is longer than the text itself.
pub proof fn lemma_lines_total_len(s: Seq<char>)
    ensures
        total_len(lines_of(s)) <= s.len(),
{
    lemma_total_len_split_rec(s, Seq::empty());
}

pub proof fn lemma_total_len_nonneg(lines: Seq<Seq<char>>)
    ensures
        total_len(lines) >= 0,
    decreases lines.len(),
{
    if lines.len() > 0 {
        lemma_total_len_nonneg(lines.drop_first());
    }
}

/// Appending a line adds its length to the total.
pub proof fn lemma_total_len_push(lines: Seq<Seq<char>>, x: Seq<char>)
    ensures
        total_len(lines.push(x)) == total_len(lines) + x.len(),
    decreases lines.len(),
{
    if lines.len() == 0 {
        assert(total_len(lines.push(x).drop_first()) == 0);
        assert(lines.push(x)[0] == x);
    } else {
        assert(lines.push(x).drop_first() =~= lines.drop_first().push(x));
        assert(lines.push(x)[0] == lines[0]);
        lemma_total_len_push(lines.drop_first(), x);
    }
}

/// A prefix of the lines has at most the whole total length.
pub proof fn lemma_total_len_take_le(lines: Seq<Seq<char>>, j: int)
    requires
        0 <= j <= lines.len(),
    ensures
        total_len(lines.take(j)) <= total_len(lines),
    decreases lines.len() - j,
{
    if j == lines.len() {
        assert(lines.take(j) =~= lines);
    } else {
        assert(lines.take(j + 1) =~= lines.take(j).push(lines[j]));
        lemma_total_len_push(lines.take(j), lines[j]);
        lemma_total_len_take_le(lines, j + 1);
    }
}

/// The lengths trimming can only shorten.
pub proof fn lemma_trim_front_len(s: Seq<char>)
    ensures
        trim_front(s).len() <= s.len(),
    decreases s.len(),
{
    if s.len() > 0 && is_space_char(s[0]) {
        lemma_trim_front_len(s.drop_first());
    }
}

pub proof fn lemma_trim_back_len(s: Seq<char>)
    ensures
        trim_back(s).len() <= s.len(),
    decreases s.len(),
{
    if s.len() > 0 && is_space_char(s[s.len() - 1]) {
        lemma_trim_back_len(s.drop_last());
    }
}

/// Trimming never lengthens a sequence.
pub proof fn lemma_trimmed_len(s: Seq<char>)
    ensures
        trimmed(s).len() <= s.len(),
{
    lemma_trim_front_len(s);
    lemma_trim_back_len(trim_front(s));
}

} // verus!
