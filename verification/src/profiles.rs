//! Data-plane CLI profiles: reading the CLI's INI-style config text,
//! classifying each profile by host, and selecting the account-level
//! service-principal profiles for a cloud, deployer-created profiles
//! first.

use vstd::prelude::*;

use vstd::multiset::Multiset;
use vstd::seq_lib::lemma_multiset_commutative;

use crate::text::{
    chars_of, contains_seq, contains_seq_s, eq_chars, find_char, find_in, lemma_find_in_first,
    lines_of, lower, lower_seq, split_lines, starts_with, starts_with_s, string_from_chars,
    subrange_vec, trim, trimmed,
};

verus! {

broadcast use crate::text::lemma_vec_char_deep_view;

// ─── The profile record ─────────────────────────────────────────────────────

/// One configured CLI profile: its name, host, account id if any, and
/// which authentication material it carries.
#[derive(Debug, Clone)]
pub struct DatabricksProfile {
    pub name: String,
    pub host: String,
    pub account_id: Option<String>,
    pub has_client_credentials: bool,
    pub has_token: bool,
    pub cloud: String,
}

/// Mathematical view of a profile.
pub struct ProfileView {
    pub name: Seq<char>,
    pub host: Seq<char>,
    pub account_id: Option<Seq<char>>,
    pub has_client_credentials: bool,
    pub has_token: bool,
    pub cloud: Seq<char>,
}

impl View for DatabricksProfile {
    type V = ProfileView;

    open spec fn view(&self) -> ProfileView {
        ProfileView {
            name: self.name@,
            host: self.host@,
            account_id: self.account_id.deep_view(),
            has_client_credentials: self.has_client_credentials,
            has_token: self.has_token,
            cloud: self.cloud@,
        }
    }
}

impl DeepView for DatabricksProfile {
    type V = ProfileView;

    open spec fn deep_view(&self) -> ProfileView {
        self.view()
    }
}

impl DatabricksProfile {
    /// An independent copy of the profile.
    pub fn duplicate(&self) -> (r: DatabricksProfile)
        ensures
            r@ == self@,
    {
        DatabricksProfile {
            name: self.name.clone(),
            host: self.host.clone(),
            account_id: match &self.account_id {
                Some(a) => Some(a.clone()),
                None => None,
            },
            has_client_credentials: self.has_client_credentials,
            has_token: self.has_token,
            cloud: self.cloud.clone(),
        }
    }
}

// ─── Building one profile from section data ─────────────────────────────────

/// The value of the most recent binding of a key in section data.
pub open spec fn kv_lookup(es: Seq<(Seq<char>, Seq<char>)>, k: Seq<char>) -> Option<Seq<char>>
    decreases es.len(),
{
    if es.len() == 0 {
        None
    } else if es.last().0 == k {
        Some(es.last().1)
    } else {
        kv_lookup(es.drop_last(), k)
    }
}

/// The cloud a host belongs to, or none for a custom host, which is
/// skipped.
pub open spec fn host_cloud(host: Seq<char>) -> Option<Seq<char>> {
    if contains_seq_s(host, "azuredatabricks"@) {
        Some("azure"@)
    } else if contains_seq_s(host, "gcp.databricks.com"@) {
        Some("gcp"@)
    } else if contains_seq_s(host, "cloud.databricks.com"@) || contains_seq_s(
        host,
        "accounts.cloud.databricks"@,
    ) {
        Some("aws"@)
    } else {
        None
    }
}

/// The profile a named section denotes: none without a host or for an
/// unrecognized host; else the host's cloud, the account id, and whether
/// client credentials or a token (including any OAuth auth type) exist.
pub open spec fn create_profile_spec(name: Seq<char>, data: Seq<(Seq<char>, Seq<char>)>) -> Option<
    ProfileView,
> {
    match kv_lookup(data, "host"@) {
        None => None,
        Some(host) => match host_cloud(host) {
            None => None,
            Some(cloud) => Some(
                ProfileView {
                    name,
                    host,
                    account_id: kv_lookup(data, "account_id"@),
                    has_client_credentials: kv_lookup(data, "client_id"@) is Some && kv_lookup(
                        data,
                        "client_secret"@,
                    ) is Some,
                    has_token: kv_lookup(data, "token"@) is Some || match kv_lookup(
                        data,
                        "auth_type"@,
                    ) {
                        Some(t) => contains_seq_s(t, "oauth"@),
                        None => false,
                    },
                    cloud,
                },
            ),
        },
    }
}

fn kv_get<'a>(data: &'a Vec<(String, String)>, key: &str) -> (r: Option<&'a String>)
    ensures
        match r {
            Some(v) => kv_lookup(data.deep_view(), key@) == Some(v@),
            None => kv_lookup(data.deep_view(), key@) is None,
        },
{
    let ghost dv = data.deep_view();
    let kv = chars_of(key);
    let mut j: usize = data.len();
    proof {
        assert(dv.subrange(0, j as int) =~~= dv);
    }
    while j > 0
        invariant
            dv == data.deep_view(),
            data@.len() == dv.len(),
            j <= data.len(),
            kv@ == key@,
            kv_lookup(dv, key@) == kv_lookup(dv.subrange(0, j as int), key@),
        decreases j,
    {
        let en = chars_of(data[j - 1].0.as_str());
        proof {
            assert(dv[j - 1].0 == data@[j - 1].0@);
            assert(dv.subrange(0, j as int).last() == dv[j - 1]);
        }
        if eq_chars(&en, &kv) {
            return Some(&data[j - 1].1);
        }
        proof {
            assert(dv.subrange(0, j as int).drop_last() =~~= dv.subrange(0, j - 1));
        }
        j = j - 1;
    }
    proof {
        assert(dv.subrange(0, 0) =~~= Seq::<(Seq<char>, Seq<char>)>::empty());
    }
    None
}

/// Build the profile a named section denotes, exactly as
/// `create_profile_spec` reads it.
pub fn create_profile(name: &str, data: &Vec<(String, String)>) -> (r: Option<DatabricksProfile>)
    ensures
        r.deep_view() == create_profile_spec(name@, data.deep_view()),
{
    let host: String = match kv_get(data, "host") {
        Some(h) => h.clone(),
        None => {
            return None;
        },
    };
    let hv = chars_of(host.as_str());
    let cloud: &str = if contains_seq(&hv, &chars_of("azuredatabricks")) {
        "azure"
    } else if contains_seq(&hv, &chars_of("gcp.databricks.com")) {
        "gcp"
    } else if contains_seq(&hv, &chars_of("cloud.databricks.com")) || contains_seq(
        &hv,
        &chars_of("accounts.cloud.databricks"),
    ) {
        "aws"
    } else {
        return None;
    };
    let account_id: Option<String> = match kv_get(data, "account_id") {
        Some(a) => Some(a.clone()),
        None => None,
    };
    let has_client_credentials = match kv_get(data, "client_id") {
        Some(_) => match kv_get(data, "client_secret") {
            Some(_) => true,
            None => false,
        },
        None => false,
    };
    let has_token_entry = match kv_get(data, "token") {
        Some(_) => true,
        None => false,
    };
    let has_oauth = match kv_get(data, "auth_type") {
        Some(t) => {
            let tv = chars_of(t.as_str());
            contains_seq(&tv, &chars_of("oauth"))
        },
        None => false,
    };
    Some(
        DatabricksProfile {
            name: String::from_str(name),
            host,
            account_id,
            has_client_credentials,
            has_token: has_token_entry || has_oauth,
            cloud: String::from_str(cloud),
        },
    )
}

// ─── Reading the config text ────────────────────────────────────────────────

/// Scanner state: finished profiles, the open section's name, and its
/// data.
pub struct IniSt {
    pub done: Seq<ProfileView>,
    pub section: Option<Seq<char>>,
    pub data: Seq<(Seq<char>, Seq<char>)>,
}

/// Close the open section, if any, into a profile.
pub open spec fn ini_close(st: IniSt) -> Seq<ProfileView> {
    match st.section {
        Some(name) => match create_profile_spec(name, st.data) {
            Some(p) => st.done.push(p),
            None => st.done,
        },
        None => st.done,
    }
}

/// One line of the config scan: comments and blanks are skipped, a
/// bracketed header closes the previous section and opens a new one, and
/// a `key = value` line adds a lower-cased key binding.
pub open spec fn ini_line(st: IniSt, line: Seq<char>) -> IniSt {
    let t = trimmed(line);
    if t.len() == 0 || t[0] == '#' || t[0] == ';' {
        st
    } else if t[0] == '[' && t[t.len() - 1] == ']' {
        IniSt {
            done: ini_close(st),
            section: Some(t.subrange(1, t.len() - 1)),
            data: Seq::empty(),
        }
    } else {
        match find_in(t, '=') {
            Some(i) => IniSt {
                data: st.data.push((lower_seq(trimmed(t.take(i))), trimmed(t.skip(i + 1)))),
                ..st
            },
            None => st,
        }
    }
}

pub open spec fn ini_lines(st: IniSt, lines: Seq<Seq<char>>) -> IniSt
    decreases lines.len(),
{
    if lines.len() == 0 {
        st
    } else {
        ini_lines(ini_line(st, lines[0]), lines.drop_first())
    }
}

/// The profiles the config text declares, in order.
pub open spec fn read_profiles_spec(content: Seq<char>) -> Seq<ProfileView> {
    ini_close(
        ini_lines(
            IniSt { done: Seq::empty(), section: None, data: Seq::empty() },
            lines_of(content),
        ),
    )
}

proof fn lemma_ini_lines_snoc(st: IniSt, lines: Seq<Seq<char>>, line: Seq<char>)
    ensures
        ini_lines(st, lines.push(line)) == ini_line(ini_lines(st, lines), line),
    decreases lines.len(),
{
    if lines.len() == 0 {
        assert(lines.push(line)[0] == line);
        assert(lines.push(line).drop_first() =~= Seq::<Seq<char>>::empty());
        assert(ini_lines(st, lines.push(line)) == ini_lines(
            ini_line(st, line),
            Seq::<Seq<char>>::empty(),
        ));
    } else {
        let st1 = ini_line(st, lines[0]);
        assert(lines.push(line)[0] == lines[0]);
        assert(lines.push(line).drop_first() =~= lines.drop_first().push(line));
        lemma_ini_lines_snoc(st1, lines.drop_first(), line);
        assert(ini_lines(st, lines.push(line)) == ini_lines(st1, lines.drop_first().push(line)));
        assert(ini_lines(st, lines) == ini_lines(st1, lines.drop_first()));
    }
}

/// Read the CLI config text and collect the profiles it declares, exactly
/// as `read_profiles_spec` reads it. Sections without a usable host are
/// skipped, never an error.
pub fn read_databricks_profiles(content: &str) -> (r: Vec<DatabricksProfile>)
    ensures
        r.deep_view() == read_profiles_spec(content@),
{
    let cs = chars_of(content);
    let lines = split_lines(&cs);
    let ghost ldv = lines.deep_view();
    let mut profiles: Vec<DatabricksProfile> = Vec::new();
    let mut section: Option<String> = None;
    let mut data: Vec<(String, String)> = Vec::new();
    let ghost st0 = IniSt { done: Seq::empty(), section: None, data: Seq::empty() };
    let mut j: usize = 0;
    proof {
        assert(ldv.take(0) =~= Seq::<Seq<char>>::empty());
        assert(profiles.deep_view() =~~= Seq::<ProfileView>::empty());
        assert(data.deep_view() =~~= Seq::<(Seq<char>, Seq<char>)>::empty());
    }
    while j < lines.len()
        invariant
            ldv == lines.deep_view(),
            lines@.len() == ldv.len(),
            j <= lines.len(),
            (IniSt {
                done: profiles.deep_view(),
                section: section.deep_view(),
                data: data.deep_view(),
            }) == ini_lines(st0, ldv.take(j as int)),
        decreases lines.len() - j,
    {
        let ghost st_in = IniSt {
            done: profiles.deep_view(),
            section: section.deep_view(),
            data: data.deep_view(),
        };
        proof {
            assert(ldv[j as int] == lines@[j as int].deep_view());
            assert(ldv.take(j + 1 as int) =~~= ldv.take(j as int).push(ldv[j as int]));
            lemma_ini_lines_snoc(st0, ldv.take(j as int), ldv[j as int]);
        }
        let t = trim(&lines[j]);
        if t.len() == 0 || t[0] == '#' || t[0] == ';' {
        } else if t[0] == '[' && t[t.len() - 1] == ']' {
            let tlen = t.len();
            let new_name = subrange_vec(&t, 1, tlen - 1);
            if let Some(prev) = section {
                if let Some(p) = create_profile(prev.as_str(), &data) {
                    let ghost prev_done = profiles.deep_view();
                    profiles.push(p);
                    proof {
                        assert(profiles.deep_view() =~~= prev_done.push(
                            create_profile_spec(prev@, st_in.data).unwrap(),
                        ));
                    }
                }
            }
            section = Some(string_from_chars(&new_name));
            data = Vec::new();
            proof {
                assert(data.deep_view() =~~= Seq::<(Seq<char>, Seq<char>)>::empty());
            }
        } else {
            match find_char(&t, '=') {
                Some(i) => {
                    proof {
                        lemma_find_in_first(t@, '=');
                    }
                    let tlen = t.len();
                    let before = subrange_vec(&t, 0, i);
                    proof {
                        assert(before@ =~= t@.take(i as int));
                    }
                    let key = lower(&trim(&before));
                    let rest = subrange_vec(&t, i + 1, tlen);
                    proof {
                        assert(rest@ =~= t@.skip(i + 1));
                    }
                    let val = trim(&rest);
                    let ghost prev_data = data.deep_view();
                    data.push((string_from_chars(&key), string_from_chars(&val)));
                    proof {
                        assert(data.deep_view() =~~= prev_data.push(
                            (lower_seq(trimmed(t@.take(i as int))), trimmed(t@.skip(i + 1))),
                        ));
                    }
                },
                None => {},
            }
        }
        j = j + 1;
    }
    proof {
        assert(ldv.take(ldv.len() as int) =~~= ldv);
    }
    if let Some(prev) = section {
        if let Some(p) = create_profile(prev.as_str(), &data) {
            let ghost prev_done = profiles.deep_view();
            profiles.push(p);
            proof {
                assert(profiles.deep_view() =~~= prev_done.push(
                    create_profile_spec(prev@, data.deep_view()).unwrap(),
                ));
            }
        }
    }
    profiles
}

// ─── Selecting profiles for a cloud ─────────────────────────────────────────

/// The account-level host a cloud's profiles must use; unknown clouds
/// match nothing.
pub open spec fn account_host_for(cloud: Seq<char>) -> Option<Seq<char>> {
    if cloud == "aws"@ {
        Some("accounts.cloud.databricks.com"@)
    } else if cloud == "azure"@ {
        Some("accounts.azuredatabricks.net"@)
    } else if cloud == "gcp"@ {
        Some("accounts.gcp.databricks.com"@)
    } else {
        None
    }
}

/// Whether a profile is usable for deployments on a cloud: it belongs to
/// that cloud, points at the account-level host, carries an account id,
/// and authenticates by client credentials.
pub open spec fn usable_profile(p: ProfileView, cloud: Seq<char>) -> bool {
    &&& p.cloud == cloud
    &&& match account_host_for(cloud) {
        Some(h) => contains_seq_s(p.host, h),
        None => false,
    }
    &&& p.account_id is Some
    &&& p.has_client_credentials
}

/// The usable profiles, in input order.
pub open spec fn usable_profiles(ps: Seq<ProfileView>, cloud: Seq<char>) -> Seq<ProfileView>
    decreases ps.len(),
{
    if ps.len() == 0 {
        Seq::empty()
    } else {
        let rest = usable_profiles(ps.drop_first(), cloud);
        if usable_profile(ps[0], cloud) {
            seq![ps[0]] + rest
        } else {
            rest
        }
    }
}

proof fn lemma_usable_profiles_snoc(ps: Seq<ProfileView>, cloud: Seq<char>, p: ProfileView)
    ensures
        usable_profiles(ps.push(p), cloud) == usable_profiles(ps, cloud) + if usable_profile(
            p,
            cloud,
        ) {
            seq![p]
        } else {
            Seq::<ProfileView>::empty()
        },
    decreases ps.len(),
{
    if ps.len() == 0 {
        let q = ps.push(p);
        assert(q[0] == p);
        assert(q.drop_first() =~= Seq::<ProfileView>::empty());
        assert(usable_profiles(q.drop_first(), cloud) == Seq::<ProfileView>::empty());
        if usable_profile(p, cloud) {
            assert(usable_profiles(q, cloud) =~= usable_profiles(ps, cloud) + seq![p]);
        } else {
            assert(usable_profiles(q, cloud) =~= usable_profiles(ps, cloud));
        }
    } else {
        assert(ps.push(p)[0] == ps[0]);
        assert(ps.push(p).drop_first() =~= ps.drop_first().push(p));
        lemma_usable_profiles_snoc(ps.drop_first(), cloud, p);
        if usable_profile(p, cloud) {
            assert(usable_profiles(ps.push(p), cloud) =~= usable_profiles(ps, cloud) + seq![p]);
        } else {
            assert(usable_profiles(ps.push(p), cloud) =~= usable_profiles(ps, cloud));
        }
    }
}

// ─── Ordering ───────────────────────────────────────────────────────────────

/// Lexicographic order on character sequences, by code point.
pub open spec fn lex_le(a: Seq<char>, b: Seq<char>) -> bool
    decreases a.len(),
{
    if a.len() == 0 {
        true
    } else if b.len() == 0 {
        false
    } else if a[0] == b[0] {
        lex_le(a.drop_first(), b.drop_first())
    } else {
        a[0] < b[0]
    }
}

proof fn lemma_lex_le_total(a: Seq<char>, b: Seq<char>)
    ensures
        lex_le(a, b) || lex_le(b, a),
    decreases a.len(),
{
    if a.len() > 0 && b.len() > 0 && a[0] == b[0] {
        lemma_lex_le_total(a.drop_first(), b.drop_first());
    }
}

proof fn lemma_lex_le_trans(a: Seq<char>, b: Seq<char>, c: Seq<char>)
    requires
        lex_le(a, b),
        lex_le(b, c),
    ensures
        lex_le(a, c),
    decreases a.len(),
{
    if a.len() > 0 && b.len() > 0 && c.len() > 0 && a[0] == b[0] && b[0] == c[0] {
        lemma_lex_le_trans(a.drop_first(), b.drop_first(), c.drop_first());
    }
}

fn lex_le_exec(a: &Vec<char>, b: &Vec<char>) -> (r: bool)
    ensures
        r == lex_le(a@, b@),
{
    let ghost ga = a@;
    let ghost gb = b@;
    let mut i: usize = 0;
    proof {
        assert(ga.skip(0) =~= ga);
        assert(gb.skip(0) =~= gb);
    }
    while i < a.len() && i < b.len()
        invariant
            ga == a@,
            gb == b@,
            i <= a.len(),
            i <= b.len(),
            lex_le(ga, gb) == lex_le(ga.skip(i as int), gb.skip(i as int)),
        decreases a.len() - i,
    {
        proof {
            assert(ga.skip(i as int)[0] == ga[i as int]);
            assert(gb.skip(i as int)[0] == gb[i as int]);
            assert(ga.skip(i as int).drop_first() =~= ga.skip(i + 1 as int));
            assert(gb.skip(i as int).drop_first() =~= gb.skip(i + 1 as int));
        }
        if a[i] != b[i] {
            return a[i] < b[i];
        }
        i = i + 1;
    }
    a.len() <= b.len()
}

/// The selection rank of a profile: deployer-created profiles sort first.
pub open spec fn profile_rank(p: ProfileView) -> int {
    if starts_with_s(p.name, "deployer-"@) {
        0
    } else {
        1
    }
}

/// Selection order: deployer-created profiles first, then by name.
pub open spec fn prof_le(a: ProfileView, b: ProfileView) -> bool {
    profile_rank(a) < profile_rank(b) || (profile_rank(a) == profile_rank(b) && lex_le(
        a.name,
        b.name,
    ))
}

proof fn lemma_prof_le_total(a: ProfileView, b: ProfileView)
    ensures
        prof_le(a, b) || prof_le(b, a),
{
    lemma_lex_le_total(a.name, b.name);
}

proof fn lemma_prof_le_trans(a: ProfileView, b: ProfileView, c: ProfileView)
    requires
        prof_le(a, b),
        prof_le(b, c),
    ensures
        prof_le(a, c),
{
    if profile_rank(a) == profile_rank(b) && profile_rank(b) == profile_rank(c) {
        lemma_lex_le_trans(a.name, b.name, c.name);
    }
}

fn profile_le(a: &DatabricksProfile, b: &DatabricksProfile) -> (r: bool)
    ensures
        r == prof_le(a@, b@),
{
    let pat = chars_of("deployer-");
    let an = chars_of(a.name.as_str());
    let bn = chars_of(b.name.as_str());
    let a_dep = starts_with(&an, &pat);
    let b_dep = starts_with(&bn, &pat);
    if a_dep != b_dep {
        a_dep
    } else {
        lex_le_exec(&an, &bn)
    }
}

/// Whether a sequence of profiles is in selection order.
pub open spec fn profiles_sorted(s: Seq<ProfileView>) -> bool {
    forall|i: int, j: int| 0 <= i < j < s.len() ==> prof_le(#[trigger] s[i], #[trigger] s[j])
}

proof fn lemma_to_multiset_insert(s: Seq<ProfileView>, j: int, p: ProfileView)
    requires
        0 <= j <= s.len(),
    ensures
        s.insert(j, p).to_multiset() == s.to_multiset().insert(p),
{
    broadcast use vstd::seq_lib::group_to_multiset_ensures;

    assert(s.insert(j, p) =~= s.take(j) + (seq![p] + s.skip(j)));
    assert(seq![p] =~= Seq::<ProfileView>::empty().push(p));
    assert(Seq::<ProfileView>::empty().to_multiset().len() == 0);
    assert(Seq::<ProfileView>::empty().to_multiset() =~= Multiset::<ProfileView>::empty());
    lemma_multiset_commutative(seq![p], s.skip(j));
    lemma_multiset_commutative(s.take(j), seq![p] + s.skip(j));
    lemma_multiset_commutative(s.take(j), s.skip(j));
    assert(s =~= s.take(j) + s.skip(j));
    assert(s.insert(j, p).to_multiset() =~= s.to_multiset().insert(p));
}

/// Sort profiles into selection order: the same profiles, deployer-created
/// ones first, then by name.
fn sort_profiles(v: Vec<DatabricksProfile>) -> (r: Vec<DatabricksProfile>)
    ensures
        r.deep_view().to_multiset() == v.deep_view().to_multiset(),
        profiles_sorted(r.deep_view()),
{
    broadcast use vstd::seq_lib::group_to_multiset_ensures;

    let ghost vdv = v.deep_view();
    let mut v = v;
    let mut out: Vec<DatabricksProfile> = Vec::new();
    proof {
        assert(out.deep_view() =~~= Seq::<ProfileView>::empty());
        assert(vdv.take(0) =~= Seq::<ProfileView>::empty());
        assert(out.deep_view().to_multiset() =~~= vdv.take(0).to_multiset());
    }
    let mut i: usize = 0;
    while i < v.len()
        invariant
            vdv == v.deep_view(),
            v@.len() == vdv.len(),
            i <= v.len(),
            out.deep_view().to_multiset() == vdv.take(i as int).to_multiset(),
            profiles_sorted(out.deep_view()),
        decreases v.len() - i,
    {
        broadcast use vstd::seq_lib::group_to_multiset_ensures;

        let ghost odv = out.deep_view();
        let p = v[i].duplicate();
        proof {
            assert(p@ == vdv[i as int]);
        }
        let mut j: usize = 0;
        loop
            invariant
                odv == out.deep_view(),
                out@.len() == odv.len(),
                j <= out.len(),
                forall|k: int| 0 <= k < j ==> prof_le(#[trigger] odv[k], p@),
            ensures
                j <= out.len(),
                forall|k: int| 0 <= k < j ==> prof_le(#[trigger] odv[k], p@),
                j < odv.len() ==> !prof_le(odv[j as int], p@),
            decreases out.len() - j,
        {
            proof {
                if j < odv.len() {
                    assert(odv[j as int] == out@[j as int]@);
                }
            }
            if j >= out.len() {
                break ;
            }
            if !profile_le(&out[j], &p) {
                break ;
            }
            j = j + 1;
        }
        proof {
            if j < odv.len() {
                lemma_prof_le_total(odv[j as int], p@);
                assert(prof_le(p@, odv[j as int]));
            }
        }
        let ghost gj = j as int;
        let ghost pv = p@;
        out.insert(j, p);
        proof {
            assert(out.deep_view() =~~= odv.insert(gj, pv));
            lemma_to_multiset_insert(odv, gj, pv);
            assert(vdv.take(i + 1 as int) =~= vdv.take(i as int).push(vdv[i as int]));
            assert(vdv.take(i + 1 as int).to_multiset() =~= vdv.take(
                i as int,
            ).to_multiset().insert(vdv[i as int]));
            let s2 = odv.insert(gj, pv);
            odv.insert_ensures(gj, pv);
            assert forall|x: int, y: int| 0 <= x < y < s2.len() implies prof_le(
                #[trigger] s2[x],
                #[trigger] s2[y],
            ) by {
                if y < gj {
                    assert(s2[x] == odv[x] && s2[y] == odv[y]);
                } else if y == gj {
                    assert(s2[x] == odv[x] && s2[y] == pv);
                } else if x < gj {
                    assert(s2[x] == odv[x] && s2[y] == odv[y - 1]);
                    assert(x < y - 1);
                } else if x == gj {
                    assert(s2[x] == pv && s2[y] == odv[y - 1]);
                    assert(prof_le(pv, odv[gj]));
                    if gj < y - 1 {
                        lemma_prof_le_trans(pv, odv[gj], odv[y - 1]);
                    }
                } else {
                    assert(s2[x] == odv[x - 1] && s2[y] == odv[y - 1]);
                }
            }
        }
        i = i + 1;
    }
    proof {
        assert(vdv.take(vdv.len() as int) =~= vdv);
    }
    out
}

/// The account-level, client-credential profiles for a cloud, ready for
/// selection: exactly the usable ones, in selection order.
pub fn get_databricks_profiles_for_cloud(
    all_profiles: Vec<DatabricksProfile>,
    cloud: &str,
) -> (r: Vec<DatabricksProfile>)
    ensures
        r.deep_view().to_multiset() == usable_profiles(
            all_profiles.deep_view(),
            cloud@,
        ).to_multiset(),
        profiles_sorted(r.deep_view()),
{
    let ghost pdv = all_profiles.deep_view();
    let cv = chars_of(cloud);
    let account_host: Option<&str> = if eq_chars(&cv, &chars_of("aws")) {
        Some("accounts.cloud.databricks.com")
    } else if eq_chars(&cv, &chars_of("azure")) {
        Some("accounts.azuredatabricks.net")
    } else if eq_chars(&cv, &chars_of("gcp")) {
        Some("accounts.gcp.databricks.com")
    } else {
        None
    };
    let mut filtered: Vec<DatabricksProfile> = Vec::new();
    proof {
        assert(filtered.deep_view() =~~= Seq::<ProfileView>::empty());
        assert(pdv.take(0) =~= Seq::<ProfileView>::empty());
        assert(filtered.deep_view() =~~= usable_profiles(pdv.take(0), cloud@));
    }
    let mut i: usize = 0;
    while i < all_profiles.len()
        invariant
            pdv == all_profiles.deep_view(),
            all_profiles@.len() == pdv.len(),
            i <= all_profiles.len(),
            cv@ == cloud@,
            account_host.deep_view() == account_host_for(cloud@),
            filtered.deep_view() == usable_profiles(pdv.take(i as int), cloud@),
        decreases all_profiles.len() - i,
    {
        let ghost fdv = filtered.deep_view();
        proof {
            assert(pdv[i as int] == all_profiles@[i as int]@);
            assert(pdv.take(i + 1 as int) =~= pdv.take(i as int).push(pdv[i as int]));
            lemma_usable_profiles_snoc(pdv.take(i as int), cloud@, pdv[i as int]);
        }
        let p = &all_profiles[i];
        let cloud_matches = eq_chars(&chars_of(p.cloud.as_str()), &cv);
        let host_matches = match account_host {
            Some(h) => contains_seq(&chars_of(p.host.as_str()), &chars_of(h)),
            None => false,
        };
        let has_account = match &p.account_id {
            Some(_) => true,
            None => false,
        };
        if cloud_matches && host_matches && has_account && p.has_client_credentials {
            let copy = p.duplicate();
            filtered.push(copy);
            proof {
                assert(filtered.deep_view() =~~= fdv.push(pdv[i as int]));
                assert(fdv.push(pdv[i as int]) =~= usable_profiles(
                    pdv.take(i + 1 as int),
                    cloud@,
                ));
            }
        } else {
            proof {
                assert(!usable_profile(pdv[i as int], cloud@));
            }
        }
        i = i + 1;
    }
    proof {
        assert(pdv.take(pdv.len() as int) =~= pdv);
    }
    sort_profiles(filtered)
}

// ─── Default-profile credentials in the CLI config ─────────────────────────

/// Scanner state for the default-profile credentials: whether the scan is
/// inside the default section, and the credentials found so far.
pub struct CliCfgSt {
    pub in_default: bool,
    pub client_id: Option<Seq<char>>,
    pub client_secret: Option<Seq<char>>,
    pub account_id: Option<Seq<char>>,
}

/// One line of the default-profile scan: a bracketed header selects or
/// deselects the default section (case-insensitively); inside it, the
/// client id, client secret and account id bindings are remembered.
pub open spec fn cli_cfg_line(st: CliCfgSt, line: Seq<char>) -> CliCfgSt {
    let t = trimmed(line);
    if t.len() > 0 && t[0] == '[' && t[t.len() - 1] == ']' {
        CliCfgSt { in_default: lower_seq(t.subrange(1, t.len() - 1)) == "default"@, ..st }
    } else if st.in_default {
        match find_in(t, '=') {
            Some(i) => {
                let key = lower_seq(trimmed(t.take(i)));
                let value = trimmed(t.skip(i + 1));
                if key == "client_id"@ {
                    CliCfgSt { client_id: Some(value), ..st }
                } else if key == "client_secret"@ {
                    CliCfgSt { client_secret: Some(value), ..st }
                } else if key == "account_id"@ {
                    CliCfgSt { account_id: Some(value), ..st }
                } else {
                    st
                }
            },
            None => st,
        }
    } else {
        st
    }
}

pub open spec fn cli_cfg_lines(st: CliCfgSt, lines: Seq<Seq<char>>) -> CliCfgSt
    decreases lines.len(),
{
    if lines.len() == 0 {
        st
    } else {
        cli_cfg_lines(cli_cfg_line(st, lines[0]), lines.drop_first())
    }
}

/// The default-profile credentials the config text holds: the client id,
/// client secret and account id of its default section, or nothing when
/// none of the three appears.
pub open spec fn cli_config_spec(content: Seq<char>) -> Option<
    (Option<Seq<char>>, Option<Seq<char>>, Option<Seq<char>>),
> {
    let st = cli_cfg_lines(
        CliCfgSt { in_default: false, client_id: None, client_secret: None, account_id: None },
        lines_of(content),
    );
    if st.client_id is Some || st.client_secret is Some || st.account_id is Some {
        Some((st.client_id, st.client_secret, st.account_id))
    } else {
        None
    }
}

proof fn lemma_cli_cfg_lines_snoc(st: CliCfgSt, lines: Seq<Seq<char>>, line: Seq<char>)
    ensures
        cli_cfg_lines(st, lines.push(line)) == cli_cfg_line(cli_cfg_lines(st, lines), line),
    decreases lines.len(),
{
    if lines.len() == 0 {
        assert(lines.push(line)[0] == line);
        assert(lines.push(line).drop_first() =~= Seq::<Seq<char>>::empty());
        assert(cli_cfg_lines(st, lines.push(line)) == cli_cfg_lines(
            cli_cfg_line(st, line),
            Seq::<Seq<char>>::empty(),
        ));
    } else {
        let st1 = cli_cfg_line(st, lines[0]);
        assert(lines.push(line)[0] == lines[0]);
        assert(lines.push(line).drop_first() =~= lines.drop_first().push(line));
        lemma_cli_cfg_lines_snoc(st1, lines.drop_first(), line);
        assert(cli_cfg_lines(st, lines.push(line)) == cli_cfg_lines(
            st1,
            lines.drop_first().push(line),
        ));
        assert(cli_cfg_lines(st, lines) == cli_cfg_lines(st1, lines.drop_first()));
    }
}

/// Read the default profile's client id, client secret and account id from
/// CLI config text, exactly as `cli_config_spec` reads it.
pub fn read_databricks_cli_config(content: &str) -> (r: Option<
    (Option<String>, Option<String>, Option<String>),
>)
    ensures
        r.deep_view() == cli_config_spec(content@),
{
    let cs = chars_of(content);
    let lines = split_lines(&cs);
    let ghost ldv = lines.deep_view();
    let ghost st0 = CliCfgSt {
        in_default: false,
        client_id: None,
        client_secret: None,
        account_id: None,
    };
    let mut in_default = false;
    let mut client_id: Option<String> = None;
    let mut client_secret: Option<String> = None;
    let mut account_id: Option<String> = None;
    let mut j: usize = 0;
    proof {
        assert(ldv.take(0) =~= Seq::<Seq<char>>::empty());
    }
    while j < lines.len()
        invariant
            ldv == lines.deep_view(),
            lines@.len() == ldv.len(),
            j <= lines.len(),
            (CliCfgSt {
                in_default: in_default,
                client_id: client_id.deep_view(),
                client_secret: client_secret.deep_view(),
                account_id: account_id.deep_view(),
            }) == cli_cfg_lines(st0, ldv.take(j as int)),
        decreases lines.len() - j,
    {
        proof {
            assert(ldv[j as int] == lines@[j as int].deep_view());
            assert(ldv.take(j + 1 as int) =~~= ldv.take(j as int).push(ldv[j as int]));
            lemma_cli_cfg_lines_snoc(st0, ldv.take(j as int), ldv[j as int]);
        }
        let t = trim(&lines[j]);
        if t.len() > 0 && t[0] == '[' && t[t.len() - 1] == ']' {
            let tlen = t.len();
            let section = subrange_vec(&t, 1, tlen - 1);
            in_default = eq_chars(&lower(&section), &chars_of("default"));
        } else if in_default {
            match find_char(&t, '=') {
                Some(i) => {
                    proof {
                        lemma_find_in_first(t@, '=');
                    }
                    let tlen = t.len();
                    let before = subrange_vec(&t, 0, i);
                    proof {
                        assert(before@ =~= t@.take(i as int));
                    }
                    let key = lower(&trim(&before));
                    let rest = subrange_vec(&t, i + 1, tlen);
                    proof {
                        assert(rest@ =~= t@.skip(i + 1));
                    }
                    let value = trim(&rest);
                    if eq_chars(&key, &chars_of("client_id")) {
                        client_id = Some(string_from_chars(&value));
                    } else if eq_chars(&key, &chars_of("client_secret")) {
                        client_secret = Some(string_from_chars(&value));
                    } else if eq_chars(&key, &chars_of("account_id")) {
                        account_id = Some(string_from_chars(&value));
                    }
                },
                None => {},
            }
        }
        j = j + 1;
    }
    proof {
        assert(ldv.take(ldv.len() as int) =~~= ldv);
    }
    if client_id.is_some() || client_secret.is_some() || account_id.is_some() {
        Some((client_id, client_secret, account_id))
    } else {
        None
    }
}

} // verus!
