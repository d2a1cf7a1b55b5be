//! Small shared helpers: identifier sanitizing for path safety, UUID and
//! identifier validation, masking of sensitive identifiers, and the
//! account-level API hostname per cloud.

use vstd::prelude::*;

use crate::text::{chars_of, contains_seq, contains_seq_s, starts_with_s, string_from_chars};

verus! {

broadcast use crate::text::lemma_vec_char_deep_view;

// ─── Character classification ───────────────────────────────────────────────

/// What `char::is_alphanumeric` returns for a character: a function of the
/// character alone.
pub uninterp spec fn alpha_num(c: char) -> bool;

/// Relies on `char::is_alphanumeric`: true exactly for Unicode letter and
/// number characters; among ASCII those are the letters and digits.
#[verifier::external_body]
pub(crate) fn is_alphanumeric_char(c: char) -> (r: bool)
    ensures
        r == alpha_num(c),
        (c as u32) < 128 ==> r == (('a' <= c && c <= 'z') || ('A' <= c && c <= 'Z') || ('0' <= c
            && c <= '9')),
{
    c.is_alphanumeric()
}

/// An ASCII hexadecimal digit.
pub open spec fn is_hex_digit(c: char) -> bool {
    ('0' <= c && c <= '9') || ('a' <= c && c <= 'f') || ('A' <= c && c <= 'F')
}

pub fn hex_digit(c: char) -> (r: bool)
    ensures
        r == is_hex_digit(c),
{
    ('0' <= c && c <= '9') || ('a' <= c && c <= 'f') || ('A' <= c && c <= 'F')
}

// ─── Deployment and template identifiers ────────────────────────────────────

/// A character kept by deployment-name sanitizing: alphanumeric, hyphen or
/// underscore.
pub open spec fn keep_name_char(c: char) -> bool {
    alpha_num(c) || c == '-' || c == '_'
}

/// The kept characters of a name, in order.
pub open spec fn sanitized_name(s: Seq<char>) -> Seq<char>
    decreases s.len(),
{
    if s.len() == 0 {
        Seq::empty()
    } else {
        sanitized_name(s.drop_last()) + if keep_name_char(s.last()) {
            seq![s.last()]
        } else {
            Seq::empty()
        }
    }
}

/// The outcome of deployment-name sanitizing: the kept characters, unless
/// the name is empty, nothing survives, the result would start with a
/// hyphen, or it is too long.
pub open spec fn sanitize_deployment_name_spec(name: Seq<char>) -> Result<Seq<char>, Seq<char>> {
    if name.len() == 0 {
        Err("Deployment name cannot be empty"@)
    } else {
        let s = sanitized_name(name);
        if s.len() == 0 {
            Err("Deployment name contains no valid characters"@)
        } else if s[0] == '-' {
            Err("Deployment name cannot start with a hyphen"@)
        } else if s.len() > 200 {
            Err("Deployment name is too long (max 200 characters)"@)
        } else {
            Ok(s)
        }
    }
}

/// Sanitize a deployment name against path traversal: only alphanumerics,
/// hyphens and underscores survive, and the result must be non-empty, not
/// hyphen-led, and at most 200 characters.
pub fn sanitize_deployment_name(name: &str) -> (r: Result<String, String>)
    ensures
        match r {
            Ok(s) => sanitize_deployment_name_spec(name@) == Ok::<Seq<char>, Seq<char>>(s@),
            Err(e) => sanitize_deployment_name_spec(name@) == Err::<Seq<char>, Seq<char>>(e@),
        },
{
    let cs = chars_of(name);
    if cs.len() == 0 {
        return Err(String::from_str("Deployment name cannot be empty"));
    }
    let mut kept: Vec<char> = Vec::new();
    let mut i: usize = 0;
    proof {
        assert(cs@.take(0) =~= Seq::<char>::empty());
    }
    while i < cs.len()
        invariant
            cs@ == name@,
            i <= cs.len(),
            kept@ == sanitized_name(cs@.take(i as int)),
        decreases cs.len() - i,
    {
        let c = cs[i];
        proof {
            assert(cs@.take(i + 1 as int).drop_last() =~= cs@.take(i as int));
            assert(cs@.take(i + 1 as int).last() == cs@[i as int]);
        }
        if is_alphanumeric_char(c) || c == '-' || c == '_' {
            kept.push(c);
        }
        i = i + 1;
    }
    proof {
        assert(cs@.take(cs@.len() as int) =~= cs@);
    }
    if kept.len() == 0 {
        Err(String::from_str("Deployment name contains no valid characters"))
    } else if kept[0] == '-' {
        Err(String::from_str("Deployment name cannot start with a hyphen"))
    } else if kept.len() > 200 {
        Err(String::from_str("Deployment name is too long (max 200 characters)"))
    } else {
        Ok(string_from_chars(&kept))
    }
}

/// The outcome of template-id sanitizing: the id itself, unless it is
/// empty, holds a path separator or a dot-dot, or holds any character that
/// is not alphanumeric, hyphen or underscore.
pub open spec fn sanitize_template_id_spec(id: Seq<char>) -> Result<Seq<char>, Seq<char>> {
    if id.len() == 0 {
        Err("Template ID cannot be empty"@)
    } else if contains_seq_s(id, ".."@) || contains_seq_s(id, "/"@) || contains_seq_s(id, "\\"@) {
        Err("Invalid template ID"@)
    } else if !(forall|i: int| 0 <= i < id.len() ==> keep_name_char(#[trigger] id[i])) {
        Err("Template ID contains invalid characters"@)
    } else {
        Ok(id)
    }
}

/// Sanitize a template id against path traversal: it must be non-empty,
/// free of separators and dot-dots, and built only from alphanumerics,
/// hyphens and underscores.
pub fn sanitize_template_id(id: &str) -> (r: Result<String, String>)
    ensures
        match r {
            Ok(s) => sanitize_template_id_spec(id@) == Ok::<Seq<char>, Seq<char>>(s@),
            Err(e) => sanitize_template_id_spec(id@) == Err::<Seq<char>, Seq<char>>(e@),
        },
{
    let cs = chars_of(id);
    if cs.len() == 0 {
        return Err(String::from_str("Template ID cannot be empty"));
    }
    if contains_seq(&cs, &chars_of("..")) || contains_seq(&cs, &chars_of("/")) || contains_seq(
        &cs,
        &chars_of("\\"),
    ) {
        return Err(String::from_str("Invalid template ID"));
    }
    let mut i: usize = 0;
    while i < cs.len()
        invariant
            cs@ == id@,
            i <= cs.len(),
            id@.len() > 0,
            !contains_seq_s(id@, ".."@),
            !contains_seq_s(id@, "/"@),
            !contains_seq_s(id@, "\\"@),
            forall|k: int| 0 <= k < i ==> keep_name_char(#[trigger] cs@[k]),
        decreases cs.len() - i,
    {
        let c = cs[i];
        if !(is_alphanumeric_char(c) || c == '-' || c == '_') {
            proof {
                assert(!keep_name_char(id@[i as int]));
            }
            return Err(String::from_str("Template ID contains invalid characters"));
        }
        i = i + 1;
    }
    proof {
        assert(forall|k: int| 0 <= k < id@.len() ==> keep_name_char(#[trigger] id@[k]));
    }
    Ok(String::from_str(id))
}

// ─── Identifier validation ──────────────────────────────────────────────────

/// A canonically formatted UUID: 36 characters, hyphens at the four fixed
/// positions, hexadecimal digits everywhere else.
pub open spec fn is_valid_uuid_spec(s: Seq<char>) -> bool {
    s.len() == 36 && forall|i: int|
        0 <= i < 36 ==> if i == 8 || i == 13 || i == 18 || i == 23 {
            (#[trigger] s[i]) == '-'
        } else {
            is_hex_digit(s[i])
        }
}

/// Whether a string is a canonically formatted UUID.
pub fn is_valid_uuid(s: &str) -> (r: bool)
    ensures
        r == is_valid_uuid_spec(s@),
{
    let cs = chars_of(s);
    if cs.len() != 36 {
        return false;
    }
    let mut i: usize = 0;
    while i < 36
        invariant
            cs@ == s@,
            cs@.len() == 36,
            i <= 36,
            forall|k: int|
                0 <= k < i ==> if k == 8 || k == 13 || k == 18 || k == 23 {
                    (#[trigger] cs@[k]) == '-'
                } else {
                    is_hex_digit(cs@[k])
                },
        decreases 36 - i,
    {
        let c = cs[i];
        let ok = if i == 8 || i == 13 || i == 18 || i == 23 {
            c == '-'
        } else {
            hex_digit(c)
        };
        if !ok {
            return false;
        }
        i = i + 1;
    }
    true
}

/// An AWS profile name safe to hand to the CLI: non-empty, at most 64
/// characters, built from alphanumerics, hyphens, underscores and dots.
pub open spec fn valid_aws_profile_name(s: Seq<char>) -> bool {
    s.len() > 0 && s.len() <= 64 && forall|i: int|
        0 <= i < s.len() ==> alpha_num(#[trigger] s[i]) || s[i] == '-' || s[i] == '_' || s[i]
            == '.'
}

/// Validate an AWS profile name before passing it to the CLI.
pub fn validate_aws_profile_name(name: &str) -> (r: bool)
    ensures
        r == valid_aws_profile_name(name@),
{
    let cs = chars_of(name);
    if cs.len() == 0 || cs.len() > 64 {
        return false;
    }
    let mut i: usize = 0;
    while i < cs.len()
        invariant
            cs@ == name@,
            i <= cs.len(),
            forall|k: int|
                0 <= k < i ==> alpha_num(#[trigger] cs@[k]) || cs@[k] == '-' || cs@[k] == '_'
                    || cs@[k] == '.',
        decreases cs.len() - i,
    {
        let c = cs[i];
        if !(is_alphanumeric_char(c) || c == '-' || c == '_' || c == '.') {
            return false;
        }
        i = i + 1;
    }
    true
}

/// Validate an Azure subscription id: the canonical UUID format.
pub fn validate_azure_subscription_id(id: &str) -> (r: bool)
    ensures
        r == is_valid_uuid_spec(id@),
{
    is_valid_uuid(id)
}

// ─── Masking and hosts ──────────────────────────────────────────────────────

/// A sensitive identifier masked for logging: fully starred when short,
/// else its first and last four characters around an ellipsis.
pub open spec fn masked_id(s: Seq<char>) -> Seq<char> {
    if s.len() <= 12 {
        "***"@
    } else {
        s.take(4) + "..."@ + s.skip(s.len() - 4)
    }
}

/// Mask a sensitive identifier for display.
pub fn mask_sensitive_id(id: &str) -> (r: String)
    ensures
        r@ == masked_id(id@),
{
    let cs = chars_of(id);
    if cs.len() <= 12 {
        String::from_str("***")
    } else {
        let n = cs.len();
        let head = crate::text::subrange_vec(&cs, 0, 4);
        let tail = crate::text::subrange_vec(&cs, n - 4, n);
        let mut out: Vec<char> = Vec::new();
        crate::text::extend_chars(&mut out, &head);
        crate::text::extend_chars(&mut out, &chars_of("..."));
        crate::text::extend_chars(&mut out, &tail);
        proof {
            assert(cs@.take(4) =~= cs@.subrange(0, 4));
            assert(cs@.skip(cs@.len() - 4) =~= cs@.subrange(cs@.len() - 4, cs@.len() as int));
            assert(out@ =~= masked_id(id@));
        }
        string_from_chars(&out)
    }
}

/// The account-level API hostname for a cloud: a dedicated host on Azure
/// and GCP, the AWS host for everything else.
pub open spec fn accounts_host_spec(cloud: Seq<char>) -> Seq<char> {
    if cloud == "azure"@ {
        "accounts.azuredatabricks.net"@
    } else if cloud == "gcp"@ {
        "accounts.gcp.databricks.com"@
    } else {
        "accounts.cloud.databricks.com"@
    }
}

/// The account-level API hostname for the given cloud provider.
pub fn databricks_accounts_host(cloud: &str) -> (r: &'static str)
    ensures
        r@ == accounts_host_spec(cloud@),
{
    let cs = chars_of(cloud);
    if crate::text::eq_chars(&cs, &chars_of("azure")) {
        "accounts.azuredatabricks.net"
    } else if crate::text::eq_chars(&cs, &chars_of("gcp")) {
        "accounts.gcp.databricks.com"
    } else {
        "accounts.cloud.databricks.com"
    }
}

/// Whether an optional string holds a non-empty value.
pub fn opt_non_empty(opt: &Option<String>) -> (r: bool)
    ensures
        r == crate::creds::non_empty(opt.deep_view()),
{
    match opt {
        Some(s) => !s.as_str().is_empty(),
        None => false,
    }
}

/// Whether a stored key is in the encrypted-at-rest format, marked by its
/// versioned prefix.
pub fn is_encrypted(value: &str) -> (r: bool)
    ensures
        r == starts_with_s(value@, "enc:v1:"@),
{
    let cs = chars_of(value);
    crate::text::starts_with(&cs, &chars_of("enc:v1:"))
}

} // verus!
