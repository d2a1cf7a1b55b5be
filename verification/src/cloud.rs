//! Records exchanged with the cloud-provider and data-plane integrations:
//! templates, identities, subscriptions, permission checks — and the pure
//! helpers that shape their messages.

use vstd::prelude::*;

use crate::creds::{non_empty, CloudCredentials, CredView};
use crate::support::is_hex_digit;
use crate::text::{
    chars_of, contains_char, contains_char_s, count_char, count_char_s, eq_chars, extend_chars,
    string_from_chars,
};
use crate::value::{FieldVal, FieldValV, Scalar, ScalarV};

verus! {

broadcast use crate::text::lemma_vec_char_deep_view;

// ─── Record types ───────────────────────────────────────────────────────────

/// Deployment template descriptor.
#[derive(Debug, Clone)]
pub struct Template {
    pub id: String,
    pub name: String,
    pub cloud: String,
    pub description: String,
    pub features: Vec<String>,
}

/// Result of a cloud provider permission check.
#[derive(Debug, Clone)]
pub struct CloudPermissionCheck {
    pub has_all_permissions: bool,
    pub checked_permissions: Vec<String>,
    pub missing_permissions: Vec<String>,
    pub message: String,
    /// `true` means a soft warning the caller may continue past; `false`
    /// blocks.
    pub is_warning: bool,
}

/// Metastore info for the active region.
#[derive(Debug, Clone)]
pub struct MetastoreInfo {
    pub exists: bool,
    pub metastore_id: Option<String>,
    pub metastore_name: Option<String>,
    pub region: Option<String>,
}

/// Catalog-level permission check result.
#[derive(Debug, Clone)]
pub struct UCPermissionCheck {
    pub metastore: MetastoreInfo,
    pub has_create_catalog: bool,
    pub has_create_external_location: bool,
    pub has_create_storage_credential: bool,
    pub can_create_catalog: bool,
    pub message: String,
}

/// AWS CLI profile entry.
#[derive(Debug, Clone)]
pub struct AwsProfile {
    pub name: String,
    pub is_sso: bool,
}

/// AWS caller identity.
#[derive(Debug, Clone)]
pub struct AwsIdentity {
    pub account: String,
    pub arn: String,
    pub user_id: String,
}

/// Azure subscription descriptor.
#[derive(Debug, Clone)]
pub struct AzureSubscription {
    pub id: String,
    pub name: String,
    pub is_default: bool,
    pub tenant_id: String,
}

/// Azure signed-in account info.
#[derive(Debug, Clone)]
pub struct AzureAccount {
    pub user: String,
    pub tenant_id: String,
    pub subscription_id: String,
    pub subscription_name: String,
}

/// Azure resource group descriptor.
#[derive(Debug, Clone)]
pub struct AzureResourceGroup {
    pub name: String,
    pub location: String,
}

/// GCP credentials validation result.
#[derive(Debug, Clone)]
pub struct GcpValidation {
    pub valid: bool,
    pub project_id: Option<String>,
    pub account: Option<String>,
    pub message: String,
    pub oauth_token: Option<String>,
    pub impersonated_account: Option<String>,
}

/// Status of the git repository for a deployment.
#[derive(Debug, Clone)]
pub struct GitRepoStatus {
    pub initialized: bool,
    pub has_remote: bool,
    pub remote_url: Option<String>,
    pub branch: Option<String>,
    pub commit_count: u32,
}

/// Result of a git operation.
#[derive(Debug, Clone)]
pub struct GitOperationResult {
    pub success: bool,
    pub message: String,
}

// ─── Skipped permission checks ──────────────────────────────────────────────

/// A permission check recorded as skipped, with the reason, as a soft
/// warning that passes.
pub fn skip_gcp_permission_check(reason: &str) -> (r: CloudPermissionCheck)
    ensures
        r.has_all_permissions,
        r.checked_permissions@.len() == 0,
        r.missing_permissions@.len() == 0,
        r.message@ == reason@ + ". Permission check skipped."@,
        r.is_warning,
{
    CloudPermissionCheck {
        has_all_permissions: true,
        checked_permissions: Vec::new(),
        missing_permissions: Vec::new(),
        message: String::from_str(reason).concat(". Permission check skipped."),
        is_warning: true,
    }
}

// ─── Metastore ownership guidance ───────────────────────────────────────────

/// The first member of a parsed object with the given key, when its value
/// is a string.
pub open spec fn object_string_member(entries: Seq<(Seq<char>, FieldValV)>, key: Seq<char>) -> Option<
    Seq<char>,
>
    decreases entries.len(),
{
    if entries.len() == 0 {
        None
    } else if entries[0].0 == key {
        match entries[0].1 {
            FieldValV::Sc(sc) => match sc {
                ScalarV::Text(s) => Some(s),
                _ => None,
            },
            _ => None,
        }
    } else {
        object_string_member(entries.drop_first(), key)
    }
}

fn object_string_member_exec(entries: &Vec<(String, FieldVal)>, key: &str) -> (r: Option<String>)
    ensures
        r.deep_view() == object_string_member(entries.deep_view(), key@),
{
    let ghost edv = entries.deep_view();
    let kv = chars_of(key);
    let mut i: usize = 0;
    proof {
        assert(edv.skip(0) =~~= edv);
    }
    while i < entries.len()
        invariant
            edv == entries.deep_view(),
            entries@.len() == edv.len(),
            i <= entries.len(),
            kv@ == key@,
            object_string_member(edv, key@) == object_string_member(edv.skip(i as int), key@),
        decreases entries.len() - i,
    {
        proof {
            assert(edv[i as int] == entries@[i as int].deep_view());
            assert(edv.skip(i as int)[0] == edv[i as int]);
            assert(edv.skip(i as int).drop_first() =~~= edv.skip(i + 1 as int));
        }
        let en = chars_of(entries[i].0.as_str());
        if eq_chars(&en, &kv) {
            match &entries[i].1 {
                FieldVal::Sc(sc) => match sc {
                    Scalar::Text(s) => {
                        return Some(s.clone());
                    },
                    _ => {
                        return None;
                    },
                },
                _ => {
                    return None;
                },
            }
        }
        i = i + 1;
    }
    proof {
        assert(edv.skip(edv.len() as int) =~~= Seq::<(Seq<char>, FieldValV)>::empty());
    }
    None
}

/// A description of an identity: the given kind, with the name quoted.
pub open spec fn identity_text(kind: Seq<char>, who: Seq<char>) -> Seq<char> {
    kind + "'"@ + who + "'"@
}

/// The identity named by the bundle when no service-account JSON decides:
/// a GCP service account email, an Azure user, a data-plane service
/// principal, a CLI profile, or a generic fallback, in that priority.
pub open spec fn identity_fallback(c: CredView) -> Seq<char> {
    if non_empty(c.gcp_service_account_email) {
        identity_text("Service account "@, c.gcp_service_account_email.unwrap())
    } else if non_empty(c.azure_account_email) {
        identity_text("User "@, c.azure_account_email.unwrap())
    } else if non_empty(c.databricks_client_id) {
        identity_text("Service principal "@, c.databricks_client_id.unwrap())
    } else if non_empty(c.databricks_profile) {
        identity_text("Profile "@, c.databricks_profile.unwrap())
    } else {
        "Your Databricks user or service principal"@
    }
}

/// The active identity: the service account named inside raw JSON
/// credentials when those parse and carry a client email, else the
/// fallback priority.
pub open spec fn current_identity(c: CredView) -> Seq<char> {
    if non_empty(c.gcp_credentials_json) {
        match crate::tfvars::json_object_entries(c.gcp_credentials_json.unwrap()) {
            Some(entries) => match object_string_member(entries, "client_email"@) {
                Some(email) => identity_text("Service account "@, email),
                None => identity_fallback(c),
            },
            None => identity_fallback(c),
        }
    } else {
        identity_fallback(c)
    }
}

/// An owner that looks like a service principal id: UUID length, four
/// hyphens, hexadecimal digits and hyphens throughout.
pub open spec fn owner_is_principal_id(owner: Seq<char>) -> bool {
    owner.len() == 36 && count_char_s(owner, '-') == 4 && forall|i: int|
        0 <= i < owner.len() ==> is_hex_digit(#[trigger] owner[i]) || owner[i] == '-'
}

/// The guidance message for a metastore owner: the owner is read as a
/// user (an email), a service principal id, or a group name, and the
/// bundle's active identity is named as needing grants.
pub open spec fn metastore_owner_info_spec(owner: Seq<char>, c: CredView) -> Seq<char> {
    let who = current_identity(c);
    let tail = "'. "@ + who + " should have the required permissions granted on this metastore."@;
    if contains_char_s(owner, '@') {
        "Metastore owned by user '"@ + owner + tail
    } else if owner_is_principal_id(owner) {
        "Metastore owned by service principal '"@ + owner + tail
    } else {
        "Metastore owned by group '"@ + owner + tail
    }
}

fn current_identity_exec(credentials: &CloudCredentials) -> (r: Vec<char>)
    ensures
        r@ == current_identity(credentials@),
{
    let fallback_kind_who: (&str, Option<&String>) = if crate::support::opt_non_empty(
        &credentials.gcp_service_account_email,
    ) {
        ("Service account ", credentials.gcp_service_account_email.as_ref())
    } else if crate::support::opt_non_empty(&credentials.azure_account_email) {
        ("User ", credentials.azure_account_email.as_ref())
    } else if crate::support::opt_non_empty(&credentials.databricks_client_id) {
        ("Service principal ", credentials.databricks_client_id.as_ref())
    } else if crate::support::opt_non_empty(&credentials.databricks_profile) {
        ("Profile ", credentials.databricks_profile.as_ref())
    } else {
        ("", None)
    };
    let mut fallback: Vec<char> = Vec::new();
    match fallback_kind_who.1 {
        Some(who) => {
            extend_chars(&mut fallback, &chars_of(fallback_kind_who.0));
            extend_chars(&mut fallback, &chars_of("'"));
            extend_chars(&mut fallback, &chars_of(who.as_str()));
            extend_chars(&mut fallback, &chars_of("'"));
        },
        None => {
            extend_chars(&mut fallback, &chars_of("Your Databricks user or service principal"));
        },
    }
    proof {
        assert(fallback@ =~= identity_fallback(credentials@));
    }
    if crate::support::opt_non_empty(&credentials.gcp_credentials_json) {
        let json = match &credentials.gcp_credentials_json {
            Some(j) => j.as_str(),
            None => "",
        };
        match crate::tfvars::parse_json_object(json) {
            Some(entries) => match object_string_member_exec(&entries, "client_email") {
                Some(email) => {
                    let mut r: Vec<char> = Vec::new();
                    extend_chars(&mut r, &chars_of("Service account "));
                    extend_chars(&mut r, &chars_of("'"));
                    extend_chars(&mut r, &chars_of(email.as_str()));
                    extend_chars(&mut r, &chars_of("'"));
                    proof {
                        assert(r@ =~= current_identity(credentials@));
                    }
                    r
                },
                None => fallback,
            },
            None => fallback,
        }
    } else {
        fallback
    }
}

/// Guidance about metastore ownership: who owns it and which identity of
/// the bundle needs grants on it.
pub fn get_metastore_owner_info(metastore_owner: &str, credentials: &CloudCredentials) -> (r:
    String)
    ensures
        r@ == metastore_owner_info_spec(metastore_owner@, credentials@),
{
    let owner = chars_of(metastore_owner);
    let who = current_identity_exec(credentials);

    let is_user = contains_char(&owner, '@');
    let hyphens = count_char(&owner, '-');
    let mut all_hexish = true;
    let mut i: usize = 0;
    while i < owner.len()
        invariant
            owner@ == metastore_owner@,
            i <= owner.len(),
            all_hexish == (forall|k: int|
                0 <= k < i ==> is_hex_digit(#[trigger] owner@[k]) || owner@[k] == '-'),
        decreases owner.len() - i,
    {
        let c = owner[i];
        let this_ok = crate::support::hex_digit(c) || c == '-';
        all_hexish = all_hexish && this_ok;
        i = i + 1;
    }
    let is_principal = owner.len() == 36 && hyphens == 4 && all_hexish;

    let mut out: Vec<char> = Vec::new();
    if is_user {
        extend_chars(&mut out, &chars_of("Metastore owned by user '"));
    } else if is_principal {
        extend_chars(&mut out, &chars_of("Metastore owned by service principal '"));
    } else {
        extend_chars(&mut out, &chars_of("Metastore owned by group '"));
    }
    extend_chars(&mut out, &owner);
    extend_chars(&mut out, &chars_of("'. "));
    extend_chars(&mut out, &who);
    extend_chars(
        &mut out,
        &chars_of(" should have the required permissions granted on this metastore."),
    );
    proof {
        assert(out@ =~= metastore_owner_info_spec(metastore_owner@, credentials@));
    }
    string_from_chars(&out)
}

} // verus!
