//! Credential projection: maps a multi-cloud credential bundle onto the
//! environment variables handed to the deployment tool and onto extra
//! declarative variable values, under provider-specific suppression rules.
//!
//! Both projections are pure functions of the bundle. Each logical
//! credential goes to exactly one target: in particular, on Azure the
//! data-plane client id, secret and profile are emitted as declarative
//! variables and never as environment variables.

use vstd::prelude::*;

use crate::text::{chars_of, eq_chars};
use crate::value::{Value, ValueMap, ValueV};

verus! {

broadcast use crate::text::lemma_vec_char_deep_view;

// ─── The bundle ─────────────────────────────────────────────────────────────

/// Cloud provider and data-plane credentials, with `cloud` and
/// `databricks_auth_type` discriminating which fields are active. No field
/// is assumed populated.
#[derive(Debug, Clone)]
pub struct CloudCredentials {
    pub aws_profile: Option<String>,
    pub aws_access_key_id: Option<String>,
    pub aws_secret_access_key: Option<String>,
    pub aws_session_token: Option<String>,
    pub aws_region: Option<String>,
    pub azure_tenant_id: Option<String>,
    pub azure_subscription_id: Option<String>,
    pub azure_client_id: Option<String>,
    pub azure_client_secret: Option<String>,
    pub azure_databricks_use_identity: Option<bool>,
    pub azure_account_email: Option<String>,
    pub gcp_project_id: Option<String>,
    pub gcp_credentials_json: Option<String>,
    pub gcp_use_adc: Option<bool>,
    pub gcp_oauth_token: Option<String>,
    pub gcp_service_account_email: Option<String>,
    pub databricks_account_id: Option<String>,
    pub databricks_client_id: Option<String>,
    pub databricks_client_secret: Option<String>,
    pub databricks_profile: Option<String>,
    pub databricks_auth_type: Option<String>,
    pub cloud: Option<String>,
}

/// Mathematical view of a credential bundle.
pub struct CredView {
    pub aws_profile: Option<Seq<char>>,
    pub aws_access_key_id: Option<Seq<char>>,
    pub aws_secret_access_key: Option<Seq<char>>,
    pub aws_session_token: Option<Seq<char>>,
    pub aws_region: Option<Seq<char>>,
    pub azure_tenant_id: Option<Seq<char>>,
    pub azure_subscription_id: Option<Seq<char>>,
    pub azure_client_id: Option<Seq<char>>,
    pub azure_client_secret: Option<Seq<char>>,
    pub azure_databricks_use_identity: Option<bool>,
    pub azure_account_email: Option<Seq<char>>,
    pub gcp_project_id: Option<Seq<char>>,
    pub gcp_credentials_json: Option<Seq<char>>,
    pub gcp_use_adc: Option<bool>,
    pub gcp_oauth_token: Option<Seq<char>>,
    pub gcp_service_account_email: Option<Seq<char>>,
    pub databricks_account_id: Option<Seq<char>>,
    pub databricks_client_id: Option<Seq<char>>,
    pub databricks_client_secret: Option<Seq<char>>,
    pub databricks_profile: Option<Seq<char>>,
    pub databricks_auth_type: Option<Seq<char>>,
    pub cloud: Option<Seq<char>>,
}

impl View for CloudCredentials {
    type V = CredView;

    open spec fn view(&self) -> CredView {
        CredView {
            aws_profile: self.aws_profile.deep_view(),
            aws_access_key_id: self.aws_access_key_id.deep_view(),
            aws_secret_access_key: self.aws_secret_access_key.deep_view(),
            aws_session_token: self.aws_session_token.deep_view(),
            aws_region: self.aws_region.deep_view(),
            azure_tenant_id: self.azure_tenant_id.deep_view(),
            azure_subscription_id: self.azure_subscription_id.deep_view(),
            azure_client_id: self.azure_client_id.deep_view(),
            azure_client_secret: self.azure_client_secret.deep_view(),
            azure_databricks_use_identity: self.azure_databricks_use_identity,
            azure_account_email: self.azure_account_email.deep_view(),
            gcp_project_id: self.gcp_project_id.deep_view(),
            gcp_credentials_json: self.gcp_credentials_json.deep_view(),
            gcp_use_adc: self.gcp_use_adc,
            gcp_oauth_token: self.gcp_oauth_token.deep_view(),
            gcp_service_account_email: self.gcp_service_account_email.deep_view(),
            databricks_account_id: self.databricks_account_id.deep_view(),
            databricks_client_id: self.databricks_client_id.deep_view(),
            databricks_client_secret: self.databricks_client_secret.deep_view(),
            databricks_profile: self.databricks_profile.deep_view(),
            databricks_auth_type: self.databricks_auth_type.deep_view(),
            cloud: self.cloud.deep_view(),
        }
    }
}

impl Default for CloudCredentials {
    /// The empty bundle: no field populated.
    fn default() -> (r: CloudCredentials)
        ensures
            r@ == empty_cred_view(),
    {
        CloudCredentials {
            aws_profile: None,
            aws_access_key_id: None,
            aws_secret_access_key: None,
            aws_session_token: None,
            aws_region: None,
            azure_tenant_id: None,
            azure_subscription_id: None,
            azure_client_id: None,
            azure_client_secret: None,
            azure_databricks_use_identity: None,
            azure_account_email: None,
            gcp_project_id: None,
            gcp_credentials_json: None,
            gcp_use_adc: None,
            gcp_oauth_token: None,
            gcp_service_account_email: None,
            databricks_account_id: None,
            databricks_client_id: None,
            databricks_client_secret: None,
            databricks_profile: None,
            databricks_auth_type: None,
            cloud: None,
        }
    }
}

/// The view of the empty bundle.
pub open spec fn empty_cred_view() -> CredView {
    CredView {
        aws_profile: None,
        aws_access_key_id: None,
        aws_secret_access_key: None,
        aws_session_token: None,
        aws_region: None,
        azure_tenant_id: None,
        azure_subscription_id: None,
        azure_client_id: None,
        azure_client_secret: None,
        azure_databricks_use_identity: None,
        azure_account_email: None,
        gcp_project_id: None,
        gcp_credentials_json: None,
        gcp_use_adc: None,
        gcp_oauth_token: None,
        gcp_service_account_email: None,
        databricks_account_id: None,
        databricks_client_id: None,
        databricks_client_secret: None,
        databricks_profile: None,
        databricks_auth_type: None,
        cloud: None,
    }
}

// ─── The environment map ────────────────────────────────────────────────────

/// Environment variables for the deployment tool, in insertion order.
#[derive(Debug, Clone)]
pub struct EnvMap {
    pub entries: Vec<(String, String)>,
}

impl View for EnvMap {
    type V = Seq<(Seq<char>, Seq<char>)>;

    open spec fn view(&self) -> Seq<(Seq<char>, Seq<char>)> {
        self.entries.deep_view()
    }
}

/// Whether some entry carries the given key.
pub open spec fn env_has_key(es: Seq<(Seq<char>, Seq<char>)>, k: Seq<char>) -> bool {
    exists|i: int| 0 <= i < es.len() && (#[trigger] es[i]).0 == k
}

/// The value of the most recent entry for a key.
pub open spec fn env_lookup(es: Seq<(Seq<char>, Seq<char>)>, k: Seq<char>) -> Option<Seq<char>>
    decreases es.len(),
{
    if es.len() == 0 {
        None
    } else if es.last().0 == k {
        Some(es.last().1)
    } else {
        env_lookup(es.drop_last(), k)
    }
}

impl EnvMap {
    /// An empty environment.
    pub fn new() -> (r: EnvMap)
        ensures
            r@ == Seq::<(Seq<char>, Seq<char>)>::empty(),
    {
        let r = EnvMap { entries: Vec::new() };
        proof {
            assert(r@ =~~= Seq::<(Seq<char>, Seq<char>)>::empty());
        }
        r
    }

    /// Append one variable.
    pub fn set(&mut self, key: String, value: String)
        ensures
            final(self)@ == old(self)@.push((key@, value@)),
    {
        let ghost prev = self@;
        self.entries.push((key, value));
        proof {
            assert(self@ =~~= prev.push((self.entries@.last().0@, self.entries@.last().1@)));
        }
    }

    /// The value set for a key, from the most recent entry.
    pub fn get(&self, key: &str) -> (r: Option<&String>)
        ensures
            match r {
                Some(v) => env_lookup(self@, key@) == Some(v@),
                None => env_lookup(self@, key@) is None,
            },
    {
        let kv = chars_of(key);
        let mut j: usize = self.entries.len();
        proof {
            assert(self@.subrange(0, j as int) =~~= self@);
        }
        while j > 0
            invariant
                j <= self.entries.len(),
                self@.len() == self.entries.len(),
                kv@ == key@,
                env_lookup(self@, key@) == env_lookup(self@.subrange(0, j as int), key@),
            decreases j,
        {
            let en = chars_of(self.entries[j - 1].0.as_str());
            proof {
                assert(self@[j - 1].0 == self.entries@[j - 1].0@);
                assert(self@.subrange(0, j as int).last() == self@[j - 1]);
            }
            if eq_chars(&en, &kv) {
                return Some(&self.entries[j - 1].1);
            }
            proof {
                assert(self@.subrange(0, j as int).drop_last() =~~= self@.subrange(0, j - 1));
            }
            j = j - 1;
        }
        proof {
            assert(self@.subrange(0, 0) =~~= Seq::<(Seq<char>, Seq<char>)>::empty());
        }
        None
    }

    /// The number of entries.
    pub fn len(&self) -> (r: usize)
        ensures
            r == self@.len(),
    {
        self.entries.len()
    }
}

// ─── The environment projection ─────────────────────────────────────────────

/// Whether an optional text field is populated.
pub open spec fn non_empty(o: Option<Seq<char>>) -> bool {
    match o {
        Some(s) => s.len() > 0,
        None => false,
    }
}

/// The single entry a populated optional field contributes.
pub open spec fn opt_env_entry(key: Seq<char>, o: Option<Seq<char>>) -> Seq<
    (Seq<char>, Seq<char>),
> {
    match o {
        Some(s) => if s.len() > 0 {
            seq![(key, s)]
        } else {
            Seq::empty()
        },
        None => Seq::empty(),
    }
}

/// AWS: profile and keys are independent; both may be set.
pub open spec fn env_aws(c: CredView) -> Seq<(Seq<char>, Seq<char>)> {
    opt_env_entry("AWS_PROFILE"@, c.aws_profile) + opt_env_entry(
        "AWS_ACCESS_KEY_ID"@,
        c.aws_access_key_id,
    ) + opt_env_entry("AWS_SECRET_ACCESS_KEY"@, c.aws_secret_access_key) + opt_env_entry(
        "AWS_SESSION_TOKEN"@,
        c.aws_session_token,
    ) + opt_env_entry("AWS_DEFAULT_REGION"@, c.aws_region)
}

/// Azure: the resource-manager identifiers, when present.
pub open spec fn env_azure(c: CredView) -> Seq<(Seq<char>, Seq<char>)> {
    opt_env_entry("ARM_TENANT_ID"@, c.azure_tenant_id) + opt_env_entry(
        "ARM_SUBSCRIPTION_ID"@,
        c.azure_subscription_id,
    ) + opt_env_entry("ARM_CLIENT_ID"@, c.azure_client_id) + opt_env_entry(
        "ARM_CLIENT_SECRET"@,
        c.azure_client_secret,
    )
}

/// GCP: the project id under its three discovery names, then raw JSON
/// credentials if present, else an OAuth token — never both.
pub open spec fn env_gcp(c: CredView) -> Seq<(Seq<char>, Seq<char>)> {
    (match c.gcp_project_id {
        Some(p) => if p.len() > 0 {
            seq![
                ("GOOGLE_PROJECT"@, p),
                ("GCLOUD_PROJECT"@, p),
                ("CLOUDSDK_CORE_PROJECT"@, p),
            ]
        } else {
            Seq::empty()
        },
        None => Seq::empty(),
    }) + if non_empty(c.gcp_credentials_json) {
        opt_env_entry("GOOGLE_CREDENTIALS"@, c.gcp_credentials_json)
    } else {
        opt_env_entry("GOOGLE_OAUTH_ACCESS_TOKEN"@, c.gcp_oauth_token)
    }
}

/// The data-plane auth mode, defaulting to service-principal credentials.
pub open spec fn databricks_auth(c: CredView) -> Seq<char> {
    match c.databricks_auth_type {
        Some(a) => a,
        None => "credentials"@,
    }
}

/// Whether a profile-mode bundle also carries a client id and secret.
pub open spec fn profile_has_sp_creds(c: CredView) -> bool {
    databricks_auth(c) == "profile"@ && non_empty(c.databricks_client_id) && non_empty(
        c.databricks_client_secret,
    )
}

/// Data-plane variables: the account id always when present; on GCP only a
/// null config file path, on Azure nothing further (those credentials go to
/// declarative variables instead), elsewhere a bare profile or the client
/// id and secret.
pub open spec fn env_databricks(c: CredView) -> Seq<(Seq<char>, Seq<char>)> {
    opt_env_entry("DATABRICKS_ACCOUNT_ID"@, c.databricks_account_id) + if c.cloud == Some("gcp"@) {
        seq![("DATABRICKS_CONFIG_FILE"@, "/dev/null"@)]
    } else if c.cloud != Some("azure"@) {
        if databricks_auth(c) == "profile"@ && !profile_has_sp_creds(c) {
            opt_env_entry("DATABRICKS_CONFIG_PROFILE"@, c.databricks_profile)
        } else {
            opt_env_entry("DATABRICKS_CLIENT_ID"@, c.databricks_client_id) + opt_env_entry(
                "DATABRICKS_CLIENT_SECRET"@,
                c.databricks_client_secret,
            )
        }
    } else {
        Seq::empty()
    }
}

/// The whole environment a bundle projects to.
pub open spec fn env_spec(c: CredView) -> Seq<(Seq<char>, Seq<char>)> {
    env_aws(c) + env_azure(c) + env_gcp(c) + env_databricks(c)
}

/// Append one environment variable when the optional credential field is
/// populated.
pub fn set_env_if_present(env_vars: &mut EnvMap, key: &str, value: &Option<String>)
    ensures
        final(env_vars)@ == old(env_vars)@ + opt_env_entry(key@, value.deep_view()),
{
    let ghost prev = env_vars@;
    match value {
        Some(v) => {
            if !v.as_str().is_empty() {
                env_vars.set(String::from_str(key), v.clone());
                proof {
                    assert(env_vars@ =~~= prev + opt_env_entry(key@, value.deep_view()));
                }
            } else {
                proof {
                    assert(env_vars@ =~~= prev + opt_env_entry(key@, value.deep_view()));
                }
            }
        },
        None => {
            proof {
                assert(env_vars@ =~~= prev + opt_env_entry(key@, value.deep_view()));
            }
        },
    }
}

/// Whether an optional string equals a literal.
fn opt_is(o: &Option<String>, s: &str) -> (r: bool)
    ensures
        r == (o.deep_view() == Some(s@)),
{
    match o {
        Some(v) => {
            let vv = chars_of(v.as_str());
            let sv = chars_of(s);
            eq_chars(&vv, &sv)
        },
        None => false,
    }
}

/// Whether an optional string is populated.
fn opt_filled(o: &Option<String>) -> (r: bool)
    ensures
        r == non_empty(o.deep_view()),
{
    match o {
        Some(v) => !v.as_str().is_empty(),
        None => false,
    }
}

/// Project a credential bundle onto the environment variables for the
/// deployment tool: exactly `env_spec` of the bundle.
#[verifier::rlimit(60)]
pub fn build_env_vars(credentials: &CloudCredentials) -> (r: EnvMap)
    ensures
        r@ == env_spec(credentials@),
{
    let ghost c = credentials@;
    let mut env_vars = EnvMap::new();

    set_env_if_present(&mut env_vars, "AWS_PROFILE", &credentials.aws_profile);
    set_env_if_present(&mut env_vars, "AWS_ACCESS_KEY_ID", &credentials.aws_access_key_id);
    set_env_if_present(&mut env_vars, "AWS_SECRET_ACCESS_KEY", &credentials.aws_secret_access_key);
    set_env_if_present(&mut env_vars, "AWS_SESSION_TOKEN", &credentials.aws_session_token);
    set_env_if_present(&mut env_vars, "AWS_DEFAULT_REGION", &credentials.aws_region);
    proof {
        assert(env_vars@ =~~= env_aws(c));
    }

    set_env_if_present(&mut env_vars, "ARM_TENANT_ID", &credentials.azure_tenant_id);
    set_env_if_present(&mut env_vars, "ARM_SUBSCRIPTION_ID", &credentials.azure_subscription_id);
    set_env_if_present(&mut env_vars, "ARM_CLIENT_ID", &credentials.azure_client_id);
    set_env_if_present(&mut env_vars, "ARM_CLIENT_SECRET", &credentials.azure_client_secret);
    proof {
        assert(env_vars@ =~~= env_aws(c) + env_azure(c));
    }

    if let Some(project_id) = &credentials.gcp_project_id {
        if !project_id.as_str().is_empty() {
            env_vars.set(String::from_str("GOOGLE_PROJECT"), project_id.clone());
            env_vars.set(String::from_str("GCLOUD_PROJECT"), project_id.clone());
            env_vars.set(String::from_str("CLOUDSDK_CORE_PROJECT"), project_id.clone());
        }
    }
    if opt_filled(&credentials.gcp_credentials_json) {
        set_env_if_present(&mut env_vars, "GOOGLE_CREDENTIALS", &credentials.gcp_credentials_json);
    } else {
        set_env_if_present(
            &mut env_vars,
            "GOOGLE_OAUTH_ACCESS_TOKEN",
            &credentials.gcp_oauth_token,
        );
    }
    proof {
        assert(env_vars@ =~~= env_aws(c) + env_azure(c) + env_gcp(c));
    }

    set_env_if_present(&mut env_vars, "DATABRICKS_ACCOUNT_ID", &credentials.databricks_account_id);

    let is_gcp = opt_is(&credentials.cloud, "gcp");
    let is_azure = opt_is(&credentials.cloud, "azure");
    let profile_mode = match &credentials.databricks_auth_type {
        Some(a) => {
            let av = chars_of(a.as_str());
            eq_chars(&av, &chars_of("profile"))
        },
        None => false,
    };
    proof {
        assert(profile_mode == (databricks_auth(c) == "profile"@)) by {
            if c.databricks_auth_type is None {
                reveal_strlit("credentials");
                reveal_strlit("profile");
                assert("credentials"@.len() != "profile"@.len());
            }
        }
    }
    let has_sp = profile_mode && opt_filled(&credentials.databricks_client_id) && opt_filled(
        &credentials.databricks_client_secret,
    );

    if is_gcp {
        env_vars.set(String::from_str("DATABRICKS_CONFIG_FILE"), String::from_str("/dev/null"));
    } else if !is_azure {
        if profile_mode && !has_sp {
            set_env_if_present(
                &mut env_vars,
                "DATABRICKS_CONFIG_PROFILE",
                &credentials.databricks_profile,
            );
        } else {
            set_env_if_present(
                &mut env_vars,
                "DATABRICKS_CLIENT_ID",
                &credentials.databricks_client_id,
            );
            set_env_if_present(
                &mut env_vars,
                "DATABRICKS_CLIENT_SECRET",
                &credentials.databricks_client_secret,
            );
        }
    }
    proof {
        assert(env_vars@ =~~= env_spec(c));
    }
    env_vars
}

// ─── The declarative-variable projection ────────────────────────────────────

/// The single binding a populated optional field contributes.
pub open spec fn opt_var_entry(name: Seq<char>, o: Option<Seq<char>>) -> Seq<(Seq<char>, ValueV)> {
    match o {
        Some(s) => if s.len() > 0 {
            seq![(name, ValueV::Text(s))]
        } else {
            Seq::empty()
        },
        None => Seq::empty(),
    }
}

/// The auth mode written as a declarative variable: identity-based Azure
/// login, machine-to-machine OAuth when a client id and secret exist, a
/// CLI profile otherwise; anything but profile mode means OAuth.
pub open spec fn declared_auth_type(c: CredView) -> Seq<char> {
    match c.databricks_auth_type {
        Some(a) => if a == "profile"@ {
            if c.cloud == Some("azure"@) && c.azure_databricks_use_identity == Some(true) {
                "azure-cli"@
            } else if non_empty(c.databricks_client_id) && non_empty(c.databricks_client_secret) {
                "oauth-m2m"@
            } else {
                "databricks-cli"@
            }
        } else {
            "oauth-m2m"@
        },
        None => "oauth-m2m"@,
    }
}

/// The Azure-only data-plane credential bindings: under machine-to-machine
/// OAuth the client id and secret, under CLI-profile auth the profile name,
/// under identity auth nothing.
pub open spec fn azure_databricks_entries(c: CredView) -> Seq<(Seq<char>, ValueV)> {
    if c.cloud == Some("azure"@) {
        if declared_auth_type(c) == "oauth-m2m"@ {
            opt_var_entry("databricks_client_id"@, c.databricks_client_id) + opt_var_entry(
                "databricks_client_secret"@,
                c.databricks_client_secret,
            )
        } else if declared_auth_type(c) == "databricks-cli"@ {
            opt_var_entry("databricks_profile"@, c.databricks_profile)
        } else {
            Seq::empty()
        }
    } else {
        Seq::empty()
    }
}

/// The data-plane bindings: account id, auth mode, and the Azure-only
/// credential bindings.
pub open spec fn databricks_entries(c: CredView) -> Seq<(Seq<char>, ValueV)> {
    opt_var_entry("databricks_account_id"@, c.databricks_account_id) + seq![
        ("databricks_auth_type"@, ValueV::Text(declared_auth_type(c))),
    ] + azure_databricks_entries(c)
}

/// The Azure resource identifiers as bindings.
pub open spec fn azure_id_entries(c: CredView) -> Seq<(Seq<char>, ValueV)> {
    opt_var_entry("tenant_id"@, c.azure_tenant_id) + (match c.azure_subscription_id {
        Some(s) => if s.len() > 0 {
            seq![
                ("subscription_id"@, ValueV::Text(s)),
                ("azure_subscription_id"@, ValueV::Text(s)),
            ]
        } else {
            Seq::empty()
        },
        None => Seq::empty(),
    })
}

/// The GCP bindings: project name, auth method, service account email, and
/// raw JSON credentials when those drive authentication.
pub open spec fn gcp_entries(c: CredView) -> Seq<(Seq<char>, ValueV)> {
    if c.cloud == Some("gcp"@) {
        opt_var_entry("google_project_name"@, c.gcp_project_id) + seq![
            (
                "gcp_auth_method"@,
                ValueV::Text(
                    if non_empty(c.gcp_credentials_json) {
                        "credentials"@
                    } else {
                        "impersonation"@
                    },
                ),
            ),
        ] + opt_var_entry("google_service_account_email"@, c.gcp_service_account_email) + (
        if non_empty(c.gcp_credentials_json) {
            opt_var_entry("google_credentials_json"@, c.gcp_credentials_json)
        } else {
            Seq::empty()
        })
    } else {
        Seq::empty()
    }
}

/// The declarative variable bindings a bundle projects to, in order.
pub open spec fn credential_entries(c: CredView) -> Seq<(Seq<char>, ValueV)> {
    databricks_entries(c) + azure_id_entries(c) + gcp_entries(c)
}

/// Bind one declarative variable when the optional credential field is
/// populated.
fn insert_var_if_present(values: &mut ValueMap, name: &str, value: &Option<String>)
    ensures
        final(values)@ == old(values)@ + opt_var_entry(name@, value.deep_view()),
{
    let ghost prev = values@;
    match value {
        Some(v) => {
            if !v.as_str().is_empty() {
                values.insert(String::from_str(name), Value::Text(v.clone()));
                proof {
                    assert(values@ =~~= prev + opt_var_entry(name@, value.deep_view()));
                }
            } else {
                proof {
                    assert(values@ =~~= prev + opt_var_entry(name@, value.deep_view()));
                }
            }
        },
        None => {
            proof {
                assert(values@ =~~= prev + opt_var_entry(name@, value.deep_view()));
            }
        },
    }
}

/// Bind the data-plane account id, auth mode and Azure-only credentials.
#[verifier::rlimit(60)]
fn merge_databricks_vars(values: &mut ValueMap, credentials: &CloudCredentials)
    ensures
        final(values)@ == old(values)@ + databricks_entries(credentials@),
{
    let ghost c = credentials@;
    let ghost base = values@;
    insert_var_if_present(values, "databricks_account_id", &credentials.databricks_account_id);
    let ghost g1 = base + opt_var_entry("databricks_account_id"@, c.databricks_account_id);

    let is_azure = opt_is(&credentials.cloud, "azure");
    let profile_mode = match &credentials.databricks_auth_type {
        Some(a) => {
            let av = chars_of(a.as_str());
            eq_chars(&av, &chars_of("profile"))
        },
        None => false,
    };
    let use_identity = match credentials.azure_databricks_use_identity {
        Some(b) => b,
        None => false,
    };
    let has_sp = opt_filled(&credentials.databricks_client_id) && opt_filled(
        &credentials.databricks_client_secret,
    );
    let auth_type: &str = if profile_mode {
        if is_azure && use_identity {
            "azure-cli"
        } else if has_sp {
            "oauth-m2m"
        } else {
            "databricks-cli"
        }
    } else {
        "oauth-m2m"
    };
    proof {
        assert(auth_type@ == declared_auth_type(c)) by {
            if c.databricks_auth_type is Some {
                reveal_strlit("profile");
            }
            if c.azure_databricks_use_identity is None {
                assert(c.azure_databricks_use_identity != Some(true));
            }
        }
    }
    values.insert(
        String::from_str("databricks_auth_type"),
        Value::Text(String::from_str(auth_type)),
    );
    let ghost g2 = g1 + seq![("databricks_auth_type"@, ValueV::Text(declared_auth_type(c)))];
    proof {
        assert(values@ =~~= g2);
        reveal_strlit("azure-cli");
        reveal_strlit("oauth-m2m");
        reveal_strlit("databricks-cli");
        assert("azure-cli"@ != "oauth-m2m"@) by {
            assert("azure-cli"@[0] == 'a');
            assert("oauth-m2m"@[0] == 'o');
        }
        assert("databricks-cli"@.len() != "oauth-m2m"@.len());
        assert("databricks-cli"@.len() != "azure-cli"@.len());
    }
    let oauth_mode = !profile_mode || !(is_azure && use_identity) && has_sp;
    proof {
        assert(oauth_mode == (declared_auth_type(c) == "oauth-m2m"@));
    }
    if is_azure {
        if oauth_mode {
            insert_var_if_present(
                values,
                "databricks_client_id",
                &credentials.databricks_client_id,
            );
            insert_var_if_present(
                values,
                "databricks_client_secret",
                &credentials.databricks_client_secret,
            );
        } else if profile_mode && !use_identity {
            insert_var_if_present(values, "databricks_profile", &credentials.databricks_profile);
        }
    }
    proof {
        assert(values@ =~~= g2 + azure_databricks_entries(c));
        assert(values@ =~~= base + databricks_entries(c));
    }
}

/// Bind the Azure resource identifiers.
fn merge_azure_vars(values: &mut ValueMap, credentials: &CloudCredentials)
    ensures
        final(values)@ == old(values)@ + azure_id_entries(credentials@),
{
    let ghost c = credentials@;
    let ghost base = values@;
    insert_var_if_present(values, "tenant_id", &credentials.azure_tenant_id);
    if let Some(sub_id) = &credentials.azure_subscription_id {
        if !sub_id.as_str().is_empty() {
            values.insert(String::from_str("subscription_id"), Value::Text(sub_id.clone()));
            values.insert(String::from_str("azure_subscription_id"), Value::Text(sub_id.clone()));
        }
    }
    proof {
        assert(values@ =~~= base + azure_id_entries(c));
    }
}

/// Bind the GCP variables.
fn merge_gcp_vars(values: &mut ValueMap, credentials: &CloudCredentials)
    ensures
        final(values)@ == old(values)@ + gcp_entries(credentials@),
{
    let ghost c = credentials@;
    let ghost base = values@;
    if opt_is(&credentials.cloud, "gcp") {
        insert_var_if_present(values, "google_project_name", &credentials.gcp_project_id);
        let ghost g1 = base + opt_var_entry("google_project_name"@, c.gcp_project_id);
        let method: &str = if opt_filled(&credentials.gcp_credentials_json) {
            "credentials"
        } else {
            "impersonation"
        };
        values.insert(String::from_str("gcp_auth_method"), Value::Text(String::from_str(method)));
        proof {
            assert(values@ =~~= g1 + seq![
                (
                    "gcp_auth_method"@,
                    ValueV::Text(
                        if non_empty(c.gcp_credentials_json) {
                            "credentials"@
                        } else {
                            "impersonation"@
                        },
                    ),
                ),
            ]);
        }
        insert_var_if_present(
            values,
            "google_service_account_email",
            &credentials.gcp_service_account_email,
        );
        if opt_filled(&credentials.gcp_credentials_json) {
            insert_var_if_present(
                values,
                "google_credentials_json",
                &credentials.gcp_credentials_json,
            );
        }
        proof {
            assert(values@ =~~= base + gcp_entries(c));
        }
    } else {
        proof {
            assert(values@ =~~= base + gcp_entries(c));
        }
    }
}

/// Merge a bundle's declarative credential variables over user-supplied
/// values: the merged map is the given bindings followed by exactly
/// `credential_entries` of the bundle, later bindings overriding.
pub fn merge_credential_values(values: ValueMap, credentials: &CloudCredentials) -> (r: ValueMap)
    ensures
        r@ == values@ + credential_entries(credentials@),
{
    let ghost c = credentials@;
    let ghost base = values@;
    let mut values = values;
    merge_databricks_vars(&mut values, credentials);
    merge_azure_vars(&mut values, credentials);
    merge_gcp_vars(&mut values, credentials);
    proof {
        assert(values@ =~~= base + credential_entries(c));
    }
    values
}

// ─── Filling gaps from the CLI config ───────────────────────────────────────

/// The bundle with missing data-plane fields filled from the CLI config's
/// default profile: consulted only when the client id or secret is absent,
/// and only absent fields are filled.
pub open spec fn with_cli_fallback(
    c: CredView,
    cli: Option<(Option<Seq<char>>, Option<Seq<char>>, Option<Seq<char>>)>,
) -> CredView {
    if c.databricks_client_id is None || c.databricks_client_secret is None {
        match cli {
            Some(t) => CredView {
                databricks_client_id: if c.databricks_client_id is None {
                    t.0
                } else {
                    c.databricks_client_id
                },
                databricks_client_secret: if c.databricks_client_secret is None {
                    t.1
                } else {
                    c.databricks_client_secret
                },
                databricks_account_id: if c.databricks_account_id is None {
                    t.2
                } else {
                    c.databricks_account_id
                },
                ..c
            },
            None => c,
        }
    } else {
        c
    }
}

/// Fill missing data-plane credentials from the CLI config's default
/// profile, exactly as `with_cli_fallback` describes.
pub fn apply_cli_config_fallback(
    credentials: CloudCredentials,
    cli: Option<(Option<String>, Option<String>, Option<String>)>,
) -> (r: CloudCredentials)
    ensures
        r@ == with_cli_fallback(credentials@, cli.deep_view()),
{
    let mut credentials = credentials;
    if credentials.databricks_client_id.is_none()
        || credentials.databricks_client_secret.is_none() {
        if let Some(t) = cli {
            if credentials.databricks_client_id.is_none() {
                credentials.databricks_client_id = t.0;
            }
            if credentials.databricks_client_secret.is_none() {
                credentials.databricks_client_secret = t.1;
            }
            if credentials.databricks_account_id.is_none() {
                credentials.databricks_account_id = t.2;
            }
        }
    }
    credentials
}

// ─── Laws: suppression and single-target projection ─────────────────────────

proof fn lemma_env_has_key_concat(a: Seq<(Seq<char>, Seq<char>)>, b: Seq<(Seq<char>, Seq<char>)>, k: Seq<char>)
    ensures
        env_has_key(a + b, k) == (env_has_key(a, k) || env_has_key(b, k)),
{
    if env_has_key(a, k) {
        let i = choose|i: int| 0 <= i < a.len() && a[i].0 == k;
        assert((a + b)[i].0 == k);
    }
    if env_has_key(b, k) {
        let i = choose|i: int| 0 <= i < b.len() && b[i].0 == k;
        assert((a + b)[a.len() + i].0 == k);
    }
    if env_has_key(a + b, k) {
        let i = choose|i: int| 0 <= i < (a + b).len() && (a + b)[i].0 == k;
        if i < a.len() {
            assert(a[i].0 == k);
        } else {
            assert(b[i - a.len()].0 == k);
        }
    }
}

proof fn lemma_opt_env_entry_key(key: Seq<char>, o: Option<Seq<char>>, k: Seq<char>)
    requires
        key != k,
    ensures
        !env_has_key(opt_env_entry(key, o), k),
{
}

proof fn lemma_env_spec_no_key_azure(c: CredView, k: Seq<char>)
    requires
        c.cloud == Some("azure"@),
        "azure"@ != "gcp"@,
        k != "AWS_PROFILE"@,
        k != "AWS_ACCESS_KEY_ID"@,
        k != "AWS_SECRET_ACCESS_KEY"@,
        k != "AWS_SESSION_TOKEN"@,
        k != "AWS_DEFAULT_REGION"@,
        k != "ARM_TENANT_ID"@,
        k != "ARM_SUBSCRIPTION_ID"@,
        k != "ARM_CLIENT_ID"@,
        k != "ARM_CLIENT_SECRET"@,
        k != "GOOGLE_PROJECT"@,
        k != "GCLOUD_PROJECT"@,
        k != "CLOUDSDK_CORE_PROJECT"@,
        k != "GOOGLE_CREDENTIALS"@,
        k != "GOOGLE_OAUTH_ACCESS_TOKEN"@,
        k != "DATABRICKS_ACCOUNT_ID"@,
    ensures
        !env_has_key(env_spec(c), k),
{
    lemma_env_has_key_concat(env_aws(c) + env_azure(c) + env_gcp(c), env_databricks(c), k);
    lemma_env_has_key_concat(env_aws(c) + env_azure(c), env_gcp(c), k);
    lemma_env_has_key_concat(env_aws(c), env_azure(c), k);
    let a1 = opt_env_entry("AWS_PROFILE"@, c.aws_profile);
    let a2 = opt_env_entry("AWS_ACCESS_KEY_ID"@, c.aws_access_key_id);
    let a3 = opt_env_entry("AWS_SECRET_ACCESS_KEY"@, c.aws_secret_access_key);
    let a4 = opt_env_entry("AWS_SESSION_TOKEN"@, c.aws_session_token);
    let a5 = opt_env_entry("AWS_DEFAULT_REGION"@, c.aws_region);
    lemma_env_has_key_concat(a1 + a2 + a3 + a4, a5, k);
    lemma_env_has_key_concat(a1 + a2 + a3, a4, k);
    lemma_env_has_key_concat(a1 + a2, a3, k);
    lemma_env_has_key_concat(a1, a2, k);
    lemma_opt_env_entry_key("AWS_PROFILE"@, c.aws_profile, k);
    lemma_opt_env_entry_key("AWS_ACCESS_KEY_ID"@, c.aws_access_key_id, k);
    lemma_opt_env_entry_key("AWS_SECRET_ACCESS_KEY"@, c.aws_secret_access_key, k);
    lemma_opt_env_entry_key("AWS_SESSION_TOKEN"@, c.aws_session_token, k);
    lemma_opt_env_entry_key("AWS_DEFAULT_REGION"@, c.aws_region, k);
    let z1 = opt_env_entry("ARM_TENANT_ID"@, c.azure_tenant_id);
    let z2 = opt_env_entry("ARM_SUBSCRIPTION_ID"@, c.azure_subscription_id);
    let z3 = opt_env_entry("ARM_CLIENT_ID"@, c.azure_client_id);
    let z4 = opt_env_entry("ARM_CLIENT_SECRET"@, c.azure_client_secret);
    lemma_env_has_key_concat(z1 + z2 + z3, z4, k);
    lemma_env_has_key_concat(z1 + z2, z3, k);
    lemma_env_has_key_concat(z1, z2, k);
    lemma_opt_env_entry_key("ARM_TENANT_ID"@, c.azure_tenant_id, k);
    lemma_opt_env_entry_key("ARM_SUBSCRIPTION_ID"@, c.azure_subscription_id, k);
    lemma_opt_env_entry_key("ARM_CLIENT_ID"@, c.azure_client_id, k);
    lemma_opt_env_entry_key("ARM_CLIENT_SECRET"@, c.azure_client_secret, k);
    let proj = match c.gcp_project_id {
        Some(p) => if p.len() > 0 {
            seq![("GOOGLE_PROJECT"@, p), ("GCLOUD_PROJECT"@, p), ("CLOUDSDK_CORE_PROJECT"@, p)]
        } else {
            Seq::empty()
        },
        None => Seq::empty(),
    };
    assert(!env_has_key(proj, k));
    lemma_env_has_key_concat(
        proj,
        if non_empty(c.gcp_credentials_json) {
            opt_env_entry("GOOGLE_CREDENTIALS"@, c.gcp_credentials_json)
        } else {
            opt_env_entry("GOOGLE_OAUTH_ACCESS_TOKEN"@, c.gcp_oauth_token)
        },
        k,
    );
    lemma_opt_env_entry_key("GOOGLE_CREDENTIALS"@, c.gcp_credentials_json, k);
    lemma_opt_env_entry_key("GOOGLE_OAUTH_ACCESS_TOKEN"@, c.gcp_oauth_token, k);
    let d1 = opt_env_entry("DATABRICKS_ACCOUNT_ID"@, c.databricks_account_id);
    lemma_opt_env_entry_key("DATABRICKS_ACCOUNT_ID"@, c.databricks_account_id, k);
    lemma_env_has_key_concat(d1, Seq::empty(), k);
    assert(env_databricks(c) == d1 + Seq::<(Seq<char>, Seq<char>)>::empty());
}

/// For every Azure bundle, under every auth mode, the environment
/// projection carries no data-plane client id, client secret, or profile
/// key: those credentials travel as declarative variables instead.
pub proof fn lemma_azure_env_suppression(c: CredView)
    requires
        c.cloud == Some("azure"@),
    ensures
        !env_has_key(env_spec(c), "DATABRICKS_CLIENT_ID"@),
        !env_has_key(env_spec(c), "DATABRICKS_CLIENT_SECRET"@),
        !env_has_key(env_spec(c), "DATABRICKS_CONFIG_PROFILE"@),
{
    reveal_strlit("AWS_PROFILE");
    reveal_strlit("AWS_ACCESS_KEY_ID");
    reveal_strlit("AWS_SECRET_ACCESS_KEY");
    reveal_strlit("AWS_SESSION_TOKEN");
    reveal_strlit("AWS_DEFAULT_REGION");
    reveal_strlit("ARM_TENANT_ID");
    reveal_strlit("ARM_SUBSCRIPTION_ID");
    reveal_strlit("ARM_CLIENT_ID");
    reveal_strlit("ARM_CLIENT_SECRET");
    reveal_strlit("GOOGLE_PROJECT");
    reveal_strlit("GCLOUD_PROJECT");
    reveal_strlit("CLOUDSDK_CORE_PROJECT");
    reveal_strlit("GOOGLE_CREDENTIALS");
    reveal_strlit("GOOGLE_OAUTH_ACCESS_TOKEN");
    reveal_strlit("DATABRICKS_ACCOUNT_ID");
    reveal_strlit("DATABRICKS_CLIENT_ID");
    reveal_strlit("DATABRICKS_CLIENT_SECRET");
    reveal_strlit("DATABRICKS_CONFIG_PROFILE");
    reveal_strlit("azure");
    reveal_strlit("gcp");
    assert("azure"@.len() == 5 && "gcp"@.len() == 3);
    assert("AWS_PROFILE"@.len() == 11);
    assert("AWS_ACCESS_KEY_ID"@.len() == 17);
    assert("AWS_SECRET_ACCESS_KEY"@.len() == 21);
    assert("AWS_SESSION_TOKEN"@.len() == 17);
    assert("AWS_DEFAULT_REGION"@.len() == 18);
    assert("ARM_TENANT_ID"@.len() == 13);
    assert("ARM_SUBSCRIPTION_ID"@.len() == 19);
    assert("ARM_CLIENT_ID"@.len() == 13);
    assert("ARM_CLIENT_SECRET"@.len() == 17);
    assert("GOOGLE_PROJECT"@.len() == 14);
    assert("GCLOUD_PROJECT"@.len() == 14);
    assert("CLOUDSDK_CORE_PROJECT"@.len() == 21);
    assert("GOOGLE_CREDENTIALS"@.len() == 18);
    assert("GOOGLE_OAUTH_ACCESS_TOKEN"@.len() == 25);
    assert("DATABRICKS_ACCOUNT_ID"@.len() == 21);
    assert("DATABRICKS_CLIENT_ID"@.len() == 20);
    assert("DATABRICKS_CLIENT_SECRET"@.len() == 24);
    assert("DATABRICKS_CONFIG_PROFILE"@.len() == 25);
    assert("GOOGLE_OAUTH_ACCESS_TOKEN"@ != "DATABRICKS_CONFIG_PROFILE"@) by {
        assert("GOOGLE_OAUTH_ACCESS_TOKEN"@[0] == 'G');
        assert("DATABRICKS_CONFIG_PROFILE"@[0] == 'D');
    }
    lemma_env_spec_no_key_azure(c, "DATABRICKS_CLIENT_ID"@);
    lemma_env_spec_no_key_azure(c, "DATABRICKS_CLIENT_SECRET"@);
    lemma_env_spec_no_key_azure(c, "DATABRICKS_CONFIG_PROFILE"@);
}

/// Whether some declarative binding carries the given name.
pub open spec fn binds_name(es: Seq<(Seq<char>, ValueV)>, k: Seq<char>) -> bool {
    exists|i: int| 0 <= i < es.len() && (#[trigger] es[i]).0 == k
}

/// No logical data-plane credential is projected to both targets: a bundle
/// never gets a client id, client secret, or profile in the environment and
/// as a declarative variable at the same time.
pub proof fn lemma_credential_single_target(c: CredView)
    ensures
        !(env_has_key(env_spec(c), "DATABRICKS_CLIENT_ID"@) && binds_name(
            credential_entries(c),
            "databricks_client_id"@,
        )),
        !(env_has_key(env_spec(c), "DATABRICKS_CLIENT_SECRET"@) && binds_name(
            credential_entries(c),
            "databricks_client_secret"@,
        )),
        !(env_has_key(env_spec(c), "DATABRICKS_CONFIG_PROFILE"@) && binds_name(
            credential_entries(c),
            "databricks_profile"@,
        )),
{
    reveal_strlit("databricks_client_id");
    reveal_strlit("databricks_client_secret");
    reveal_strlit("databricks_profile");
    reveal_strlit("databricks_account_id");
    reveal_strlit("databricks_auth_type");
    reveal_strlit("tenant_id");
    reveal_strlit("subscription_id");
    reveal_strlit("azure_subscription_id");
    reveal_strlit("google_project_name");
    reveal_strlit("gcp_auth_method");
    reveal_strlit("google_service_account_email");
    reveal_strlit("google_credentials_json");
    if c.cloud == Some("azure"@) {
        lemma_azure_env_suppression(c);
    } else {
        assert(!binds_name(azure_databricks_entries(c), "databricks_client_id"@));
        assert(!binds_name(azure_databricks_entries(c), "databricks_client_secret"@));
        assert(!binds_name(azure_databricks_entries(c), "databricks_profile"@));
        assert forall|k: Seq<char>|
            k == "databricks_client_id"@ || k == "databricks_client_secret"@ || k
                == "databricks_profile"@ implies !binds_name(credential_entries(c), k) by {
            assert("databricks_account_id"@ != k && "databricks_auth_type"@ != k) by {
                assert("databricks_account_id"@[11] == 'a');
                assert("databricks_auth_type"@[11] == 'a');
                assert("databricks_client_id"@[11] == 'c');
                assert("databricks_client_secret"@[11] == 'c');
                assert("databricks_profile"@[11] == 'p');
            }
            if binds_name(credential_entries(c), k) {
                let i = choose|i: int|
                    0 <= i < credential_entries(c).len() && credential_entries(c)[i].0 == k;
                let d = databricks_entries(c);
                let a = azure_id_entries(c);
                let g = gcp_entries(c);
                assert(credential_entries(c) == d + a + g);
                if i < d.len() {
                    assert(d[i].0 == k);
                    let adb = azure_databricks_entries(c);
                    assert(adb.len() == 0);
                    assert(d[i].0 == "databricks_account_id"@ || d[i].0
                        == "databricks_auth_type"@);
                } else if i < d.len() + a.len() {
                    assert(a[i - d.len()].0 == k);
                } else {
                    assert(g[i - d.len() - a.len()].0 == k);
                }
            }
        }
    }
}

} // verus!
