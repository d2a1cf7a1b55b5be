use deployer_core::cloud::{get_metastore_owner_info, skip_gcp_permission_check};
use deployer_core::creds::CloudCredentials;
use deployer_core::platform::{
    find_git_path, find_terraform_path, get_terraform_download_url, find_gcloud_cli_path,
};
use deployer_core::creds::apply_cli_config_fallback;
use deployer_core::profiles::{
    create_profile, get_databricks_profiles_for_cloud, read_databricks_cli_config,
    read_databricks_profiles,
};

const CONFIG: &str = r#"
; CLI profiles
[DEFAULT]
host = https://dbc-123.cloud.databricks.com

[deployer-prod]
host = https://accounts.cloud.databricks.com
account_id = acc-1
client_id = sp-1
client_secret = SECRET-REDACTED

[alpha]
host = https://accounts.cloud.databricks.com
account_id = acc-2
client_id = sp-2
client_secret = SECRET-REDACTED

[workspace-only]
host = https://dbc-456.cloud.databricks.com
token = SECRET-REDACTED

[custom]
host = https://example.internal
"#;

#[test]
fn read_profiles_classifies_hosts() {
    let profiles = read_databricks_profiles(CONFIG);
    // the custom host is skipped entirely
    assert_eq!(profiles.len(), 4);
    assert_eq!(profiles[0].name, "DEFAULT");
    assert_eq!(profiles[0].cloud, "aws");
    assert!(!profiles[0].has_client_credentials);
    assert_eq!(profiles[1].name, "deployer-prod");
    assert!(profiles[1].has_client_credentials);
    assert_eq!(profiles[1].account_id.as_deref(), Some("acc-1"));
    assert!(profiles[3].has_token);
}

#[test]
fn read_profiles_detects_oauth_auth_type() {
    let config = "[a]\nhost = https://accounts.azuredatabricks.net\nauth_type = oauth-m2m\n";
    let profiles = read_databricks_profiles(config);
    assert_eq!(profiles.len(), 1);
    assert_eq!(profiles[0].cloud, "azure");
    assert!(profiles[0].has_token);
}

#[test]
fn create_profile_requires_known_host() {
    let data = vec![("host".to_string(), "https://example.internal".to_string())];
    assert!(create_profile("x", &data).is_none());
    assert!(create_profile("y", &Vec::new()).is_none());
}

#[test]
fn profiles_for_cloud_filters_and_sorts() {
    let profiles = read_databricks_profiles(CONFIG);
    let selected = get_databricks_profiles_for_cloud(profiles, "aws");
    // only the account-level, service-principal profiles survive
    assert_eq!(selected.len(), 2);
    // deployer-created profiles come first
    assert_eq!(selected[0].name, "deployer-prod");
    assert_eq!(selected[1].name, "alpha");
}

#[test]
fn profiles_for_cloud_other_cloud_is_empty() {
    let profiles = read_databricks_profiles(CONFIG);
    let selected = get_databricks_profiles_for_cloud(profiles, "azure");
    assert!(selected.is_empty());
}

#[test]
fn download_url_per_platform() {
    assert!(get_terraform_download_url("linux", "x86_64").ends_with("linux_amd64.zip"));
    assert!(get_terraform_download_url("linux", "aarch64").ends_with("linux_arm64.zip"));
    assert!(get_terraform_download_url("macos", "aarch64").ends_with("darwin_arm64.zip"));
    assert!(get_terraform_download_url("windows", "x86_64").ends_with("windows_amd64.zip"));
}

#[test]
fn find_terraform_prefers_own_install_dir() {
    let existing = vec![
        "/usr/bin/terraform".to_string(),
        "/home/me/.databricks-deployer/bin/terraform".to_string(),
    ];
    let found = find_terraform_path(
        false,
        Some("/home/me".to_string()),
        None,
        &existing,
        Some("/elsewhere/terraform".to_string()),
    );
    assert_eq!(found.unwrap(), "/home/me/.databricks-deployer/bin/terraform");
}

#[test]
fn find_git_falls_back_to_path_search() {
    let existing: Vec<String> = Vec::new();
    let found = find_git_path(false, &existing, Some("/nix/store/git".to_string()));
    assert_eq!(found.unwrap(), "/nix/store/git");
    assert!(find_git_path(false, &existing, None).is_none());
}

#[test]
fn find_gcloud_checks_home_locations_first() {
    let existing = vec![
        "/usr/bin/gcloud".to_string(),
        "/home/me/google-cloud-sdk/bin/gcloud".to_string(),
    ];
    let found = find_gcloud_cli_path(false, Some("/home/me".to_string()), &existing, None);
    assert_eq!(found.unwrap(), "/home/me/google-cloud-sdk/bin/gcloud");
}

#[test]
fn skipped_permission_check_is_soft() {
    let check = skip_gcp_permission_check("Running with restricted credentials");
    assert!(check.has_all_permissions);
    assert!(check.is_warning);
    assert_eq!(check.message, "Running with restricted credentials. Permission check skipped.");
    assert!(check.checked_permissions.is_empty());
}

#[test]
fn metastore_owner_user_and_identity_from_json() {
    let creds = CloudCredentials {
        gcp_credentials_json: Some("{\"client_email\":\"sa@proj.iam\"}".to_string()),
        ..CloudCredentials::default()
    };
    let msg = get_metastore_owner_info("admin@example.com", &creds);
    assert_eq!(
        msg,
        "Metastore owned by user 'admin@example.com'. Service account 'sa@proj.iam' should have the required permissions granted on this metastore."
    );
}

#[test]
fn metastore_owner_service_principal() {
    let creds = CloudCredentials {
        databricks_client_id: Some("sp-client".to_string()),
        ..CloudCredentials::default()
    };
    let msg = get_metastore_owner_info("550e8400-e29b-41d4-a716-446655440000", &creds);
    assert!(msg.starts_with("Metastore owned by service principal '550e8400-"));
    assert!(msg.contains("Service principal 'sp-client'"));
}

#[test]
fn metastore_owner_group_generic_identity() {
    let creds = CloudCredentials::default();
    let msg = get_metastore_owner_info("data-platform-admins", &creds);
    assert!(msg.starts_with("Metastore owned by group 'data-platform-admins'"));
    assert!(msg.contains("Your Databricks user or service principal"));
}

#[test]
fn cli_config_default_section_credentials() {
    let config = "[other]\nclient_id = nope\n[DEFAULT]\nclient_id = sp-1\nclient_secret = SECRET-REDACTED\naccount_id = acc-9\n[another]\nclient_id = also-nope\n";
    let creds = read_databricks_cli_config(config).unwrap();
    assert_eq!(creds.0.as_deref(), Some("sp-1"));
    assert!(creds.1.is_some());
    assert_eq!(creds.2.as_deref(), Some("acc-9"));
}

#[test]
fn cli_config_without_credentials_is_none() {
    assert!(read_databricks_cli_config("[DEFAULT]\nhost = https://x\n").is_none());
    assert!(read_databricks_cli_config("").is_none());
}

#[test]
fn cli_fallback_fills_only_missing_fields() {
    let creds = CloudCredentials {
        databricks_client_id: Some("from-env".to_string()),
        ..CloudCredentials::default()
    };
    let cli = Some((
        Some("cli-id".to_string()),
        Some("cli-secret".to_string()),
        Some("cli-acc".to_string()),
    ));
    let merged = apply_cli_config_fallback(creds, cli);
    assert_eq!(merged.databricks_client_id.as_deref(), Some("from-env"));
    assert_eq!(merged.databricks_client_secret.as_deref(), Some("cli-secret"));
    assert_eq!(merged.databricks_account_id.as_deref(), Some("cli-acc"));
}
