use deployer_core::creds::{build_env_vars, merge_credential_values, CloudCredentials};
use deployer_core::value::ValueMap;

fn aws_bundle() -> CloudCredentials {
    CloudCredentials {
        cloud: Some("aws".to_string()),
        aws_profile: Some("prod".to_string()),
        aws_access_key_id: Some("AKIA".to_string()),
        aws_secret_access_key: Some("SECRET-REDACTED".to_string()),
        aws_region: Some("eu-west-1".to_string()),
        ..CloudCredentials::default()
    }
}

#[test]
fn env_aws_profile_and_keys_coexist() {
    let env = build_env_vars(&aws_bundle());
    assert_eq!(env.get("AWS_PROFILE").unwrap(), "prod");
    assert_eq!(env.get("AWS_ACCESS_KEY_ID").unwrap(), "AKIA");
    assert_eq!(env.get("AWS_SECRET_ACCESS_KEY").unwrap(), "SECRET-REDACTED");
    assert_eq!(env.get("AWS_DEFAULT_REGION").unwrap(), "eu-west-1");
    assert!(env.get("AWS_SESSION_TOKEN").is_none());
}

#[test]
fn env_empty_fields_are_not_set() {
    let mut creds = aws_bundle();
    creds.aws_profile = Some(String::new());
    let env = build_env_vars(&creds);
    assert!(env.get("AWS_PROFILE").is_none());
}

// For Azure bundles the environment never carries the data-plane client
// id, secret or profile, under any auth mode.
#[test]
fn scenario_azure_environment_suppression() {
    let mut creds = CloudCredentials {
        cloud: Some("azure".to_string()),
        azure_tenant_id: Some("tid".to_string()),
        azure_subscription_id: Some("sid".to_string()),
        databricks_account_id: Some("acc-123".to_string()),
        databricks_client_id: Some("client".to_string()),
        databricks_client_secret: Some("SECRET-REDACTED".to_string()),
        databricks_profile: Some("deployer-prod".to_string()),
        ..CloudCredentials::default()
    };
    for auth in ["credentials", "profile"] {
        creds.databricks_auth_type = Some(auth.to_string());
        let env = build_env_vars(&creds);
        assert!(env.get("DATABRICKS_CLIENT_ID").is_none());
        assert!(env.get("DATABRICKS_CLIENT_SECRET").is_none());
        assert!(env.get("DATABRICKS_CONFIG_PROFILE").is_none());
        assert_eq!(env.get("ARM_TENANT_ID").unwrap(), "tid");
        assert_eq!(env.get("ARM_SUBSCRIPTION_ID").unwrap(), "sid");
        assert_eq!(env.get("DATABRICKS_ACCOUNT_ID").unwrap(), "acc-123");
    }
}

#[test]
fn env_gcp_project_and_json_credentials() {
    let creds = CloudCredentials {
        cloud: Some("gcp".to_string()),
        gcp_project_id: Some("proj".to_string()),
        gcp_credentials_json: Some("{\"client_email\":\"sa@proj\"}".to_string()),
        gcp_oauth_token: Some("tok".to_string()),
        ..CloudCredentials::default()
    };
    let env = build_env_vars(&creds);
    assert_eq!(env.get("GOOGLE_PROJECT").unwrap(), "proj");
    assert_eq!(env.get("GCLOUD_PROJECT").unwrap(), "proj");
    assert_eq!(env.get("CLOUDSDK_CORE_PROJECT").unwrap(), "proj");
    // raw JSON credentials win; the token is never set alongside them
    assert!(env.get("GOOGLE_CREDENTIALS").is_some());
    assert!(env.get("GOOGLE_OAUTH_ACCESS_TOKEN").is_none());
    // the data-plane CLI config is pointed at a null path on this cloud
    assert_eq!(env.get("DATABRICKS_CONFIG_FILE").unwrap(), "/dev/null");
}

#[test]
fn env_gcp_oauth_token_fallback() {
    let creds = CloudCredentials {
        cloud: Some("gcp".to_string()),
        gcp_oauth_token: Some("tok".to_string()),
        ..CloudCredentials::default()
    };
    let env = build_env_vars(&creds);
    assert!(env.get("GOOGLE_CREDENTIALS").is_none());
    assert_eq!(env.get("GOOGLE_OAUTH_ACCESS_TOKEN").unwrap(), "tok");
}

#[test]
fn env_profile_mode_without_sp_creds_sets_profile() {
    let creds = CloudCredentials {
        cloud: Some("aws".to_string()),
        databricks_auth_type: Some("profile".to_string()),
        databricks_profile: Some("deployer-x".to_string()),
        ..CloudCredentials::default()
    };
    let env = build_env_vars(&creds);
    assert_eq!(env.get("DATABRICKS_CONFIG_PROFILE").unwrap(), "deployer-x");
    assert!(env.get("DATABRICKS_CLIENT_ID").is_none());
}

#[test]
fn env_credentials_mode_sets_client_id_and_secret() {
    let creds = CloudCredentials {
        cloud: Some("aws".to_string()),
        databricks_client_id: Some("client".to_string()),
        databricks_client_secret: Some("SECRET-REDACTED".to_string()),
        ..CloudCredentials::default()
    };
    let env = build_env_vars(&creds);
    assert_eq!(env.get("DATABRICKS_CLIENT_ID").unwrap(), "client");
    assert!(env.get("DATABRICKS_CLIENT_SECRET").is_some());
    assert!(env.get("DATABRICKS_CONFIG_PROFILE").is_none());
}

fn lookup(values: &ValueMap, name: &str) -> Option<String> {
    values.get(name).map(|v| match v {
        deployer_core::value::Value::Text(s) => s.clone(),
        _ => panic!("expected a string value"),
    })
}

#[test]
fn merge_azure_service_principal_variables() {
    let creds = CloudCredentials {
        cloud: Some("azure".to_string()),
        azure_tenant_id: Some("tid".to_string()),
        azure_subscription_id: Some("sid".to_string()),
        databricks_account_id: Some("acc".to_string()),
        databricks_client_id: Some("client".to_string()),
        databricks_client_secret: Some("SECRET-REDACTED".to_string()),
        ..CloudCredentials::default()
    };
    let merged = merge_credential_values(ValueMap::new(), &creds);
    assert_eq!(lookup(&merged, "databricks_auth_type").unwrap(), "oauth-m2m");
    assert_eq!(lookup(&merged, "databricks_account_id").unwrap(), "acc");
    assert_eq!(lookup(&merged, "databricks_client_id").unwrap(), "client");
    assert!(lookup(&merged, "databricks_client_secret").is_some());
    assert_eq!(lookup(&merged, "tenant_id").unwrap(), "tid");
    assert_eq!(lookup(&merged, "subscription_id").unwrap(), "sid");
    assert_eq!(lookup(&merged, "azure_subscription_id").unwrap(), "sid");
}

#[test]
fn merge_azure_identity_mode() {
    let creds = CloudCredentials {
        cloud: Some("azure".to_string()),
        databricks_auth_type: Some("profile".to_string()),
        azure_databricks_use_identity: Some(true),
        databricks_profile: Some("p".to_string()),
        ..CloudCredentials::default()
    };
    let merged = merge_credential_values(ValueMap::new(), &creds);
    assert_eq!(lookup(&merged, "databricks_auth_type").unwrap(), "azure-cli");
    // identity auth writes neither client credentials nor a profile
    assert!(merged.get("databricks_client_id").is_none());
    assert!(merged.get("databricks_profile").is_none());
}

#[test]
fn merge_azure_cli_profile_mode() {
    let creds = CloudCredentials {
        cloud: Some("azure".to_string()),
        databricks_auth_type: Some("profile".to_string()),
        databricks_profile: Some("deployer-prod".to_string()),
        ..CloudCredentials::default()
    };
    let merged = merge_credential_values(ValueMap::new(), &creds);
    assert_eq!(lookup(&merged, "databricks_auth_type").unwrap(), "databricks-cli");
    assert_eq!(lookup(&merged, "databricks_profile").unwrap(), "deployer-prod");
}

#[test]
fn merge_gcp_variables() {
    let creds = CloudCredentials {
        cloud: Some("gcp".to_string()),
        gcp_project_id: Some("proj".to_string()),
        gcp_service_account_email: Some("sa@proj".to_string()),
        ..CloudCredentials::default()
    };
    let merged = merge_credential_values(ValueMap::new(), &creds);
    assert_eq!(lookup(&merged, "google_project_name").unwrap(), "proj");
    assert_eq!(lookup(&merged, "gcp_auth_method").unwrap(), "impersonation");
    assert_eq!(lookup(&merged, "google_service_account_email").unwrap(), "sa@proj");
    assert!(merged.get("google_credentials_json").is_none());
}

#[test]
fn merge_gcp_json_credentials_mode() {
    let creds = CloudCredentials {
        cloud: Some("gcp".to_string()),
        gcp_credentials_json: Some("{}".to_string()),
        ..CloudCredentials::default()
    };
    let merged = merge_credential_values(ValueMap::new(), &creds);
    assert_eq!(lookup(&merged, "gcp_auth_method").unwrap(), "credentials");
    assert_eq!(lookup(&merged, "google_credentials_json").unwrap(), "{}");
}

#[test]
fn merge_keeps_user_values() {
    let mut values = ValueMap::new();
    values.insert(
        "workspace_name".to_string(),
        deployer_core::value::Value::Text("test-workspace".to_string()),
    );
    let creds = CloudCredentials { cloud: Some("aws".to_string()), ..CloudCredentials::default() };
    let merged = merge_credential_values(values, &creds);
    assert_eq!(lookup(&merged, "workspace_name").unwrap(), "test-workspace");
}
