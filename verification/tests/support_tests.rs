use deployer_core::errors::{auth_expired, cli_not_found, not_logged_in};
use deployer_core::support::{
    databricks_accounts_host, is_encrypted, is_valid_uuid, mask_sensitive_id, opt_non_empty,
    sanitize_deployment_name, sanitize_template_id, validate_aws_profile_name,
    validate_azure_subscription_id,
};

#[test]
fn sanitize_deployment_name_valid() {
    assert_eq!(sanitize_deployment_name("deploy-azure-123").unwrap(), "deploy-azure-123");
}

#[test]
fn sanitize_deployment_name_with_underscores() {
    assert_eq!(sanitize_deployment_name("my_deploy_01").unwrap(), "my_deploy_01");
}

#[test]
fn sanitize_deployment_name_strips_special_chars() {
    assert_eq!(sanitize_deployment_name("deploy/../hack").unwrap(), "deployhack");
}

#[test]
fn sanitize_deployment_name_strips_spaces() {
    assert_eq!(sanitize_deployment_name("deploy name").unwrap(), "deployname");
}

#[test]
fn sanitize_deployment_name_empty() {
    assert!(sanitize_deployment_name("").is_err());
}

#[test]
fn sanitize_deployment_name_all_invalid_chars() {
    assert!(sanitize_deployment_name("///...").is_err());
}

#[test]
fn sanitize_deployment_name_leading_hyphen() {
    assert!(sanitize_deployment_name("-badname").is_err());
}

#[test]
fn sanitize_deployment_name_too_long() {
    let long = "a".repeat(201);
    assert!(sanitize_deployment_name(&long).is_err());
}

#[test]
fn sanitize_deployment_name_max_length_ok() {
    let exact = "a".repeat(200);
    assert!(sanitize_deployment_name(&exact).is_ok());
}

#[test]
fn sanitize_template_id_valid() {
    assert_eq!(sanitize_template_id("azure-simple").unwrap(), "azure-simple");
}

#[test]
fn sanitize_template_id_with_underscores() {
    assert_eq!(sanitize_template_id("gcp_advanced").unwrap(), "gcp_advanced");
}

#[test]
fn sanitize_template_id_empty() {
    assert!(sanitize_template_id("").is_err());
}

#[test]
fn sanitize_template_id_path_traversal_dots() {
    assert!(sanitize_template_id("../etc/passwd").is_err());
}

#[test]
fn sanitize_template_id_forward_slash() {
    assert!(sanitize_template_id("templates/hack").is_err());
}

#[test]
fn sanitize_template_id_backslash() {
    assert!(sanitize_template_id("templates\\hack").is_err());
}

#[test]
fn sanitize_template_id_special_chars() {
    assert!(sanitize_template_id("template@v2").is_err());
}

#[test]
fn is_valid_uuid_valid() {
    assert!(is_valid_uuid("550e8400-e29b-41d4-a716-446655440000"));
}

#[test]
fn is_valid_uuid_wrong_length() {
    assert!(!is_valid_uuid("550e8400-e29b-41d4"));
}

#[test]
fn is_valid_uuid_no_dashes() {
    assert!(!is_valid_uuid("550e8400e29b41d4a716446655440000"));
}

#[test]
fn is_valid_uuid_wrong_dash_positions() {
    assert!(!is_valid_uuid("550e840-0e29b-41d4-a716-446655440000"));
}

#[test]
fn is_valid_uuid_non_hex_chars() {
    assert!(!is_valid_uuid("550e8400-e29b-41d4-a716-44665544000g"));
}

#[test]
fn is_valid_uuid_empty() {
    assert!(!is_valid_uuid(""));
}

#[test]
fn is_valid_uuid_uppercase_hex() {
    assert!(is_valid_uuid("550E8400-E29B-41D4-A716-446655440000"));
}

#[test]
fn mask_sensitive_id_normal() {
    assert_eq!(mask_sensitive_id("1234567890abcdef"), "1234...cdef");
}

#[test]
fn mask_sensitive_id_short() {
    assert_eq!(mask_sensitive_id("short"), "***");
}

#[test]
fn mask_sensitive_id_exactly_12() {
    assert_eq!(mask_sensitive_id("123456789012"), "***");
}

#[test]
fn mask_sensitive_id_13_chars() {
    assert_eq!(mask_sensitive_id("1234567890123"), "1234...0123");
}

#[test]
fn databricks_host_azure() {
    assert_eq!(databricks_accounts_host("azure"), "accounts.azuredatabricks.net");
}

#[test]
fn databricks_host_gcp() {
    assert_eq!(databricks_accounts_host("gcp"), "accounts.gcp.databricks.com");
}

#[test]
fn databricks_host_aws() {
    assert_eq!(databricks_accounts_host("aws"), "accounts.cloud.databricks.com");
}

#[test]
fn databricks_host_unknown_defaults_to_aws() {
    assert_eq!(databricks_accounts_host("unknown"), "accounts.cloud.databricks.com");
}

#[test]
fn opt_non_empty_none() {
    assert!(!opt_non_empty(&None));
}

#[test]
fn opt_non_empty_empty_string() {
    assert!(!opt_non_empty(&Some("".to_string())));
}

#[test]
fn opt_non_empty_with_value() {
    assert!(opt_non_empty(&Some("value".to_string())));
}

#[test]
fn validate_aws_profile_name_accepts_plain() {
    assert!(validate_aws_profile_name("deployer-prod.01"));
}

#[test]
fn validate_aws_profile_name_rejects_injection() {
    assert!(!validate_aws_profile_name("bad; rm -rf"));
    assert!(!validate_aws_profile_name(""));
}

#[test]
fn validate_azure_subscription_id_checks_uuid() {
    assert!(validate_azure_subscription_id("550e8400-e29b-41d4-a716-446655440000"));
    assert!(!validate_azure_subscription_id("not-a-subscription"));
}

#[test]
fn is_encrypted_checks_prefix() {
    assert!(is_encrypted("enc:v1:SECRET-REDACTED"));
    assert!(!is_encrypted("plain-value"));
}

#[test]
fn cli_not_found_message() {
    let msg = cli_not_found("Terraform");
    assert_eq!(msg, "Terraform not found. Please install it first.");
}

#[test]
fn cli_not_found_databricks() {
    let msg = cli_not_found("Databricks CLI");
    assert!(msg.contains("Databricks CLI"));
    assert!(msg.contains("install"));
}

#[test]
fn auth_expired_message() {
    let msg = auth_expired("AWS");
    assert_eq!(msg, "AWS session expired. Please login again.");
}

#[test]
fn auth_expired_azure() {
    let msg = auth_expired("Azure");
    assert!(msg.contains("Azure"));
    assert!(msg.contains("expired"));
}

#[test]
fn not_logged_in_message() {
    let msg = not_logged_in("Azure");
    assert_eq!(msg, "Not logged in to Azure. Please login first.");
}

#[test]
fn not_logged_in_gcp() {
    let msg = not_logged_in("GCP");
    assert!(msg.contains("GCP"));
    assert!(msg.contains("login"));
}
