use deployer_core::reader::parse_tfvars_file;
use deployer_core::schema::{parse_variables_tf, TerraformVariable};
use deployer_core::templates::{
    build_preview_entries, ensure_tfvars_ignored, example_line, filter_internal_variables,
    TfVarPreviewEntry,
};

#[test]
fn internal_variables_are_filtered() {
    let tf = r#"
variable "google_project_name" {
  type = string
}
variable "gcp_auth_method" {
  type = string
}
variable "google_credentials_json" {
  type = string
}
"#;
    let vars = filter_internal_variables(parse_variables_tf(tf));
    assert_eq!(vars.len(), 1);
    assert_eq!(vars[0].name, "google_project_name");
}

#[test]
fn internal_filter_keeps_ordinary_variables() {
    let tf = "variable \"tenant_id\" {\n}\nvariable \"location\" {\n}\n";
    let vars = filter_internal_variables(parse_variables_tf(tf));
    assert_eq!(vars.len(), 2);
}

fn schema_for_preview() -> Vec<TerraformVariable> {
    vec![
        TerraformVariable {
            name: "region".to_string(),
            description: String::new(),
            var_type: "string".to_string(),
            default: None,
            required: true,
            sensitive: false,
            validation: None,
        },
        TerraformVariable {
            name: "password".to_string(),
            description: String::new(),
            var_type: "string".to_string(),
            default: None,
            required: true,
            sensitive: true,
            validation: None,
        },
    ]
}

#[test]
fn preview_masks_sensitive_values() {
    let values = parse_tfvars_file("region = \"us-east-1\"\npassword = \"SECRET-REDACTED\"\n");
    let entries = build_preview_entries(&schema_for_preview(), &values);
    assert_eq!(entries.len(), 2);
    assert_eq!(entries[0].name, "region");
    assert_eq!(entries[0].value, "us-east-1");
    assert_eq!(entries[0].placeholder, "<region>");
    assert!(entries[1].is_sensitive);
    assert_eq!(entries[1].value, "<SENSITIVE - set via TF_VAR_password>");
    assert_eq!(entries[1].placeholder, "<SENSITIVE - set via TF_VAR_password>");
}

#[test]
fn preview_skips_unbound_variables() {
    let values = parse_tfvars_file("region = \"us-east-1\"\n");
    let entries = build_preview_entries(&schema_for_preview(), &values);
    assert_eq!(entries.len(), 1);
    assert_eq!(entries[0].name, "region");
}

#[test]
fn preview_placeholder_hyphenates_name() {
    let schema = vec![TerraformVariable {
        name: "subnet_public_cidr".to_string(),
        description: String::new(),
        var_type: "string".to_string(),
        default: None,
        required: true,
        sensitive: false,
        validation: None,
    }];
    let values = parse_tfvars_file("subnet_public_cidr = \"10.0.0.0/22\"\n");
    let entries = build_preview_entries(&schema, &values);
    assert_eq!(entries[0].placeholder, "<subnet-public-cidr>");
}

fn entry(name: &str, value: &str, sensitive: bool, placeholder: &str) -> TfVarPreviewEntry {
    TfVarPreviewEntry {
        name: name.to_string(),
        value: value.to_string(),
        is_sensitive: sensitive,
        placeholder: placeholder.to_string(),
    }
}

#[test]
fn example_line_include_values() {
    let line = example_line(&entry("region", "us-east-1", false, "<region>"), true, false);
    assert_eq!(line, "region = \"us-east-1\"");
    let masked = example_line(
        &entry(
            "password",
            "<SENSITIVE - set via TF_VAR_password>",
            true,
            "<SENSITIVE - set via TF_VAR_password>",
        ),
        true,
        false,
    );
    assert_eq!(masked, "password = \"<SENSITIVE - set via TF_VAR_password>\"");
}

#[test]
fn example_line_placeholders_only() {
    let line = example_line(&entry("region", "us-east-1", false, "<region>"), false, false);
    assert_eq!(line, "region = \"<region>\"");
    assert!(!line.contains("us-east-1"));
}

#[test]
fn example_line_unquoted_forms() {
    assert_eq!(example_line(&entry("flag", "true", false, "<flag>"), true, false), "flag = true");
    assert_eq!(example_line(&entry("count", "3", false, "<count>"), true, true), "count = 3");
    assert_eq!(
        example_line(&entry("tags", "{ env = \"prod\" }", false, "<tags>"), true, false),
        "tags = { env = \"prod\" }"
    );
}

#[test]
fn tfvars_ignore_rules_created() {
    let content = ensure_tfvars_ignored("");
    assert!(content.contains("*.tfvars"));
    assert!(content.contains("*.tfvars.json"));
    assert!(content.contains("!*.tfvars.example"));
}

#[test]
fn tfvars_ignore_rules_appended_to_existing() {
    let content = ensure_tfvars_ignored(".terraform/\n");
    assert!(content.starts_with(".terraform/"));
    assert!(content.contains("*.tfvars"));
}

#[test]
fn tfvars_ignore_rules_kept_when_present() {
    let original = "*.tfvars\n*.tfvars.json\n";
    let content = ensure_tfvars_ignored(original);
    assert_eq!(content, original);
}
