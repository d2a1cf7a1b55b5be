use deployer_core::reader::parse_tfvars_file;
use deployer_core::schema::TerraformVariable;
use deployer_core::tfvars::generate_tfvars;
use deployer_core::value::{Value, ValueMap};

#[test]
fn parse_tfvars_simple_strings() {
    let content = r#"
region = "us-east-1"
prefix = "my-workspace"
"#;
    let map = parse_tfvars_file(content);
    assert_eq!(map.get("region").unwrap(), "us-east-1");
    assert_eq!(map.get("prefix").unwrap(), "my-workspace");
}

#[test]
fn parse_tfvars_booleans_and_numbers() {
    let content = r#"
enable_logging = true
instance_count = 3
"#;
    let map = parse_tfvars_file(content);
    assert_eq!(map.get("enable_logging").unwrap(), "true");
    assert_eq!(map.get("instance_count").unwrap(), "3");
}

#[test]
fn parse_tfvars_multiline_map() {
    let content = r#"
tags = {
  env  = "prod"
  team = "data"
}
"#;
    let map = parse_tfvars_file(content);
    let tags = map.get("tags").unwrap();
    assert!(tags.contains("env"));
    assert!(tags.contains("prod"));
}

#[test]
fn parse_tfvars_skips_comments() {
    let content = r#"
# This is a comment
region = "us-east-1"
"#;
    let map = parse_tfvars_file(content);
    assert_eq!(map.len(), 1);
    assert_eq!(map.get("region").unwrap(), "us-east-1");
}

#[test]
fn parse_tfvars_rebinding_overrides() {
    let content = "region = \"one\"\nregion = \"two\"\n";
    let map = parse_tfvars_file(content);
    assert_eq!(map.len(), 1);
    assert_eq!(map.get("region").unwrap(), "two");
}

// Round trip: serializing string values and re-reading the text recovers
// the same key/value pairs.
#[test]
fn tfvars_round_trip_strings() {
    let schema = vec![
        TerraformVariable {
            name: "region".to_string(),
            description: String::new(),
            var_type: "string".to_string(),
            default: Some("us-east-1".to_string()),
            required: false,
            sensitive: false,
            validation: None,
        },
        TerraformVariable {
            name: "prefix".to_string(),
            description: String::new(),
            var_type: "string".to_string(),
            default: None,
            required: true,
            sensitive: false,
            validation: None,
        },
    ];
    let mut values = ValueMap::new();
    values.insert("region".to_string(), Value::Text("eu-west-1".to_string()));
    values.insert("prefix".to_string(), Value::Text("my-workspace".to_string()));
    let text = generate_tfvars(&values, &schema);
    let read_back = parse_tfvars_file(text.as_str());
    assert_eq!(read_back.len(), 2);
    assert_eq!(read_back.get("region").unwrap(), "eu-west-1");
    assert_eq!(read_back.get("prefix").unwrap(), "my-workspace");
}

#[test]
fn parse_tfvars_multiline_list() {
    let content = "zones = [\n  \"a\",\n  \"b\"\n]\n";
    let map = parse_tfvars_file(content);
    let zones = map.get("zones").unwrap();
    assert!(zones.starts_with('['));
    assert!(zones.contains("\"a\""));
    assert!(zones.contains("\"b\""));
}

#[test]
fn parse_tfvars_line_without_equals_is_skipped() {
    let map = parse_tfvars_file("just some text\nregion = \"x\"\n");
    assert_eq!(map.len(), 1);
}
