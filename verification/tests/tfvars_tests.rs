use deployer_core::schema::TerraformVariable;
use deployer_core::tfvars::generate_tfvars;
use deployer_core::value::{FieldVal, ListItem, Scalar, Value, ValueMap};

fn var(name: &str, var_type: &str) -> TerraformVariable {
    TerraformVariable {
        name: name.to_string(),
        description: String::new(),
        var_type: var_type.to_string(),
        default: None,
        required: true,
        sensitive: false,
        validation: None,
    }
}

fn var_with_default(name: &str, var_type: &str, default: &str) -> TerraformVariable {
    TerraformVariable {
        name: name.to_string(),
        description: String::new(),
        var_type: var_type.to_string(),
        default: Some(default.to_string()),
        required: false,
        sensitive: false,
        validation: None,
    }
}

#[test]
fn generate_tfvars_string_value() {
    let vars = vec![var("region", "string")];
    let mut values = ValueMap::new();
    values.insert("region".to_string(), Value::Text("us-east-1".to_string()));
    let result = generate_tfvars(&values, &vars);
    assert_eq!(result, "region = \"us-east-1\"");
}

#[test]
fn generate_tfvars_bool_value() {
    let vars = vec![var("enabled", "bool")];
    let mut values = ValueMap::new();
    values.insert("enabled".to_string(), Value::Flag(true));
    let result = generate_tfvars(&values, &vars);
    assert_eq!(result, "enabled = true");
}

#[test]
fn generate_tfvars_number_value() {
    let vars = vec![var("count", "number")];
    let mut values = ValueMap::new();
    values.insert("count".to_string(), Value::Num("42".to_string()));
    let result = generate_tfvars(&values, &vars);
    assert_eq!(result, "count = 42");
}

#[test]
fn generate_tfvars_list_of_strings() {
    let vars = vec![var("zones", "list(string)")];
    let mut values = ValueMap::new();
    values.insert(
        "zones".to_string(),
        Value::List(vec![
            ListItem::Sc(Scalar::Text("us-east-1a".to_string())),
            ListItem::Sc(Scalar::Text("us-east-1b".to_string())),
        ]),
    );
    let result = generate_tfvars(&values, &vars);
    assert_eq!(result, "zones = [\"us-east-1a\", \"us-east-1b\"]");
}

#[test]
fn generate_tfvars_map_value() {
    let vars = vec![var("tags", "map(string)")];
    let mut values = ValueMap::new();
    values.insert(
        "tags".to_string(),
        Value::Obj(vec![("env".to_string(), FieldVal::Sc(Scalar::Text("prod".to_string())))]),
    );
    let result = generate_tfvars(&values, &vars);
    assert!(result.contains("tags = {"));
    assert!(result.contains("\"env\" = \"prod\""));
}

#[test]
fn generate_tfvars_empty_map() {
    let vars = vec![var("tags", "map(string)")];
    let mut values = ValueMap::new();
    values.insert("tags".to_string(), Value::Obj(Vec::new()));
    let result = generate_tfvars(&values, &vars);
    assert_eq!(result, "tags = {}");
}

#[test]
fn generate_tfvars_bool_string_for_bool_type() {
    let vars = vec![var("flag", "bool")];
    let mut values = ValueMap::new();
    values.insert("flag".to_string(), Value::Text("true".to_string()));
    let result = generate_tfvars(&values, &vars);
    assert_eq!(result, "flag = true");
}

#[test]
fn generate_tfvars_skips_empty_required_string() {
    let vars = vec![var("name", "string")];
    let mut values = ValueMap::new();
    values.insert("name".to_string(), Value::Text("".to_string()));
    let result = generate_tfvars(&values, &vars);
    assert!(result.is_empty());
}

#[test]
fn generate_tfvars_skips_missing_values() {
    let vars = vec![var("region", "string")];
    let values = ValueMap::new();
    let result = generate_tfvars(&values, &vars);
    assert!(result.is_empty());
}

#[test]
fn generate_tfvars_multiple_variables() {
    let vars = vec![var("region", "string"), var("count", "number")];
    let mut values = ValueMap::new();
    values.insert("region".to_string(), Value::Text("eu-west-1".to_string()));
    values.insert("count".to_string(), Value::Num("3".to_string()));
    let result = generate_tfvars(&values, &vars);
    assert!(result.contains("region = \"eu-west-1\""));
    assert!(result.contains("count = 3"));
}

#[test]
fn generate_tfvars_map_string_parseable() {
    let vars = vec![var("tags", "map(string)")];
    let mut values = ValueMap::new();
    values.insert("tags".to_string(), Value::Text("{\"env\":\"prod\"}".to_string()));
    let result = generate_tfvars(&values, &vars);
    assert!(result.contains("tags = {"));
    assert!(result.contains("\"env\" = \"prod\""));
}

#[test]
fn generate_tfvars_list_string_parseable() {
    let vars = vec![var("zones", "list(string)")];
    let mut values = ValueMap::new();
    values.insert("zones".to_string(), Value::Text("[\"a\",\"b\"]".to_string()));
    let result = generate_tfvars(&values, &vars);
    assert_eq!(result, "zones = [\"a\", \"b\"]");
}

#[test]
fn generate_tfvars_map_string_unparseable_falls_back() {
    let vars = vec![var("tags", "map(string)")];
    let mut values = ValueMap::new();
    values.insert("tags".to_string(), Value::Text("not json".to_string()));
    let result = generate_tfvars(&values, &vars);
    assert_eq!(result, "tags = \"not json\"");
}

#[test]
fn generate_tfvars_map_string_empty_literal() {
    let vars = vec![var_with_default("tags", "map(string)", "{}")];
    let mut values = ValueMap::new();
    values.insert("tags".to_string(), Value::Text("".to_string()));
    let result = generate_tfvars(&values, &vars);
    assert_eq!(result, "tags = {}");
}

#[test]
fn generate_tfvars_list_of_objects() {
    let vars = vec![var("rules", "list(object({}))")];
    let mut values = ValueMap::new();
    values.insert(
        "rules".to_string(),
        Value::List(vec![ListItem::Obj(vec![
            ("port".to_string(), FieldVal::Sc(Scalar::Num("443".to_string()))),
            ("proto".to_string(), FieldVal::Sc(Scalar::Text("tcp".to_string()))),
        ])]),
    );
    let result = generate_tfvars(&values, &vars);
    assert_eq!(result, "rules = [\n  {\n    port = 443\n    proto = \"tcp\"\n  }\n]");
}

// A simple string variable: the supplied value overrides the default and is
// emitted quoted.
#[test]
fn scenario_simple_string_variable() {
    let schema = vec![var_with_default("region", "string", "us-east-1")];
    let mut values = ValueMap::new();
    values.insert("region".to_string(), Value::Text("eu-west-1".to_string()));
    let result = generate_tfvars(&values, &schema);
    assert_eq!(result, "region = \"eu-west-1\"");
}

// A declared map type with the empty-string sentinel value renders as an
// empty map literal.
#[test]
fn scenario_empty_map_sentinel() {
    let vars = vec![var_with_default("tags", "map(string)", "{}")];
    let mut values = ValueMap::new();
    values.insert("tags".to_string(), Value::Text(String::new()));
    let result = generate_tfvars(&values, &vars);
    assert_eq!(result, "tags = {}");
}

// A bool-typed variable with the string "true" is emitted unquoted.
#[test]
fn scenario_boolean_as_string() {
    let vars = vec![var("enabled", "bool")];
    let mut values = ValueMap::new();
    values.insert("enabled".to_string(), Value::Text("true".to_string()));
    let result = generate_tfvars(&values, &vars);
    assert_eq!(result, "enabled = true");
}

// A required string variable bound to the empty string is omitted entirely.
#[test]
fn scenario_skip_rule() {
    let vars = vec![var("name", "string"), var("region", "string")];
    let mut values = ValueMap::new();
    values.insert("name".to_string(), Value::Text(String::new()));
    values.insert("region".to_string(), Value::Text("eu-west-1".to_string()));
    let result = generate_tfvars(&values, &vars);
    assert_eq!(result, "region = \"eu-west-1\"");
}

// Serializing the same inputs twice yields byte-identical text.
#[test]
fn generate_tfvars_is_deterministic() {
    let vars = vec![var("tags", "map(string)"), var("region", "string")];
    let mut values = ValueMap::new();
    values.insert("tags".to_string(), Value::Text("{\"env\":\"prod\",\"team\":\"data\"}".to_string()));
    values.insert("region".to_string(), Value::Text("eu-west-1".to_string()));
    let first = generate_tfvars(&values, &vars);
    let second = generate_tfvars(&values, &vars);
    assert_eq!(first, second);
}

#[test]
fn later_binding_overrides_earlier() {
    let vars = vec![var("region", "string")];
    let mut values = ValueMap::new();
    values.insert("region".to_string(), Value::Text("one".to_string()));
    values.insert("region".to_string(), Value::Text("two".to_string()));
    let result = generate_tfvars(&values, &vars);
    assert_eq!(result, "region = \"two\"");
}

#[test]
fn null_values_are_skipped() {
    let vars = vec![var("maybe", "string")];
    let mut values = ValueMap::new();
    values.insert("maybe".to_string(), Value::Null);
    assert!(generate_tfvars(&values, &vars).is_empty());
}
