use deployer_core::schema::parse_variables_tf;

#[test]
fn parse_simple_string_variable() {
    let tf = r#"
variable "region" {
  description = "The AWS region"
  type        = string
  default     = "us-east-1"
}
"#;
    let vars = parse_variables_tf(tf);
    assert_eq!(vars.len(), 1);
    assert_eq!(vars[0].name, "region");
    assert_eq!(vars[0].description, "The AWS region");
    assert_eq!(vars[0].default.as_deref(), Some("us-east-1"));
    assert!(!vars[0].required);
}

#[test]
fn parse_required_variable_no_default() {
    let tf = r#"
variable "name" {
  description = "Deployment name"
  type        = string
}
"#;
    let vars = parse_variables_tf(tf);
    assert_eq!(vars.len(), 1);
    assert!(vars[0].required);
    assert!(vars[0].default.is_none());
}

#[test]
fn parse_sensitive_variable() {
    let tf = r#"
variable "db_password" {
  description = "Database password"
  type        = string
  sensitive   = true
}
"#;
    let vars = parse_variables_tf(tf);
    assert_eq!(vars.len(), 1);
    assert!(vars[0].sensitive);
}

#[test]
fn parse_bool_variable() {
    let tf = r#"
variable "enable_logging" {
  description = "Enable logging"
  type        = bool
  default     = true
}
"#;
    let vars = parse_variables_tf(tf);
    assert_eq!(vars.len(), 1);
    assert_eq!(vars[0].default.as_deref(), Some("true"));
}

#[test]
fn parse_multiple_variables() {
    let tf = r#"
variable "region" {
  description = "AWS region"
  type        = string
  default     = "us-east-1"
}

variable "instance_type" {
  description = "EC2 instance type"
  type        = string
}

variable "count" {
  description = "Number of instances"
  type        = number
  default     = 1
}
"#;
    let vars = parse_variables_tf(tf);
    assert_eq!(vars.len(), 3);
    assert_eq!(vars[0].name, "region");
    assert_eq!(vars[1].name, "instance_type");
    assert_eq!(vars[2].name, "count");
}

#[test]
fn parse_multiline_map_default() {
    let tf = r#"
variable "tags" {
  description = "Resource tags"
  type        = map(string)
  default     = {
    env  = "prod"
    team = "data"
  }
}
"#;
    let vars = parse_variables_tf(tf);
    assert_eq!(vars.len(), 1);
    assert_eq!(vars[0].name, "tags");
    assert!(!vars[0].required);
    assert!(vars[0].default.is_some());
}

#[test]
fn parse_multiline_list_default() {
    let tf = r#"
variable "subnets" {
  description = "Subnet list"
  type        = list(string)
  default     = [
    "subnet-1",
    "subnet-2"
  ]
}
"#;
    let vars = parse_variables_tf(tf);
    assert_eq!(vars.len(), 1);
    assert!(!vars[0].required);
    assert!(vars[0].default.is_some());
}

#[test]
fn parse_empty_content() {
    let vars = parse_variables_tf("");
    assert!(vars.is_empty());
}

#[test]
fn parse_no_variables() {
    let tf = r#"
resource "aws_instance" "web" {
  ami           = "ami-12345"
  instance_type = "t2.micro"
}
"#;
    let vars = parse_variables_tf(tf);
    assert!(vars.is_empty());
}

#[test]
fn parse_validation_condition() {
    let tf = r#"
variable "cidr" {
  type = string
  validation {
    condition = "can(cidrnetmask(var.cidr))"
  }
}
"#;
    let vars = parse_variables_tf(tf);
    assert_eq!(vars.len(), 1);
    assert_eq!(vars[0].validation.as_deref(), Some("can(cidrnetmask(var.cidr))"));
}

#[test]
fn extract_helpers_read_one_line() {
    assert_eq!(
        deployer_core::schema::extract_string_value("  description = \"The region\""),
        Some("The region".to_string())
    );
    assert_eq!(
        deployer_core::schema::extract_type_value("  type = map(string)"),
        Some("map(string)".to_string())
    );
    assert_eq!(
        deployer_core::schema::extract_default_value("  default = \"eu-west-1\""),
        Some("eu-west-1".to_string())
    );
    assert_eq!(deployer_core::schema::extract_default_value("  default = 3"), Some("3".to_string()));
    assert_eq!(deployer_core::schema::extract_default_value("  default = {"), None);
}

#[test]
fn sensitive_needs_true_on_the_line() {
    let tf = "variable \"a\" {\n  sensitive = false\n}\nvariable \"b\" {\n  sensitive = true\n}\n";
    let vars = parse_variables_tf(tf);
    assert_eq!(vars.len(), 2);
    assert!(!vars[0].sensitive);
    assert!(vars[1].sensitive);
}

#[test]
fn multiline_default_braces_do_not_close_the_block() {
    let tf = r#"
variable "tags" {
  default = {
    env = "prod"
  }
  sensitive = true
}
"#;
    let vars = parse_variables_tf(tf);
    assert_eq!(vars.len(), 1);
    // the attribute after the multi-line default still belongs to the block
    assert!(vars[0].sensitive);
    assert_eq!(vars[0].default.as_deref(), Some("{ env = \"prod\" }"));
}

#[test]
fn unterminated_block_is_discarded() {
    let tf = "variable \"a\" {\n  type = string\n";
    assert!(parse_variables_tf(tf).is_empty());
}

#[test]
fn block_without_name_is_skipped() {
    let tf = "variable {\n  type = string\n}\nvariable \"b\" {\n}\n";
    let vars = parse_variables_tf(tf);
    assert_eq!(vars.len(), 1);
    assert_eq!(vars[0].name, "b");
}
