//! Core library of a Terraform-based deployment pipeline: a tolerant parser
//! for `variable` blocks in declarative source text, a type-directed
//! serializer for variable values, a projector from cloud credential bundles
//! to environment variables and declarative values, and the state machine of
//! a deployment orchestrator.

pub mod cloud;
pub mod creds;
pub mod errors;
pub mod orchestrate;
pub mod platform;
pub mod profiles;
pub mod reader;
pub mod roundtrip;
pub mod schema;
pub mod support;
pub mod templates;
pub mod text;
pub mod tfvars;
pub mod value;
