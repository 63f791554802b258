//! The extraction pipeline over real configuration text.

use confgraph::extract::extract_data_from_hcl;
use confgraph::model::ExtractError;

fn sources(texts: &[&str]) -> Vec<String> {
    texts.iter().map(|t| t.to_string()).collect()
}

const LAMBDA_FILE: &str = r#"
locals {
  lambdas = {
    notify = {
      description = "sends messages"
      handler     = "index.handler"
    }
  }
  lambdas_permissions = {
    notify = [
      {
        statement_id = "AllowAPIGateway"
        principal    = "apigateway.amazonaws.com"
        source_arn   = "${module.service_api.rest_api_execution_arn}/*/POST/notify"
      }
    ]
  }
}
"#;

#[test]
fn modules_are_extracted_with_rendered_fields() {
    let srcs = sources(&[r#"
module "queue" {
  source  = "./queue"
  version = "1.2.0"
  size    = 3
}
"#]);
    let h = extract_data_from_hcl(&srcs).unwrap();
    assert_eq!(h.modules.len(), 1);
    let m = &h.modules[0];
    assert_eq!(m.name, "queue");
    // field values keep their rendered, quoted textual form
    assert_eq!(m.source, "\"./queue\"");
    assert_eq!(m.version, "\"1.2.0\"");
    let names: Vec<&str> = m.variables.iter().map(|v| v.name.as_str()).collect();
    assert!(names.contains(&"source"));
    assert!(names.contains(&"size"));
    let size = m.variables.iter().find(|v| v.name == "size").unwrap();
    assert_eq!(size.value, "3");
}

#[test]
fn module_missing_version_fails_naming_it() {
    let srcs = sources(&[r#"
module "queue" {
  source = "./queue"
}
"#]);
    let e = extract_data_from_hcl(&srcs).unwrap_err();
    assert_eq!(
        e,
        ExtractError::MissingRequiredField {
            module: "queue".to_string(),
            field: "version".to_string(),
        }
    );
}

#[test]
fn module_missing_source_fails_naming_it() {
    let srcs = sources(&[r#"
module "queue" {
  version = "1.0"
}
"#]);
    let e = extract_data_from_hcl(&srcs).unwrap_err();
    assert_eq!(
        e,
        ExtractError::MissingRequiredField {
            module: "queue".to_string(),
            field: "source".to_string(),
        }
    );
}

#[test]
fn terraform_block_is_extracted() {
    let srcs = sources(&[r#"
terraform {
  required_version = ">= 1.0"
  backend "s3" {
    bucket = "state"
  }
  required_providers {
    aws = {
      source  = "hashicorp/aws"
      version = "~> 4.0"
    }
  }
}
"#]);
    let h = extract_data_from_hcl(&srcs).unwrap();
    assert_eq!(h.terraform.len(), 1);
    let t = &h.terraform[0];
    assert_eq!(t.required_version.as_deref(), Some("\">= 1.0\""));
    assert_eq!(t.backend.as_ref().unwrap().name, "s3");
    assert_eq!(t.required_providers.len(), 1);
    assert_eq!(t.required_providers[0].name, "aws");
    assert_eq!(t.required_providers[0].source, "\"hashicorp/aws\"");
}

#[test]
fn two_backends_across_files_are_ambiguous() {
    let srcs = sources(&[
        r#"
terraform {
  backend "s3" {
    bucket = "one"
  }
}
"#,
        r#"
terraform {
  backend "local" {
    path = "two"
  }
}
"#,
    ]);
    let e = extract_data_from_hcl(&srcs).unwrap_err();
    assert_eq!(e, ExtractError::AmbiguousBackend);
}

#[test]
fn one_backend_is_fine() {
    let srcs = sources(&[r#"
terraform {
  backend "s3" {
    bucket = "one"
  }
}
"#]);
    let h = extract_data_from_hcl(&srcs).unwrap();
    assert_eq!(h.terraform[0].backend.as_ref().unwrap().name, "s3");
}

#[test]
fn unparsable_source_is_malformed() {
    let srcs = sources(&["this is { not hcl ["]);
    let e = extract_data_from_hcl(&srcs).unwrap_err();
    assert_eq!(e, ExtractError::MalformedSource);
}

#[test]
fn lambda_with_inferred_route() {
    // the end-to-end scenario: one lambda, one permission on it whose
    // source references the execution identifier with /*/POST/notify
    let srcs = sources(&[LAMBDA_FILE]);
    let h = extract_data_from_hcl(&srcs).unwrap();
    assert_eq!(h.lambda.len(), 1);
    let l = &h.lambda[0];
    assert_eq!(l.name, "notify");
    assert_eq!(l.handler, "\"index.handler\"");
    assert_eq!(l.permissions.len(), 1);
    let p = &l.permissions[0];
    assert_eq!(p.statement_id, "AllowAPIGateway");
    assert_eq!(p.principal, "apigateway.amazonaws.com");
    assert_eq!(p.http_method.as_deref(), Some("POST"));
    assert_eq!(p.http_path.as_deref(), Some("/notify"));
}

#[test]
fn route_fields_are_set_together_or_not_at_all() {
    let srcs = sources(&[r#"
locals {
  lambdas = {
    worker = {
      description = "works"
      handler     = "work.run"
    }
  }
  lambdas_permissions = {
    worker = [
      {
        statement_id = "AllowSns"
        principal    = "sns.amazonaws.com"
        source_arn   = "arn:aws:sns:eu-west-1:123:topic"
      }
    ]
  }
}
"#]);
    let h = extract_data_from_hcl(&srcs).unwrap();
    let p = &h.lambda[0].permissions[0];
    assert!(p.http_method.is_none());
    assert!(p.http_path.is_none());
}

#[test]
fn fully_wildcarded_permission_aborts_extraction() {
    let srcs = sources(&[r#"
locals {
  lambdas = {
    notify = {
      description = "d"
      handler     = "h"
    }
  }
  lambdas_permissions = {
    notify = [
      {
        statement_id = "s"
        principal    = "p"
        source_arn   = "${module.service_api.rest_api_execution_arn}/*/*/*"
      }
    ]
  }
}
"#]);
    let e = extract_data_from_hcl(&srcs).unwrap_err();
    assert_eq!(e, ExtractError::UnsupportedRoutePattern);
}

#[test]
fn permissions_from_two_files_are_unioned() {
    let perms_a = r#"
locals {
  lambdas_permissions = {
    notify = [
      {
        statement_id = "A"
        principal    = "p1"
        source_arn   = "arn:one"
      }
    ]
  }
}
"#;
    let perms_b = r#"
locals {
  lambdas_permissions = {
    notify = [
      {
        statement_id = "B"
        principal    = "p2"
        source_arn   = "arn:two"
      }
    ]
  }
}
"#;
    let decl = r#"
locals {
  lambdas = {
    notify = {
      description = "d"
      handler     = "h"
    }
  }
}
"#;
    let srcs = sources(&[decl, perms_a, perms_b]);
    let h = extract_data_from_hcl(&srcs).unwrap();
    let ids: Vec<&str> = h.lambda[0]
        .permissions
        .iter()
        .map(|p| p.statement_id.as_str())
        .collect();
    assert_eq!(ids, vec!["A", "B"]);
}

#[test]
fn running_twice_gives_equal_snapshots() {
    let srcs = sources(&[
        LAMBDA_FILE,
        r#"
module "queue" {
  source  = "./queue"
  version = "1.2.0"
}
"#,
    ]);
    let h1 = extract_data_from_hcl(&srcs).unwrap();
    let h2 = extract_data_from_hcl(&srcs).unwrap();
    assert_eq!(h1, h2);
}
