//! The resolution contract: api config, linking, starting vertices,
//! batch property/neighbor/coercion resolution.

use confgraph::adapter::{HclAdapter, StartParams};
use confgraph::extract::extract_data_from_hcl;
use confgraph::fsmodel::{FileSystemAdapter, FsVertex};
use confgraph::openapi::AmazonApigatewayIntegration;
use confgraph::properties::PropertyValue;
use confgraph::vertex::Vertex;

fn sources(texts: &[&str]) -> Vec<String> {
    texts.iter().map(|t| t.to_string()).collect()
}

const SERVICE_FILE: &str = r#"
module "service_api" {
  source  = "./api"
  version = "2.0"
  api_config = {
    body = templatefile("api.yaml", {notify_arn = module.lambda["notify"].arn})
  }
}
"#;

const NOTIFY_FILE: &str = r#"
locals {
  lambdas = {
    notify = {
      description = "sends messages"
      handler     = "index.handler"
    }
  }
}
"#;

#[test]
fn api_config_is_extracted_and_linked() {
    let srcs = sources(&[SERVICE_FILE, NOTIFY_FILE]);
    let h = extract_data_from_hcl(&srcs).unwrap();
    let c = h.api_config.as_ref().unwrap();
    assert_eq!(c.source, "\"./api\"");
    assert_eq!(c.version, "\"2.0\"");
    assert_eq!(c.template_file, "api.yaml");
    assert_eq!(c.template_variables.len(), 1);
    let tv = &c.template_variables[0];
    assert_eq!(tv.name, "notify_arn");
    // the value names lambda "notify", which exists: the link is set
    let linked = tv.lambda.as_ref().unwrap();
    assert_eq!(linked.name, "notify");
}

#[test]
fn api_config_link_is_empty_when_lambda_is_absent() {
    let srcs = sources(&[SERVICE_FILE]);
    let h = extract_data_from_hcl(&srcs).unwrap();
    let c = h.api_config.as_ref().unwrap();
    assert_eq!(c.template_variables.len(), 1);
    assert!(c.template_variables[0].lambda.is_none());
}

#[test]
fn absent_api_config_is_no_error() {
    let srcs = sources(&[NOTIFY_FILE]);
    let h = extract_data_from_hcl(&srcs).unwrap();
    assert!(h.api_config.is_none());
}

#[test]
fn starting_vertices_for_lambdas() {
    let srcs = sources(&[NOTIFY_FILE]);
    let adapter = HclAdapter::new_with_sources(&srcs).unwrap();
    let params = StartParams { name: None, tag: None };
    let vs = adapter.resolve_starting_vertices("Lambda", &params).unwrap();
    assert_eq!(vs.len(), 1);
    match &vs[0] {
        Vertex::Lambda(l) => assert_eq!(l.name, "notify"),
        other => panic!("expected a lambda vertex, got {:?}", other),
    }
}

#[test]
fn starting_vertices_for_named_module() {
    let srcs = sources(&[SERVICE_FILE]);
    let adapter = HclAdapter::new_with_sources(&srcs).unwrap();
    let params = StartParams { name: Some("module".to_string()), tag: Some("service_api".to_string()) };
    let vs = adapter.resolve_starting_vertices("Module", &params).unwrap();
    assert_eq!(vs.len(), 1);
    match &vs[0] {
        Vertex::Module(m) => {
            assert_eq!(m.name, "service_api");
            assert_eq!(m.source, "\"./api\"");
        },
        other => panic!("expected a module vertex, got {:?}", other),
    }
}

#[test]
fn property_batch_preserves_order_and_cardinality() {
    let srcs = sources(&[NOTIFY_FILE, SERVICE_FILE]);
    let adapter = HclAdapter::new_with_sources(&srcs).unwrap();
    let params = StartParams { name: None, tag: None };
    let lambdas = adapter.resolve_starting_vertices("Lambda", &params).unwrap();
    let modules = adapter.resolve_starting_vertices("Modules", &params).unwrap();
    // a mixed run of contexts, tagged with their position
    let contexts: Vec<(usize, Vertex)> = vec![
        (0, lambdas[0].clone()),
        (1, lambdas[0].clone()),
        (2, lambdas[0].clone()),
    ];
    let out = adapter.resolve_property(contexts, "Lambda", "name");
    assert_eq!(out.len(), 3);
    for (i, (tag, value)) in out.iter().enumerate() {
        assert_eq!(*tag, i);
        assert_eq!(*value, PropertyValue::Str("notify".to_string()));
    }
    let tn = adapter.resolve_property(
        vec![(9usize, modules[0].clone())],
        "Module",
        "__typename",
    );
    assert_eq!(tn[0].1, PropertyValue::Str("Module".to_string()));
}

#[test]
fn neighbors_and_coercion() {
    let srcs = sources(&[SERVICE_FILE, NOTIFY_FILE]);
    let adapter = HclAdapter::new_with_sources(&srcs).unwrap();
    let params = StartParams { name: None, tag: None };
    let configs = adapter.resolve_starting_vertices("ApiConfig", &params).unwrap();
    assert_eq!(configs.len(), 1);
    let out = adapter.resolve_neighbors(
        vec![(0usize, configs[0].clone())],
        "ApiConfig",
        "template_variables",
    );
    assert_eq!(out.len(), 1);
    assert_eq!(out[0].1.len(), 1);
    match &out[0].1[0] {
        Vertex::TemplateVariable(tv) => assert_eq!(tv.name, "notify_arn"),
        other => panic!("expected a template variable, got {:?}", other),
    }
    // following the linked-lambda edge from the template variable
    let tv_vertex = out[0].1[0].clone();
    let linked = adapter.resolve_neighbors(vec![(0usize, tv_vertex)], "TemplateVariable", "lambda");
    assert_eq!(linked[0].1.len(), 1);
    let coerced = adapter.resolve_coercion(
        vec![(0usize, configs[0].clone()), (1usize, linked[0].1[0].clone())],
        "Lambda",
    );
    assert_eq!(coerced[0].1, false);
    assert_eq!(coerced[1].1, true);
}

#[test]
fn filesystem_vertices_answer_their_path() {
    let adapter = FileSystemAdapter::new();
    assert_eq!(adapter, FileSystemAdapter::default());
    let file = FsVertex::File("/tmp/a.txt".to_string());
    let folder = FsVertex::Folder("/tmp".to_string());
    assert_eq!(file.path(), "/tmp/a.txt");
    assert_eq!(file.typename(), "File");
    assert!(file.coerces_to("File"));
    assert!(file.coerces_to("Path"));
    assert!(!file.coerces_to("Folder"));
    assert!(folder.coerces_to("Path"));
}

#[test]
fn integration_supplementary_data_for_lambda() {
    let mut aws = AmazonApigatewayIntegration {
        r_type: "aws_proxy".to_string(),
        http_method: "POST".to_string(),
        uri: "arn:aws:apigateway:eu-west-1:lambda:path/2015-03-31/functions/${notify_arn}/invocations"
            .to_string(),
        pass_through_behavior: "when_no_match".to_string(),
        timeout_in_millis: Some(29000),
        integration_trigger: String::new(),
        arn: String::new(),
    };
    aws.extract_supplementary_data();
    assert_eq!(aws.integration_trigger, "Lambda");
    assert_eq!(aws.arn, "notify_arn");
    // a non-lambda service keeps its identifier and names the service
    let mut step = AmazonApigatewayIntegration {
        r_type: "aws".to_string(),
        http_method: "POST".to_string(),
        uri: "arn:aws:apigateway:eu-west-1:state:action/StartExecution".to_string(),
        pass_through_behavior: "never".to_string(),
        timeout_in_millis: None,
        integration_trigger: String::new(),
        arn: "kept".to_string(),
    };
    step.extract_supplementary_data();
    assert_eq!(step.integration_trigger, "Step Function");
    assert_eq!(step.arn, "kept");
}

#[test]
fn error_descriptions_name_the_failure() {
    let e = confgraph::model::ExtractError::MissingRequiredField {
        module: "queue".to_string(),
        field: "version".to_string(),
    };
    let d = e.describe();
    assert!(d.contains("version"));
    assert!(d.contains("queue"));
}

#[test]
fn several_template_variables_are_parsed_in_order() {
    let srcs = sources(&[
        r#"
module "service_api" {
  source  = "./api"
  version = "2.0"
  api_config = {
    body = templatefile("spec.tpl", {first_arn = module.lambda["a"].arn, second = "plain"})
  }
}
"#,
    ]);
    let h = extract_data_from_hcl(&srcs).unwrap();
    let c = h.api_config.as_ref().unwrap();
    assert_eq!(c.template_file, "spec.tpl");
    let names: Vec<&str> = c
        .template_variables
        .iter()
        .map(|tv| tv.name.as_str())
        .collect();
    assert_eq!(names, vec!["first_arn", "second"]);
    assert!(c.template_variables[0].lambda.is_none());
}
