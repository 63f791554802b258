//! Route inference on concrete integration strings.

use confgraph::model::{ExtractError, HttpMethod};
use confgraph::routes::{extract_api_and_method, handle_api_gateway_lambda};

#[test]
fn explicit_method_single_wildcard() {
    let r = handle_api_gateway_lambda(
        "${module.service_api.rest_api_execution_arn}/*/GET/orders".to_string(),
    )
    .unwrap();
    assert_eq!(r, vec!["GET".to_string(), "/orders".to_string()]);
}

#[test]
fn fully_wildcarded_route_is_rejected() {
    let r = handle_api_gateway_lambda(
        "${module.service_api.rest_api_execution_arn}/*/*/*".to_string(),
    );
    assert_eq!(r, Err(ExtractError::UnsupportedRoutePattern));
}

#[test]
fn double_wildcard_means_any_method() {
    let r = handle_api_gateway_lambda(
        "${module.service_api.rest_api_execution_arn}/*/*".to_string(),
    )
    .unwrap();
    assert_eq!(r[0], "any");
    assert_eq!(r[1], "/");
}

#[test]
fn double_wildcard_keeps_trailing_path() {
    let r = handle_api_gateway_lambda(
        "${module.service_api.rest_api_execution_arn}/*/*/orders".to_string(),
    );
    // three wildcards would be needed for "/*/*/*"; this one has two
    assert_eq!(r.unwrap(), vec!["any".to_string(), "/orders".to_string()]);
}

#[test]
fn multi_segment_path_keeps_inner_slashes() {
    let r = handle_api_gateway_lambda(
        "${module.service_api.rest_api_execution_arn}/*/POST/orders/new".to_string(),
    )
    .unwrap();
    assert_eq!(r, vec!["POST".to_string(), "/orders/new".to_string()]);
}

#[test]
fn explicit_verb_without_wildcard() {
    let r = handle_api_gateway_lambda(
        "${module.service_api.rest_api_execution_arn}/prod/DELETE/orders".to_string(),
    )
    .unwrap();
    assert_eq!(r, vec!["DELETE".to_string(), "/prod/orders".to_string()]);
}

#[test]
fn unrecognized_shape_is_rejected() {
    let r = handle_api_gateway_lambda(
        "${module.service_api.rest_api_execution_arn}/prod/nothing".to_string(),
    );
    assert_eq!(r, Err(ExtractError::UnrecognizedRouteShape));
}

#[test]
fn verb_scan_takes_priority_order() {
    // GET is found before POST even when both occur
    let r = handle_api_gateway_lambda(
        "${module.service_api.rest_api_execution_arn}/stage/GET/POST".to_string(),
    )
    .unwrap();
    assert_eq!(r[0], "GET");
}

#[test]
fn extract_api_and_method_hit_and_miss() {
    let hit = extract_api_and_method("/v1/PUT/items", HttpMethod::Put);
    assert_eq!(hit, Some(("PUT".to_string(), "/v1/items".to_string())));
    let miss = extract_api_and_method("/v1/items", HttpMethod::Patch);
    assert!(miss.is_none());
}

#[test]
fn http_method_names_and_parsing() {
    assert_eq!(HttpMethod::Get.name(), "GET");
    assert_eq!(HttpMethod::Any.name(), "*");
    assert_eq!(HttpMethod::parse("delete"), Some(HttpMethod::Delete));
    assert_eq!(HttpMethod::parse("DeLeTe"), Some(HttpMethod::Delete));
    assert_eq!(HttpMethod::parse("*"), Some(HttpMethod::Any));
    assert_eq!(HttpMethod::parse("teapot"), None);
}

#[test]
fn decomposition_on_bare_tails() {
    // the three canonical shapes, with an arbitrary prefix
    let gets = handle_api_gateway_lambda(".../*/GET/orders".to_string()).unwrap();
    assert_eq!(gets, vec!["GET".to_string(), "/orders".to_string()]);
    let rejected = handle_api_gateway_lambda(".../*/*/*".to_string());
    assert_eq!(rejected, Err(ExtractError::UnsupportedRoutePattern));
    let any = handle_api_gateway_lambda(".../*/*".to_string()).unwrap();
    assert_eq!(any[0], "any");
    assert_eq!(any[1], "/");
}

#[test]
fn quotes_in_the_source_are_ignored() {
    let r = handle_api_gateway_lambda(
        "\"${module.service_api.rest_api_execution_arn}/*/PATCH/x\"".to_string(),
    )
    .unwrap();
    assert_eq!(r, vec!["PATCH".to_string(), "/x".to_string()]);
}
