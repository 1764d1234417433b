use rustv::{EntityKind, MatrixRouter, NdiSource, Route, RouteError};

fn source(name: &str, url: &str) -> NdiSource {
    NdiSource::new(name.to_string(), url.to_string())
}

#[test]
fn test_matrix_routing() {
    let mut router = MatrixRouter::new();

    let source = NdiSource::new("Camera 1".to_string(), "ndi://cam1".to_string());
    router.add_input(source);
    router.add_output("Output 1".to_string());

    assert!(router.route("ndi://cam1", "Output 1").is_ok());
    assert_eq!(
        router.get_route("Output 1"),
        Some(&"ndi://cam1".to_string())
    );

    router.unroute("Output 1");
    assert_eq!(router.get_route("Output 1"), None);
}

#[test]
fn test_invalid_routing() {
    let mut router = MatrixRouter::new();

    // Try to route without adding input/output
    assert!(router.route("ndi://invalid", "Output 1").is_err());
}

#[test]
fn route_by_name_is_accepted() {
    let mut router = MatrixRouter::new();
    router.add_input(source("Camera 1", "ndi://cam1"));
    router.add_output("Output 1".to_string());
    assert_eq!(router.route("Camera 1", "Output 1"), Ok(()));
    assert_eq!(router.get_route("Output 1"), Some(&"Camera 1".to_string()));
}

#[test]
fn route_reports_missing_input_first() {
    let mut router = MatrixRouter::new();
    assert_eq!(
        router.route("ndi://x", "Output 1"),
        Err(RouteError::NotFound(EntityKind::Input, "ndi://x".to_string()))
    );
}

#[test]
fn route_reports_missing_output() {
    let mut router = MatrixRouter::new();
    router.add_input(source("Camera 1", "ndi://cam1"));
    let err = router.route("ndi://cam1", "Output 9").unwrap_err();
    assert_eq!(err, RouteError::NotFound(EntityKind::Output, "Output 9".to_string()));
    assert_eq!(err.kind(), EntityKind::Output);
    assert_eq!(err.identity(), "Output 9");
    assert_eq!(err.message(), "Output 'Output 9' not found");
    assert!(router.get_all_routes().is_empty());
}

#[test]
fn input_error_message() {
    let err = RouteError::NotFound(EntityKind::Input, "cam".to_string());
    assert_eq!(err.message(), "Input 'cam' not found");
}

#[test]
fn route_overwrites_earlier_mapping() {
    let mut router = MatrixRouter::new();
    router.add_input(source("A", "ndi://a"));
    router.add_input(source("B", "ndi://b"));
    router.add_output("Out".to_string());
    router.route("ndi://a", "Out").unwrap();
    router.route("ndi://b", "Out").unwrap();
    let routes = router.get_all_routes();
    assert_eq!(routes, vec![Route::new("ndi://b".to_string(), "Out".to_string())]);
}

#[test]
fn added_input_and_output_route_once() {
    let mut router = MatrixRouter::new();
    router.add_output("Out 1".to_string());
    router.add_output("Out 2".to_string());
    router.add_input(source("Cam", "ndi://cam"));
    assert!(router.route("ndi://cam", "Out 2").is_ok());
    let routes = router.get_all_routes();
    let pair = Route::new("ndi://cam".to_string(), "Out 2".to_string());
    assert_eq!(routes.iter().filter(|r| **r == pair).count(), 1);
    assert_eq!(routes.len(), 1);
}

#[test]
fn unroute_without_mapping_changes_nothing() {
    let mut router = MatrixRouter::new();
    router.add_input(source("Cam", "ndi://cam"));
    router.add_output("Out 1".to_string());
    router.add_output("Out 2".to_string());
    router.route("ndi://cam", "Out 1").unwrap();
    let before = router.get_all_routes();
    assert_eq!(router.unroute("Out 2"), None);
    assert_eq!(router.unroute("Nowhere"), None);
    assert_eq!(router.get_all_routes(), before);
}

#[test]
fn unroute_returns_removed_input() {
    let mut router = MatrixRouter::new();
    router.add_input(source("Cam", "ndi://cam"));
    router.add_output("Out".to_string());
    router.route("ndi://cam", "Out").unwrap();
    assert_eq!(router.unroute("Out"), Some("ndi://cam".to_string()));
    assert!(router.get_all_routes().is_empty());
}

#[test]
fn placeholder_resolves_when_input_is_added() {
    let mut router = MatrixRouter::new();
    router.add_output("Out".to_string());
    assert!(!router.input_exists("ndi://later"));
    assert!(router.route("ndi://later", "Out").is_err());
    assert_eq!(router.route_placeholder("ndi://later", "Out"), Ok(()));
    assert!(!router.input_exists("ndi://later"));
    let before = router.get_all_routes();
    router.add_input(source("Later", "ndi://later"));
    assert!(router.input_exists("ndi://later"));
    assert_eq!(router.get_all_routes(), before);
}

#[test]
fn placeholder_needs_known_output() {
    let mut router = MatrixRouter::new();
    assert_eq!(
        router.route_placeholder("ndi://x", "Out"),
        Err(RouteError::NotFound(EntityKind::Output, "Out".to_string()))
    );
    assert!(router.get_all_routes().is_empty());
}

#[test]
fn same_url_different_name_is_one_input() {
    let mut router = MatrixRouter::new();
    router.add_input(source("First", "ndi://same"));
    router.add_input(source("Second", "ndi://same"));
    assert_eq!(router.get_inputs().len(), 1);
    assert_eq!(router.get_inputs()[0].name, "First");
}

#[test]
fn outputs_are_unique() {
    let mut router = MatrixRouter::new();
    router.add_output("Out".to_string());
    router.add_output("Out".to_string());
    router.add_output("Other".to_string());
    assert_eq!(router.get_outputs(), &["Out".to_string(), "Other".to_string()]);
}

#[test]
fn load_routes_stops_at_first_failure() {
    let mut router = MatrixRouter::new();
    router.add_input(source("A", "ndi://a"));
    router.add_input(source("C", "ndi://c"));
    router.add_output("Out 1".to_string());
    router.add_output("Out 3".to_string());
    let result = router.load_routes(vec![
        Route::new("ndi://a".to_string(), "Out 1".to_string()),
        Route::new("ndi://a".to_string(), "Missing".to_string()),
        Route::new("ndi://c".to_string(), "Out 3".to_string()),
    ]);
    assert_eq!(
        result,
        Err(RouteError::NotFound(EntityKind::Output, "Missing".to_string()))
    );
    assert_eq!(router.get_route("Out 1"), Some(&"ndi://a".to_string()));
    assert_eq!(router.get_route("Out 3"), None);
}

#[test]
fn load_routes_applies_all_when_valid() {
    let mut router = MatrixRouter::new();
    router.add_input(source("A", "ndi://a"));
    router.add_output("Out 1".to_string());
    router.add_output("Out 2".to_string());
    let result = router.load_routes(vec![
        Route::new("ndi://a".to_string(), "Out 1".to_string()),
        Route::new("A".to_string(), "Out 2".to_string()),
    ]);
    assert_eq!(result, Ok(()));
    assert_eq!(router.get_all_routes().len(), 2);
    assert_eq!(router.get_route("Out 2"), Some(&"A".to_string()));
}

#[test]
fn clear_routes_empties_mapping() {
    let mut router = MatrixRouter::new();
    router.add_output("Out".to_string());
    router.route_placeholder("x", "Out").unwrap();
    router.clear_routes();
    assert!(router.get_all_routes().is_empty());
    assert_eq!(router.get_outputs().len(), 1);
}

#[test]
fn sync_inputs_keeps_stale_mapping() {
    let mut router = MatrixRouter::new();
    router.add_input(source("Cam", "ndi://cam"));
    router.add_output("Out".to_string());
    router.route("ndi://cam", "Out").unwrap();
    assert!(router.input_exists("ndi://cam"));
    router.sync_inputs(&vec![source("Other", "ndi://other"), source("Dup", "ndi://other")]);
    assert!(!router.input_exists("ndi://cam"));
    assert_eq!(router.get_route("Out"), Some(&"ndi://cam".to_string()));
    assert_eq!(router.get_inputs().len(), 1);
    assert_eq!(router.get_inputs()[0].name, "Other");
}

#[test]
fn default_router_is_empty() {
    let router = MatrixRouter::default();
    assert!(router.get_inputs().is_empty());
    assert!(router.get_outputs().is_empty());
    assert!(router.get_all_routes().is_empty());
}
