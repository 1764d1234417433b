use rustv::{EntityKind, Layout, MatrixViewerApp, NdiDiscovery, NdiSource, RouteError};

fn outputs() -> Vec<String> {
    vec!["Monitor 1".to_string(), "Monitor 2".to_string()]
}

#[test]
fn viewer_starts_with_one_empty_slot_per_output() {
    let app = MatrixViewerApp::new(&outputs(), Layout::Grid3x3);
    assert_eq!(app.layout(), Layout::Grid3x3);
    assert_eq!(app.view_slots().len(), 2);
    assert_eq!(app.view_slots()[1].output_name, "Monitor 2");
    assert_eq!(app.view_slots()[1].assigned_input, None);
    assert_eq!(app.router().get_outputs().len(), 2);
    assert!(app.available_sources().is_empty());
}

#[test]
fn create_route_to_discovered_source_is_resolved() {
    let mut app = MatrixViewerApp::new(&outputs(), Layout::Grid2x2);
    app.update_sources(vec![NdiSource::new("Cam".to_string(), "ndi://cam".to_string())]);
    assert_eq!(app.create_route("ndi://cam".to_string(), "Monitor 1".to_string()), Ok(()));
    assert!(app.router().input_exists("ndi://cam"));
    assert_eq!(app.view_slots()[0].assigned_input, Some("ndi://cam".to_string()));
}

#[test]
fn create_route_to_unknown_input_is_placeholder() {
    let mut app = MatrixViewerApp::new(&outputs(), Layout::Grid2x2);
    assert_eq!(app.create_route("Later".to_string(), "Monitor 2".to_string()), Ok(()));
    assert!(!app.router().input_exists("Later"));
    assert_eq!(app.router().get_route("Monitor 2"), Some(&"Later".to_string()));
    assert_eq!(app.view_slots()[1].assigned_input, Some("Later".to_string()));
}

#[test]
fn create_route_to_unknown_output_fails() {
    let mut app = MatrixViewerApp::new(&outputs(), Layout::Grid2x2);
    assert_eq!(
        app.create_route("Cam".to_string(), "Monitor 9".to_string()),
        Err(RouteError::NotFound(EntityKind::Output, "Monitor 9".to_string()))
    );
    assert!(app.view_slots().iter().all(|s| s.assigned_input.is_none()));
}

#[test]
fn remove_route_clears_slot() {
    let mut app = MatrixViewerApp::new(&outputs(), Layout::Grid2x2);
    app.create_route("Cam".to_string(), "Monitor 1".to_string()).unwrap();
    assert_eq!(app.remove_route("Monitor 1"), Some("Cam".to_string()));
    assert_eq!(app.view_slots()[0].assigned_input, None);
    assert!(app.router().get_all_routes().is_empty());
    assert_eq!(app.remove_route("Monitor 1"), None);
}

#[test]
fn removed_source_leaves_stale_route() {
    let mut registry = NdiDiscovery::new();
    registry.add_source(NdiSource::new("Cam".to_string(), "ndi://cam".to_string()));
    let mut app = MatrixViewerApp::new(&outputs(), Layout::Grid2x2);
    app.update_sources(registry.get_sources());
    app.create_route("ndi://cam".to_string(), "Monitor 1".to_string()).unwrap();
    assert!(app.router().input_exists("ndi://cam"));

    assert!(registry.remove_source("ndi://cam"));
    app.update_sources(registry.get_sources());
    assert_eq!(app.router().get_route("Monitor 1"), Some(&"ndi://cam".to_string()));
    assert!(!app.router().input_exists("ndi://cam"));
}

#[test]
fn set_layout_switches() {
    let mut app = MatrixViewerApp::new(&outputs(), Layout::Grid2x2);
    app.set_layout(Layout::OneAndNine);
    assert_eq!(app.layout(), Layout::OneAndNine);
}
