use rustv::{DiscoveryError, NdiDiscovery, NdiSource, PollStep, DEFAULT_POLL_INTERVAL_SECS};

#[test]
fn test_add_remove_source() {
    let mut discovery = NdiDiscovery::new();
    let source = NdiSource::new("Test Source".to_string(), "ndi://test".to_string());

    discovery.add_source(source.clone());
    assert_eq!(discovery.get_sources().len(), 1);

    assert!(discovery.remove_source(&source.url));
    assert_eq!(discovery.get_sources().len(), 0);
}

#[test]
fn discovery_start_stop() {
    let mut discovery = NdiDiscovery::new();
    assert!(!discovery.is_running());
    assert!(discovery.start());
    assert!(discovery.is_running());
    assert!(!discovery.start());
    discovery.stop();
    assert!(!discovery.is_running());
    assert_eq!(DEFAULT_POLL_INTERVAL_SECS, 5);
}

#[test]
fn add_source_ignores_known_url() {
    let mut discovery = NdiDiscovery::new();
    discovery.add_source(NdiSource::new("A".to_string(), "ndi://x".to_string()));
    discovery.add_source(NdiSource::new("B".to_string(), "ndi://x".to_string()));
    let sources = discovery.get_sources();
    assert_eq!(sources.len(), 1);
    assert_eq!(sources[0].name, "A");
}

#[test]
fn remove_unknown_source_is_false() {
    let mut discovery = NdiDiscovery::new();
    discovery.add_source(NdiSource::new("A".to_string(), "ndi://a".to_string()));
    assert!(!discovery.remove_source("ndi://b"));
    assert_eq!(discovery.get_sources().len(), 1);
}

#[test]
fn tick_replaces_list_wholesale() {
    let mut discovery = NdiDiscovery::new();
    discovery.add_source(NdiSource::new("Manual".to_string(), "ndi://m".to_string()));
    discovery.start();
    let found = vec![
        NdiSource::new("A".to_string(), "ndi://a".to_string()),
        NdiSource::new("B".to_string(), "ndi://b".to_string()),
    ];
    assert_eq!(discovery.poll_tick(Ok(found.clone())), PollStep::Replaced);
    assert_eq!(discovery.get_sources(), found);
    assert_eq!(discovery.poll_tick(Ok(vec![])), PollStep::Replaced);
    assert!(discovery.get_sources().is_empty());
}

#[test]
fn failed_tick_keeps_list() {
    let mut discovery = NdiDiscovery::new();
    discovery.start();
    let found = vec![NdiSource::new("A".to_string(), "ndi://a".to_string())];
    discovery.poll_tick(Ok(found.clone()));
    let err = DiscoveryError::Failed("network down".to_string());
    assert_eq!(discovery.poll_tick(Err(err.clone())), PollStep::Kept(err));
    assert_eq!(discovery.get_sources(), found);
    assert!(discovery.is_running());
}

#[test]
fn stopped_registry_ignores_ticks() {
    let mut discovery = NdiDiscovery::new();
    discovery.start();
    let found = vec![NdiSource::new("A".to_string(), "ndi://a".to_string())];
    discovery.poll_tick(Ok(found.clone()));
    discovery.stop();
    let first = discovery.get_sources();
    let other = vec![NdiSource::new("B".to_string(), "ndi://b".to_string())];
    assert_eq!(discovery.poll_tick(Ok(other)), PollStep::Stopped);
    assert_eq!(discovery.poll_tick(Err(DiscoveryError::Failed("x".to_string()))), PollStep::Stopped);
    assert_eq!(discovery.get_sources(), first);
    assert_eq!(discovery.get_sources(), found);
}

#[test]
fn source_with_groups() {
    let s = NdiSource::new("A".to_string(), "ndi://a".to_string())
        .with_groups(vec!["public".to_string(), "studio".to_string()]);
    assert_eq!(s.groups, vec!["public".to_string(), "studio".to_string()]);
    assert_eq!(s.duplicate(), s);
    assert!(s.matches(&"A".to_string()));
    assert!(s.matches(&"ndi://a".to_string()));
    assert!(!s.matches(&"B".to_string()));
}

#[test]
fn source_display_text() {
    let s = NdiSource::new("Cam 1".to_string(), "ndi://cam1".to_string());
    assert_eq!(s.to_string(), "NDI Source: Cam 1 (ndi://cam1)");
}

#[test]
fn default_registry_is_empty_and_idle() {
    let discovery = NdiDiscovery::default();
    assert!(discovery.get_sources().is_empty());
    assert!(!discovery.is_running());
}
