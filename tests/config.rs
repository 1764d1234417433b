use rustv::{
    default_companion_host, default_companion_port, BirdDogConfig, CompanionConfig, MatrixConfig,
    NdiConfig,
};

#[test]
fn default_sections() {
    let ndi = NdiConfig::default();
    assert!(ndi.auto_discovery);
    assert_eq!(ndi.discovery_interval, 5);
    let matrix = MatrixConfig::default();
    assert_eq!(matrix.outputs.len(), 4);
    assert_eq!(matrix.outputs[3], "Monitor 4");
    assert!(matrix.routes.is_empty());
    assert!(BirdDogConfig::default().cameras.is_empty());
    let companion = CompanionConfig::default();
    assert!(!companion.enabled);
    assert_eq!(companion.host, "localhost");
    assert_eq!(companion.port, 8888);
    assert_eq!(default_companion_host(), "localhost");
    assert_eq!(default_companion_port(), 8888);
}
