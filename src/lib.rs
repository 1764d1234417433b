//! Routing of discovered video inputs to a fixed set of named outputs.
//!
//! The library holds the verified core: the source record, the routing
//! table with its placeholder and resolved routes, the source registry fed
//! by a polling discovery loop, and the viewer state that reconciles them.
pub mod camera;
pub mod companion;
pub mod config;
pub mod discovery;
pub mod layout;
pub mod receiver;
pub mod router;
pub mod source;
pub mod viewer;

pub use camera::CameraInfo;
pub use companion::{CompanionAction, CompanionFeedback, CompanionRoute};
pub use config::{
    default_companion_host, default_companion_port, BirdDogConfig, CameraConfig, CompanionConfig,
    MatrixConfig, NdiConfig, StaticSource,
};
pub use discovery::{DiscoveryError, NdiDiscovery, PollStep, DEFAULT_POLL_INTERVAL_SECS};
pub use layout::Layout;
pub use receiver::{NdiReceiver, ReceiverError};
pub use router::{EntityKind, MatrixRouter, Route, RouteError};
pub use source::NdiSource;
pub use viewer::{MatrixViewerApp, ViewSlot};
