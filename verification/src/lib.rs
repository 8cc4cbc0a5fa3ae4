//! A stateless core loop: a state blob, the services that transform it, and
//! the lifecycle that hibernates and restores it.
pub mod text;
pub mod first;
pub mod calendar;
pub mod json;
pub mod digest;
pub mod state_blob;
pub mod lifecycle;
pub mod progressive;
pub mod renderer;
pub mod service_bus;
pub mod bus;
pub mod mesh;

pub use bus::{BusError, CapabilityToken, Endpoint, ServiceBus, StreamChunk};
pub use json::{Json, JsonNumber};
pub use lifecycle::{check_transition, State};
pub use mesh::{MeshPeer, MockMesh, OpType, Operation};
pub use progressive::{restore, restore_at, RestoreError, RestoreOrchestrator, RestoreStage};
pub use renderer::{HtmlRenderer, TextRenderer};
pub use service_bus::{Service, ServiceError, ServiceManifest, ServiceRegistry};
pub use state_blob::{Blob, BlobError, BlobSeal, BLOB_VERSION};
