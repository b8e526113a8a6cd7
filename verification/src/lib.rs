//! Verified core of a manager for `wslc` containers, images, volumes and
//! networks: the command lines it runs, how it reads their output, and the
//! decisions behind its HTTP and websocket endpoints.
pub mod api;
pub mod client;
pub mod inspect;
pub mod json;
pub mod laws;
pub mod listing;
pub mod model;
pub mod table;
pub mod text;
pub mod ws;

pub use api::{
    AppState, BatchReport, BatchRequest, CloneAction, CloneJob, ComposeRequest, ComposeService,
    LogQuery, RunContainerRequest,
};
pub use client::{CommandOutcome, WslcClient, WslcCommand};
pub use json::JsonValue;
pub use model::{
    ContainerDetail, ContainerInfo, ImageInfo, MountInfo, NetworkInfo, PortMapping, SystemInfo,
    VolumeInfo,
};
