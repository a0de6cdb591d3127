//! Host core for sandboxed search plugins: the value model and document
//! bridge, the persistence port, capability grants and the plugin registry.

pub mod keyed;
pub mod value;
pub mod document;
pub mod persistence;
pub mod memory;
pub mod host_api;
pub mod capability;
pub mod plugin;
pub mod lifecycle;
pub mod registry;
pub mod desktop;

pub use capability::{CustomPluginConfig, FsAccess, PluginConfig, PluginHostConfig, Preopen,
    SandboxFilesystem};
pub use desktop::{DesktopConfig, DisplayedPlugin, RunPluginIndex, TrayAction};
pub use document::{BridgeError, Document, Field, PersistedDocument};
pub use host_api::HostApiError;
pub use lifecycle::{InvalidTransition, SandboxEvent, SandboxState};
pub use memory::MemoryPersistence;
pub use persistence::{Index, MichelPersistence, PersistenceError};
pub use plugin::{InfoCache, InfoStep, Plugin, PluginInfo};
pub use registry::{MichelConfig, MichelInstance, RefreshFailure};
pub use value::{ConversionError, HostValue, Value};
