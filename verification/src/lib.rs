//! Content resolution and metadata consistency engine for published scene
//! bundles.
//!
//! Packages fetched from a registry carry scene declarations inside their
//! manifests.  The library materializes a package's unpacked file tree into a
//! blob store, resolves scene include trees (across package boundaries via the
//! lockfile), persists package and scene documents, and keeps the per-package
//! "latest" flag consistent.
//!
//! Parsing of manifest and lockfile bytes into their structured forms is a
//! collaborator boundary: the engine consumes the structured values and hands
//! back plain data.

pub mod api;
pub mod crate_doc;
pub mod crate_id;
pub mod doc_id;
pub mod doc_values;
pub mod error;
pub mod filter;
pub mod include_tree;
pub mod latest;
pub mod manifest;
pub mod memory_collection;
pub mod memory_db;
pub mod registry;
pub mod replication;
pub mod scene_app;
pub mod scene_doc;
pub mod scene_id;
pub mod services;
pub mod storage;
pub mod text;
pub mod uptime;
pub mod value;
pub mod version;

pub use crate_id::CrateId;
pub use doc_id::DocId;
pub use error::ApiError;
pub use scene_id::SceneId;
pub use version::Version;
