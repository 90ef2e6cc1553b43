//! Verified core of a deferred mesh-to-splat compute conversion: mesh capture,
//! workgroup sizing, upload packing, per-view parameter layout, pipeline
//! readiness, bind-group caching, per-frame job staging and dispatch planning;
//! the main-world side of it (descendant-mesh search, source-to-cloud links,
//! per-source decisions, splat clouds); and the dense voxel chunk with its edits.
//!
//! Nothing here touches the device: functions decide, and the caller creates
//! buffers and bind groups, hands back their handles, and issues the commands.

pub mod workgroups;
pub mod mesh_input;
pub mod upload;
pub mod params;
pub mod pipeline;
pub mod bindings;
pub mod jobs;
pub mod dispatch;
pub mod scene;
pub mod links;
pub mod source;
pub mod splat_cloud;
pub mod voxel;
pub mod voxel_edit;
