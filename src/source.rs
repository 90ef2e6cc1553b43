use vstd::prelude::*;
use crate::mesh_input::IndexBuffer;
use crate::mesh_input::TriToSplatCpuInput;
use crate::mesh_input::capture_spec;

verus! {

/// How a mesh is turned into splats.
#[derive(Clone, Copy, Debug, PartialEq, Eq)]
pub enum MeshToGaussianMode {
    /// One splat for each triangle of the mesh.
    TrianglesOneToOne,
}

/// The conversion intent carried by a source entity (its surfel thickness, a
/// real number, stays with the caller).
#[derive(Clone, Copy, Debug, PartialEq, Eq)]
pub struct MeshToGaussian {
    pub mode: MeshToGaussianMode,
    pub hide_source_mesh: bool,
    pub realtime: bool,
}

impl Default for MeshToGaussian {
    /// One splat per triangle, source hidden, converted once.
    fn default() -> (r: MeshToGaussian)
        ensures
            r == (MeshToGaussian {
                mode: MeshToGaussianMode::TrianglesOneToOne,
                hide_source_mesh: true,
                realtime: false,
            }),
    {
        MeshToGaussian {
            mode: MeshToGaussianMode::TrianglesOneToOne,
            hide_source_mesh: true,
            realtime: false,
        }
    }
}

/// What the main world sees of a source's mesh this frame.
pub enum MeshObservation {
    /// No node at or below the source carries a mesh with a known transform.
    NoMesh,
    /// The mesh asset is not loaded yet.
    NotLoaded,
    /// The mesh is loaded but has no three-component position attribute.
    NoPositions,
    /// The mesh is loaded: its vertex count and index buffer, if any.
    Loaded { vertex_count: u32, indices: Option<IndexBuffer> },
}

/// What to do with a source this frame.
pub enum SourceAction {
    /// Nothing now; look again next frame.
    Wait,
    /// The mesh cannot be converted; when `mark_converted`, never look again.
    Skip { mark_converted: bool },
    /// Spawn a cloud of `input.tri_count()` splats, link it to the source, hide
    /// the source mesh when asked, and mark the source converted when asked.
    Spawn { input: TriToSplatCpuInput, hide_source: bool, mark_converted: bool },
    /// Replace the captured input of the cloud the source already owns; when
    /// `resize`, the triangle count changed and the cloud is remade with
    /// `input.tri_count()` splats, its storage bound anew.
    Refresh { cloud: usize, input: TriToSplatCpuInput, resize: bool },
}

/// The state of a source when it is looked at.
#[derive(Clone, Copy, Debug, PartialEq, Eq)]
pub struct SourceStatus {
    /// It was marked converted and is not processed again.
    pub converted: bool,
    /// The cloud it owns, if any.
    pub cloud: Option<usize>,
    /// How many splats that cloud has.
    pub cloud_len: u32,
    /// Its mesh changed since the last look.
    pub mesh_changed: bool,
}

/// Whether a source is looked at this frame: not marked converted, and either
/// without a cloud or, in realtime mode, with a mesh that changed.
pub open spec fn source_due(config: MeshToGaussian, status: SourceStatus) -> bool {
    !status.converted && (status.cloud is None || (config.realtime && status.mesh_changed))
}

/// The action `plan_source` takes, up to the captured input it carries.
pub open spec fn action_matches(
    r: SourceAction,
    config: MeshToGaussian,
    status: SourceStatus,
    obs: MeshObservation,
) -> bool {
    if !source_due(config, status) {
        r is Wait
    } else {
        match obs {
            MeshObservation::NoMesh => r is Wait,
            MeshObservation::NotLoaded => r is Wait,
            MeshObservation::NoPositions => r == SourceAction::Skip { mark_converted: !config.realtime },
            MeshObservation::Loaded { vertex_count, indices } => match capture_spec(indices, vertex_count as nat) {
                Err(_) => r == SourceAction::Skip { mark_converted: !config.realtime },
                Ok((kept, t)) => match r {
                    SourceAction::Spawn { input, hide_source, mark_converted } => {
                        &&& status.cloud is None
                        &&& input.wf()
                        &&& input.vertex_count_spec() == vertex_count
                        &&& input.indices_spec() == kept
                        &&& input.tri_count_spec() == t
                        &&& hide_source == config.hide_source_mesh
                        &&& mark_converted == !config.realtime
                    },
                    SourceAction::Refresh { cloud, input, resize } => {
                        &&& status.cloud == Some(cloud)
                        &&& resize == (t != status.cloud_len as nat)
                        &&& input.wf()
                        &&& input.vertex_count_spec() == vertex_count
                        &&& input.indices_spec() == kept
                        &&& input.tri_count_spec() == t
                    },
                    _ => false,
                },
            },
        }
    }
}

/// Decides what happens to one source this frame. Sources that are not due wait;
/// an absent or unloaded mesh is waited for; a mesh without positions or without a
/// convertible triangle is skipped, for good unless the source is realtime; a good
/// mesh is captured and either spawns the source's cloud or, for a realtime source
/// that owns one, refreshes it, resizing the cloud when the triangle count changed,
/// so that the cloud always has one splat per triangle.
pub fn plan_source(config: MeshToGaussian, status: SourceStatus, obs: &MeshObservation) -> (r: SourceAction)
    ensures
        action_matches(r, config, status, *obs),
{
    if status.converted {
        return SourceAction::Wait;
    }
    let cloud = status.cloud;
    if cloud.is_some() && !(config.realtime && status.mesh_changed) {
        return SourceAction::Wait;
    }
    match obs {
        MeshObservation::NoMesh => SourceAction::Wait,
        MeshObservation::NotLoaded => SourceAction::Wait,
        MeshObservation::NoPositions => SourceAction::Skip { mark_converted: !config.realtime },
        MeshObservation::Loaded { vertex_count, indices } => {
            match TriToSplatCpuInput::capture(*vertex_count, indices.as_ref()) {
                Err(_) => SourceAction::Skip { mark_converted: !config.realtime },
                Ok(input) => match cloud {
                    Some(c) => {
                        let resize = input.tri_count() != status.cloud_len;
                        SourceAction::Refresh { cloud: c, input, resize }
                    },
                    None => SourceAction::Spawn {
                        input,
                        hide_source: config.hide_source_mesh,
                        mark_converted: !config.realtime,
                    },
                },
            }
        },
    }
}

} // verus!
