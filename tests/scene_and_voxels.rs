use gen_gaussian::links::LinkTable;
use gen_gaussian::mesh_input::IndexBuffer;
use gen_gaussian::params::align_up;
use gen_gaussian::params::max_gaussian_count;
use gen_gaussian::params::view_params_offset;
use gen_gaussian::params::PARAMS_SIZE;
use gen_gaussian::params::UNIFORM_ALIGN;
use gen_gaussian::pipeline::pipeline_layouts;
use gen_gaussian::pipeline::BindingKind;
use gen_gaussian::pipeline::PipelineEvent;
use gen_gaussian::pipeline::TriToSplatPipeline;
use gen_gaussian::pipeline::PipelineState;
use gen_gaussian::scene::SceneGraph;
use gen_gaussian::source::plan_source;
use gen_gaussian::source::MeshToGaussian;
use gen_gaussian::source::MeshObservation;
use gen_gaussian::source::SourceAction;
use gen_gaussian::source::SourceStatus;
use gen_gaussian::voxel::Voxel;
use gen_gaussian::voxel_edit::apply_edits;
use gen_gaussian::voxel_edit::queue_set;
use gen_gaussian::voxel_edit::EditBatch;
use gen_gaussian::voxel_edit::EditOp;
use gen_gaussian::voxel_edit::VoxelWorld;
use gen_gaussian::voxel_edit::EDIT_MATERIAL;
use gen_gaussian::voxel::VoxelChunkSimple;
use gen_gaussian::voxel::VoxelData;

fn fresh() -> SourceStatus {
    SourceStatus { converted: false, cloud: None, cloud_len: 0, mesh_changed: false }
}

fn loaded(n: u32, ix: Vec<u32>) -> MeshObservation {
    MeshObservation::Loaded { vertex_count: n, indices: Some(IndexBuffer::U32(ix)) }
}

#[test]
fn descendant_mesh_found_below_root() {
    let mut g = SceneGraph::new();
    let root = g.add_node(None, true);
    let a = g.add_node(None, true);
    let b = g.add_node(Some(11), false);
    let c = g.add_node(Some(12), true);
    let other = g.add_node(Some(13), true);
    g.add_child(root, a);
    g.add_child(a, b);
    g.add_child(b, c);
    assert_eq!(g.find_descendant_mesh(root), Some(c));
    assert_eq!(g.find_descendant_mesh(other), Some(other));
    assert_eq!(g.find_descendant_mesh(a), Some(c));
    let lone = g.add_node(None, true);
    assert_eq!(g.find_descendant_mesh(lone), None);
}

#[test]
fn descendant_search_survives_cycles() {
    let mut g = SceneGraph::new();
    let a = g.add_node(None, true);
    let b = g.add_node(None, true);
    g.add_child(a, b);
    g.add_child(b, a);
    g.add_child(b, b);
    assert_eq!(g.find_descendant_mesh(a), None);
}

#[test]
fn links_are_one_to_one() {
    let mut links = LinkTable::new();
    for _ in 0..4 {
        links.register();
    }
    assert!(links.link(0, 2));
    assert_eq!(links.cloud_of(0), Some(2));
    assert_eq!(links.source_of(2), Some(0));
    assert!(!links.link(0, 3));
    assert!(!links.link(1, 2));
    assert!(!links.link(1, 1));
    assert_eq!(links.cloud_of(1), None);
    assert!(links.link(1, 3));
    assert_eq!(links.source_of(3), Some(1));
}

#[test]
fn source_spawns_once() {
    let config = MeshToGaussian::default();
    match plan_source(config, fresh(), &loaded(4, vec![0, 1, 2, 2, 1, 3])) {
        SourceAction::Spawn { input, hide_source, mark_converted } => {
            assert_eq!(input.tri_count(), 2);
            assert!(hide_source);
            assert!(mark_converted);
        }
        _ => panic!("expected a spawn"),
    }
    let done = SourceStatus { converted: true, cloud: Some(7), cloud_len: 1, mesh_changed: true };
    assert!(matches!(plan_source(config, done, &loaded(3, vec![0, 1, 2])), SourceAction::Wait));
}

#[test]
fn source_waits_for_mesh() {
    let config = MeshToGaussian::default();
    assert!(matches!(plan_source(config, fresh(), &MeshObservation::NoMesh), SourceAction::Wait));
    assert!(matches!(plan_source(config, fresh(), &MeshObservation::NotLoaded), SourceAction::Wait));
}

#[test]
fn malformed_source_skipped() {
    let once = MeshToGaussian::default();
    let live = MeshToGaussian { realtime: true, ..once };
    assert!(matches!(
        plan_source(once, fresh(), &MeshObservation::NoPositions),
        SourceAction::Skip { mark_converted: true }
    ));
    assert!(matches!(
        plan_source(live, fresh(), &MeshObservation::NoPositions),
        SourceAction::Skip { mark_converted: false }
    ));
    assert!(matches!(plan_source(once, fresh(), &loaded(2, vec![0, 1])), SourceAction::Skip { mark_converted: true }));
    assert!(matches!(plan_source(live, fresh(), &loaded(2, vec![0, 1, 2])), SourceAction::Skip { mark_converted: false }));
}

#[test]
fn realtime_source_refreshes_its_cloud() {
    let live = MeshToGaussian { realtime: true, ..MeshToGaussian::default() };
    let linked = SourceStatus { converted: false, cloud: Some(5), cloud_len: 1, mesh_changed: true };
    match plan_source(live, linked, &loaded(3, vec![0, 1, 2])) {
        SourceAction::Refresh { cloud, input, resize } => {
            assert_eq!(cloud, 5);
            assert_eq!(input.tri_count(), 1);
            assert!(!resize);
        }
        _ => panic!("expected a refresh"),
    }
    match plan_source(live, linked, &loaded(6, vec![0, 1, 2, 3, 4, 5])) {
        SourceAction::Refresh { input, resize, .. } => {
            assert_eq!(input.tri_count(), 2);
            assert!(resize);
        }
        _ => panic!("expected a refresh"),
    }
    let unchanged = SourceStatus { mesh_changed: false, ..linked };
    assert!(matches!(plan_source(live, unchanged, &loaded(3, vec![0, 1, 2])), SourceAction::Wait));
}

#[test]
fn pipeline_submits_once() {
    let mut m = TriToSplatPipeline::new();
    assert!(m.needs_submit());
    m.observe(PipelineEvent::Compiled);
    assert_eq!(m.state(), PipelineState::Uncompiled);
    m.observe(PipelineEvent::Queued(3));
    m.observe(PipelineEvent::Queued(4));
    assert!(!m.needs_submit());
    m.observe(PipelineEvent::Compiled);
    assert_eq!(m.state(), PipelineState::Ready);
    assert_eq!(m.get_pipeline(), Some(3));
}

#[test]
fn pipeline_layout_groups() {
    let layouts = pipeline_layouts();
    assert_eq!(layouts.len(), 3);
    assert_eq!(layouts[0].len(), 4);
    assert_eq!(layouts[0][3].kind, BindingKind::Uniform);
    assert!(layouts[0][..3].iter().all(|e| e.kind == BindingKind::ReadOnlyStorage));
    assert_eq!(layouts[1].len(), 1);
    assert_eq!(layouts[1][0].kind, BindingKind::DynamicUniform);
    assert_eq!(layouts[1][0].min_size, PARAMS_SIZE);
    assert!(layouts[2].iter().enumerate().all(|(i, e)| e.binding == i as u32 && e.kind == BindingKind::ReadWriteStorage));
}

#[test]
fn params_record_alignment() {
    assert_eq!(PARAMS_SIZE % UNIFORM_ALIGN, 0);
    assert_eq!(align_up(32, 16), Some(32));
    assert_eq!(align_up(33, 16), Some(48));
    assert_eq!(align_up(0, 256), Some(0));
    assert_eq!(align_up(u64::MAX, 2), None);
    assert_eq!(view_params_offset(0, 256), Some(0));
    assert_eq!(view_params_offset(3, 256), Some(768));
    assert_eq!(view_params_offset(3, 16), Some(96));
    assert_eq!(view_params_offset(u32::MAX, 256), None);
}

#[test]
fn gaussian_count_bound() {
    assert_eq!(max_gaussian_count(&[]), None);
    assert_eq!(max_gaussian_count(&[0, 0]), None);
    assert_eq!(max_gaussian_count(&[3, 9, 4]), Some(9));
}

#[test]
fn voxel_chunk_set_get_clear() {
    let mut chunk = VoxelChunkSimple::new();
    assert_eq!(chunk.count(), 0);
    let p = Voxel { x: 1, y: 2, z: 3 };
    chunk.set(p, 7);
    assert_eq!(chunk.get(p), Some(VoxelData::with_material(7)));
    assert!(chunk.is_set(p));
    chunk.set_with_normal(Voxel { x: 31, y: 31, z: 31 }, 2, 9);
    assert_eq!(chunk.get(Voxel { x: 31, y: 31, z: 31 }), Some(VoxelData::new(2, 9)));
    chunk.set(Voxel { x: 32, y: 0, z: 0 }, 1);
    chunk.set(Voxel { x: -1, y: 0, z: 0 }, 1);
    assert_eq!(chunk.get(Voxel { x: 32, y: 0, z: 0 }), None);
    assert_eq!(chunk.count(), 2);
    assert_eq!(chunk.positions(), vec![p, Voxel { x: 31, y: 31, z: 31 }]);
    assert_eq!(chunk.iter()[0], (p, VoxelData { material: 7, normal_index: 0 }));
    chunk.clear(p);
    assert!(!chunk.is_set(p));
    assert_eq!(chunk.count(), 1);
    let d = VoxelChunkSimple::default();
    assert_eq!(d.count(), 0);
}

#[test]
fn voxel_edits_apply_in_order() {
    let mut world = VoxelWorld::new();
    let mut batch = EditBatch::new();
    assert_eq!(apply_edits(&mut world, &mut batch), 0);
    assert!(!world.dirty);
    let p = Voxel { x: 0, y: 0, z: 0 };
    let q = Voxel { x: 5, y: 6, z: 7 };
    queue_set(&mut batch, p);
    queue_set(&mut batch, q);
    batch.ops.push(EditOp::ClearVoxel(p));
    batch.ops.push(EditOp::SetVoxel(Voxel { x: 40, y: 0, z: 0 }));
    assert_eq!(apply_edits(&mut world, &mut batch), 4);
    assert!(world.dirty);
    assert!(batch.ops.is_empty());
    assert_eq!(world.chunk.get(p), None);
    assert_eq!(world.chunk.get(q), Some(VoxelData { material: EDIT_MATERIAL, normal_index: 0 }));
    assert_eq!(world.chunk.count(), 1);
}
