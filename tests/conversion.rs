use gen_gaussian::bindings::queue_planar_cloud_rw_bind_group;
use gen_gaussian::bindings::tri_to_splat_upload_candidates;
use gen_gaussian::bindings::BindGroupCache;
use gen_gaussian::bindings::PlanarStorageBindGroupRw;
use gen_gaussian::bindings::TriToSplatGpu;
use gen_gaussian::bindings::InputsStep;
use gen_gaussian::bindings::StorageStep;
use gen_gaussian::dispatch::TriToSplatNode;
use gen_gaussian::dispatch::DispatchPlan;
use gen_gaussian::jobs::prepare_jobs;
use gen_gaussian::jobs::queue_tri_to_splat_inputs;
use gen_gaussian::jobs::requeue_existing_tri_to_splat_jobs;
use gen_gaussian::jobs::TriToSplatJobQueue;
use gen_gaussian::mesh_input::resolve_indices;
use gen_gaussian::mesh_input::triangles_from;
use gen_gaussian::mesh_input::CaptureError;
use gen_gaussian::mesh_input::IndexBuffer;
use gen_gaussian::mesh_input::TriToSplatCpuInput;
use gen_gaussian::mesh_input::Triangle;
use gen_gaussian::pipeline::PipelineEvent;
use gen_gaussian::pipeline::TriToSplatPipeline;
use gen_gaussian::pipeline::PipelineState;
use gen_gaussian::splat_cloud::SplatCloud;
use gen_gaussian::upload::counts_words;
use gen_gaussian::upload::plan_upload;
use gen_gaussian::upload::le_bytes_of;
use gen_gaussian::upload::UploadPlan;
use gen_gaussian::workgroups::workgroup_count;
use gen_gaussian::workgroups::KERNEL_GROUP_SIZE;

fn one_triangle() -> TriToSplatCpuInput {
    TriToSplatCpuInput::capture(3, None).unwrap()
}

fn mesh_of(tris: u32) -> TriToSplatCpuInput {
    TriToSplatCpuInput::capture(3 * tris, None).unwrap()
}

/// Hands out handles 1000, 1001, ... and checks each plan it is given.
fn device() -> impl Fn(usize, UploadPlan) -> u64 {
    let next = std::cell::Cell::new(1000u64);
    move |_e: usize, plan: UploadPlan| {
        assert_eq!(plan.counts_bytes.len(), 16);
        let h = next.get();
        next.set(h + 1);
        h
    }
}

fn ready_cache(n: usize) -> BindGroupCache {
    let mut cache = BindGroupCache::new();
    for e in 0..n {
        let id = cache.register_entity();
        assert_eq!(id, e);
        assert!(cache.ensure_storage_binding(e, PlanarStorageBindGroupRw { bind_group: 100 + e as u64 }));
        assert!(cache.record_inputs_binding(e, 200 + e as u64, &one_triangle()));
    }
    cache
}

#[test]
fn storage_binding_is_idempotent() {
    let mut cache = BindGroupCache::new();
    let e = cache.register_entity();
    assert_eq!(cache.storage_step(e, false), StorageStep::NotReady);
    assert_eq!(cache.storage_step(e, true), StorageStep::Create);
    assert!(cache.ensure_storage_binding(e, PlanarStorageBindGroupRw { bind_group: 7 }));
    let after_first = cache.slot(e);
    assert_eq!(cache.storage_step(e, true), StorageStep::AlreadyBound);
    assert!(!cache.ensure_storage_binding(e, PlanarStorageBindGroupRw { bind_group: 8 }));
    assert_eq!(cache.slot(e), after_first);
    assert_eq!(cache.slot(e).storage, Some(PlanarStorageBindGroupRw { bind_group: 7 }));
}

#[test]
fn inputs_upload_once() {
    let mut cache = BindGroupCache::new();
    let e = cache.register_entity();
    assert_eq!(cache.inputs_step(e, true), InputsStep::Wait);
    cache.ensure_storage_binding(e, PlanarStorageBindGroupRw { bind_group: 1 });
    assert_eq!(cache.inputs_step(e, false), InputsStep::Wait);
    assert_eq!(cache.inputs_step(e, true), InputsStep::Upload);
    assert!(cache.record_inputs_binding(e, 9, &mesh_of(130)));
    assert_eq!(cache.inputs_step(e, true), InputsStep::AlreadyUploaded);
    assert!(!cache.record_inputs_binding(e, 10, &mesh_of(1)));
    assert_eq!(cache.slot(e).inputs, Some(TriToSplatGpu { bind_group_inputs: 9, workgroups: 3, tri_count: 130 }));
}

#[test]
fn cloud_components_stay_aligned() {
    let mut cloud: SplatCloud<[f32; 4], [f32; 3], [f32; 4], [f32; 4]> =
        SplatCloud::template(5, [0.0; 4], [0.0; 3], [0.0, 0.0, 0.0, 1.0], [0.0; 4]);
    assert_eq!(cloud.len(), 5);
    cloud.set_position(2, [1.0, 2.0, 3.0, 1.0]);
    assert_eq!(cloud.len(), 5);
    assert_eq!(cloud.position(2), [1.0, 2.0, 3.0, 1.0]);
    assert_eq!(cloud.rotation(4), [0.0, 0.0, 0.0, 1.0]);
    let empty: SplatCloud<u8, u8, u8, u8> = SplatCloud::template(0, 0, 0, 0, 0);
    assert_eq!(empty.len(), 0);
}

#[test]
fn splat_count_is_triangle_count() {
    let ib = IndexBuffer::U32(vec![0, 1, 2, 2, 1, 3, 3, 1, 0, 4]);
    let input = TriToSplatCpuInput::capture(5, Some(&ib)).unwrap();
    assert_eq!(input.tri_count(), 3);
    assert_eq!(input.indices().len(), 9);
    let cloud: SplatCloud<u32, u32, u32, u32> = SplatCloud::for_mesh(&input, 0, 0, 0, 0);
    assert_eq!(cloud.len(), 3);
    assert_eq!(input.splat_triangles().len(), 3);
}

#[test]
fn workgroup_sizing() {
    assert_eq!(KERNEL_GROUP_SIZE, 64);
    assert_eq!(workgroup_count(0), 0);
    assert_eq!(workgroup_count(1), 1);
    assert_eq!(workgroup_count(64), 1);
    assert_eq!(workgroup_count(65), 2);
    assert_eq!(workgroup_count(128), 2);
    assert_eq!(workgroup_count(129), 3);
    assert_eq!(workgroup_count(u32::MAX), 67108864);
}

#[test]
fn empty_mesh_gets_no_job() {
    assert_eq!(TriToSplatCpuInput::capture(0, None).err(), Some(CaptureError::NoTriangles));
    let ib = IndexBuffer::U16(vec![0, 1]);
    assert_eq!(TriToSplatCpuInput::capture(2, Some(&ib)).err(), Some(CaptureError::NoTriangles));
}

#[test]
fn capture_refuses_out_of_range_index() {
    let ib = IndexBuffer::U32(vec![0, 1, 5]);
    assert_eq!(TriToSplatCpuInput::capture(3, Some(&ib)).err(), Some(CaptureError::IndexOutOfRange));
}

#[test]
fn capture_drops_partial_triangle() {
    let ib = IndexBuffer::U16(vec![0, 1, 2, 1]);
    let input = TriToSplatCpuInput::capture(3, Some(&ib)).unwrap();
    assert_eq!(input.indices(), &[0, 1, 2]);
    assert_eq!(input.tri_count(), 1);
    assert_eq!(input.vertex_count(), 3);
}

#[test]
fn indices_synthesised_without_buffer() {
    assert_eq!(resolve_indices(None, 4), vec![0, 1, 2, 3]);
    let ib = IndexBuffer::U16(vec![3, 65535]);
    assert_eq!(resolve_indices(Some(&ib), 1), vec![3, 65535]);
    let input = TriToSplatCpuInput::capture(6, None).unwrap();
    assert_eq!(input.tri_count(), 2);
    assert_eq!(input.indices(), &[0, 1, 2, 3, 4, 5]);
}

#[test]
fn queue_lifecycle() {
    let mut cache = ready_cache(4);
    let mut queue = TriToSplatJobQueue::new();
    prepare_jobs(&mut queue, &mut cache, &[], device());
    assert_eq!(queue.len(), 4);
    let mut seen: Vec<usize> = (0..queue.len()).map(|i| queue.job(i).entity).collect();
    seen.sort();
    assert_eq!(seen, vec![0, 1, 2, 3]);
    queue.clear();
    assert_eq!(queue.len(), 0);
    prepare_jobs(&mut queue, &mut cache, &[], device());
    assert_eq!(queue.len(), 4);
    for e in 4..6 {
        cache.register_entity();
        cache.ensure_storage_binding(e, PlanarStorageBindGroupRw { bind_group: 100 + e as u64 });
    }
    let captures = vec![None, None, None, None, Some(mesh_of(3)), Some(mesh_of(200))];
    assert_eq!(prepare_jobs(&mut queue, &mut cache, &captures, device()), vec![4, 5]);
    assert_eq!(queue.len(), 6);
    let mut seen: Vec<usize> = (0..queue.len()).map(|i| queue.job(i).entity).collect();
    seen.sort();
    assert_eq!(seen, vec![0, 1, 2, 3, 4, 5]);
    assert!(prepare_jobs(&mut queue, &mut cache, &captures, device()).is_empty());
    assert_eq!(queue.len(), 6);
}

#[test]
fn queue_skips_entities_not_ready() {
    let mut cache = ready_cache(2);
    let half = cache.register_entity();
    cache.ensure_storage_binding(half, PlanarStorageBindGroupRw { bind_group: 5 });
    let mut queue = TriToSplatJobQueue::new();
    assert!(!queue.enqueue(&cache, half));
    assert!(queue.enqueue(&cache, 1));
    assert!(!queue.enqueue(&cache, 1));
    requeue_existing_tri_to_splat_jobs(&mut queue, &cache);
    assert_eq!(queue.len(), 2);
    let job = queue.job(0);
    assert_eq!(job.entity, 1);
    assert_eq!(job.storage_binding, 101);
    assert_eq!(job.inputs_binding, 201);
    assert_eq!(job.workgroup_count, 1);
}

#[test]
fn dispatch_waits_for_pipeline() {
    let mut cache = ready_cache(3);
    let mut queue = TriToSplatJobQueue::new();
    prepare_jobs(&mut queue, &mut cache, &[], device());
    let mut manager = TriToSplatPipeline::new();
    assert!(matches!(TriToSplatNode.run(&manager, Some(0), &queue), DispatchPlan::Idle));
    manager.observe(PipelineEvent::Queued(42));
    assert_eq!(manager.state(), PipelineState::Compiling);
    assert_eq!(manager.get_pipeline(), None);
    assert!(matches!(TriToSplatNode.run(&manager, Some(0), &queue), DispatchPlan::Idle));
    manager.observe(PipelineEvent::Compiled);
    assert_eq!(manager.get_pipeline(), Some(42));
    assert!(matches!(TriToSplatNode.run(&manager, None, &queue), DispatchPlan::Idle));
    match TriToSplatNode.run(&manager, Some(256), &queue) {
        DispatchPlan::Pass { pipeline, params_offset, commands } => {
            assert_eq!(pipeline, 42);
            assert_eq!(params_offset, 256);
            assert_eq!(commands.len(), 3);
            assert_eq!(commands[1].inputs_binding, 201);
            assert_eq!(commands[1].storage_binding, 101);
            assert_eq!((commands[1].x, commands[1].y, commands[1].z), (1, 1, 1));
        }
        DispatchPlan::Idle => panic!("pipeline is ready"),
    }
}

#[test]
fn two_triangle_mesh_end_to_end() {
    let vertices: [[f32; 3]; 4] = [[0.0, 0.0, 0.0], [3.0, 0.0, 0.0], [0.0, 3.0, 0.0], [3.0, 3.0, 3.0]];
    let ib = IndexBuffer::U32(vec![0, 1, 2, 2, 1, 3]);
    let input = TriToSplatCpuInput::capture(4, Some(&ib)).unwrap();
    let tris = input.splat_triangles();
    assert_eq!(tris, vec![Triangle { a: 0, b: 1, c: 2 }, Triangle { a: 2, b: 1, c: 3 }]);
    let identity = [0.0f32, 0.0, 0.0, 1.0];
    let mut cloud: SplatCloud<[f32; 4], [f32; 3], [f32; 4], [f32; 4]> =
        SplatCloud::for_mesh(&input, [0.0; 4], [0.0; 3], identity, [0.0, 0.0, 0.0, 1.0]);
    cloud.seed_positions(&tris, &vertices, |a: [f32; 3], b: [f32; 3], c: [f32; 3]| {
        [(a[0] + b[0] + c[0]) / 3.0, (a[1] + b[1] + c[1]) / 3.0, (a[2] + b[2] + c[2]) / 3.0, 1.0]
    });
    assert_eq!(cloud.len(), 2);
    assert_eq!(cloud.position(0), [1.0, 1.0, 0.0, 1.0]);
    assert_eq!(cloud.position(1), [2.0, 2.0, 1.0, 1.0]);
    assert_eq!(cloud.rotation(0), identity);
    assert_eq!(cloud.rotation(1), identity);
    assert_eq!(cloud.scale_opacity(0)[3], 1.0);
    assert_eq!(cloud.scale_opacity(1)[3], 1.0);
}

#[test]
fn triangles_from_drops_tail() {
    assert_eq!(triangles_from(&[4, 5, 6, 7, 8]), vec![Triangle { a: 4, b: 5, c: 6 }]);
    assert!(triangles_from(&[]).is_empty());
}

#[test]
fn upload_plan_bytes() {
    let ib = IndexBuffer::U32(vec![0, 1, 2, 2, 1, 3]);
    let input = TriToSplatCpuInput::capture(4, Some(&ib)).unwrap();
    assert_eq!(counts_words(&input), vec![4, 6, 2, 0]);
    let plan = plan_upload(&input);
    assert_eq!(plan.workgroups, 1);
    assert_eq!(plan.index_bytes.len(), 24);
    assert_eq!(plan.counts_bytes.len(), 16);
    let mut expected_index: Vec<u8> = Vec::new();
    for w in [0u32, 1, 2, 2, 1, 3] {
        expected_index.extend_from_slice(&w.to_le_bytes());
    }
    assert_eq!(plan.index_bytes, expected_index);
    let mut expected_counts: Vec<u8> = Vec::new();
    for w in [4u32, 6, 2, 0] {
        expected_counts.extend_from_slice(&w.to_le_bytes());
    }
    assert_eq!(plan.counts_bytes, expected_counts);
}

#[test]
fn frame_selection_of_bindings() {
    let mut cache = BindGroupCache::new();
    for _ in 0..4 {
        cache.register_entity();
    }
    assert_eq!(queue_planar_cloud_rw_bind_group(&cache, &[true, false, true]), vec![0, 2]);
    for e in queue_planar_cloud_rw_bind_group(&cache, &[true, false, true]) {
        cache.ensure_storage_binding(e, PlanarStorageBindGroupRw { bind_group: e as u64 });
    }
    assert_eq!(queue_planar_cloud_rw_bind_group(&cache, &[true, true, true, true]), vec![1, 3]);
    assert_eq!(tri_to_splat_upload_candidates(&cache, &[true, true, false, true]), vec![0]);
    cache.record_inputs_binding(0, 50, &one_triangle());
    assert_eq!(tri_to_splat_upload_candidates(&cache, &[true, true, true, true]), vec![2]);
}

#[test]
fn refreshed_mesh_is_uploaded_again() {
    let mut cache = ready_cache(1);
    assert_eq!(cache.inputs_step(0, true), InputsStep::AlreadyUploaded);
    cache.invalidate_inputs(0);
    assert_eq!(cache.slot(0).storage, Some(PlanarStorageBindGroupRw { bind_group: 100 }));
    assert_eq!(cache.inputs_step(0, true), InputsStep::Upload);
    let mut queue = TriToSplatJobQueue::new();
    let captures = vec![Some(mesh_of(65))];
    assert_eq!(prepare_jobs(&mut queue, &mut cache, &captures, device()), vec![0]);
    assert_eq!(queue.len(), 1);
    assert_eq!(queue.job(0).workgroup_count, 2);
    assert_eq!(queue.job(0).inputs_binding, 1000);
}

#[test]
fn first_time_jobs_sized_from_mesh() {
    let mut cache = BindGroupCache::new();
    for e in 0..5 {
        cache.register_entity();
        if e != 3 {
            cache.ensure_storage_binding(e, PlanarStorageBindGroupRw { bind_group: 10 + e as u64 });
        }
    }
    cache.record_inputs_binding(4, 77, &mesh_of(1));
    let mut queue = TriToSplatJobQueue::new();
    let captures = vec![Some(mesh_of(1)), Some(mesh_of(64)), Some(mesh_of(65)), Some(mesh_of(2)), None];
    let first = queue_tri_to_splat_inputs(&mut cache, &mut queue, &captures, device());
    assert_eq!(first, vec![0, 1, 2]);
    assert_eq!(queue.len(), 3);
    let sizes: Vec<(usize, u32, u64, u64)> = (0..3)
        .map(|i| {
            let j = queue.job(i);
            (j.entity, j.workgroup_count, j.inputs_binding, j.storage_binding)
        })
        .collect();
    assert_eq!(sizes, vec![(0, 1, 1000, 10), (1, 1, 1001, 11), (2, 2, 1002, 12)]);
    assert_eq!(cache.slot(2).inputs, Some(TriToSplatGpu { bind_group_inputs: 1002, workgroups: 2, tri_count: 65 }));
    assert_eq!(cache.slot(3).inputs, None);
    let again = queue_tri_to_splat_inputs(&mut cache, &mut queue, &captures, device());
    assert!(again.is_empty());
    assert_eq!(queue.len(), 3);
}

#[test]
fn refused_capture_gets_no_job() {
    let mut cache = BindGroupCache::new();
    let e = cache.register_entity();
    cache.ensure_storage_binding(e, PlanarStorageBindGroupRw { bind_group: 1 });
    let ib = IndexBuffer::U32(vec![0, 1]);
    let capture = TriToSplatCpuInput::capture(2, Some(&ib)).ok();
    assert!(capture.is_none());
    let mut queue = TriToSplatJobQueue::new();
    assert!(prepare_jobs(&mut queue, &mut cache, &[capture], device()).is_empty());
    assert_eq!(queue.len(), 0);
}

#[test]
fn le_bytes_of_words() {
    assert_eq!(le_bytes_of(&[0x0403_0201, 0xff]), vec![1, 2, 3, 4, 0xff, 0, 0, 0]);
    assert!(le_bytes_of(&[]).is_empty());
}
