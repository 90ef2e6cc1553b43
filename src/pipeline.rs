use vstd::prelude::*;
use crate::params::PARAMS_SIZE;

verus! {

/// How far the conversion pipeline has come; the device and asset system move it
/// forward, and nothing here waits for it.
#[derive(Clone, Copy, Debug, PartialEq, Eq)]
pub enum PipelineState {
    Uncompiled,
    Compiling,
    Ready,
}

/// What the device side reports about the conversion pipeline.
#[derive(Clone, Copy, Debug, PartialEq, Eq)]
pub enum PipelineEvent {
    /// The pipeline was submitted for compilation under this cache id.
    Queued(u64),
    /// The pipeline cache finished compiling it.
    Compiled,
}

/// The state that follows `state` on `event`. Submitting happens once: a second
/// `Queued` is ignored. `Compiled` only completes a submitted pipeline.
pub open spec fn next_state(state: PipelineState, event: PipelineEvent) -> PipelineState {
    match (state, event) {
        (PipelineState::Uncompiled, PipelineEvent::Queued(_)) => PipelineState::Compiling,
        (PipelineState::Compiling, PipelineEvent::Compiled) => PipelineState::Ready,
        _ => state,
    }
}

/// Holds the cache id of the conversion pipeline and its readiness; it never blocks.
pub struct TriToSplatPipeline {
    state: PipelineState,
    id: u64,
}

impl TriToSplatPipeline {
    pub closed spec fn state_spec(&self) -> PipelineState {
        self.state
    }

    /// The cache id under which the pipeline was submitted (meaningful once submitted).
    pub closed spec fn id_spec(&self) -> u64 {
        self.id
    }

    pub fn new() -> (r: TriToSplatPipeline)
        ensures
            r.state_spec() == PipelineState::Uncompiled,
    {
        TriToSplatPipeline { state: PipelineState::Uncompiled, id: 0 }
    }

    /// Whether the pipeline still has to be submitted.
    pub fn needs_submit(&self) -> (r: bool)
        ensures
            r == (self.state_spec() == PipelineState::Uncompiled),
    {
        match self.state {
            PipelineState::Uncompiled => true,
            _ => false,
        }
    }

    pub fn state(&self) -> (r: PipelineState)
        ensures
            r == self.state_spec(),
    {
        self.state
    }

    /// Applies a report from the device side; the state moves as `next_state` says,
    /// and the id is recorded when the pipeline is first submitted.
    pub fn observe(&mut self, event: PipelineEvent)
        ensures
            final(self).state_spec() == next_state(old(self).state_spec(), event),
            final(self).id_spec() == (match (old(self).state_spec(), event) {
                (PipelineState::Uncompiled, PipelineEvent::Queued(id)) => id,
                _ => old(self).id_spec(),
            }),
    {
        match (self.state, event) {
            (PipelineState::Uncompiled, PipelineEvent::Queued(id)) => {
                self.state = PipelineState::Compiling;
                self.id = id;
            },
            (PipelineState::Compiling, PipelineEvent::Compiled) => {
                self.state = PipelineState::Ready;
            },
            _ => {},
        }
    }

    /// The compiled pipeline's id, or `None` while it is not ready: callers take
    /// `None` as "try again next frame", not as an error.
    pub fn get_pipeline(&self) -> (r: Option<u64>)
        ensures
            r == (if self.state_spec() == PipelineState::Ready {
                Some(self.id_spec())
            } else {
                None::<u64>
            }),
    {
        match self.state {
            PipelineState::Ready => Some(self.id),
            _ => None,
        }
    }
}

/// The kind of one binding slot in a binding layout.
#[derive(Clone, Copy, Debug, PartialEq, Eq)]
pub enum BindingKind {
    ReadOnlyStorage,
    ReadWriteStorage,
    Uniform,
    DynamicUniform,
}

/// One slot of a binding layout, visible to the compute stage. A `min_size` of
/// zero leaves the size unchecked.
#[derive(Clone, Copy, Debug, PartialEq, Eq)]
pub struct LayoutEntry {
    pub binding: u32,
    pub kind: BindingKind,
    pub min_size: u64,
}

pub open spec fn entry(binding: u32, kind: BindingKind, min_size: u64) -> LayoutEntry {
    LayoutEntry { binding, kind, min_size }
}

/// Group 0: positions, indices and one optional extra table, read-only, then the
/// per-job constants uniform.
pub open spec fn inputs_layout_spec() -> Seq<LayoutEntry> {
    seq![
        entry(0, BindingKind::ReadOnlyStorage, 0),
        entry(1, BindingKind::ReadOnlyStorage, 0),
        entry(2, BindingKind::ReadOnlyStorage, 0),
        entry(3, BindingKind::Uniform, 0),
    ]
}

/// Group 1: the per-view parameters, one dynamically offset uniform.
pub open spec fn params_layout_spec() -> Seq<LayoutEntry> {
    seq![entry(0, BindingKind::DynamicUniform, PARAMS_SIZE)]
}

/// Group 2: the four splat-cloud fields, read-write.
pub open spec fn storage_layout_spec() -> Seq<LayoutEntry> {
    seq![
        entry(0, BindingKind::ReadWriteStorage, 0),
        entry(1, BindingKind::ReadWriteStorage, 0),
        entry(2, BindingKind::ReadWriteStorage, 0),
        entry(3, BindingKind::ReadWriteStorage, 0),
    ]
}

pub fn inputs_layout() -> (r: Vec<LayoutEntry>)
    ensures
        r@ == inputs_layout_spec(),
{
    let r = vec![
        LayoutEntry { binding: 0, kind: BindingKind::ReadOnlyStorage, min_size: 0 },
        LayoutEntry { binding: 1, kind: BindingKind::ReadOnlyStorage, min_size: 0 },
        LayoutEntry { binding: 2, kind: BindingKind::ReadOnlyStorage, min_size: 0 },
        LayoutEntry { binding: 3, kind: BindingKind::Uniform, min_size: 0 },
    ];
    assert(r@ =~= inputs_layout_spec());
    r
}

pub fn params_layout() -> (r: Vec<LayoutEntry>)
    ensures
        r@ == params_layout_spec(),
{
    let r = vec![LayoutEntry { binding: 0, kind: BindingKind::DynamicUniform, min_size: PARAMS_SIZE }];
    assert(r@ =~= params_layout_spec());
    r
}

pub fn storage_layout() -> (r: Vec<LayoutEntry>)
    ensures
        r@ == storage_layout_spec(),
{
    let r = vec![
        LayoutEntry { binding: 0, kind: BindingKind::ReadWriteStorage, min_size: 0 },
        LayoutEntry { binding: 1, kind: BindingKind::ReadWriteStorage, min_size: 0 },
        LayoutEntry { binding: 2, kind: BindingKind::ReadWriteStorage, min_size: 0 },
        LayoutEntry { binding: 3, kind: BindingKind::ReadWriteStorage, min_size: 0 },
    ];
    assert(r@ =~= storage_layout_spec());
    r
}

/// The three layouts of the conversion pipeline, in group order: inputs,
/// parameters, storage.
pub fn pipeline_layouts() -> (r: Vec<Vec<LayoutEntry>>)
    ensures
        r@.len() == 3,
        r@[0]@ == inputs_layout_spec(),
        r@[1]@ == params_layout_spec(),
        r@[2]@ == storage_layout_spec(),
{
    let mut r: Vec<Vec<LayoutEntry>> = Vec::new();
    r.push(inputs_layout());
    r.push(params_layout());
    r.push(storage_layout());
    r
}

} // verus!
