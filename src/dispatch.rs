use vstd::prelude::*;
use crate::jobs::ConversionJob;
use crate::jobs::TriToSplatJobQueue;
use crate::pipeline::TriToSplatPipeline;
use crate::pipeline::PipelineState;

verus! {

/// One compute dispatch inside the conversion pass: bind the job's inputs at
/// group 0 and its storage at group 2, then dispatch `(x, y, z)` workgroups.
#[derive(Clone, Copy, Debug, PartialEq, Eq)]
pub struct DispatchCommand {
    pub inputs_binding: u64,
    pub storage_binding: u64,
    pub x: u32,
    pub y: u32,
    pub z: u32,
}

/// What the dispatch stage does for one view this frame.
pub enum DispatchPlan {
    /// Emit no GPU command at all: the pipeline or the parameters are not ready.
    Idle,
    /// Open one compute pass, bind `pipeline`, bind the view's parameters at
    /// group 1 with `params_offset`, then run `commands` in order.
    Pass { pipeline: u64, params_offset: u32, commands: Vec<DispatchCommand> },
}

/// The dispatch that a queued job becomes.
pub open spec fn command_for(job: ConversionJob) -> DispatchCommand {
    DispatchCommand {
        inputs_binding: job.inputs_binding,
        storage_binding: job.storage_binding,
        x: job.workgroup_count,
        y: 1,
        z: 1,
    }
}

impl DispatchPlan {
    /// The GPU commands that the plan emits: none when idle; otherwise the pass
    /// setup (begin, set pipeline, set parameters) and two binds and one dispatch
    /// per job.
    pub open spec fn command_count(&self) -> nat {
        match self {
            DispatchPlan::Idle => 0,
            DispatchPlan::Pass { commands, .. } => 3 + 3 * commands@.len(),
        }
    }
}

/// The dispatch stage: runs once per view per frame over the prepared queue.
pub struct TriToSplatNode;

impl TriToSplatNode {
    /// Plans the conversion pass of one view. While the pipeline is not ready, or the
    /// view's parameter binding (`params_offset`) is absent, the plan is idle: no
    /// command, no error, the normal warm-up state. Otherwise there is exactly one
    /// dispatch per queued job, in queue order.
    pub fn run(
        &self,
        manager: &TriToSplatPipeline,
        params_offset: Option<u32>,
        queue: &TriToSplatJobQueue,
    ) -> (r: DispatchPlan)
        ensures
            (manager.state_spec() != PipelineState::Ready || params_offset is None) <==> r is Idle,
            r is Idle ==> r.command_count() == 0,
            match r {
                DispatchPlan::Idle => true,
                DispatchPlan::Pass { pipeline, params_offset: off, commands } => {
                    &&& pipeline == manager.id_spec()
                    &&& params_offset == Some(off)
                    &&& commands@ == queue.jobs_spec().map_values(|j: ConversionJob| command_for(j))
                },
            },
    {
        let pipeline = match manager.get_pipeline() {
            Some(p) => p,
            None => {
                return DispatchPlan::Idle;
            },
        };
        let offset = match params_offset {
            Some(o) => o,
            None => {
                return DispatchPlan::Idle;
            },
        };
        let mut commands: Vec<DispatchCommand> = Vec::new();
        let n = queue.len();
        let mut i: usize = 0;
        while i < n
            invariant
                n == queue.jobs_spec().len(),
                i <= n,
                commands@ =~= queue.jobs_spec().take(i as int).map_values(
                    |j: ConversionJob| command_for(j),
                ),
            decreases n - i,
        {
            let job = queue.job(i);
            commands.push(
                DispatchCommand {
                    inputs_binding: job.inputs_binding,
                    storage_binding: job.storage_binding,
                    x: job.workgroup_count,
                    y: 1,
                    z: 1,
                },
            );
            i = i + 1;
        }
        assert(queue.jobs_spec().take(n as int) =~= queue.jobs_spec());
        DispatchPlan::Pass { pipeline, params_offset: offset, commands }
    }
}

} // verus!
