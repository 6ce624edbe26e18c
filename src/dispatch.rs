use crate::config::{DispatchPolicy, PipelineConfig};
use crate::demux::{Frame, RawImageData};
use vstd::prelude::*;

verus! {

/// A frame for a worker to analyse: where it came from, its bytes, and its trigger.
pub struct ProcessImagePayload {
    pub input_id: String,
    pub image: RawImageData,
    pub trigger_index: usize,
}

/// A command for a worker.
pub enum RunnerCommand {
    ProcessImage(ProcessImagePayload),
}

/// A command and the name of the worker pool that must receive it.
pub struct Dispatch {
    pub runner: String,
    pub command: RunnerCommand,
}

/// Routes a frame: the worker pool named by its trigger receives a command to process
/// the frame, with the input's identifier and the trigger's position.
pub fn on_ffmpeg_stdout(config: &PipelineConfig, frame: Frame) -> (r: Dispatch)
    requires
        frame.trigger_index < config.triggers@.len(),
    ensures
        r.runner@ == config.triggers@[frame.trigger_index as int].runner@,
        match r.command {
            RunnerCommand::ProcessImage(p) => p.input_id@ == config.input_path@ && p.image@
                == frame.image@ && p.trigger_index == frame.trigger_index,
        },
{
    let runner = config.triggers[frame.trigger_index].runner.clone();
    let payload = ProcessImagePayload {
        input_id: config.input_path.clone(),
        image: frame.image,
        trigger_index: frame.trigger_index,
    };
    Dispatch { runner, command: RunnerCommand::ProcessImage(payload) }
}

/// Whether the reading loop goes on after a dispatch: always after a delivery, and
/// after a failed one only where the policy drops the frame.
pub fn continue_after_dispatch(policy: DispatchPolicy, delivered: bool) -> (r: bool)
    ensures
        r == (delivered || policy == DispatchPolicy::DropAndContinue),
{
    match policy {
        DispatchPolicy::StopOnFailure => delivered,
        DispatchPolicy::DropAndContinue => true,
    }
}

} // verus!
