use vstd::prelude::*;

verus! {

/// Hundredths of a percent in a whole: 100% of a frame dimension.
pub const FULL_SPAN: u32 = 10000;

/// A crop rectangle as shares of the source frame, in hundredths of a percent
/// (`10000` is the whole width or height).
#[derive(Clone, Copy, PartialEq, Eq, Structural, Debug)]
pub struct CropPercent {
    pub x: u32,
    pub y: u32,
    pub width: u32,
    pub height: u32,
}

/// A crop rectangle in pixels of the source frame.
#[derive(Clone, Copy, PartialEq, Eq, Structural, Debug)]
pub struct PixelRect {
    pub x: u32,
    pub y: u32,
    pub width: u32,
    pub height: u32,
}

/// The matcher that analyses a trigger's frames.
#[derive(Clone, Copy, PartialEq, Eq, Structural, Debug)]
pub enum TriggerKind {
    /// Text recognition.
    Ocr,
    /// An image classifier.
    NeuralNet,
}

/// One region of the video to watch, and the worker pool that analyses it.
pub struct Trigger {
    pub id: String,
    pub kind: TriggerKind,
    pub crop: CropPercent,
    /// Width in pixels of the frames that the decoder emits for this trigger.
    pub width: u32,
    /// Height in pixels of the frames that the decoder emits for this trigger.
    pub height: u32,
    /// Name of the worker pool that receives this trigger's frames.
    pub runner: String,
    pub debug: bool,
}

/// A sampling rate of `frames` frames every `seconds` seconds.
#[derive(Clone, Copy, PartialEq, Eq, Structural, Debug)]
pub struct SampleRate {
    pub frames: u32,
    pub seconds: u32,
}

/// Which diagnostics the pipeline emits.
#[derive(Clone, Copy, PartialEq, Eq, Structural, Debug)]
pub struct LoggingConfig {
    pub debug_ffmpeg: bool,
    pub debug_buffer_allocation: bool,
    pub debug_buffer_transfer: bool,
    pub debug_thread_exit: bool,
}

/// What the reading loop does when a frame cannot be handed to its worker.
#[derive(Clone, Copy, PartialEq, Eq, Structural, Debug)]
pub enum DispatchPolicy {
    /// Stop producing frames.
    StopOnFailure,
    /// Drop the frame and read on.
    DropAndContinue,
}

/// Everything one run of the pipeline is configured with.
pub struct PipelineConfig {
    pub input_path: String,
    pub samples_per_second: SampleRate,
    /// The triggers, in the order that fixes output ports and read order.
    pub triggers: Vec<Trigger>,
    pub logging: LoggingConfig,
    pub dispatch_policy: DispatchPolicy,
}

/// How the decoder's three standard streams are attached.
#[derive(Clone, Copy, PartialEq, Eq, Structural, Debug)]
pub enum StdioMode {
    Inherit,
    Piped,
    Null,
}

/// Specifies whether to attach to each stdio channel or not.
#[derive(Clone, Copy, PartialEq, Eq, Structural, Debug)]
pub struct StdioConfig {
    pub stdin: StdioMode,
    pub stdout: StdioMode,
    pub stderr: StdioMode,
}

/// The crop rectangles of `triggers`, in order.
pub open spec fn crops_of(triggers: Seq<Trigger>) -> Seq<CropPercent> {
    triggers.map_values(|t: Trigger| t.crop)
}

} // verus!
