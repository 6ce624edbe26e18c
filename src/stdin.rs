use vstd::prelude::*;

verus! {

/// A command for the decoder's input channel.
#[derive(Clone, Copy, PartialEq, Eq, Structural, Debug)]
pub enum FfmpegStdinCommand {
    /// Ask the decoder to finish its run gracefully.
    Stop,
}

/// The byte that asks the decoder to quit, as its interactive `q` key does.
pub const STOP_BYTE: u8 = 0x71;

/// The bytes that a command puts on the decoder's input channel.
pub open spec fn command_bytes(cmd: FfmpegStdinCommand) -> Seq<u8> {
    match cmd {
        FfmpegStdinCommand::Stop => seq![STOP_BYTE],
    }
}

/// Encodes a command as the bytes to write to the decoder's input channel.
pub fn encode_command(cmd: FfmpegStdinCommand) -> (r: Vec<u8>)
    ensures
        r@ == command_bytes(cmd),
{
    match cmd {
        FfmpegStdinCommand::Stop => vec![STOP_BYTE],
    }
}

/// What the input pump learns while it runs.
#[derive(Clone, Copy, PartialEq, Eq, Structural, Debug)]
pub enum StdinEvent {
    /// A command arrived on the queue.
    Received(FfmpegStdinCommand),
    /// Every sender of the queue is gone.
    QueueClosed,
    /// Writing to the decoder failed: it has most likely exited.
    WriteFailed,
}

/// Whether the input pump still serves its queue.
#[derive(Clone, Copy, PartialEq, Eq, Structural, Debug)]
pub enum StdinPumpState {
    Listening,
    Finished,
}

/// The pump's next state, and the bytes it must write now (none where it writes
/// nothing). The pump's thread ends once the state is `Finished`.
pub struct StdinStep {
    pub state: StdinPumpState,
    pub write: Vec<u8>,
}

/// A command leaves the pump listening; a closed queue or a failed write ends it.
pub open spec fn next_state(s: StdinPumpState, e: StdinEvent) -> StdinPumpState {
    match e {
        StdinEvent::Received(_) => s,
        _ => StdinPumpState::Finished,
    }
}

/// The bytes written in answer to one event: a command's bytes while listening,
/// nothing otherwise.
pub open spec fn step_output(s: StdinPumpState, e: StdinEvent) -> Seq<u8> {
    match (s, e) {
        (StdinPumpState::Listening, StdinEvent::Received(c)) => command_bytes(c),
        _ => Seq::empty(),
    }
}

/// Everything the pump writes over a run of events, starting in state `s`.
pub open spec fn run_output(s: StdinPumpState, events: Seq<StdinEvent>) -> Seq<u8>
    decreases events.len(),
{
    if events.len() == 0 {
        Seq::empty()
    } else {
        step_output(s, events[0]) + run_output(next_state(s, events[0]), events.drop_first())
    }
}

/// Decides the input pump's answer to one event.
pub fn stdin_step(state: StdinPumpState, event: StdinEvent) -> (r: StdinStep)
    ensures
        r.state == next_state(state, event),
        r.write@ == step_output(state, event),
{
    match event {
        StdinEvent::Received(cmd) => {
            let write = match state {
                StdinPumpState::Listening => encode_command(cmd),
                StdinPumpState::Finished => Vec::new(),
            };
            StdinStep { state, write }
        },
        _ => StdinStep { state: StdinPumpState::Finished, write: Vec::new() },
    }
}

/// Stop signal: while the pump listens, every command received writes exactly one
/// control byte, the stop byte.
pub proof fn lemma_one_byte_per_stop(events: Seq<StdinEvent>)
    requires
        forall|i: int| 0 <= i < events.len() ==> #[trigger] events[i] == StdinEvent::Received(
            FfmpegStdinCommand::Stop,
        ),
    ensures
        run_output(StdinPumpState::Listening, events) == Seq::new(events.len(), |i: int| STOP_BYTE),
    decreases events.len(),
{
    if events.len() > 0 {
        let rest = events.drop_first();
        assert(events[0] == StdinEvent::Received(FfmpegStdinCommand::Stop));
        assert forall|i: int| 0 <= i < rest.len() implies #[trigger] rest[i] == StdinEvent::Received(
            FfmpegStdinCommand::Stop,
        ) by {
            assert(rest[i] == events[i + 1]);
        }
        lemma_one_byte_per_stop(rest);
        assert(run_output(StdinPumpState::Listening, events) =~= Seq::new(
            events.len(),
            |i: int| STOP_BYTE,
        ));
    }
}

/// Stop signal: once a write has failed, no later event makes the pump write again.
pub proof fn lemma_silent_after_write_failure(s: StdinPumpState, later: Seq<StdinEvent>)
    ensures
        run_output(next_state(s, StdinEvent::WriteFailed), later) == Seq::<u8>::empty(),
    decreases later.len(),
{
    if later.len() > 0 {
        lemma_silent_after_write_failure(s, later.drop_first());
        assert(next_state(StdinPumpState::Finished, later[0]) == StdinPumpState::Finished);
        assert(run_output(StdinPumpState::Finished, later) =~= Seq::<u8>::empty());
    }
}

} // verus!
