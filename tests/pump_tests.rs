use hypetrigger::config::{DispatchPolicy, LoggingConfig, PipelineConfig, SampleRate, Trigger, TriggerKind, CropPercent};
use hypetrigger::demux::Frame;
use hypetrigger::dispatch::{continue_after_dispatch, on_ffmpeg_stdout, RunnerCommand};
use hypetrigger::stdin::{encode_command, stdin_step, FfmpegStdinCommand, StdinEvent, StdinPumpState};
use hypetrigger::text::append_decimal;
use std::sync::Arc;

#[test]
fn stop_command_is_one_q_byte() {
    assert_eq!(encode_command(FfmpegStdinCommand::Stop), b"q".to_vec());
}

#[test]
fn stop_writes_once_then_nothing_after_failure() {
    let mut written: Vec<u8> = Vec::new();
    let events = [
        StdinEvent::Received(FfmpegStdinCommand::Stop),
        StdinEvent::WriteFailed,
        StdinEvent::Received(FfmpegStdinCommand::Stop),
    ];
    let mut state = StdinPumpState::Listening;
    for e in events {
        let step = stdin_step(state, e);
        written.extend(step.write);
        state = step.state;
    }
    assert_eq!(written, vec![b'q']);
    assert_eq!(state, StdinPumpState::Finished);
}

#[test]
fn stdin_pump_ends_when_queue_closes() {
    let step = stdin_step(StdinPumpState::Listening, StdinEvent::Received(FfmpegStdinCommand::Stop));
    assert_eq!(step.state, StdinPumpState::Listening);
    assert_eq!(step.write, vec![b'q']);
    let step = stdin_step(StdinPumpState::Listening, StdinEvent::QueueClosed);
    assert_eq!(step.state, StdinPumpState::Finished);
    assert!(step.write.is_empty());
}

fn trigger(runner: &str) -> Trigger {
    Trigger {
        id: "id".to_string(),
        kind: TriggerKind::Ocr,
        crop: CropPercent { x: 0, y: 0, width: 100, height: 100 },
        width: 1,
        height: 1,
        runner: runner.to_string(),
        debug: false,
    }
}

#[test]
fn dispatch_routes_by_runner_name() {
    let cfg = PipelineConfig {
        input_path: "video.mp4".to_string(),
        samples_per_second: SampleRate { frames: 2, seconds: 1 },
        triggers: vec![trigger("tesseract"), trigger("tensorflow")],
        logging: LoggingConfig {
            debug_ffmpeg: false,
            debug_buffer_allocation: false,
            debug_buffer_transfer: false,
            debug_thread_exit: false,
        },
        dispatch_policy: DispatchPolicy::StopOnFailure,
    };
    let image = Arc::new(vec![1u8, 2, 3]);
    let d = on_ffmpeg_stdout(&cfg, Frame { trigger_index: 1, image: image.clone() });
    assert_eq!(d.runner, "tensorflow");
    match d.command {
        RunnerCommand::ProcessImage(p) => {
            assert_eq!(p.input_id, "video.mp4");
            assert_eq!(*p.image, vec![1u8, 2, 3]);
            assert_eq!(p.trigger_index, 1);
        }
    }
}

#[test]
fn dispatch_failure_policy() {
    assert!(continue_after_dispatch(DispatchPolicy::StopOnFailure, true));
    assert!(!continue_after_dispatch(DispatchPolicy::StopOnFailure, false));
    assert!(continue_after_dispatch(DispatchPolicy::DropAndContinue, false));
    assert!(continue_after_dispatch(DispatchPolicy::DropAndContinue, true));
}

#[test]
fn decimal_digits() {
    let mut s = "n=".to_string();
    append_decimal(&mut s, 0);
    assert_eq!(s, "n=0");
    let mut s = String::new();
    append_decimal(&mut s, 18446744073709551615);
    assert_eq!(s, "18446744073709551615");
    let mut s = String::new();
    append_decimal(&mut s, 1002);
    assert_eq!(s, "1002");
}
