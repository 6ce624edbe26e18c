use hypetrigger::config::{CropPercent, PixelRect, SampleRate, Trigger, TriggerKind};
use hypetrigger::graph::{build_filter_graph, output_port, resolve_crop, InvalidGraphError};
use hypetrigger::process::decoder_args;
use hypetrigger::config::{DispatchPolicy, LoggingConfig, PipelineConfig};

fn trigger(id: &str, crop: CropPercent, runner: &str) -> Trigger {
    Trigger {
        id: id.to_string(),
        kind: TriggerKind::Ocr,
        crop,
        width: 4,
        height: 2,
        runner: runner.to_string(),
        debug: false,
    }
}

fn crop(x: u32, y: u32, width: u32, height: u32) -> CropPercent {
    CropPercent { x, y, width, height }
}

fn config(triggers: Vec<Trigger>) -> PipelineConfig {
    PipelineConfig {
        input_path: "in.mp4".to_string(),
        samples_per_second: SampleRate { frames: 2, seconds: 1 },
        triggers,
        logging: LoggingConfig {
            debug_ffmpeg: false,
            debug_buffer_allocation: false,
            debug_buffer_transfer: false,
            debug_thread_exit: false,
        },
        dispatch_policy: DispatchPolicy::StopOnFailure,
    }
}

#[test]
fn graph_for_two_triggers() {
    let triggers = vec![
        trigger("a", crop(0, 0, 200, 200), "tesseract"),
        trigger("b", crop(9307, 8856, 606, 599), "tensorflow"),
    ];
    let g = build_filter_graph(SampleRate { frames: 2, seconds: 1 }, &triggers).unwrap();
    assert_eq!(
        g.description,
        "[0:v]fps=2,split=2[in0][in1];\
[in0]crop=round(in_w*200/10000):round(in_h*200/10000):round(in_w*0/10000):round(in_h*0/10000)[out0];\
[in1]crop=round(in_w*606/10000):round(in_h*599/10000):round(in_w*9307/10000):round(in_h*8856/10000)[out1]"
    );
    assert_eq!(g.output_ports, vec!["[out0]".to_string(), "[out1]".to_string()]);
}

#[test]
fn graph_ports_follow_trigger_order() {
    let mut triggers = Vec::new();
    for i in 0..12u32 {
        triggers.push(trigger("t", crop(i, i, 100 + i, 100), "r"));
    }
    let g = build_filter_graph(SampleRate { frames: 1, seconds: 2 }, &triggers).unwrap();
    assert!(g.description.starts_with("[0:v]fps=1/2,split=12[in0][in1]"));
    assert_eq!(g.output_ports.len(), 12);
    for i in 0..12usize {
        assert_eq!(g.output_ports[i], format!("[out{}]", i));
        let branch = format!(
            "[in{}]crop=round(in_w*{}/10000):round(in_h*100/10000):round(in_w*{}/10000):round(in_h*{}/10000)[out{}]",
            i,
            100 + i,
            i,
            i,
            i
        );
        assert!(g.description.contains(&branch));
    }
    assert!(g.description.ends_with("[out11]"));
}

#[test]
fn graph_without_triggers() {
    let g = build_filter_graph(SampleRate { frames: 5, seconds: 1 }, &Vec::new()).unwrap();
    assert_eq!(g.description, "[0:v]fps=5,split=0;");
    assert!(g.output_ports.is_empty());
}

#[test]
fn graph_rejects_degenerate_crop() {
    let triggers = vec![
        trigger("a", crop(0, 0, 200, 200), "r"),
        trigger("b", crop(0, 0, 0, 200), "r"),
        trigger("c", crop(0, 0, 20000, 200), "r"),
    ];
    let e = build_filter_graph(SampleRate { frames: 2, seconds: 1 }, &triggers);
    assert!(matches!(e, Err(InvalidGraphError::Crop(1))));
    let triggers = vec![trigger("a", crop(10001, 0, 200, 200), "r")];
    let e = build_filter_graph(SampleRate { frames: 2, seconds: 1 }, &triggers);
    assert!(matches!(e, Err(InvalidGraphError::Crop(0))));
}

#[test]
fn graph_rejects_zero_rate() {
    let triggers = vec![trigger("a", crop(0, 0, 200, 200), "r")];
    let e = build_filter_graph(SampleRate { frames: 0, seconds: 1 }, &triggers);
    assert!(matches!(e, Err(InvalidGraphError::SampleRate)));
    let e = build_filter_graph(SampleRate { frames: 3, seconds: 0 }, &triggers);
    assert!(matches!(e, Err(InvalidGraphError::SampleRate)));
}

#[test]
fn port_labels() {
    assert_eq!(output_port(0), "[out0]");
    assert_eq!(output_port(10), "[out10]");
    assert_eq!(output_port(4096), "[out4096]");
}

#[test]
fn crop_resolves_to_rounded_pixels() {
    let r = resolve_crop(1920, 1080, crop(5000, 2500, 1234, 10000));
    assert_eq!(r, PixelRect { x: 960, y: 270, width: 237, height: 1080 });
    // 1920 * 0.0026 = 4.992 rounds up; 1080 * 0.0005 = 0.54 rounds up; 1080 * 0.0004 = 0.432 rounds down
    let r = resolve_crop(1920, 1080, crop(26, 5, 10000, 4));
    assert_eq!(r, PixelRect { x: 5, y: 1, width: 1920, height: 0 });
}

#[test]
fn crop_round_trip_within_half_pixel() {
    for &(w, h) in &[(1920u32, 1080u32), (640, 480), (7, 3)] {
        for &share in &[1u32, 333, 5000, 6060, 9999, 10000] {
            let r = resolve_crop(w, h, crop(share, share, share, share));
            let back_w = r.width as i64 * 10000 - w as i64 * share as i64;
            let back_h = r.height as i64 * 10000 - h as i64 * share as i64;
            assert!(back_w.abs() <= 5000);
            assert!(back_h.abs() <= 5000);
        }
    }
}

#[test]
fn decoder_arguments() {
    let cfg = config(vec![
        trigger("a", crop(0, 0, 200, 200), "tesseract"),
        trigger("b", crop(100, 100, 300, 300), "tensorflow"),
    ]);
    let args = decoder_args(&cfg).unwrap();
    let graph = build_filter_graph(cfg.samples_per_second, &cfg.triggers).unwrap();
    let expected: Vec<String> = vec![
        "-hwaccel",
        "auto",
        "-i",
        "in.mp4",
        "-filter_complex",
        graph.description.as_str(),
        "-map",
        "[out0]",
        "-map",
        "[out1]",
        "-vsync",
        "drop",
        "-f",
        "rawvideo",
        "-pix_fmt",
        "rgb24",
        "-an",
        "-y",
        "pipe:1",
    ]
    .into_iter()
    .map(|s| s.to_string())
    .collect();
    assert_eq!(args, expected);
}

#[test]
fn decoder_arguments_reject_bad_crop() {
    let cfg = config(vec![trigger("a", crop(0, 0, 200, 0), "r")]);
    assert!(matches!(decoder_args(&cfg), Err(InvalidGraphError::Crop(0))));
}
