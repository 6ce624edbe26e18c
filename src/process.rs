use crate::config::{crops_of, PipelineConfig};
use crate::graph::{
    all_crops_ok, build_filter_graph, graph_rejects, graph_text, port_label, rate_ok,
    InvalidGraphError,
};
use vstd::prelude::*;
use vstd::string::*;

verus! {

/// The views of a list of strings.
pub open spec fn texts(v: Seq<String>) -> Seq<Seq<char>> {
    v.map_values(|a: String| a@)
}

/// One `-map` pair per output port, in port order.
pub open spec fn map_args(n: nat) -> Seq<Seq<char>> {
    Seq::new(2 * n, |j: int| if j % 2 == 0 { "-map"@ } else { port_label((j / 2) as nat) })
}

/// The decoder's arguments: hardware decoding where available, the input, the filter
/// graph, one mapping per output port, then raw RGB frames without timestamps or
/// audio on standard output.
pub open spec fn decoder_args_spec(input: Seq<char>, graph: Seq<char>, n: nat) -> Seq<Seq<char>> {
    seq!["-hwaccel"@, "auto"@, "-i"@, input, "-filter_complex"@, graph] + map_args(n) + seq![
        "-vsync"@,
        "drop"@,
        "-f"@,
        "rawvideo"@,
        "-pix_fmt"@,
        "rgb24"@,
        "-an"@,
        "-y"@,
        "pipe:1"@,
    ]
}

/// Appends one argument.
fn push_arg(args: &mut Vec<String>, a: &str)
    ensures
        texts(final(args)@) == texts(old(args)@).push(a@),
{
    args.push(String::from_str(a));
    assert(texts(final(args)@) =~= texts(old(args)@).push(a@));
}

/// Builds the argument list of the decoder for `config`.
pub fn decoder_args(config: &PipelineConfig) -> (r: Result<Vec<String>, InvalidGraphError>)
    ensures
        match r {
            Ok(args) => rate_ok(config.samples_per_second) && all_crops_ok(
                config.triggers@,
                config.triggers@.len() as int,
            ) && texts(args@) == decoder_args_spec(
                config.input_path@,
                graph_text(config.samples_per_second, crops_of(config.triggers@)),
                config.triggers@.len(),
            ),
            Err(e) => graph_rejects(config.samples_per_second, config.triggers@, e),
        },
{
    let graph = match build_filter_graph(config.samples_per_second, &config.triggers) {
        Ok(g) => g,
        Err(e) => {
            return Err(e);
        },
    };
    let n = graph.output_ports.len();
    let mut args: Vec<String> = Vec::new();
    push_arg(&mut args, "-hwaccel");
    push_arg(&mut args, "auto");
    push_arg(&mut args, "-i");
    push_arg(&mut args, config.input_path.as_str());
    push_arg(&mut args, "-filter_complex");
    push_arg(&mut args, graph.description.as_str());
    let ghost head = texts(args@);
    assert(head =~= seq!["-hwaccel"@, "auto"@, "-i"@, config.input_path@, "-filter_complex"@, graph.description@]);
    let mut i: usize = 0;
    while i < n
        invariant
            i <= n,
            n == graph.output_ports@.len(),
            forall|j: int| 0 <= j < n ==> (#[trigger] graph.output_ports@[j])@ == port_label(j as nat),
            texts(args@) == head + map_args(i as nat),
        decreases n - i,
    {
        push_arg(&mut args, "-map");
        push_arg(&mut args, graph.output_ports[i].as_str());
        i = i + 1;
        assert forall|j: int| 0 <= j < 2 * i implies #[trigger] map_args(i as nat)[j] == map_args((i - 1) as nat).push("-map"@).push(port_label((i - 1) as nat))[j] by {
            if j < 2 * (i - 1) {
            } else if j == 2 * (i - 1) {
                assert(j % 2 == 0) by (nonlinear_arith) requires j == 2 * (i - 1);
            } else {
                assert(j % 2 == 1 && j / 2 == i - 1) by (nonlinear_arith) requires j == 2 * (i - 1) + 1;
            }
        }
        assert(map_args(i as nat) =~= map_args((i - 1) as nat).push("-map"@).push(port_label((i - 1) as nat)));
        assert(texts(args@) =~= head + map_args(i as nat));
    }
    push_arg(&mut args, "-vsync");
    push_arg(&mut args, "drop");
    push_arg(&mut args, "-f");
    push_arg(&mut args, "rawvideo");
    push_arg(&mut args, "-pix_fmt");
    push_arg(&mut args, "rgb24");
    push_arg(&mut args, "-an");
    push_arg(&mut args, "-y");
    push_arg(&mut args, "pipe:1");
    assert(texts(args@) =~= decoder_args_spec(config.input_path@, graph.description@, n as nat));
    Ok(args)
}

} // verus!
