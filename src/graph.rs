use crate::config::{crops_of, CropPercent, PixelRect, SampleRate, Trigger, FULL_SPAN};
use crate::text::{append_decimal, decimal};
use vstd::prelude::*;
use vstd::string::*;

verus! {

/// Why no filter graph could be built.
#[derive(Clone, Copy, PartialEq, Eq, Structural, Debug)]
pub enum InvalidGraphError {
    /// The sampling rate has no frames or no seconds.
    SampleRate,
    /// The crop rectangle of the trigger at this position is degenerate.
    Crop(usize),
}

/// The decoder's filter graph, and its output ports in trigger order.
pub struct FilterGraph {
    pub description: String,
    pub output_ports: Vec<String>,
}

/// A crop rectangle has a positive width and height, and every share lies within
/// the frame.
pub open spec fn crop_ok(c: CropPercent) -> bool {
    0 < c.width <= FULL_SPAN && 0 < c.height <= FULL_SPAN && c.x <= FULL_SPAN && c.y <= FULL_SPAN
}

/// The crop rectangles of the first `k` triggers are all sound.
pub open spec fn all_crops_ok(triggers: Seq<Trigger>, k: int) -> bool {
    forall|j: int| 0 <= j < k ==> crop_ok(#[trigger] triggers[j].crop)
}

/// `e` is the error owed for these inputs: a bad rate first, else the first bad crop.
pub open spec fn graph_rejects(rate: SampleRate, triggers: Seq<Trigger>, e: InvalidGraphError) -> bool {
    match e {
        InvalidGraphError::SampleRate => !rate_ok(rate),
        InvalidGraphError::Crop(i) => rate_ok(rate) && i < triggers.len() && !crop_ok(
            triggers[i as int].crop,
        ) && all_crops_ok(triggers, i as int),
    }
}

/// The sampling rate takes some frames over some time.
pub open spec fn rate_ok(r: SampleRate) -> bool {
    r.frames > 0 && r.seconds > 0
}

/// The sampling rate as the decoder reads it: `frames` or `frames/seconds`.
pub open spec fn rate_text(r: SampleRate) -> Seq<char> {
    if r.seconds == 1 {
        decimal(r.frames as nat)
    } else {
        decimal(r.frames as nat) + "/"@ + decimal(r.seconds as nat)
    }
}

/// The label of the split branch that feeds trigger `i`.
pub open spec fn in_label(i: nat) -> Seq<char> {
    "[in"@ + decimal(i) + "]"@
}

/// The label of the output port of trigger `i`.
pub open spec fn port_label(i: nat) -> Seq<char> {
    "[out"@ + decimal(i) + "]"@
}

/// The labels of the first `k` split branches, in order.
pub open spec fn in_labels(k: nat) -> Seq<char>
    decreases k,
{
    if k == 0 {
        Seq::empty()
    } else {
        in_labels((k - 1) as nat) + in_label((k - 1) as nat)
    }
}

/// The crop stage of trigger `i`: each side is the source side times the share,
/// rounded to whole pixels, ending in output port `i`.
pub open spec fn branch_text(i: nat, c: CropPercent) -> Seq<char> {
    in_label(i) + "crop=round(in_w*"@ + decimal(c.width as nat) + "/10000):round(in_h*"@ + decimal(
        c.height as nat,
    ) + "/10000):round(in_w*"@ + decimal(c.x as nat) + "/10000):round(in_h*"@ + decimal(
        c.y as nat,
    ) + "/10000)"@ + port_label(i)
}

/// The crop stages of the first `k` triggers, in order, separated by `;`.
pub open spec fn branches_text(crops: Seq<CropPercent>, k: nat) -> Seq<char>
    decreases k,
{
    if k == 0 {
        Seq::empty()
    } else if k == 1 {
        branch_text(0, crops[0])
    } else {
        branches_text(crops, (k - 1) as nat) + ";"@ + branch_text((k - 1) as nat, crops[k - 1])
    }
}

/// What stands before the crop stage of trigger `i`: a `;` for all but the first.
pub open spec fn separator(i: nat) -> Seq<char> {
    if i == 0 {
        Seq::empty()
    } else {
        ";"@
    }
}

/// Filter-graph ordering: the crop stages of the first `k` triggers begin with those of
/// the first `i`, followed by the stage of trigger `i`, which crops by trigger `i`'s
/// shares and ends in output port `i`. So stages, and ports, stand in trigger order.
pub proof fn lemma_filter_graph_order(crops: Seq<CropPercent>, i: nat, k: nat)
    requires
        i < k <= crops.len(),
    ensures
        (branches_text(crops, i) + separator(i) + branch_text(i, crops[i as int])).is_prefix_of(
            branches_text(crops, k),
        ),
        branch_text(i, crops[i as int]).subrange(
            branch_text(i, crops[i as int]).len() - port_label(i).len(),
            branch_text(i, crops[i as int]).len() as int,
        ) == port_label(i),
    decreases k,
{
    let b = branch_text(i, crops[i as int]);
    assert(b.subrange(b.len() - port_label(i).len(), b.len() as int) =~= port_label(i));
    if k == i + 1 {
        if i == 0 {
            assert(branches_text(crops, 0) + separator(0) + b =~= branches_text(crops, 1));
        } else {
            assert(branches_text(crops, i) + separator(i) + b =~= branches_text(crops, k));
        }
    } else {
        lemma_filter_graph_order(crops, i, (k - 1) as nat);
        let p = branches_text(crops, i) + separator(i) + b;
        let q = branches_text(crops, (k - 1) as nat);
        assert(branches_text(crops, k) == q + ";"@ + branch_text((k - 1) as nat, crops[k - 1]));
        assert forall|j: int| 0 <= j < p.len() implies p[j] == branches_text(crops, k)[j] by {
            assert(q[j] == branches_text(crops, k)[j]);
        }
    }
}

/// The whole graph: sample the video at the rate, split it into one branch per
/// trigger, then crop each branch for its trigger.
pub open spec fn graph_text(rate: SampleRate, crops: Seq<CropPercent>) -> Seq<char> {
    "[0:v]fps="@ + rate_text(rate) + ",split="@ + decimal(crops.len()) + in_labels(crops.len())
        + ";"@ + branches_text(crops, crops.len())
}

/// A share of a side in whole pixels: `round(side * share / 10000)`, halves up.
pub open spec fn scaled(side: nat, share: nat) -> nat {
    (side * share + 5000) / 10000
}

/// The pixel rectangle that a crop selects from a source frame of the given size.
pub open spec fn pixel_rect(source_width: nat, source_height: nat, c: CropPercent) -> PixelRect {
    PixelRect {
        x: scaled(source_width, c.x as nat) as u32,
        y: scaled(source_height, c.y as nat) as u32,
        width: scaled(source_width, c.width as nat) as u32,
        height: scaled(source_height, c.height as nat) as u32,
    }
}

/// A side in pixels that was computed from a share stays within half a pixel of it.
pub open spec fn within_half_pixel(side: nat, share: nat, pixels: nat) -> bool {
    -5000 <= (pixels * 10000) as int - (side * share) as int <= 5000
}

/// A share of at most the whole side scales to at most the side, within half a pixel.
proof fn lemma_scaled(side: nat, share: nat)
    requires
        share <= 10000,
    ensures
        scaled(side, share) <= side,
        within_half_pixel(side, share, scaled(side, share)),
{
    let p = scaled(side, share);
    let t = side * share + 5000;
    vstd::arithmetic::div_mod::lemma_fundamental_div_mod(t as int, 10000);
    vstd::arithmetic::div_mod::lemma_mod_bound(t as int, 10000);
    assert(side * share <= side * 10000) by (nonlinear_arith)
        requires
            share <= 10000,
    ;
    vstd::arithmetic::div_mod::lemma_div_is_ordered(t as int, (side * 10000 + 5000) as int, 10000);
    assert((side * 10000 + 5000) / 10000 == side) by (nonlinear_arith);
}

/// Computes the pixel rectangle of a crop on a source frame of the given size.
pub fn resolve_crop(source_width: u32, source_height: u32, crop: CropPercent) -> (r: PixelRect)
    requires
        crop_ok(crop),
    ensures
        r == pixel_rect(source_width as nat, source_height as nat, crop),
{
    proof {
        lemma_scaled(source_width as nat, crop.x as nat);
        lemma_scaled(source_height as nat, crop.y as nat);
        lemma_scaled(source_width as nat, crop.width as nat);
        lemma_scaled(source_height as nat, crop.height as nat);
        assert(source_width * crop.x <= 0xffff_ffff * 10000) by (nonlinear_arith)
            requires crop.x <= 10000, source_width <= 0xffff_ffff;
        assert(source_height * crop.y <= 0xffff_ffff * 10000) by (nonlinear_arith)
            requires crop.y <= 10000, source_height <= 0xffff_ffff;
        assert(source_width * crop.width <= 0xffff_ffff * 10000) by (nonlinear_arith)
            requires crop.width <= 10000, source_width <= 0xffff_ffff;
        assert(source_height * crop.height <= 0xffff_ffff * 10000) by (nonlinear_arith)
            requires crop.height <= 10000, source_height <= 0xffff_ffff;
    }
    let w = source_width as u64;
    let h = source_height as u64;
    PixelRect {
        x: ((w * crop.x as u64 + 5000) / 10000) as u32,
        y: ((h * crop.y as u64 + 5000) / 10000) as u32,
        width: ((w * crop.width as u64 + 5000) / 10000) as u32,
        height: ((h * crop.height as u64 + 5000) / 10000) as u32,
    }
}

/// Crop round trip: each side of the pixel rectangle, turned back into a share of
/// the source side, recovers the crop's share to within half a pixel.
pub proof fn lemma_crop_round_trip(source_width: u32, source_height: u32, crop: CropPercent)
    requires
        crop_ok(crop),
    ensures
        ({
            let p = pixel_rect(source_width as nat, source_height as nat, crop);
            within_half_pixel(source_width as nat, crop.x as nat, p.x as nat) && within_half_pixel(
                source_height as nat,
                crop.y as nat,
                p.y as nat,
            ) && within_half_pixel(source_width as nat, crop.width as nat, p.width as nat)
                && within_half_pixel(source_height as nat, crop.height as nat, p.height as nat)
        }),
{
    lemma_scaled(source_width as nat, crop.x as nat);
    lemma_scaled(source_height as nat, crop.y as nat);
    lemma_scaled(source_width as nat, crop.width as nat);
    lemma_scaled(source_height as nat, crop.height as nat);
}

/// Appends `head`, the decimal digits of `i`, and a closing bracket.
fn append_label(s: &mut String, head: &str, i: usize)
    ensures
        final(s)@ == old(s)@ + head@ + decimal(i as nat) + "]"@,
{
    s.append(head);
    append_decimal(s, i as u64);
    s.append("]");
    assert(final(s)@ =~= old(s)@ + head@ + decimal(i as nat) + "]"@);
}

/// The label of the output port of trigger `i`.
pub fn output_port(i: usize) -> (r: String)
    ensures
        r@ == port_label(i as nat),
{
    let mut s = String::new();
    append_label(&mut s, "[out", i);
    assert(s@ =~= port_label(i as nat));
    s
}

/// Appends the crop stage of trigger `i`.
fn append_branch(s: &mut String, i: usize, c: CropPercent)
    ensures
        final(s)@ == old(s)@ + branch_text(i as nat, c),
{
    append_label(s, "[in", i);
    s.append("crop=round(in_w*");
    append_decimal(s, c.width as u64);
    s.append("/10000):round(in_h*");
    append_decimal(s, c.height as u64);
    s.append("/10000):round(in_w*");
    append_decimal(s, c.x as u64);
    s.append("/10000):round(in_h*");
    append_decimal(s, c.y as u64);
    s.append("/10000)");
    append_label(s, "[out", i);
    assert(final(s)@ =~= old(s)@ + branch_text(i as nat, c));
}

/// Checks the sampling rate and every crop rectangle, in trigger order.
pub fn check_graph_inputs(rate: SampleRate, triggers: &Vec<Trigger>) -> (r: Result<(), InvalidGraphError>)
    ensures
        match r {
            Ok(_) => rate_ok(rate) && all_crops_ok(triggers@, triggers@.len() as int),
            Err(e) => graph_rejects(rate, triggers@, e),
        },
{
    if rate.frames == 0 || rate.seconds == 0 {
        return Err(InvalidGraphError::SampleRate);
    }
    let mut i: usize = 0;
    while i < triggers.len()
        invariant
            i <= triggers@.len(),
            rate_ok(rate),
            all_crops_ok(triggers@, i as int),
        decreases triggers@.len() - i,
    {
        let c = triggers[i].crop;
        if !(0 < c.width && c.width <= FULL_SPAN && 0 < c.height && c.height <= FULL_SPAN && c.x
            <= FULL_SPAN && c.y <= FULL_SPAN) {
            return Err(InvalidGraphError::Crop(i));
        }
        i = i + 1;
    }
    Ok(())
}

/// Builds the decoder's filter graph for `triggers`, sampled at `rate`: output port
/// `i` always carries the crop of trigger `i`.
pub fn build_filter_graph(rate: SampleRate, triggers: &Vec<Trigger>) -> (r: Result<
    FilterGraph,
    InvalidGraphError,
>)
    ensures
        match r {
            Ok(g) => rate_ok(rate) && all_crops_ok(triggers@, triggers@.len() as int)
                && g.description@ == graph_text(rate, crops_of(triggers@))
                && g.output_ports@.len() == triggers@.len() && (forall|j: int|
                0 <= j < triggers@.len() ==> (#[trigger] g.output_ports@[j])@ == port_label(
                j as nat,
            )),
            Err(e) => graph_rejects(rate, triggers@, e),
        },
{
    match check_graph_inputs(rate, triggers) {
        Err(e) => {
            return Err(e);
        },
        Ok(_) => {},
    }
    let ghost crops = crops_of(triggers@);
    let n = triggers.len();
    let mut s = String::from_str("[0:v]fps=");
    append_decimal(&mut s, rate.frames as u64);
    if rate.seconds != 1 {
        s.append("/");
        append_decimal(&mut s, rate.seconds as u64);
    }
    s.append(",split=");
    append_decimal(&mut s, n as u64);
    let ghost head = s@;
    assert(head =~= "[0:v]fps="@ + rate_text(rate) + ",split="@ + decimal(n as nat));
    let mut i: usize = 0;
    while i < n
        invariant
            i <= n,
            n == triggers@.len(),
            s@ == head + in_labels(i as nat),
        decreases n - i,
    {
        append_label(&mut s, "[in", i);
        i = i + 1;
        assert(s@ =~= head + in_labels(i as nat));
    }
    s.append(";");
    let ghost head2 = s@;
    let mut ports: Vec<String> = Vec::new();
    let mut k: usize = 0;
    assert(head2 =~= head2 + branches_text(crops, 0));
    while k < n
        invariant
            k <= n,
            n == triggers@.len(),
            crops == crops_of(triggers@),
            s@ == head2 + branches_text(crops, k as nat),
            ports@.len() == k,
            forall|j: int| 0 <= j < k ==> (#[trigger] ports@[j])@ == port_label(j as nat),
        decreases n - k,
    {
        if k > 0 {
            s.append(";");
        }
        append_branch(&mut s, k, triggers[k].crop);
        ports.push(output_port(k));
        k = k + 1;
        assert(crops[k - 1] == triggers@[k - 1].crop);
        assert(s@ =~= head2 + branches_text(crops, k as nat));
    }
    assert(s@ =~= graph_text(rate, crops));
    Ok(FilterGraph { description: s, output_ports: ports })
}

} // verus!
