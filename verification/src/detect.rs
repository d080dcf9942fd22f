//! Integer geometry of the face-detector adapter: scored boxes in
//! milli-pixels, intersection-over-union, non-maximum suppression, the
//! letterbox mapping, and grid decoding of distance-to-boundary
//! predictions.

use vstd::prelude::*;

verus! {

/// Coordinates are kept within this bound (about a million pixels in
/// milli-pixel units), so that areas and products stay well inside `i128`.
pub const COORD_BOUND: i64 = 0x4000_0000;

/// A scored face rectangle; corners in milli-pixels, score in milli-units
/// (sigmoid output times 1000).
#[derive(Clone, Copy, Debug, PartialEq, Eq, Structural)]
pub struct FaceBox {
    pub x1: i64,
    pub y1: i64,
    pub x2: i64,
    pub y2: i64,
    pub score_milli: u32,
}

/// A box whose coordinates are within `COORD_BOUND`.
pub open spec fn box_wf(b: FaceBox) -> bool {
    &&& -COORD_BOUND <= b.x1 <= COORD_BOUND
    &&& -COORD_BOUND <= b.y1 <= COORD_BOUND
    &&& -COORD_BOUND <= b.x2 <= COORD_BOUND
    &&& -COORD_BOUND <= b.y2 <= COORD_BOUND
}

/// Width of a box, floored at zero.
pub open spec fn width_of(b: FaceBox) -> int {
    if b.x2 >= b.x1 {
        b.x2 - b.x1
    } else {
        0
    }
}

/// Height of a box, floored at zero.
pub open spec fn height_of(b: FaceBox) -> int {
    if b.y2 >= b.y1 {
        b.y2 - b.y1
    } else {
        0
    }
}

/// Area of a box in squared milli-pixels.
pub open spec fn area_spec(b: FaceBox) -> int {
    width_of(b) * height_of(b)
}

/// Width of the intersection of two boxes, floored at zero.
pub open spec fn inter_width(a: FaceBox, b: FaceBox) -> int {
    let lo = if a.x1 >= b.x1 {
        a.x1 as int
    } else {
        b.x1 as int
    };
    let hi = if a.x2 <= b.x2 {
        a.x2 as int
    } else {
        b.x2 as int
    };
    if hi >= lo {
        hi - lo
    } else {
        0
    }
}

/// Height of the intersection of two boxes, floored at zero.
pub open spec fn inter_height(a: FaceBox, b: FaceBox) -> int {
    let lo = if a.y1 >= b.y1 {
        a.y1 as int
    } else {
        b.y1 as int
    };
    let hi = if a.y2 <= b.y2 {
        a.y2 as int
    } else {
        b.y2 as int
    };
    if hi >= lo {
        hi - lo
    } else {
        0
    }
}

/// Area of the intersection of two boxes.
pub open spec fn inter_area(a: FaceBox, b: FaceBox) -> int {
    inter_width(a, b) * inter_height(a, b)
}

/// Area of the union of two boxes.
pub open spec fn union_area(a: FaceBox, b: FaceBox) -> int {
    area_spec(a) + area_spec(b) - inter_area(a, b)
}

/// Intersection over union in permille, truncated; zero when the boxes do
/// not overlap or the union is degenerate.
pub open spec fn iou_permille_spec(a: FaceBox, b: FaceBox) -> int {
    if inter_area(a, b) <= 0 {
        0
    } else if union_area(a, b) <= 0 {
        0
    } else {
        1000 * inter_area(a, b) / union_area(a, b)
    }
}

impl FaceBox {
    /// Area of this box in squared milli-pixels.
    pub fn area(&self) -> (r: i64)
        requires
            box_wf(*self),
        ensures
            r == area_spec(*self),
            0 <= r,
    {
        let w: i64 = if self.x2 >= self.x1 {
            self.x2 - self.x1
        } else {
            0
        };
        let h: i64 = if self.y2 >= self.y1 {
            self.y2 - self.y1
        } else {
            0
        };
        proof {
            assert(w * h <= 0x8000_0000i64 * 0x8000_0000i64 && 0 <= w * h) by (nonlinear_arith)
                requires
                    0 <= w <= 0x8000_0000i64,
                    0 <= h <= 0x8000_0000i64,
            ;
        }
        w * h
    }
}

/// The intersection of two boxes is no larger than either box, so the
/// intersection never exceeds the union.
proof fn lemma_inter_le_union(a: FaceBox, b: FaceBox)
    requires
        box_wf(a),
        box_wf(b),
    ensures
        inter_area(a, b) <= area_spec(a),
        inter_area(a, b) <= area_spec(b),
        inter_area(a, b) <= union_area(a, b),
{
    let iw = inter_width(a, b);
    let ih = inter_height(a, b);
    assert(iw <= width_of(a) && iw <= width_of(b) && 0 <= iw);
    assert(ih <= height_of(a) && ih <= height_of(b) && 0 <= ih);
    assert(iw * ih <= width_of(a) * height_of(a)) by (nonlinear_arith)
        requires
            0 <= iw <= width_of(a),
            0 <= ih <= height_of(a),
    ;
    assert(iw * ih <= width_of(b) * height_of(b)) by (nonlinear_arith)
        requires
            0 <= iw <= width_of(b),
            0 <= ih <= height_of(b),
    ;
}

/// Intersection over union of two boxes, in permille.
pub fn intersection_over_union(a: &FaceBox, b: &FaceBox) -> (r: u32)
    requires
        box_wf(*a),
        box_wf(*b),
    ensures
        r == iou_permille_spec(*a, *b),
        r <= 1000,
{
    let lo_x: i64 = if a.x1 >= b.x1 {
        a.x1
    } else {
        b.x1
    };
    let hi_x: i64 = if a.x2 <= b.x2 {
        a.x2
    } else {
        b.x2
    };
    let lo_y: i64 = if a.y1 >= b.y1 {
        a.y1
    } else {
        b.y1
    };
    let hi_y: i64 = if a.y2 <= b.y2 {
        a.y2
    } else {
        b.y2
    };
    let iw: i64 = if hi_x >= lo_x {
        hi_x - lo_x
    } else {
        0
    };
    let ih: i64 = if hi_y >= lo_y {
        hi_y - lo_y
    } else {
        0
    };
    proof {
        assert(0 <= (iw as i128) * (ih as i128) <= 0x8000_0000i128 * 0x8000_0000i128)
            by (nonlinear_arith)
            requires
                0 <= iw <= 0x8000_0000i64,
                0 <= ih <= 0x8000_0000i64,
        ;
    }
    let inter: i128 = (iw as i128) * (ih as i128);
    proof {
        assert(iw == inter_width(*a, *b));
        assert(ih == inter_height(*a, *b));
        assert(inter == inter_area(*a, *b));
    }
    if inter <= 0 {
        return 0;
    }
    let area_a: i64 = a.area();
    let area_b: i64 = b.area();
    let denom: i128 = (area_a as i128) + (area_b as i128) - inter;
    if denom <= 0 {
        return 0;
    }
    proof {
        lemma_inter_le_union(*a, *b);
    }
    let q: i128 = 1000 * inter / denom;
    proof {
        assert(1000 * inter <= 1000 * denom) by (nonlinear_arith)
            requires
                0 < inter <= denom,
        ;
        vstd::arithmetic::div_mod::lemma_div_is_ordered(
            1000 * inter as int,
            1000 * denom as int,
            denom as int,
        );
        vstd::arithmetic::div_mod::lemma_div_by_multiple(1000, denom as int);
        vstd::arithmetic::div_mod::lemma_div_pos_is_pos(1000 * inter as int, denom as int);
    }
    q as u32
}

/// Index of a box with the highest score.
fn max_score_index(v: &Vec<FaceBox>) -> (m: usize)
    requires
        v@.len() > 0,
    ensures
        m < v@.len(),
        forall|j: int| 0 <= j < v@.len() ==> v@[m as int].score_milli >= v@[j].score_milli,
{
    let mut m: usize = 0;
    let mut i: usize = 1;
    while i < v.len()
        invariant
            0 <= m < v@.len(),
            1 <= i <= v@.len(),
            forall|j: int| 0 <= j < i ==> v@[m as int].score_milli >= v@[j].score_milli,
        decreases v@.len() - i,
    {
        if v[i].score_milli > v[m].score_milli {
            m = i;
        }
        i = i + 1;
    }
    m
}

/// Non-maximum suppression: walk the boxes in descending score order and
/// keep a candidate exactly when its overlap with every box already kept is
/// below the threshold. The result lists kept boxes by descending score;
/// every input box either survives or overlaps a kept box of at least its
/// score by at least the threshold.
pub fn non_max_suppression(boxes: Vec<FaceBox>, iou_threshold_permille: u32) -> (r: Vec<FaceBox>)
    requires
        forall|i: int| 0 <= i < boxes@.len() ==> box_wf(#[trigger] boxes@[i]),
    ensures
        forall|i: int| 0 <= i < r@.len() ==> boxes@.contains(#[trigger] r@[i]),
        forall|i: int, j: int|
            0 <= i <= j < r@.len() ==> r@[i].score_milli >= r@[j].score_milli,
        forall|i: int, j: int|
            0 <= i < j < r@.len() ==> iou_permille_spec(r@[j], r@[i]) < iou_threshold_permille,
        forall|k: int|
            0 <= k < boxes@.len() ==> r@.contains(#[trigger] boxes@[k]) || (exists|j: int|
                0 <= j < r@.len() && r@[j].score_milli >= boxes@[k].score_milli
                    && iou_permille_spec(boxes@[k], r@[j]) >= iou_threshold_permille),
{
    let mut work = boxes;
    let ghost input = work@;
    let mut out: Vec<FaceBox> = Vec::new();
    while work.len() > 0
        invariant
            input == boxes@,
            forall|i: int|
                0 <= i < work@.len() ==> box_wf(#[trigger] work@[i]) && input.contains(work@[i]),
            forall|i: int|
                0 <= i < out@.len() ==> box_wf(#[trigger] out@[i]) && input.contains(out@[i]),
            forall|i: int, j: int|
                0 <= i <= j < out@.len() ==> out@[i].score_milli >= out@[j].score_milli,
            forall|i: int, j: int|
                0 <= i < out@.len() && 0 <= j < work@.len() ==> out@[i].score_milli
                    >= work@[j].score_milli,
            forall|i: int, j: int|
                0 <= i < j < out@.len() ==> iou_permille_spec(out@[j], out@[i])
                    < iou_threshold_permille,
            forall|k: int|
                0 <= k < input.len() ==> work@.contains(#[trigger] input[k]) || out@.contains(
                    input[k],
                ) || (exists|j: int|
                    0 <= j < out@.len() && out@[j].score_milli >= input[k].score_milli
                        && iou_permille_spec(input[k], out@[j]) >= iou_threshold_permille),
        decreases work@.len(),
    {
        let m = max_score_index(&work);
        let ghost old_work = work@;
        let ghost old_out = out@;
        let cand = work.remove(m);
        proof {
            assert(cand == old_work[m as int]);
            assert forall|i: int| 0 <= i < work@.len() implies box_wf(#[trigger] work@[i])
                && input.contains(work@[i]) && cand.score_milli >= work@[i].score_milli by {
                if i < m {
                    assert(work@[i] == old_work[i]);
                } else {
                    assert(work@[i] == old_work[i + 1]);
                }
            };
        }
        let mut keep = true;
        let mut i: usize = 0;
        while i < out.len()
            invariant
                0 <= i <= out@.len(),
                forall|t: int| 0 <= t < out@.len() ==> box_wf(#[trigger] out@[t]),
                box_wf(cand),
                keep ==> forall|t: int|
                    0 <= t < i ==> iou_permille_spec(cand, #[trigger] out@[t])
                        < iou_threshold_permille,
                !keep ==> exists|t: int|
                    0 <= t < out@.len() && iou_permille_spec(cand, #[trigger] out@[t])
                        >= iou_threshold_permille,
            decreases out@.len() - i,
        {
            let v = intersection_over_union(&cand, &out[i]);
            if v >= iou_threshold_permille {
                keep = false;
            }
            i = i + 1;
        }
        if keep {
            out.push(cand);
            proof {
                assert forall|a: int, b: int| 0 <= a < b < out@.len() implies iou_permille_spec(
                    out@[b],
                    out@[a],
                ) < iou_threshold_permille by {
                    if b < out@.len() - 1 {
                        assert(out@[a] == old_out[a] && out@[b] == old_out[b]);
                    } else {
                        assert(out@[b] == cand && out@[a] == old_out[a]);
                    }
                };
            }
        }
        proof {
            assert forall|k: int| 0 <= k < input.len() implies work@.contains(#[trigger] input[k])
                || out@.contains(input[k]) || (exists|j: int|
                0 <= j < out@.len() && out@[j].score_milli >= input[k].score_milli
                    && iou_permille_spec(input[k], out@[j]) >= iou_threshold_permille) by {
                if old_work.contains(input[k]) {
                    let j0 = choose|j0: int| 0 <= j0 < old_work.len() && old_work[j0] == input[k];
                    if j0 == m {
                        if keep {
                            assert(out@[out@.len() - 1] == cand);
                            assert(out@.contains(input[k]));
                        } else {
                            let t = choose|t: int|
                                0 <= t < old_out.len() && iou_permille_spec(cand, old_out[t])
                                    >= iou_threshold_permille;
                            assert(old_out[t].score_milli >= old_work[m as int].score_milli);
                            assert(out@[t] == old_out[t]);
                            assert(0 <= t < out@.len() && out@[t].score_milli
                                >= input[k].score_milli && iou_permille_spec(input[k], out@[t])
                                >= iou_threshold_permille);
                        }
                    } else if j0 < m {
                        assert(work@[j0] == old_work[j0]);
                        assert(work@.contains(input[k]));
                    } else {
                        assert(work@[j0 - 1] == old_work[j0]);
                        assert(work@.contains(input[k]));
                    }
                } else if old_out.contains(input[k]) {
                    let j0 = choose|j0: int| 0 <= j0 < old_out.len() && old_out[j0] == input[k];
                    assert(out@[j0] == old_out[j0]);
                    assert(out@.contains(input[k]));
                } else {
                    let j = choose|j: int|
                        0 <= j < old_out.len() && old_out[j].score_milli >= input[k].score_milli
                            && iou_permille_spec(input[k], old_out[j]) >= iou_threshold_permille;
                    assert(out@[j] == old_out[j]);
                }
            };
        }
    }
    out
}

/// Division rounded to the nearest integer, halves up.
pub open spec fn round_div(a: int, b: int) -> int
    recommends
        b > 0,
{
    (2 * a + b) / (2 * b)
}

/// The placement of a source image letterboxed into a destination canvas:
/// the scaled size and the centering offsets, all in whole pixels.
pub struct LetterboxGeometry {
    pub new_w: u32,
    pub new_h: u32,
    pub dx: u32,
    pub dy: u32,
}

/// A product of a quotient's numerator bound carries to the quotient.
proof fn lemma_round_div_le(a: int, b: int, q: int)
    requires
        b > 0,
        a <= q * b,
        0 <= a,
        0 <= q,
    ensures
        0 <= round_div(a, b) <= q,
{
    assert(2 * a + b <= q * (2 * b) + b) by (nonlinear_arith)
        requires
            a <= q * b,
    ;
    vstd::arithmetic::div_mod::lemma_div_is_ordered(2 * a + b, q * (2 * b) + b, 2 * b);
    assert((q * (2 * b) + b) / (2 * b) == q) by {
        vstd::arithmetic::div_mod::lemma_fundamental_div_mod_converse(
            q * (2 * b) + b,
            2 * b,
            q,
            b,
        );
    };
    vstd::arithmetic::div_mod::lemma_div_pos_is_pos(2 * a + b, 2 * b);
}

/// Scale a source image into a destination canvas preserving aspect ratio:
/// the scale is the smaller of the two axis ratios, the scaled size is
/// rounded to the nearest pixel, and the image is centered.
pub fn letterbox_geometry(src_w: u32, src_h: u32, dst_w: u32, dst_h: u32) -> (g: LetterboxGeometry)
    requires
        src_w > 0,
        src_h > 0,
        dst_w > 0,
        dst_h > 0,
    ensures
        g.new_w <= dst_w,
        g.new_h <= dst_h,
        dst_w * src_h <= dst_h * src_w ==> g.new_w == dst_w && g.new_h == round_div(
            src_h as int * dst_w as int,
            src_w as int,
        ),
        dst_w * src_h > dst_h * src_w ==> g.new_h == dst_h && g.new_w == round_div(
            src_w as int * dst_h as int,
            src_h as int,
        ),
        g.dx == (dst_w - g.new_w) / 2,
        g.dy == (dst_h - g.new_h) / 2,
{
    let sw = src_w as u128;
    let sh = src_h as u128;
    let dw = dst_w as u128;
    let dh = dst_h as u128;
    proof {
        assert(dw * sh <= 0xffff_ffffu128 * 0xffff_ffffu128 && dh * sw <= 0xffff_ffffu128
            * 0xffff_ffffu128 && sh * dw <= 0xffff_ffffu128 * 0xffff_ffffu128 && sw * dh
            <= 0xffff_ffffu128 * 0xffff_ffffu128) by (nonlinear_arith)
            requires
                0 <= sw <= 0xffff_ffffu128,
                0 <= sh <= 0xffff_ffffu128,
                0 <= dw <= 0xffff_ffffu128,
                0 <= dh <= 0xffff_ffffu128,
        ;
    }
    let new_w: u32;
    let new_h: u32;
    if dw * sh <= dh * sw {
        new_w = dst_w;
        let num: u128 = 2 * (sh * dw) + sw;
        let den: u128 = 2 * sw;
        proof {
            assert((sh * dw) as int <= (dh as int) * (sw as int)) by (nonlinear_arith)
                requires
                    (dw as int) * (sh as int) <= (dh as int) * (sw as int),
            ;
            lemma_round_div_le((sh * dw) as int, sw as int, dh as int);
        }
        new_h = (num / den) as u32;
    } else {
        new_h = dst_h;
        let num: u128 = 2 * (sw * dh) + sh;
        let den: u128 = 2 * sh;
        proof {
            assert((sw * dh) as int <= (dw as int) * (sh as int)) by (nonlinear_arith)
                requires
                    (dw as int) * (sh as int) > (dh as int) * (sw as int),
            ;
            lemma_round_div_le((sw * dh) as int, sh as int, dw as int);
        }
        new_w = (num / den) as u32;
    }
    LetterboxGeometry { new_w, new_h, dx: (dst_w - new_w) / 2, dy: (dst_h - new_h) / 2 }
}

/// Map one letterboxed coordinate (milli-pixels) back to the source image:
/// undo the offset, scale by source over scaled size, and clamp into the
/// source, as the adapter does after suppression.
pub open spec fn unmap_spec(v_milli: int, offset_px: int, src_px: int, scaled_px: int) -> int
    recommends
        scaled_px > 0,
        src_px > 0,
{
    let t = (v_milli - 1000 * offset_px) * src_px;
    let hi = 1000 * (src_px - 1);
    if t < 0 {
        0
    } else if t / scaled_px > hi {
        hi
    } else {
        t / scaled_px
    }
}

/// Map a coordinate back to source pixels; see `unmap_spec`.
pub fn unmap_coord(v_milli: i64, offset_px: u32, src_px: u32, scaled_px: u32) -> (r: i64)
    requires
        scaled_px > 0,
        src_px > 0,
        -COORD_BOUND <= v_milli <= COORD_BOUND,
    ensures
        r == unmap_spec(v_milli as int, offset_px as int, src_px as int, scaled_px as int),
        0 <= r <= 1000 * (src_px - 1),
{
    let diff: i128 = (v_milli as i128) - 1000 * (offset_px as i128);
    proof {
        assert(-0x1_0000_0000_0000i128 * 0x1_0000_0000i128 <= diff * (src_px as i128)
            <= 0x1_0000_0000_0000i128 * 0x1_0000_0000i128) by (nonlinear_arith)
            requires
                -0x1_0000_0000_0000i128 <= diff <= 0x1_0000_0000_0000i128,
                0 <= (src_px as i128) <= 0x1_0000_0000i128,
        ;
    }
    let t: i128 = diff * (src_px as i128);
    let hi: i128 = 1000 * ((src_px - 1) as i128);
    if t < 0 {
        return 0;
    }
    let q: i128 = t / (scaled_px as i128);
    proof {
        vstd::arithmetic::div_mod::lemma_div_pos_is_pos(t as int, scaled_px as int);
    }
    if q > hi {
        proof {
            assert(hi <= 1000 * 0xffff_ffffi128);
        }
        return (hi as i64);
    }
    q as i64
}

/// The score-grid index decoded as a box, in milli-pixels: the cell center
/// scaled by the stride, pushed out by the four distance predictions.
pub open spec fn decoded_x1(bbox: Seq<i64>, gw: int, apc: int, stride: int, i: int) -> int {
    ((i / apc) % gw * 1000 + 500) * stride - bbox[4 * i] * stride
}

/// The decoded top edge of grid index `i`.
pub open spec fn decoded_y1(bbox: Seq<i64>, gw: int, apc: int, stride: int, i: int) -> int {
    (i / apc / gw * 1000 + 500) * stride - bbox[4 * i + 1] * stride
}

/// The decoded right edge of grid index `i`.
pub open spec fn decoded_x2(bbox: Seq<i64>, gw: int, apc: int, stride: int, i: int) -> int {
    ((i / apc) % gw * 1000 + 500) * stride + bbox[4 * i + 2] * stride
}

/// The decoded bottom edge of grid index `i`.
pub open spec fn decoded_y2(bbox: Seq<i64>, gw: int, apc: int, stride: int, i: int) -> int {
    (i / apc / gw * 1000 + 500) * stride + bbox[4 * i + 3] * stride
}

/// Whether grid index `i` yields a box: score at threshold and a proper
/// rectangle.
pub open spec fn decoded_kept(
    scores: Seq<u32>,
    bbox: Seq<i64>,
    gw: int,
    apc: int,
    stride: int,
    thr: u32,
    i: int,
) -> bool {
    &&& scores[i] >= thr
    &&& decoded_x2(bbox, gw, apc, stride, i) > decoded_x1(bbox, gw, apc, stride, i)
    &&& decoded_y2(bbox, gw, apc, stride, i) > decoded_y1(bbox, gw, apc, stride, i)
}

/// The boxes decoded from the first `n` grid indices.
pub open spec fn decode_prefix(
    scores: Seq<u32>,
    bbox: Seq<i64>,
    gw: int,
    apc: int,
    stride: int,
    thr: u32,
    n: int,
) -> Seq<FaceBox>
    decreases n,
{
    if n <= 0 {
        Seq::empty()
    } else {
        let prev = decode_prefix(scores, bbox, gw, apc, stride, thr, n - 1);
        if decoded_kept(scores, bbox, gw, apc, stride, thr, n - 1) {
            prev.push(
                FaceBox {
                    x1: decoded_x1(bbox, gw, apc, stride, n - 1) as i64,
                    y1: decoded_y1(bbox, gw, apc, stride, n - 1) as i64,
                    x2: decoded_x2(bbox, gw, apc, stride, n - 1) as i64,
                    y2: decoded_y2(bbox, gw, apc, stride, n - 1) as i64,
                    score_milli: scores[n - 1],
                },
            )
        } else {
            prev
        }
    }
}

/// Decode one output stride: for each grid cell and anchor, keep the boxes
/// whose score clears the threshold and whose edges form a rectangle.
/// Scores are in milli-units (already through the sigmoid); distances in
/// milli-pixels.
pub fn decode_scale(
    boxes_out: &mut Vec<FaceBox>,
    scores_milli: &Vec<u32>,
    bbox_milli: &Vec<i64>,
    grid_w: usize,
    grid_h: usize,
    anchors_per_cell: usize,
    stride: usize,
    score_threshold_milli: u32,
) -> (count: usize)
    requires
        grid_w >= 1,
        grid_h >= 1,
        grid_w <= 4096,
        grid_h <= 4096,
        1 <= anchors_per_cell <= 4,
        1 <= stride <= 64,
        scores_milli@.len() == grid_w * grid_h * anchors_per_cell,
        bbox_milli@.len() == 4 * scores_milli@.len(),
        forall|i: int|
            0 <= i < bbox_milli@.len() ==> -1_000_000 <= #[trigger] bbox_milli@[i] <= 1_000_000,
    ensures
        final(boxes_out)@ == old(boxes_out)@ + decode_prefix(
            scores_milli@,
            bbox_milli@,
            grid_w as int,
            anchors_per_cell as int,
            stride as int,
            score_threshold_milli,
            scores_milli@.len() as int,
        ),
        count == decode_prefix(
            scores_milli@,
            bbox_milli@,
            grid_w as int,
            anchors_per_cell as int,
            stride as int,
            score_threshold_milli,
            scores_milli@.len() as int,
        ).len(),
        forall|i: int|
            old(boxes_out)@.len() <= i < final(boxes_out)@.len() ==> box_wf(
                #[trigger] final(boxes_out)@[i],
            ),
{
    let num = scores_milli.len();
    let blen = bbox_milli.len();
    let ghost base = boxes_out@;
    let mut count: usize = 0;
    let mut i: usize = 0;
    while i < num
        invariant
            0 <= i <= num,
            count <= i,
            num == scores_milli@.len(),
            blen == bbox_milli@.len(),
            num == grid_w * grid_h * anchors_per_cell,
            bbox_milli@.len() == 4 * num,
            grid_w >= 1,
            grid_h >= 1,
            grid_w <= 4096,
            grid_h <= 4096,
            1 <= anchors_per_cell <= 4,
            1 <= stride <= 64,
            forall|k: int|
                0 <= k < bbox_milli@.len() ==> -1_000_000 <= #[trigger] bbox_milli@[k]
                    <= 1_000_000,
            boxes_out@ == base + decode_prefix(
                scores_milli@,
                bbox_milli@,
                grid_w as int,
                anchors_per_cell as int,
                stride as int,
                score_threshold_milli,
                i as int,
            ),
            count == decode_prefix(
                scores_milli@,
                bbox_milli@,
                grid_w as int,
                anchors_per_cell as int,
                stride as int,
                score_threshold_milli,
                i as int,
            ).len(),
            forall|k: int|
                base.len() <= k < boxes_out@.len() ==> box_wf(#[trigger] boxes_out@[k]),
        decreases num - i,
    {
        let s = scores_milli[i];
        if s >= score_threshold_milli {
            let cell = i / anchors_per_cell;
            proof {
                assert(cell < grid_w * grid_h) by (nonlinear_arith)
                    requires
                        cell == i as int / anchors_per_cell as int,
                        i < grid_w * grid_h * anchors_per_cell,
                        anchors_per_cell >= 1,
                        grid_w >= 1,
                        grid_h >= 1,
                ;
                assert(cell / grid_w < grid_h) by (nonlinear_arith)
                    requires
                        cell < grid_w * grid_h,
                        grid_w >= 1,
                        grid_h >= 1,
                        cell >= 0,
                ;
            }
            let cx_cell = cell % grid_w;
            let cy_cell = cell / grid_w;
            let base_x: i64 = (cx_cell as i64) * 1000 + 500;
            let base_y: i64 = (cy_cell as i64) * 1000 + 500;
            proof {
                assert(0 <= base_x * (stride as i64) <= 4096500 * 64 && 0 <= base_y * (stride
                    as i64) <= 4096500 * 64) by (nonlinear_arith)
                    requires
                        0 <= base_x <= 4096500,
                        0 <= base_y <= 4096500,
                        1 <= (stride as i64) <= 64,
                ;
            }
            let cx_milli: i64 = base_x * (stride as i64);
            let cy_milli: i64 = base_y * (stride as i64);
            let dl = bbox_milli[4 * i];
            let dt = bbox_milli[4 * i + 1];
            let dr = bbox_milli[4 * i + 2];
            let db = bbox_milli[4 * i + 3];
            proof {
                assert(-1_000_000 * 64 <= dl as int * stride <= 1_000_000 * 64 && -1_000_000 * 64
                    <= dt as int * stride <= 1_000_000 * 64 && -1_000_000 * 64 <= dr as int
                    * stride <= 1_000_000 * 64 && -1_000_000 * 64 <= db as int * stride
                    <= 1_000_000 * 64) by (nonlinear_arith)
                    requires
                        -1_000_000 <= dl as int <= 1_000_000,
                        -1_000_000 <= dt as int <= 1_000_000,
                        -1_000_000 <= dr as int <= 1_000_000,
                        -1_000_000 <= db as int <= 1_000_000,
                        1 <= stride <= 64,
                ;
            }
            let x1: i64 = cx_milli - dl * (stride as i64);
            let y1: i64 = cy_milli - dt * (stride as i64);
            let x2: i64 = cx_milli + dr * (stride as i64);
            let y2: i64 = cy_milli + db * (stride as i64);
            if x2 > x1 && y2 > y1 {
                boxes_out.push(FaceBox { x1, y1, x2, y2, score_milli: s });
                count = count + 1;
            }
        }
        i = i + 1;
    }
    count
}

/// The adapter's fixed decoding parameters: input size, normalization
/// constants in milli-units, thresholds, tensor names, and the three
/// output strides with two anchors per cell.
pub struct DetectorParams {
    pub input_width: usize,
    pub input_height: usize,
    pub mean_milli: Vec<i32>,
    pub std_milli: Vec<i32>,
    pub score_threshold_milli: u32,
    pub iou_threshold_permille: u32,
    pub input_name: String,
    pub score_outputs: Vec<String>,
    pub bbox_outputs: Vec<String>,
    pub kps_outputs: Vec<String>,
    pub strides: Vec<usize>,
    pub anchors_per_cell: usize,
}

impl DetectorParams {
    /// The stock parameters for a detector with the given input size.
    pub fn new(input_width: usize, input_height: usize) -> (p: Self)
        ensures
            p.input_width == input_width,
            p.input_height == input_height,
            p.mean_milli@ == seq![500i32, 500i32, 500i32],
            p.std_milli@ == seq![500i32, 500i32, 500i32],
            p.score_threshold_milli == 500,
            p.iou_threshold_permille == 400,
            p.input_name@ == "input.1"@,
            p.score_outputs@.len() == 3 && p.score_outputs@[0]@ == "446"@ && p.score_outputs@[1]@
                == "466"@ && p.score_outputs@[2]@ == "486"@,
            p.bbox_outputs@.len() == 3 && p.bbox_outputs@[0]@ == "449"@ && p.bbox_outputs@[1]@
                == "469"@ && p.bbox_outputs@[2]@ == "489"@,
            p.kps_outputs@.len() == 3 && p.kps_outputs@[0]@ == "452"@ && p.kps_outputs@[1]@
                == "472"@ && p.kps_outputs@[2]@ == "492"@,
            p.strides@ == seq![8usize, 16usize, 32usize],
            p.anchors_per_cell == 2,
    {
        let mut mean_milli: Vec<i32> = Vec::new();
        mean_milli.push(500);
        mean_milli.push(500);
        mean_milli.push(500);
        let mut std_milli: Vec<i32> = Vec::new();
        std_milli.push(500);
        std_milli.push(500);
        std_milli.push(500);
        let mut score_outputs: Vec<String> = Vec::new();
        score_outputs.push("446".to_owned());
        score_outputs.push("466".to_owned());
        score_outputs.push("486".to_owned());
        let mut bbox_outputs: Vec<String> = Vec::new();
        bbox_outputs.push("449".to_owned());
        bbox_outputs.push("469".to_owned());
        bbox_outputs.push("489".to_owned());
        let mut kps_outputs: Vec<String> = Vec::new();
        kps_outputs.push("452".to_owned());
        kps_outputs.push("472".to_owned());
        kps_outputs.push("492".to_owned());
        let mut strides: Vec<usize> = Vec::new();
        strides.push(8);
        strides.push(16);
        strides.push(32);
        proof {
            assert(mean_milli@ =~= seq![500i32, 500i32, 500i32]);
            assert(std_milli@ =~= seq![500i32, 500i32, 500i32]);
            assert(strides@ =~= seq![8usize, 16usize, 32usize]);
        }
        DetectorParams {
            input_width,
            input_height,
            mean_milli,
            std_milli,
            score_threshold_milli: 500,
            iou_threshold_permille: 400,
            input_name: "input.1".to_owned(),
            score_outputs,
            bbox_outputs,
            kps_outputs,
            strides,
            anchors_per_cell: 2,
        }
    }
}

} // verus!
