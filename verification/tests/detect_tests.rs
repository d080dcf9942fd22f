use liveness::detect::{
    decode_scale, intersection_over_union, letterbox_geometry, non_max_suppression, unmap_coord,
    DetectorParams, FaceBox,
};

fn make_box(x1: i64, y1: i64, x2: i64, y2: i64, score_milli: u32) -> FaceBox {
    FaceBox { x1, y1, x2, y2, score_milli }
}

#[test]
fn area_of_a_box() {
    let b = make_box(0, 0, 2000, 3000, 500);
    assert_eq!(b.area(), 6_000_000);
    let inverted = make_box(2000, 0, 0, 3000, 500);
    assert_eq!(inverted.area(), 0);
}

#[test]
fn iou_of_identical_boxes_is_full() {
    let b = make_box(0, 0, 1000, 1000, 500);
    assert_eq!(intersection_over_union(&b, &b), 1000);
}

#[test]
fn iou_of_disjoint_boxes_is_zero() {
    let a = make_box(0, 0, 1000, 1000, 500);
    let b = make_box(2000, 2000, 3000, 3000, 500);
    assert_eq!(intersection_over_union(&a, &b), 0);
}

#[test]
fn iou_of_half_overlap_is_a_third() {
    // Each box 2x1; intersection 1x1; union 3.
    let a = make_box(0, 0, 2000, 1000, 500);
    let b = make_box(1000, 0, 3000, 1000, 500);
    assert_eq!(intersection_over_union(&a, &b), 333);
}

#[test]
fn nms_keeps_highest_and_drops_overlaps() {
    let strong = make_box(0, 0, 1000, 1000, 900);
    let overlapping = make_box(100, 100, 1100, 1100, 800);
    let separate = make_box(5000, 5000, 6000, 6000, 700);
    let kept = non_max_suppression(vec![overlapping, strong, separate], 400);
    assert_eq!(kept.len(), 2);
    assert_eq!(kept[0], strong);
    assert_eq!(kept[1], separate);
}

#[test]
fn nms_keeps_everything_below_threshold() {
    let a = make_box(0, 0, 1000, 1000, 900);
    let b = make_box(900, 900, 1900, 1900, 800);
    let kept = non_max_suppression(vec![a, b], 400);
    assert_eq!(kept.len(), 2);
}

#[test]
fn letterbox_pads_the_short_axis() {
    let g = letterbox_geometry(640, 480, 640, 640);
    assert_eq!(g.new_w, 640);
    assert_eq!(g.new_h, 480);
    assert_eq!(g.dx, 0);
    assert_eq!(g.dy, 80);
}

#[test]
fn letterbox_scales_down_wide_sources() {
    let g = letterbox_geometry(1280, 720, 640, 640);
    assert_eq!(g.new_w, 640);
    assert_eq!(g.new_h, 360);
    assert_eq!(g.dx, 0);
    assert_eq!(g.dy, 140);
}

#[test]
fn letterbox_scales_tall_sources() {
    let g = letterbox_geometry(480, 640, 640, 640);
    assert_eq!(g.new_h, 640);
    assert_eq!(g.new_w, 480);
    assert_eq!(g.dx, 80);
    assert_eq!(g.dy, 0);
}

#[test]
fn unmap_scales_and_clamps() {
    // Letterboxed 640x640 canvas holding a 1280x720 source at 640x360,
    // offset (0, 140): canvas y 140 maps to source y 0, canvas y 500 maps
    // to the bottom edge.
    assert_eq!(unmap_coord(140_000, 140, 720, 360), 0);
    assert_eq!(unmap_coord(320_000, 140, 720, 360), 360_000);
    assert_eq!(unmap_coord(0, 140, 720, 360), 0);
    assert_eq!(unmap_coord(700_000, 140, 720, 360), 719_000);
}

#[test]
fn decode_scale_emits_centered_boxes() {
    // A 2x2 grid, one anchor, stride 8. Only the second cell clears the
    // score threshold.
    let scores = vec![100u32, 800, 400, 499];
    let bbox = vec![
        0, 0, 0, 0, // cell (0,0), dropped by score
        1000, 2000, 3000, 4000, // cell (1,0), kept
        0, 0, 1000, 1000, // cell (0,1), dropped by score
        0, 0, 1000, 1000, // cell (1,1), dropped by score
    ];
    let mut out = Vec::new();
    let count = decode_scale(&mut out, &scores, &bbox, 2, 2, 1, 8, 500);
    assert_eq!(count, 1);
    assert_eq!(out.len(), 1);
    // Cell (1,0): center ((1.5)*8, (0.5)*8) = (12, 4) px; box edges are
    // center -/+ distance * stride.
    assert_eq!(out[0].x1, 12_000 - 8_000);
    assert_eq!(out[0].y1, 4_000 - 16_000);
    assert_eq!(out[0].x2, 12_000 + 24_000);
    assert_eq!(out[0].y2, 4_000 + 32_000);
    assert_eq!(out[0].score_milli, 800);
}

#[test]
fn decode_scale_drops_degenerate_rectangles() {
    let scores = vec![900u32];
    let bbox = vec![0, 0, 0, 0];
    let mut out = Vec::new();
    let count = decode_scale(&mut out, &scores, &bbox, 1, 1, 1, 8, 500);
    assert_eq!(count, 0);
    assert!(out.is_empty());
}

#[test]
fn detector_params_defaults() {
    let p = DetectorParams::new(640, 640);
    assert_eq!(p.input_width, 640);
    assert_eq!(p.input_height, 640);
    assert_eq!(p.mean_milli, vec![500, 500, 500]);
    assert_eq!(p.std_milli, vec![500, 500, 500]);
    assert_eq!(p.score_threshold_milli, 500);
    assert_eq!(p.iou_threshold_permille, 400);
    assert_eq!(p.input_name, "input.1");
    assert_eq!(p.strides, vec![8, 16, 32]);
    assert_eq!(p.anchors_per_cell, 2);
    assert_eq!(p.score_outputs, vec!["446", "466", "486"]);
    assert_eq!(p.bbox_outputs, vec!["449", "469", "489"]);
    assert_eq!(p.kps_outputs, vec!["452", "472", "492"]);
}
