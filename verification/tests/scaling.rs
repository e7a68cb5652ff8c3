use std::cmp::Ordering;
use vibeboy::scaling::cell_graph::{build_cell_graph, ControlPoint};
use vibeboy::scaling::node_map::build_node_map;
use vibeboy::scaling::optimize::{crossing_pair_of, motion_of, stand_in, stem_snap_of, Motion};
use vibeboy::scaling::picture::{blend_argb, get};
use vibeboy::scaling::pipeline::vectorize;
use vibeboy::scaling::raster::{
    branch_of, candidates, drawing_points, find_second, get_edge_colors, get_px_color, insert_hit,
    pack_color, resolve_lut_segment, role_of, sides, stripe_colors, wedge_colors, wedge_index,
    Branch, Hit, SideColors,
};
use vibeboy::scaling::single::weighted_mix;
use vibeboy::scaling::vectorize::{build_similarity_graph, resolve_crossings};
use vibeboy::scaling::vectorize_faces::{
    angle_cmp, build_cell_edges, corner_diag, pack_node, pixel_cell, trace_faces, unpack_node,
    DirEdge, VOID_COLOR,
};
use vibeboy::scaling::vectorize_scanline::{
    resolve_segment, sample_points, scan_spans, screen_sides, sides_from_middle,
};
use vibeboy::scaling::wgpu_scale::{
    needs_rebuild, plan_passes, sizes_fit, sizes_of, GpuPass, PixelBuf, ScaleFilter, Size,
    WgpuScaleFilter,
};
use vibeboy::scaling::wgpu_vectorize::{
    bindings, bytes_of, encode_plan, needs_buffers, padded_row_bytes, uniforms, unpack_picture,
    vec_sizes, Buf, Extents, FrameParams, Stage, Step,
};
use vibeboy::scaling::{xbr, xbr_hybrid, xbrz};
use vibeboy::test_runner::gpu_svg::{hex, plan_svg, render_svg, FillPath};
use vibeboy::test_runner::svg_path::{place_kink, KinkPlace, PathStep};

const A: u32 = 0xFF11_2233;
const B: u32 = 0xFFEE_DDCC;

#[test]
fn similar_pixels_are_linked() {
    let g = build_similarity_graph(&[A, A, B, A], 2, 2);
    assert_eq!(g.len(), 25);
    let r = resolve_crossings(&g, 2, 2);
    assert_eq!(r.len(), 25);
    assert_eq!(corner_diag(&r, 2, 2, 0, 1), 0);
}

#[test]
fn crossings_are_resolved() {
    let px = [A, B, B, A];
    let g = build_similarity_graph(&px, 2, 2);
    let r = resolve_crossings(&g, 2, 2);
    assert_ne!(g[2 * 5 + 2] & 3, 0);
    assert_ne!(r[2 * 5 + 2] & 3, 3);
}

#[test]
fn nodes_pack_and_unpack() {
    for &(x, y) in &[(0, 0), (-1, 1), (i32::MIN, i32::MAX), (1234, -5678)] {
        assert_eq!(unpack_node(pack_node(x, y)), (x, y));
    }
    assert_eq!(pack_node(1, 2), 0x1_0000_0002);
}

#[test]
fn angles_are_ordered_around_the_circle() {
    let dirs = [(1, 0), (1, 1), (0, 1), (-1, 1), (-1, 0), (-1, -1), (0, -1), (1, -1)];
    for i in 0..8 {
        for j in 0..8 {
            let (a, b) = (dirs[i], dirs[j]);
            assert_eq!(angle_cmp(a.0, a.1, b.0, b.1), i.cmp(&j));
        }
    }
    assert_eq!(angle_cmp(1, 1, 2, 2), Ordering::Equal);
}

#[test]
fn cells_without_diagonals_are_squares() {
    let g = vec![0u32; 25];
    let (nodes, n) = pixel_cell(&g, 2, 2, 1, 0);
    assert_eq!(n, 4);
    let got: Vec<_> = nodes[..n].iter().map(|&k| unpack_node(k)).collect();
    assert_eq!(got, vec![(4, 0), (8, 0), (8, 4), (4, 4)]);
    assert_eq!(nodes[4..], [0; 4]);
}

#[test]
fn a_diagonal_pulls_out_one_pair_of_corners() {
    let mut g = vec![0u32; 25];
    g[12] = 1;
    let (nodes, n) = pixel_cell(&g, 2, 2, 0, 0);
    assert_eq!(n, 5);
    let got: Vec<_> = nodes[..n].iter().map(|&k| unpack_node(k)).collect();
    assert_eq!(got, vec![(0, 0), (4, 0), (5, 3), (3, 5), (0, 4)]);
    assert_eq!(nodes[5..], [0; 3]);
    assert_eq!(pixel_cell(&g, 2, 2, 1, 0).1, 4);
}

#[test]
fn faces_are_closed_and_colored() {
    let px = [A, B];
    let d = vectorize(&px, 2, 1);
    let edges = build_cell_edges(&d.graph, 2, 1, &px);
    let faces = trace_faces(&edges);
    let mut colors: Vec<u32> = faces.iter().map(|f| f.color).collect();
    colors.sort();
    assert_eq!(colors, vec![VOID_COLOR, A, B]);
    for f in &faces {
        assert!(f.nodes.len() >= 3);
        for k in 0..f.nodes.len() {
            let (a, b) = (f.nodes[k], f.nodes[(k + 1) % f.nodes.len()]);
            assert!(edges.iter().any(|e| e.from == a && e.to == b));
        }
    }
}

#[test]
fn a_triangle_is_one_face_on_each_side() {
    let p = [pack_node(0, 0), pack_node(4, 0), pack_node(0, 4)];
    let mut edges = vec![];
    for i in 0..3 {
        edges.push(DirEdge { from: p[i], to: p[(i + 1) % 3], color: 1 });
        edges.push(DirEdge { from: p[(i + 1) % 3], to: p[i], color: 2 });
    }
    let faces = trace_faces(&edges);
    assert_eq!(faces.len(), 2);
    assert_eq!(faces[0].nodes, vec![p[0], p[1], p[2]]);
    assert_eq!(faces[0].color, 1);
    assert_eq!(faces[1].color, 2);
    assert!(trace_faces(&[]).is_empty());
}

fn four() -> Vec<u32> {
    vec![A, A, A, A, A, B, B, A, A, B, B, A, A, A, A, A]
}

#[test]
fn chains_are_reciprocal() {
    let d = vectorize(&four(), 4, 4);
    assert_eq!(d.cps.len(), 50);
    for (i, c) in d.cps.iter().enumerate() {
        if c.flag != 0 && c.next >= 0 {
            let n = &d.cps[c.next as usize];
            assert!(n.prev == i as i32 || n.next == i as i32);
        }
    }
    let again = build_cell_graph(&d.graph, 4, 4);
    assert_eq!(again.len(), d.cps.len());
}

#[test]
fn node_map_holds_used_points() {
    let d = vectorize(&four(), 4, 4);
    let (points, sharp) = build_node_map(&d.cps, 4, 4);
    for (nid, &ci) in &points {
        assert_ne!(d.cps[ci].flag, 0);
        let (x, y) = unpack_node(*nid);
        assert_eq!((x as i64 * 2 - d.cps[ci].x8).abs() <= 1, true);
        assert_eq!((y as i64 * 2 - d.cps[ci].y8).abs() <= 1, true);
    }
    assert!(sharp.len() <= points.len());
}

#[test]
fn every_drawn_curve_has_a_role() {
    let d = vectorize(&four(), 4, 4);
    let drawn = drawing_points(&d.cps);
    assert!(!drawn.is_empty());
    for &i in &drawn {
        assert!(role_of(&d.cps, i) != vibeboy::scaling::raster::SpanRole::Silent);
        assert!(candidates(&d.cps, 4, 4, 1, 1).iter().all(|&k| k < d.cps.len()));
    }
    for i in 0..d.cps.len() {
        match motion_of(&d.cps, i) {
            Motion::Stay => {}
            Motion::Follow { leader } => assert_eq!(leader + 1, i),
            Motion::Move { prev, next, .. } => assert!(prev < d.cps.len() && next < d.cps.len()),
        }
        if let Some(s) = stem_snap_of(&d.cps, i) {
            assert_eq!(s.prev_weight + s.through_weight + s.next_weight, 8);
        }
        let _ = crossing_pair_of(&d.cps, i);
        let _ = stand_in(&d.cps, i);
    }
}

#[test]
fn two_end_points_make_a_line_drawn_once() {
    let end = |prev, next| ControlPoint { x8: 0, y8: 0, prev, next, prev_dir: -1, next_dir: -1, flag: 1 | 128 };
    let cps = [end(-1, 1), end(0, -1)];
    assert_eq!(drawing_points(&cps), vec![0]);
}

#[test]
fn nearest_hits_are_kept() {
    let mut hits: Vec<Hit> = vec![];
    for (i, rank) in [50u32, 10, 40, 20, 30, 60, 5, 70, 1].iter().enumerate() {
        insert_hit(&mut hits, Hit { rank: *rank, span: i });
    }
    for w in hits.windows(2) {
        assert!(w[0].rank <= w[1].rank);
    }
    assert_eq!(hits[0].rank, 1);
    let cps = [ControlPoint { x8: 0, y8: 0, prev: -1, next: -1, prev_dir: -1, next_dir: -1, flag: 1 }; 9];
    assert_eq!(find_second(&cps, &hits, 8, 100).is_some(), true);
}

#[test]
fn colors_beside_edges() {
    let px = [1, 2, 3, 4];
    assert_eq!(get_px_color(&px, 2, 2, -5, 9), 3);
    assert_eq!(get_edge_colors(&px, 2, 2, 1, 1, 0), (1, 2));
    assert_eq!(get_edge_colors(&px, 2, 2, 1, 1, 1), (2, 4));
    assert_eq!(get_edge_colors(&px, 2, 2, 1, 1, 2), (4, 3));
    assert_eq!(get_edge_colors(&px, 2, 2, 1, 1, 3), (3, 1));
    assert_eq!(get_edge_colors(&px, 2, 2, 1, 1, 7), (0, 0));
    assert_eq!(pack_color(0x12_3456), 0xFF12_3456);
    let c = ControlPoint { x8: 8, y8: 8, prev: 0, next: 0, prev_dir: 0, next_dir: 2, flag: 2 };
    let early = resolve_lut_segment(&px, 2, 2, &c, 1, 1, false).unwrap();
    assert_eq!((early.left, early.right, early.at_end), (1, 2, false));
    let late = resolve_lut_segment(&px, 2, 2, &c, 1, 1, true).unwrap();
    assert_eq!((late.left, late.right, late.at_end), (3, 4, true));
    assert_eq!(sides(&late, true), (4, 3));
}

#[test]
fn wedges_and_stripes() {
    assert_eq!(wedge_colors(Some((1, 2)), None, 9), [2, 1, 9, 9]);
    assert_eq!(wedge_index(true, false), 1);
    assert_eq!(wedge_index(false, true), 2);
    let s = stripe_colors((1, 2), (3, 1), true, false).unwrap();
    assert_eq!((s.a_outer, s.middle, s.b_outer), (2, 1, 3));
    assert!(stripe_colors((1, 2), (3, 1), true, true).is_none());
    assert!(stripe_colors((1, 1), (1, 1), true, true).is_none());
}

#[test]
fn spans_are_sampled_in_order() {
    assert_eq!(sample_points(1, false), vec![2]);
    assert_eq!(sample_points(1, true), vec![1, 2]);
    assert_eq!(sample_points(2, true), vec![2, 4]);
    assert_eq!(sample_points(3, true), vec![2, 3, 4, 6]);
    assert_eq!(sample_points(16, true).len(), 16);
}

#[test]
fn crossings_are_found_where_their_spans_meet() {
    let at = |prev, next, flag| ControlPoint { x8: 0, y8: 0, prev, next, prev_dir: 0, next_dir: 2, flag };
    // An end, a crossing beside it, points beyond, and a plain point beside the end.
    let cps = [at(-1, 1, 2 | 128), at(0, 2, 2 | 64), at(1, 3, 2), at(2, 2, 2), at(0, 2, 2)];
    assert!(
        place_kink(&cps, 1)
            == KinkPlace::Crossing { prev: 0, next: 2, prev_is_end: true, next_is_end: false }
    );
    assert!(place_kink(&cps, 2) == KinkPlace::Own);
    assert!(branch_of(&cps, 1) == Branch::Crossing);
    assert!(branch_of(&cps, 2) == Branch::Middle);
    assert!(branch_of(&cps, 4) == Branch::NearMiddle);
    assert!(sides_from_middle(&cps[1], false) && !sides_from_middle(&cps[1], true));
    assert!(!sides_from_middle(&cps[2], false));
}

#[test]
fn scan_spans_separate_colors() {
    let px = four();
    let d = vectorize(&px, 4, 4);
    let spans = scan_spans(&d.cps, &px, 4, 4);
    assert!(!spans.is_empty());
    for s in &spans {
        let side = resolve_segment(&d.cps[s.ci], s, true);
        assert_ne!(side.left, side.right);
    }
    let side = SideColors { left: 1, right: 2, at_end: false };
    assert_eq!(screen_sides(&side, true, true), (2, 1));
    assert_eq!(screen_sides(&side, true, false), (1, 2));
}

#[test]
fn blending_ends() {
    assert_eq!(blend_argb(A, B, 0), A);
    assert_eq!(blend_argb(A, B, 65536), B);
    assert_eq!(blend_argb(A, A, 12345), A);
    assert_eq!(blend_argb(0x0000_0000, 0x0000_00FF, 32768), 0x80);
}

#[test]
fn weighted_mix_is_single_precision() {
    fn float(a: u32, b: u32, w: f32) -> u32 {
        let inv = 1.0 - w;
        let c = |s: u32| {
            let r = (((a >> s) & 0xFF) as f32 * inv + ((b >> s) & 0xFF) as f32 * w + 0.5) as u32;
            r.min(255) << s
        };
        c(16) | c(8) | c(0)
    }
    let weights: [(f32, u32); 9] = [
        (0.25, xbrz::QUARTER),
        (0.75, xbrz::THREE_QUARTERS),
        (5.0 / 6.0, xbrz::FIVE_SIXTHS),
        (1.0 / 3.0, xbrz::THIRD),
        (0.21, xbrz::W21),
        (0.45, xbrz::W45),
        (0.97, xbrz::W97),
        (0.06, xbrz::W06),
        (0.09, xbrz::W09),
    ];
    for (w, fixed) in weights {
        for a in 0..256 {
            for b in 0..256 {
                assert_eq!(weighted_mix(a, b, fixed as u64), float(a, b, w));
            }
        }
    }
    assert_eq!(weighted_mix(0xFF10_2030, 0xFF10_2030, 99), 0x10_2030);
}

fn quiet() -> [xbr::CornerTests; 4] {
    [xbr::CornerTests {
        edge: xbr::Sums::SecondSmaller,
        f_nearer: true,
        steep: false,
        shallow: false,
    }; 4]
}

#[test]
fn xbr_enlarges_flat_pictures() {
    for (mode, n) in [(xbr::XbrScale::Xbr2x, 2), (xbr::XbrScale::Xbr3x, 3), (xbr::XbrScale::Xbr4x, 4)] {
        assert_eq!(mode.factor(), n);
        let out = xbr::scale(&[A, B], 2, 1, mode, &[quiet(), quiet()]);
        assert_eq!(out.len() as u32, 2 * n * n);
        assert_eq!(out[0], A);
        assert_eq!(out[n as usize - 1], A);
        assert_eq!(out[n as usize], B);
    }
}

#[test]
fn xbr_blends_a_corner() {
    // The bottom right corner of the middle pixel is cut off.
    let px = [A, A, A, A, A, B, A, B, B];
    let p = xbr::sample(&px, 3, 3, 1, 1);
    assert_eq!(p[12], A);
    assert_eq!(p[13], B);
    let mut t = quiet();
    t[0].edge = xbr::Sums::FirstSmaller;
    let (rule, color) = xbr::corner_rule(&p, 0, t[0], 2);
    assert!(rule == xbr::Rule::Lines { left: false, up: false });
    assert_eq!(color, B);
    let b = xbr::scale_block(&p, &t, 2);
    assert_eq!(b, vec![A, A, A, blend_argb(A, B, 32768)]);
    let b3 = xbr::scale_block(&p, &t, 3);
    assert_eq!(b3[8], blend_argb(A, B, 224 * 256));
    assert_eq!(b3[5], blend_argb(A, B, 32 * 256));
    t[0].steep = true;
    t[0].shallow = true;
    let b4 = xbr::scale_block(&p, &t, 4);
    assert_eq!(b4[15], if color == B { b4[15] } else { 0 });
    let pairs = xbr::pairs_to_compare(&p, 0);
    assert_eq!(pairs.to_f, (A, B));
    assert_eq!(pairs.first[4], (B, B));
}

#[test]
fn xbrz_edges_pack_and_turn() {
    let p = xbrz::pack_edge(1, 2, 3, 0);
    assert_eq!([0, 1, 2, 3].map(|k| xbrz::read_edge(p, k)), [1, 2, 3, 0]);
    let mut r = p;
    for _ in 0..4 {
        r = xbrz::rotate_edges(r);
    }
    assert_eq!(r, p);
    assert_eq!(xbrz::read_edge(xbrz::rotate_edges(p), 2), 0);
}

#[test]
fn empty_pictures_stay_empty() {
    assert!(xbr::scale(&[], 0, 5, xbr::XbrScale::Xbr3x, &[]).is_empty());
    assert!(xbr_hybrid::scale(&[A], 1, 0, &[]).is_empty());
    let junctions = [xbrz::JunctionTests { sums: xbr::Sums::Equal, dominant: false }; 6];
    let tests = xbrz::Tests { junctions: &junctions, corners: &[] };
    assert!(xbrz::scale(&[], 0, 5, xbrz::XbrzScale::Xbrz2x, &tests).is_empty());
}

fn alike(on: bool) -> xbrz::BlendTests {
    xbrz::BlendTests {
        f_nearer: true,
        e_g: on,
        e_c: on,
        e_i: on,
        g_h: on,
        h_i: on,
        i_f: on,
        f_c: on,
        d_g: on,
        b_c: on,
        f_g_small: false,
        h_c_small: false,
    }
}

#[test]
fn xbrz_scales_flat_pictures() {
    for (mode, n) in [
        (xbrz::XbrzScale::Xbrz2x, 2usize),
        (xbrz::XbrzScale::Xbrz3x, 3),
        (xbrz::XbrzScale::Xbrz4x, 4),
        (xbrz::XbrzScale::Xbrz5x, 5),
        (xbrz::XbrzScale::Xbrz6x, 6),
    ] {
        assert_eq!(mode.factor() as usize, n);
        let jt = [xbrz::JunctionTests { sums: xbr::Sums::Equal, dominant: false }; 6];
        let ct = [[alike(false); 4]; 2];
        let tests = xbrz::Tests { junctions: &jt, corners: &ct };
        let out = xbrz::scale(&[A, B], 2, 1, mode, &tests);
        assert_eq!(out.len(), 2 * n * n);
        assert!(out[..n].iter().all(|&c| c == A));
        assert!(out[n..2 * n].iter().all(|&c| c == B));
    }
}

#[test]
fn xbrz_blends_a_dominant_corner() {
    let px = [A, B, B, B];
    let mut jt = [xbrz::JunctionTests { sums: xbr::Sums::Equal, dominant: false }; 9];
    jt[4] = xbrz::JunctionTests { sums: xbr::Sums::FirstSmaller, dominant: true };
    assert_eq!(xbrz::analyze_pixel(&px, 2, 2, &jt, 0, 0), xbrz::pack_edge(0, 0, 2, 0));
    let ct = [[alike(false); 4]; 4];
    let tests = xbrz::Tests { junctions: &jt, corners: &ct };
    let out = xbrz::scale(&px, 2, 2, xbrz::XbrzScale::Xbrz2x, &tests);
    assert_eq!(out[0], A);
    assert_eq!(out[5], weighted_mix(A, B, xbrz::HALF as u64));
    let cp = xbrz::corner_pixels(&px, 2, 2, 0, 0, 0);
    assert_eq!((cp.f, cp.h, cp.i), (B, B, B));
    let (first, second) = xbrz::junction_pairs(&px, 2, 2, 0, 0);
    assert_eq!(first[4], (B, B));
    assert_eq!(second[4], (A, B));
}

#[test]
fn xbrz_patterns() {
    let steep = xbrz::ops_of(xbrz::Pattern::Steep, 4);
    let shallow = xbrz::ops_of(xbrz::Pattern::Shallow, 4);
    for (s, t) in steep.iter().zip(shallow.iter()) {
        assert_eq!((s.row, s.col, s.weight), (t.col, t.row, t.weight));
    }
    assert_eq!(xbrz::rotate_coord(0, 1, 3, 2), (2, 1));
    let mut t = alike(false);
    assert!(xbrz::classify_edge(&t) == xbrz::Pattern::Diagonal);
    t.f_g_small = true;
    assert!(xbrz::classify_edge(&t) == xbrz::Pattern::Shallow);
    t.h_c_small = true;
    assert!(xbrz::classify_edge(&t) == xbrz::Pattern::SteepAndShallow);
    t.f_g_small = false;
    assert!(xbrz::classify_edge(&t) == xbrz::Pattern::Steep);
    assert!(xbrz::should_blend(xbrz::pack_edge(0, 1, 2, 0), &t));
    assert!(!xbrz::should_blend(xbrz::pack_edge(0, 1, 1, 0), &t));
    assert!(xbrz::should_blend(xbrz::pack_edge(0, 0, 1, 0), &t));
}

#[test]
fn hybrid_mixes_both_ways() {
    let corner = xbr_hybrid::CornerTests { diagonal: true, e_i: false, f_h: true, f_nearer: true };
    let t = |variance| xbr_hybrid::HybridTests { variance, corners: [corner; 4] };
    let low = xbr_hybrid::scale_block(&[A, B], 2, 1, 0, 0, &t(xbr_hybrid::Variance::Low));
    assert_eq!(low, vec![A, blend_argb(A, B, 32768), A, blend_argb(A, B, 32768)]);
    let high = xbr_hybrid::scale_block(&[A, B], 2, 1, 0, 0, &t(xbr_hybrid::Variance::High));
    assert_eq!(high, vec![A, blend_argb(A, B, 32768), A, blend_argb(A, B, 32768)]);
    let px = [A, A, A];
    let mid = t(xbr_hybrid::Variance::Between { weight: 1000 });
    let out = xbr_hybrid::scale(&px, 3, 1, &[mid; 3]);
    assert!(out.iter().all(|&c| c == A));
    assert_eq!(out.len(), 12);
    assert_eq!(xbr_hybrid::ring(&[A, B], 2, 1, 0, 0), [A, A, B, A, B, A, A, B]);
    let c = xbr_hybrid::corner_colors(&[A, B], 2, 1, 0, 0, 3);
    assert_eq!((c.e, c.f, c.d), (A, B, A));
    assert_eq!(get(&[A, B], 2, 1, 5, -3), B);
}

#[test]
fn vectorizer_plan() {
    let s = vec_sizes(160, 144);
    assert_eq!((s.num_cps, s.graph_stride, s.tiles_w, s.tiles_h), (161 * 145 * 2, 321, 80, 72));
    assert_eq!(bytes_of(&s, Buf::Positions), 161 * 145 * 2 * 8);
    assert_eq!(bytes_of(&vec_sizes(0, 0), Buf::Pixels), 4);
    for passes in 0..5 {
        let plan = encode_plan(160, 144, passes);
        let copies = plan
            .iter()
            .filter(|s| matches!(s, Step::Copy { from: Buf::OptOut, to: Buf::Positions, .. }))
            .count();
        // An odd number of passes leaves its result in the other slot.
        assert_eq!(copies as u32, passes % 2);
        assert_eq!(plan.len() as u32, 10 + 2 * passes + passes % 2);
    }
    let plan = encode_plan(160, 144, 1);
    assert!(plan[0] == Step::Dispatch { stage: Stage::Similarity, x: 10, y: 9 });
    let (r, w) = bindings(Stage::Gradient { pass: 1 });
    assert!(r[0] == Buf::Picard && w[0] == Buf::Positions);
    let e = Extents { img_w: 160, img_h: 144, out_w: 640, out_h: 576 };
    assert!(needs_buffers(None, e) && !needs_buffers(Some(e), e));
    let p = FrameParams { extents: e, scale_bits: 7, eta_bits: 8, max_step_bits: 9 };
    assert_eq!(uniforms(Stage::Gradient { pass: 0 }, &p), vec![161 * 145 * 2, 8, 9, 0]);
    assert_eq!(uniforms(Stage::Rasterizer, &p), vec![160, 144, 640, 576, 7, 161, 80, 72]);
}

#[test]
fn pictures_come_back_from_padded_rows() {
    assert_eq!(padded_row_bytes(64), 256);
    assert_eq!(padded_row_bytes(65), 512);
    let mut data = vec![0u8; 512];
    data[0..4].copy_from_slice(&[1, 2, 3, 255]);
    data[256..260].copy_from_slice(&[4, 5, 6, 255]);
    assert_eq!(unpack_picture(&data, 1, 2), vec![0x01_0203, 0x04_0506]);
}

#[test]
fn scaling_filter_plan() {
    let f = ScaleFilter { id: 1, gpu: None };
    assert!(WgpuScaleFilter::from_scale_filter(f).is_none());
    let g = ScaleFilter { id: 2, gpu: Some(GpuPass::ScaleFx { chained: true }) };
    assert!(WgpuScaleFilter::from_scale_filter(g).unwrap().filter() == g);
    let src = Size { w: 160, h: 144 };
    let out = Size { w: 1440, h: 1296 };
    let plan = plan_passes(GpuPass::ScaleFx { chained: true }, src, out);
    assert_eq!(plan.len(), 10);
    assert!(plan[4].output == PixelBuf::First && plan[5].input == PixelBuf::First);
    assert!(plan[3].workgroups == Size { w: 10, h: 9 });
    assert!(plan[4].workgroups == Size { w: 30, h: 27 });
    assert_eq!(plan_passes(GpuPass::Single, src, out).len(), 1);
    assert_eq!(plan_passes(GpuPass::SuperXbr, src, out)[2].pass, 2);
    let wide = Size { w: 0x8000_0000, h: 1 };
    assert_eq!(plan_passes(GpuPass::Single, wide, out)[0].workgroups.w, 90);
    assert!(sizes_fit(GpuPass::Single, wide, wide) && sizes_fit(GpuPass::SuperXbr, wide, out));
    assert!(!sizes_fit(GpuPass::SuperXbr, src, wide));
    assert!(!sizes_fit(GpuPass::ScaleFx { chained: false }, wide, out));
    assert!(sizes_fit(GpuPass::ScaleFx { chained: false }, src, wide));
    assert!(!sizes_fit(GpuPass::ScaleFx { chained: true }, src, wide));
    let s = sizes_of(GpuPass::ScaleFx { chained: false }, src, out);
    assert_eq!((s.intermediate, s.intermediates, s.second), (160 * 144 * 16, 4, 4));
    assert_eq!(needs_rebuild(Some((1, 2, 3, 4)), Some(g), (1, 2, 3, 4), g), (false, false));
    assert_eq!(needs_rebuild(Some((1, 2, 3, 4)), Some(f), (1, 2, 3, 4), g), (false, true));
    assert_eq!(needs_rebuild(Some((1, 2, 3, 5)), Some(g), (1, 2, 3, 4), g), (true, true));
}

#[test]
fn outlines_are_closed_paths_by_color() {
    let px = four();
    let d = vectorize(&px, 4, 4);
    let fills = plan_svg(&d, &px);
    assert_eq!(fills.len(), 2);
    assert!(fills[0].color < fills[1].color);
    for f in &fills {
        assert!(matches!(f.steps[0], PathStep::Move { .. }));
        assert!(matches!(f.steps[f.steps.len() - 1], PathStep::Close));
        let moves = f.steps.iter().filter(|s| matches!(s, PathStep::Move { .. })).count();
        let closes = f.steps.iter().filter(|s| matches!(s, PathStep::Close)).count();
        assert_eq!(moves, closes);
    }
}

#[test]
fn documents_hold_one_path_for_each_color() {
    assert_eq!(hex(0xFF0A_B0C1), "#0AB0C1");
    let fills = [FillPath { color: 0xFF12_3456, data: "M0,0 L1,1 z".to_string() }];
    assert_eq!(
        render_svg(2, 3, &fills),
        "<svg height=\"12\" shape-rendering=\"geometricPrecision\" viewBox=\"0 0 2 3\" width=\"8\" \
         xmlns=\"http://www.w3.org/2000/svg\">\n\
         <path d=\"M0,0 L1,1 z\" fill=\"#123456\" fill-rule=\"nonzero\" stroke=\"none\"/>\n</svg>"
    );
    assert_eq!(
        render_svg(1, 1, &[]),
        "<svg height=\"4\" shape-rendering=\"geometricPrecision\" viewBox=\"0 0 1 1\" width=\"4\" \
         xmlns=\"http://www.w3.org/2000/svg\"/>"
    );
}

#[test]
fn endpoints_are_marked() {
    let px: Vec<u32> = (0..36u32).map(|i| if i * 7 % 5 < 2 { 0xFF0000 } else { 0x00FF00 }).collect();
    let data = vectorize(&px, 6, 6);
    assert!(data.cps.iter().any(|c| c.flag != 0));
    for c in &data.cps {
        let open = c.prev < 0 || c.next < 0;
        if c.flag == 0 {
            assert!(c.prev < 0 && c.next < 0);
        } else {
            assert_eq!(c.flag & 128 != 0, open);
        }
    }
}
