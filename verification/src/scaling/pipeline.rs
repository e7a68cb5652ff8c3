//! From a picture to its control points: the stages before the curves are
//! smoothed.

use vstd::prelude::*;

use crate::scaling::cell_graph::{
    build_cell_graph, corner_points, linked_back, neighbors_in_range, slot_count, CellView,
    ControlPoint,
};
use crate::scaling::vectorize::{
    build_similarity_graph, law_similarity_graph_is_wf, resolve_crossings, resolved_graph,
    similarity_graph, stride,
};

verus! {

/// A picture's resolved graph and its control points.
pub struct VectorizeData {
    pub cps: Vec<ControlPoint>,
    pub graph: Vec<u32>,
    pub img_w: usize,
    pub img_h: usize,
}

/// The resolved similarity graph of a picture.
pub open spec fn picture_graph(px: Seq<u32>, w: int, h: int) -> Seq<u32> {
    resolved_graph(similarity_graph(px, w, h), w, h)
}

pub open spec fn picture_cells(px: Seq<u32>, w: int, h: int) -> CellView {
    CellView { g: picture_graph(px, w, h), w, h }
}

/// The control points of a picture.
pub open spec fn picture_points(px: Seq<u32>, w: int, h: int) -> Seq<ControlPoint> {
    let v = picture_cells(px, w, h);
    linked_back(corner_points(v), slot_count(v) as nat)
}

proof fn lemma_graph_fits(w: int, h: int)
    requires
        0 <= w,
        0 <= h,
        2 * ((w + 1) * (h + 1)) <= i32::MAX,
    ensures
        0 <= stride(w) * stride(h) <= u32::MAX,
{
    assert(0 <= (2 * w + 1) * (2 * h + 1) <= 4 * ((w + 1) * (h + 1))) by (nonlinear_arith)
        requires
            0 <= w,
            0 <= h,
    ;
}

/// The resolved graph and the control points of a picture.
pub fn vectorize(src: &[u32], src_w: usize, src_h: usize) -> (r: VectorizeData)
    requires
        2 * ((src_w + 1) * (src_h + 1)) <= i32::MAX,
        src@.len() >= src_w * src_h,
    ensures
        r.graph@ == picture_graph(src@, src_w as int, src_h as int),
        r.cps@ == picture_points(src@, src_w as int, src_h as int),
        r.img_w == src_w,
        r.img_h == src_h,
        r.cps@.len() == 2 * ((src_w + 1) * (src_h + 1)),
        neighbors_in_range(r.cps@),
{
    proof {
        lemma_graph_fits(src_w as int, src_h as int);
        law_similarity_graph_is_wf(src@, src_w as int, src_h as int);
    }
    let similar: Vec<u32> = build_similarity_graph(src, src_w, src_h);
    let graph: Vec<u32> = resolve_crossings(&similar, src_w, src_h);
    let cps: Vec<ControlPoint> = build_cell_graph(&graph, src_w, src_h);
    VectorizeData { cps, graph, img_w: src_w, img_h: src_h }
}

} // verus!
