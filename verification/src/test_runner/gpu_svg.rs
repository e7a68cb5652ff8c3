//! Pictures as vector graphics: the outlines of all faces, one path for each
//! color, and the document that holds them.

use std::collections::BTreeMap;
use vstd::prelude::*;

use crate::scaling::cell_graph::neighbors_in_range;
use crate::scaling::pipeline::VectorizeData;
use crate::scaling::vectorize_faces::{
    append_index, ascending_keys, build_cell_edges, faces_wf, half_edges, is_face_of, kept, list_at,
    picture_colored, sorted_lists, trace_faces, traced, DirEdge, Face, IndexLists, VOID_COLOR,
};
use crate::test_runner::svg_path::{
    append_face_path, build_node_map, face_steps, nodes_of, NodeMap, NodeView, Outline, PathStep,
};
use crate::text::{decimal, hex2, push_decimal, push_hex2};

verus! {

// ── Outlines by color ──

/// The outlines of all faces of one color.
pub struct FillPlan {
    pub color: u32,
    pub steps: Vec<PathStep>,
}

/// The half-edges of a picture.
pub open spec fn are_cell_edges(
    g: Seq<u32>,
    px: Seq<u32>,
    w: int,
    h: int,
    edges: Seq<DirEdge>,
) -> bool {
    exists|keys: Seq<u128>|
        #![trigger half_edges(picture_colored(g, px, w, h, (w * h) as nat), keys)]
        ascending_keys(picture_colored(g, px, w, h, (w * h) as nat), keys) && edges == half_edges(
            picture_colored(g, px, w, h, (w * h) as nat),
            keys,
        )
}

/// The nodes along a loop of edges.
pub open spec fn loop_nodes(edges: Seq<DirEdge>, path: Seq<int>) -> Seq<u64> {
    path.map_values(|i: int| edges[i].from)
}

pub open spec fn loop_color(edges: Seq<DirEdge>, path: Seq<int>) -> u32 {
    edges[path[0]].color
}

/// The loops among the first `n` that have a color, in order; the void has
/// none.
pub open spec fn loops_of_color(
    edges: Seq<DirEdge>,
    loops: Seq<Seq<int>>,
    color: u64,
    n: nat,
) -> Seq<usize>
    decreases n,
{
    if n == 0 {
        seq![]
    } else {
        let c = loop_color(edges, loops[n - 1]);
        let before = loops_of_color(edges, loops, color, (n - 1) as nat);
        if c != VOID_COLOR && c == color {
            before.push((n - 1) as usize)
        } else {
            before
        }
    }
}

/// The outlines of the first `n` loops of a list.
pub open spec fn outlines(
    m: Map<u64, NodeView>,
    edges: Seq<DirEdge>,
    loops: Seq<Seq<int>>,
    list: Seq<usize>,
    n: nat,
) -> Seq<PathStep>
    decreases n,
{
    if n == 0 {
        seq![]
    } else {
        outlines(m, edges, loops, list, (n - 1) as nat) + face_steps(
            m,
            loop_nodes(edges, loops[list[n - 1] as int]),
        )
    }
}

/// The outlines of all loops of one color.
pub open spec fn is_fill(
    f: FillPlan,
    m: Map<u64, NodeView>,
    edges: Seq<DirEdge>,
    loops: Seq<Seq<int>>,
) -> bool {
    let list = loops_of_color(edges, loops, f.color as u64, loops.len());
    &&& list.len() > 0
    &&& f.steps@ == outlines(m, edges, loops, list, list.len())
}

/// One fill for each color but the void, in ascending order.
pub open spec fn are_fills(
    fills: Seq<FillPlan>,
    m: Map<u64, NodeView>,
    edges: Seq<DirEdge>,
    loops: Seq<Seq<int>>,
) -> bool {
    &&& forall|i: int, j: int| 0 <= i < j < fills.len() ==> fills[i].color < fills[j].color
    &&& forall|i: int| 0 <= i < fills.len() ==> is_fill(#[trigger] fills[i], m, edges, loops)
    &&& forall|l: int|
        0 <= l < loops.len() && loop_color(edges, #[trigger] loops[l]) != VOID_COLOR ==> exists|
            i: int,
        |
            0 <= i < fills.len() && (#[trigger] fills[i]).color == loop_color(edges, loops[l])
}

proof fn lemma_loops_of_color(edges: Seq<DirEdge>, loops: Seq<Seq<int>>, color: u64, n: nat)
    requires
        n <= loops.len() <= usize::MAX,
    ensures
        ({
            let list = loops_of_color(edges, loops, color, n);
            &&& forall|i: int| 0 <= i < list.len() ==> #[trigger] list[i] < n
            &&& list.len() > 0 <==> exists|l: int|
                0 <= l < n && loop_color(edges, #[trigger] loops[l]) == color && color != VOID_COLOR
        }),
    decreases n,
{
    if n > 0 {
        lemma_loops_of_color(edges, loops, color, (n - 1) as nat);
        let c = loop_color(edges, loops[n - 1]);
        if exists|l: int|
            0 <= l < n && loop_color(edges, #[trigger] loops[l]) == color && color != VOID_COLOR {
            let l = choose|l: int|
                0 <= l < n && loop_color(edges, #[trigger] loops[l]) == color && color
                    != VOID_COLOR;
            if l < n - 1 {
                assert(loops_of_color(edges, loops, color, (n - 1) as nat).len() > 0);
            }
        }
    }
}

fn group_faces(faces: &Vec<Face>, edges: Ghost<Seq<DirEdge>>, loops: Ghost<Seq<Seq<int>>>) -> (r:
    IndexLists)
    requires
        faces@.len() == loops@.len(),
        forall|i: int|
            0 <= i < loops@.len() ==> is_face_of(#[trigger] faces@[i], edges@, loops@[i]),
    ensures
        forall|c: u64| #[trigger]
            kept(r@, c) == loops_of_color(edges@, loops@, c, loops@.len()),
        forall|c: u64| #[trigger] r@.contains_key(c) <==> loops_of_color(
            edges@,
            loops@,
            c,
            loops@.len(),
        ).len() > 0,
        forall|c: u64| #[trigger] r@.contains_key(c) ==> c <= u32::MAX,
{
    let mut r: IndexLists = BTreeMap::new();
    let mut i: usize = 0;
    while i < faces.len()
        invariant
            i <= faces@.len(),
            faces@.len() == loops@.len(),
            forall|i: int|
                0 <= i < loops@.len() ==> is_face_of(#[trigger] faces@[i], edges@, loops@[i]),
            forall|c: u64| #[trigger] kept(r@, c) == loops_of_color(edges@, loops@, c, i as nat),
            forall|c: u64| #[trigger] r@.contains_key(c) <==> loops_of_color(
                edges@,
                loops@,
                c,
                i as nat,
            ).len() > 0,
            forall|c: u64| #[trigger] r@.contains_key(c) ==> c <= u32::MAX,
        decreases faces@.len() - i,
    {
        let color: u32 = faces[i].color;
        assert(is_face_of(faces@[i as int], edges@, loops@[i as int]));
        if color != VOID_COLOR {
            append_index(&mut r, color as u64, i);
        }
        i += 1;
    }
    r
}

fn fill_of(
    faces: &Vec<Face>,
    map: &NodeMap,
    list: &Vec<usize>,
    m: Ghost<Map<u64, NodeView>>,
    edges: Ghost<Seq<DirEdge>>,
    loops: Ghost<Seq<Seq<int>>>,
) -> (r: Vec<PathStep>)
    requires
        map.holds(m@),
        faces@.len() == loops@.len(),
        forall|i: int|
            0 <= i < loops@.len() ==> is_face_of(#[trigger] faces@[i], edges@, loops@[i]),
        forall|i: int| 0 <= i < list@.len() ==> #[trigger] list@[i] < faces@.len(),
    ensures
        r@ == outlines(m@, edges@, loops@, list@, list@.len()),
{
    let mut r: Vec<PathStep> = Vec::new();
    let mut i: usize = 0;
    while i < list.len()
        invariant
            i <= list@.len(),
            map.holds(m@),
            faces@.len() == loops@.len(),
            forall|i: int|
                0 <= i < loops@.len() ==> is_face_of(#[trigger] faces@[i], edges@, loops@[i]),
            forall|i: int| 0 <= i < list@.len() ==> #[trigger] list@[i] < faces@.len(),
            r@ == outlines(m@, edges@, loops@, list@, i as nat),
        decreases list@.len() - i,
    {
        let k: usize = list[i];
        assert(is_face_of(faces@[k as int], edges@, loops@[k as int]));
        append_face_path(&faces[k].nodes, map, &mut r, m);
        i += 1;
    }
    r
}

/// A vectorized picture whose outlines can be drawn.
pub open spec fn drawable(d: VectorizeData, px: Seq<u32>) -> bool {
    &&& faces_wf(d.graph@, d.img_w as int, d.img_h as int)
    &&& d.cps@.len() == 2 * ((d.img_w + 1) * (d.img_h + 1)) <= i32::MAX
    &&& neighbors_in_range(d.cps@)
    &&& px.len() >= d.img_w * d.img_h
}

pub open spec fn outline_of(d: VectorizeData) -> Outline {
    Outline { s: d.cps@, g: d.graph@, w: d.img_w as int, h: d.img_h as int }
}

/// The outlines of a picture's faces, gathered by color.
pub fn plan_svg(data: &VectorizeData, pixels: &[u32]) -> (fills: Vec<FillPlan>)
    requires
        drawable(*data, pixels@),
    ensures
        exists|edges: Seq<DirEdge>| #[trigger]
            are_cell_edges(data.graph@, pixels@, data.img_w as int, data.img_h as int, edges)
                && are_fills(
                fills@,
                nodes_of(outline_of(*data), data.cps@.len()),
                edges,
                traced(edges, edges.len()).loops,
            ),
{
    let edges: Vec<DirEdge> = build_cell_edges(&data.graph, data.img_w, data.img_h, pixels);
    let faces: Vec<Face> = trace_faces(&edges);
    let map: NodeMap = build_node_map(&data.cps, &data.graph, data.img_w, data.img_h);
    let ghost m = nodes_of(outline_of(*data), data.cps@.len());
    let ghost loops = traced(edges@, edges@.len()).loops;
    let _n: usize = faces.len();
    let lists: IndexLists = group_faces(&faces, Ghost(edges@), Ghost(loops));
    let colors: Vec<u64> = sorted_lists(&lists);
    let mut fills: Vec<FillPlan> = Vec::new();
    let mut i: usize = 0;
    while i < colors.len()
        invariant
            i <= colors@.len(),
            faces@.len() == loops.len() <= usize::MAX,
            loops == traced(edges@, edges@.len()).loops,
            m == nodes_of(outline_of(*data), data.cps@.len()),
            map.holds(m),
            forall|i: int|
                0 <= i < loops.len() ==> is_face_of(#[trigger] faces@[i], edges@, loops[i]),
            forall|c: u64| #[trigger]
                kept(lists@, c) == loops_of_color(edges@, loops, c, loops.len()),
            forall|c: u64| #[trigger] lists@.contains_key(c) <==> loops_of_color(
                edges@,
                loops,
                c,
                loops.len(),
            ).len() > 0,
            forall|c: u64| #[trigger] lists@.contains_key(c) ==> c <= u32::MAX,
            forall|i: int, j: int| 0 <= i < j < colors@.len() ==> colors@[i] < colors@[j],
            forall|k: u64| colors@.contains(k) <==> lists@.contains_key(k),
            fills@.len() == i,
            forall|k: int| 0 <= k < i ==> (#[trigger] fills@[k]).color == colors@[k],
            forall|k: int| 0 <= k < i ==> is_fill(#[trigger] fills@[k], m, edges@, loops),
        decreases colors@.len() - i,
    {
        let c: u64 = colors[i];
        assert(colors@.contains(c));
        let list: &Vec<usize> = list_at(&lists, c);
        proof {
            lemma_loops_of_color(edges@, loops, c, loops.len());
            assert(kept(lists@, c) == loops_of_color(edges@, loops, c, loops.len()));
        }
        let steps: Vec<PathStep> = fill_of(
            &faces,
            &map,
            list,
            Ghost(m),
            Ghost(edges@),
            Ghost(loops),
        );
        fills.push(FillPlan { color: c as u32, steps });
        i += 1;
    }
    proof {
        assert forall|l: int|
            0 <= l < loops.len() && loop_color(edges@, #[trigger] loops[l]) != VOID_COLOR implies exists|
            i: int,
        |
            0 <= i < fills@.len() && (#[trigger] fills@[i]).color == loop_color(edges@, loops[l]) by {
            let c = loop_color(edges@, loops[l]) as u64;
            lemma_loops_of_color(edges@, loops, c, loops.len());
            assert(lists@.contains_key(c));
            assert(colors@.contains(c));
            let k = choose|k: int| 0 <= k < colors@.len() && colors@[k] == c;
            assert(fills@[k].color == c);
        }
        assert(are_cell_edges(
            data.graph@,
            pixels@,
            data.img_w as int,
            data.img_h as int,
            edges@,
        ));
    }
    fills
}

// ── The document ──

/// The root element of a document of the `svg` crate.
#[verifier::external_type_specification]
#[verifier::external_body]
pub struct ExDocument(svg::node::element::SVG);

/// A path element of the `svg` crate.
#[verifier::external_type_specification]
#[verifier::external_body]
pub struct ExPath(svg::node::element::Path);

/// Names and values.
pub type Attributes = Map<Seq<char>, Seq<char>>;

pub open spec fn no_attributes() -> Attributes {
    Map::empty()
}

pub open spec fn no_paths() -> Seq<Attributes> {
    Seq::empty()
}

/// The attributes that a document holds.
pub uninterp spec fn document_attributes(d: svg::node::element::SVG) -> Map<Seq<char>, Seq<char>>;

/// The paths that a document holds, by their attributes.
pub uninterp spec fn document_paths(d: svg::node::element::SVG) -> Seq<Map<Seq<char>, Seq<char>>>;

/// Whether everything in a document is a path with nothing in it.
pub uninterp spec fn document_is_plain(d: svg::node::element::SVG) -> bool;

/// The attributes that a path holds.
pub uninterp spec fn path_attributes(p: svg::node::element::Path) -> Map<Seq<char>, Seq<char>>;

/// Whether a path has nothing in it.
pub uninterp spec fn path_is_bare(p: svg::node::element::Path) -> bool;

/// The text of a document with these attributes and paths.
pub uninterp spec fn document_text(
    attributes: Map<Seq<char>, Seq<char>>,
    paths: Seq<Map<Seq<char>, Seq<char>>>,
) -> Seq<char>;

/// `svg::node::element::SVG::new`: a document whose only attribute is the
/// namespace, with nothing in it.
#[verifier::external_body]
fn new_document() -> (r: svg::node::element::SVG)
    ensures
        document_attributes(r) == no_attributes().insert("xmlns"@, "http://www.w3.org/2000/svg"@),
        document_paths(r) == no_paths(),
        document_is_plain(r),
{
    svg::node::element::SVG::new()
}

/// `svg::node::element::SVG::set` with text: the attribute has the value, the
/// others stay, and so do the paths.
#[verifier::external_body]
fn set_attribute(d: svg::node::element::SVG, name: &str, value: &str) -> (r: svg::node::element::SVG)
    ensures
        document_attributes(r) == document_attributes(d).insert(name@, value@),
        document_paths(r) == document_paths(d),
        document_is_plain(r) == document_is_plain(d),
{
    d.set(name, value)
}

/// `svg::node::element::SVG::add` with a path: the path stands behind those
/// before it, with what is in it, and the attributes stay.
#[verifier::external_body]
fn add_path(d: svg::node::element::SVG, p: svg::node::element::Path) -> (r: svg::node::element::SVG)
    ensures
        document_attributes(r) == document_attributes(d),
        document_paths(r) == document_paths(d).push(path_attributes(p)),
        document_is_plain(r) == (document_is_plain(d) && path_is_bare(p)),
{
    d.add(p)
}

/// `svg::node::element::Path::new`: a path without attributes and with nothing
/// in it.
#[verifier::external_body]
fn new_path() -> (r: svg::node::element::Path)
    ensures
        path_attributes(r) == no_attributes(),
        path_is_bare(r),
{
    svg::node::element::Path::new()
}

/// `svg::node::element::Path::set` with text: the attribute has the value, the
/// others stay, and so does what is in the path.
#[verifier::external_body]
fn set_path_attribute(p: svg::node::element::Path, name: &str, value: &str) -> (r: svg::node::element::Path)
    ensures
        path_attributes(r) == path_attributes(p).insert(name@, value@),
        path_is_bare(r) == path_is_bare(p),
{
    p.set(name, value)
}

/// The text of a document, by the `Display` of `svg::node::element::SVG`. Where
/// everything in the document is a path with nothing in it, it depends on
/// nothing but the attributes and the paths; how it is written is left unsaid.
#[verifier::external_body]
fn text_of_document(d: &svg::node::element::SVG) -> (r: String)
    requires
        document_is_plain(*d),
    ensures
        r@ == document_text(document_attributes(*d), document_paths(*d)),
{
    d.to_string()
}

/// The data of a path of one color.
pub struct FillPath {
    pub color: u32,
    pub data: String,
}

/// A color as `#RRGGBB`.
pub open spec fn color_text(c: u32) -> Seq<char> {
    seq!['#'] + hex2(c as int / 0x1_0000 % 256) + hex2(c as int / 0x100 % 256) + hex2(
        c as int % 256,
    )
}

/// A color as `#RRGGBB`.
pub fn hex(c: u32) -> (r: String)
    ensures
        r@ == color_text(c),
{
    let mut r: String = String::new();
    crate::text::push_char(&mut r, '#');
    push_hex2(&mut r, c / 0x1_0000 % 256);
    push_hex2(&mut r, c / 0x100 % 256);
    push_hex2(&mut r, c % 256);
    assert(r@ =~= color_text(c));
    r
}

/// The attributes of the document of a picture: it is shown four times as large
/// as it is.
pub open spec fn picture_attributes(w: int, h: int) -> Attributes {
    no_attributes().insert("xmlns"@, "http://www.w3.org/2000/svg"@).insert(
        "viewBox"@,
        "0 0 "@ + decimal(w) + " "@ + decimal(h),
    ).insert("width"@, decimal(4 * w)).insert("height"@, decimal(4 * h)).insert(
        "shape-rendering"@,
        "geometricPrecision"@,
    )
}

/// The attributes of the path of one color.
pub open spec fn fill_attributes(f: FillPath) -> Attributes {
    no_attributes().insert("fill"@, color_text(f.color)).insert(
        "fill-rule"@,
        "nonzero"@,
    ).insert("stroke"@, "none"@).insert("d"@, f.data@)
}

pub open spec fn all_fill_attributes(fills: Seq<FillPath>) -> Seq<Attributes> {
    fills.map_values(|f: FillPath| fill_attributes(f))
}

fn number_text(n: u64) -> (r: String)
    ensures
        r@ == decimal(n as int),
{
    let mut r: String = String::new();
    push_decimal(&mut r, n);
    assert(r@ =~= decimal(n as int));
    r
}

fn picture_document(w: usize, h: usize) -> (r: svg::node::element::SVG)
    requires
        4 * w <= usize::MAX,
        4 * h <= usize::MAX,
    ensures
        document_attributes(r) == picture_attributes(w as int, h as int),
        document_paths(r) == no_paths(),
        document_is_plain(r),
{
    let mut view_box: String = String::new();
    view_box.append("0 0 ");
    push_decimal(&mut view_box, w as u64);
    view_box.append(" ");
    push_decimal(&mut view_box, h as u64);
    assert(view_box@ =~= "0 0 "@ + decimal(w as int) + " "@ + decimal(h as int));
    let width: String = number_text((w * 4) as u64);
    let height: String = number_text((h * 4) as u64);
    let d = set_attribute(new_document(), "viewBox", view_box.as_str());
    let d = set_attribute(d, "width", width.as_str());
    let d = set_attribute(d, "height", height.as_str());
    set_attribute(d, "shape-rendering", "geometricPrecision")
}

fn fill_path(f: &FillPath) -> (r: svg::node::element::Path)
    ensures
        path_attributes(r) == fill_attributes(*f),
        path_is_bare(r),
{
    let color: String = hex(f.color);
    let p = set_path_attribute(new_path(), "fill", color.as_str());
    let p = set_path_attribute(p, "fill-rule", "nonzero");
    let p = set_path_attribute(p, "stroke", "none");
    set_path_attribute(p, "d", f.data.as_str())
}

/// The document of a picture, with one path for each color.
pub fn render_svg(w: usize, h: usize, fills: &[FillPath]) -> (r: String)
    requires
        4 * w <= usize::MAX,
        4 * h <= usize::MAX,
    ensures
        r@ == document_text(picture_attributes(w as int, h as int), all_fill_attributes(fills@)),
{
    let mut d = picture_document(w, h);
    let mut i: usize = 0;
    assert(document_paths(d) =~= all_fill_attributes(fills@.take(0)));
    while i < fills.len()
        invariant
            i <= fills@.len(),
            document_attributes(d) == picture_attributes(w as int, h as int),
            document_paths(d) == all_fill_attributes(fills@.take(i as int)),
            document_is_plain(d),
        decreases fills@.len() - i,
    {
        d = add_path(d, fill_path(&fills[i]));
        i += 1;
        assert(document_paths(d) =~= all_fill_attributes(fills@.take(i as int)));
    }
    assert(fills@.take(fills@.len() as int) =~= fills@);
    text_of_document(&d)
}

} // verus!
