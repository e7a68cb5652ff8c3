//! Outlines of faces: which curves and lines make up the outline of a traced
//! face, given the chains of control points that pass through its nodes.
//!
//! Where a face follows one chain through a node, its outline is a curve with
//! the chain's control point as control. Where it does not, the node is a kink:
//! the outline lands exactly on the junction there, along halves of the curves
//! of the chains that it arrives and leaves on. Points are named by what they
//! depend on; their coordinates are left to the caller.

use std::collections::BTreeMap;
use vstd::prelude::*;

use crate::grid::lemma_position;
use crate::scaling::cell_graph::{in_range, neighbors_in_range, ControlPoint};
use crate::scaling::raster::{is_crossing, is_end, is_tjunction};
use crate::scaling::vectorize_faces::{corner_diag, diagonal_at, faces_wf, node_id, pack_node};

verus! {

// ── Chains at nodes ──

/// A chain through a node: its control point there, and the nodes of that
/// one's neighbors.
#[derive(Clone, Copy, PartialEq, Eq, Structural)]
pub struct Chain {
    pub ci: usize,
    pub prev: Option<u64>,
    pub next: Option<u64>,
}

/// What is known of a node: the chains through it, the control point that
/// tells where a kink lands, and the last crossing there, if any.
#[verifier::ext_equal]
pub struct NodeView {
    pub chains: Seq<Chain>,
    pub kink: usize,
    pub crossing: Option<usize>,
}

pub struct NodeInfo {
    pub chains: Vec<Chain>,
    pub kink: usize,
    pub crossing: Option<usize>,
}

impl View for NodeInfo {
    type V = NodeView;

    open spec fn view(&self) -> NodeView {
        NodeView { chains: self.chains@, kink: self.kink, crossing: self.crossing }
    }
}

/// A resolved graph with its control points.
#[verifier::ext_equal]
pub struct Outline {
    pub s: Seq<ControlPoint>,
    pub g: Seq<u32>,
    pub w: int,
    pub h: int,
}

impl Outline {
    pub open spec fn wf(self) -> bool {
        &&& faces_wf(self.g, self.w, self.h)
        &&& self.s.len() == 2 * ((self.w + 1) * (self.h + 1)) <= i32::MAX
        &&& neighbors_in_range(self.s)
    }
}

/// How far the node of a control point lies from its corner: smooth chains
/// across a diagonal lie beside it.
pub open spec fn node_offset(diag: u8, slot: int, junction: bool) -> (int, int) {
    if junction {
        (0, 0)
    } else if diag == 1 && slot == 0 {
        (-1, 1)
    } else if diag == 1 {
        (1, -1)
    } else if diag == 2 && slot == 0 {
        (-1, -1)
    } else if diag == 2 {
        (1, 1)
    } else {
        (0, 0)
    }
}

/// The node that a control point lies on.
pub open spec fn loop_node(o: Outline, ci: int) -> u64 {
    let cx = ci / 2 % (o.w + 1);
    let cy = ci / 2 / (o.w + 1);
    let c = o.s[ci];
    let (dx, dy) = node_offset(
        diagonal_at(o.g, o.w, o.h, cx, cy),
        ci % 2,
        is_tjunction(c) || is_crossing(c),
    );
    node_id(4 * cx + dx, 4 * cy + dy)
}

pub open spec fn neighbor_node(o: Outline, ci: i32) -> Option<u64> {
    if ci < 0 {
        None
    } else {
        Some(loop_node(o, ci as int))
    }
}

pub open spec fn chain_of(o: Outline, ci: int) -> Chain {
    Chain {
        ci: ci as usize,
        prev: neighbor_node(o, o.s[ci].prev),
        next: neighbor_node(o, o.s[ci].next),
    }
}

/// The control point tells where a kink lands, before others at its node: it
/// is the end of a stem, or a crossing.
pub open spec fn takes_kink(c: ControlPoint) -> bool {
    (is_end(c) && !is_tjunction(c)) || is_crossing(c)
}

/// A node with one more chain.
pub open spec fn node_with(before: Option<NodeView>, c: ControlPoint, chain: Chain) -> NodeView {
    let crossing = if is_crossing(c) {
        Some(chain.ci)
    } else {
        None
    };
    match before {
        None => NodeView { chains: seq![chain], kink: chain.ci, crossing },
        Some(n) => NodeView {
            chains: n.chains.push(chain),
            kink: if takes_kink(c) {
                chain.ci
            } else {
                n.kink
            },
            crossing: if crossing is Some {
                crossing
            } else {
                n.crossing
            },
        },
    }
}

pub open spec fn node_get(m: Map<u64, NodeView>, nid: u64) -> Option<NodeView> {
    if m.contains_key(nid) {
        Some(m[nid])
    } else {
        None
    }
}

/// The nodes of the first `n` control points.
pub open spec fn nodes_of(o: Outline, n: nat) -> Map<u64, NodeView>
    decreases n,
{
    if n == 0 {
        Map::empty()
    } else {
        let before = nodes_of(o, (n - 1) as nat);
        let ci = n - 1;
        if o.s[ci].flag == 0 {
            before
        } else {
            let nid = loop_node(o, ci);
            before.insert(nid, node_with(node_get(before, nid), o.s[ci], chain_of(o, ci)))
        }
    }
}

/// The node that a control point lies on.
pub fn cp_loop_node(cps: &[ControlPoint], graph: &[u32], w: usize, h: usize, ci: usize) -> (r: u64)
    requires
        (Outline { s: cps@, g: graph@, w: w as int, h: h as int }).wf(),
        ci < cps@.len(),
    ensures
        r == loop_node(Outline { s: cps@, g: graph@, w: w as int, h: h as int }, ci as int),
{
    proof {
        lemma_position(ci as int / 2, w + 1, h + 1);
    }
    let cx: usize = ci / 2 % (w + 1);
    let cy: usize = ci / 2 / (w + 1);
    let diag: u8 = corner_diag(graph, w, h, cx, cy);
    let c: ControlPoint = cps[ci];
    let junction: bool = c.flag / 32 % 2 == 1 || c.flag / 64 % 2 == 1;
    let slot: usize = ci % 2;
    let (dx, dy): (i32, i32) = if junction {
        (0, 0)
    } else if diag == 1 && slot == 0 {
        (-1, 1)
    } else if diag == 1 {
        (1, -1)
    } else if diag == 2 && slot == 0 {
        (-1, -1)
    } else if diag == 2 {
        (1, 1)
    } else {
        (0, 0)
    };
    pack_node((4 * cx) as i32 + dx, (4 * cy) as i32 + dy)
}

type NodeTable = BTreeMap<u64, NodeInfo>;

/// The table holds these nodes.
pub open spec fn table_is(t: Map<u64, NodeInfo>, m: Map<u64, NodeView>) -> bool {
    &&& forall|nid: u64| #[trigger] t.contains_key(nid) <==> m.contains_key(nid)
    &&& forall|nid: u64| #[trigger] t.contains_key(nid) ==> t[nid]@ == m[nid]
}

fn add_chain(t: &mut NodeTable, nid: u64, c: ControlPoint, chain: Chain, m: Ghost<Map<u64, NodeView>>)
    requires
        table_is(old(t)@, m@),
    ensures
        table_is(final(t)@, m@.insert(nid, node_with(node_get(m@, nid), c, chain))),
{
    broadcast use vstd::std_specs::btree::group_btree_axioms;
    broadcast use vstd::laws_cmp::group_laws_cmp;

    let end: bool = c.flag / 128 % 2 == 1;
    let through: bool = c.flag / 32 % 2 == 1;
    let crossing: bool = c.flag / 64 % 2 == 1;
    let info: NodeInfo = match t.remove(&nid) {
        Some(mut n) => {
            n.chains.push(chain);
            if (end && !through) || crossing {
                n.kink = chain.ci;
            }
            if crossing {
                n.crossing = Some(chain.ci);
            }
            n
        },
        None => {
            let mut chains: Vec<Chain> = Vec::new();
            chains.push(chain);
            NodeInfo {
                chains,
                kink: chain.ci,
                crossing: if crossing {
                    Some(chain.ci)
                } else {
                    None
                },
            }
        },
    };
    assert(info@ =~= node_with(node_get(m@, nid), c, chain));
    t.insert(nid, info);
}

/// The nodes that control points lie on.
pub struct NodeMap {
    pub table: BTreeMap<u64, NodeInfo>,
}

impl NodeMap {
    pub open spec fn holds(&self, m: Map<u64, NodeView>) -> bool {
        table_is(self.table@, m)
    }

    fn lookup(&self, nid: u64, m: Ghost<Map<u64, NodeView>>) -> (r: Option<&NodeInfo>)
        requires
            self.holds(m@),
        ensures
            match r {
                Some(n) => m@.contains_key(nid) && n@ == m@[nid],
                None => !m@.contains_key(nid),
            },
    {
        broadcast use vstd::std_specs::btree::group_btree_axioms;
        broadcast use vstd::laws_cmp::group_laws_cmp;

        self.table.get(&nid)
    }
}

fn node_of_neighbor(cps: &[ControlPoint], graph: &[u32], w: usize, h: usize, ci: i32) -> (r: Option<
    u64,
>)
    requires
        (Outline { s: cps@, g: graph@, w: w as int, h: h as int }).wf(),
        ci < cps@.len(),
    ensures
        r == neighbor_node(Outline { s: cps@, g: graph@, w: w as int, h: h as int }, ci),
{
    if ci < 0 {
        None
    } else {
        Some(cp_loop_node(cps, graph, w, h, ci as usize))
    }
}

/// Find the nodes that control points lie on, and the chains through them.
pub fn build_node_map(cps: &[ControlPoint], graph: &[u32], w: usize, h: usize) -> (r: NodeMap)
    requires
        (Outline { s: cps@, g: graph@, w: w as int, h: h as int }).wf(),
    ensures
        r.holds(
            nodes_of(Outline { s: cps@, g: graph@, w: w as int, h: h as int }, cps@.len()),
        ),
{
    let ghost o = Outline { s: cps@, g: graph@, w: w as int, h: h as int };
    let mut table: NodeTable = BTreeMap::new();
    let mut ci: usize = 0;
    assert(table_is(table@, nodes_of(o, 0)));
    while ci < cps.len()
        invariant
            ci <= cps@.len(),
            o == (Outline { s: cps@, g: graph@, w: w as int, h: h as int }),
            o.wf(),
            table_is(table@, nodes_of(o, ci as nat)),
        decreases cps@.len() - ci,
    {
        let c: ControlPoint = cps[ci];
        assert(in_range(cps@[ci as int], cps@.len() as int));
        if c.flag != 0 {
            let nid: u64 = cp_loop_node(cps, graph, w, h, ci);
            let chain = Chain {
                ci,
                prev: node_of_neighbor(cps, graph, w, h, c.prev),
                next: node_of_neighbor(cps, graph, w, h, c.next),
            };
            add_chain(&mut table, nid, c, chain, Ghost(nodes_of(o, ci as nat)));
        }
        ci += 1;
    }
    NodeMap { table }
}

// ── Looking for chains ──

/// What a chain at a node is wanted for.
#[derive(Clone, Copy, PartialEq, Eq, Structural)]
pub enum Want {
    /// It leads from one of two nodes to the other.
    Through { a: u64, b: u64 },
    /// It leads to a node.
    Touching { a: u64 },
    /// It leads to a node, and goes on to the other side.
    Passing { a: u64 },
}

pub open spec fn goes_on(ch: Chain) -> bool {
    ch.prev is Some && ch.next is Some
}

pub open spec fn fits(ch: Chain, want: Want) -> bool {
    match want {
        Want::Through { a, b } => (ch.prev == Some(a) && ch.next == Some(b)) || (ch.prev == Some(b)
            && ch.next == Some(a)),
        Want::Touching { a } => ch.prev == Some(a) || ch.next == Some(a),
        Want::Passing { a } => goes_on(ch) && (ch.prev == Some(a) || ch.next == Some(a)),
    }
}

/// The first chain from position `i` on that fits.
pub open spec fn first_fit(chains: Seq<Chain>, want: Want, i: int) -> Option<Chain>
    decreases chains.len() - i,
{
    if i >= chains.len() {
        None
    } else if fits(chains[i], want) {
        Some(chains[i])
    } else {
        first_fit(chains, want, i + 1)
    }
}

/// The first chain at a node that fits.
pub open spec fn chain_at(m: Map<u64, NodeView>, nid: u64, want: Want) -> Option<Chain> {
    if m.contains_key(nid) {
        first_fit(m[nid].chains, want, 0)
    } else {
        None
    }
}

fn is_node(v: Option<u64>, a: u64) -> (r: bool)
    ensures
        r == (v == Some(a)),
{
    match v {
        Some(x) => x == a,
        None => false,
    }
}

fn chain_fits(ch: &Chain, want: Want) -> (r: bool)
    ensures
        r == fits(*ch, want),
{
    match want {
        Want::Through { a, b } => (is_node(ch.prev, a) && is_node(ch.next, b)) || (is_node(
            ch.prev,
            b,
        ) && is_node(ch.next, a)),
        Want::Touching { a } => is_node(ch.prev, a) || is_node(ch.next, a),
        Want::Passing { a } => ch.prev.is_some() && ch.next.is_some() && (is_node(ch.prev, a)
            || is_node(ch.next, a)),
    }
}

fn find_chain(map: &NodeMap, nid: u64, want: Want, m: Ghost<Map<u64, NodeView>>) -> (r: Option<
    Chain,
>)
    requires
        map.holds(m@),
    ensures
        r == chain_at(m@, nid, want),
{
    match map.lookup(nid, m) {
        Some(info) => {
            let mut i: usize = 0;
            while i < info.chains.len()
                invariant
                    i <= info.chains@.len(),
                    m@.contains_key(nid),
                    info@ == m@[nid],
                    first_fit(info.chains@, want, 0) == first_fit(info.chains@, want, i as int),
                decreases info.chains@.len() - i,
            {
                let ch: Chain = info.chains[i];
                if chain_fits(&ch, want) {
                    return Some(ch);
                }
                i += 1;
            }
            None
        },
        None => None,
    }
}

// ── Outlines ──

/// A point of an outline.
#[derive(Clone, Copy, PartialEq, Eq, Structural)]
pub enum Point {
    /// The node itself.
    Grid { nid: u64 },
    /// A control point.
    Control { ci: usize },
    /// Where a kink lands, told by a control point: where its curve crosses the
    /// other one if it is a crossing, otherwise its own position.
    Kink { ci: usize },
    /// Halfway between two control points.
    Mid { a: usize, b: usize },
    /// Halfway between a node and a control point.
    MidGrid { nid: u64, ci: usize },
}

/// Where a kink takes its point from.
#[derive(Clone, Copy, PartialEq, Eq, Structural)]
pub enum KinkPlace {
    /// The control point itself.
    Own,
    /// Where the span of the control point meets the one that it crosses. A
    /// neighbor that is a chain end is mirrored, so that the span ends there.
    Crossing { prev: usize, next: usize, prev_is_end: bool, next_is_end: bool },
}

pub open spec fn kink_place(s: Seq<ControlPoint>, ci: int) -> KinkPlace {
    let c = s[ci];
    if is_crossing(c) && c.prev >= 0 && c.next >= 0 {
        KinkPlace::Crossing {
            prev: c.prev as usize,
            next: c.next as usize,
            prev_is_end: is_end(s[c.prev as int]),
            next_is_end: is_end(s[c.next as int]),
        }
    } else {
        KinkPlace::Own
    }
}

/// Where the kink at a control point takes its point from.
pub fn place_kink(cps: &[ControlPoint], ci: usize) -> (r: KinkPlace)
    requires
        ci < cps@.len() <= i32::MAX,
        neighbors_in_range(cps@),
    ensures
        r == kink_place(cps@, ci as int),
{
    let c: ControlPoint = cps[ci];
    assert(in_range(cps@[ci as int], cps@.len() as int));
    if c.flag / 64 % 2 == 0 || c.prev < 0 || c.next < 0 {
        return KinkPlace::Own;
    }
    let prev: usize = c.prev as usize;
    let next: usize = c.next as usize;
    KinkPlace::Crossing {
        prev,
        next,
        prev_is_end: cps[prev].flag / 128 % 2 == 1,
        next_is_end: cps[next].flag / 128 % 2 == 1,
    }
}

/// The control of a curve. Curves are split at the parameter of the crossing
/// `t`, or in the middle if there is none.
#[derive(Clone, Copy, PartialEq, Eq, Structural)]
pub enum Handle {
    /// A control point.
    At { ci: usize },
    /// Between the pen and a control point.
    FromPen { ci: usize, t: Option<usize> },
    /// Between a control point and the end of the curve.
    ToEnd { ci: usize, t: Option<usize> },
}

/// One step of an outline.
#[derive(Clone, Copy, PartialEq, Eq, Structural)]
pub enum PathStep {
    Move { to: Point },
    Line { to: Point },
    /// A line, unless the pen is there already.
    LineUnlessThere { to: Point },
    Quad { control: Handle, to: Point },
    Close,
}

pub open spec fn after(nodes: Seq<u64>, i: int) -> int {
    if i + 1 < nodes.len() {
        i + 1
    } else {
        0
    }
}

pub open spec fn before(nodes: Seq<u64>, i: int) -> int {
    if i > 0 {
        i - 1
    } else {
        nodes.len() - 1
    }
}

/// The chain that the face follows smoothly through its node `i`.
pub open spec fn smooth_at(m: Map<u64, NodeView>, nodes: Seq<u64>, i: int) -> Option<Chain> {
    chain_at(
        m,
        nodes[i],
        Want::Through { a: nodes[before(nodes, i)], b: nodes[after(nodes, i)] },
    )
}

pub open spec fn kink_at(m: Map<u64, NodeView>, nodes: Seq<u64>, i: int) -> bool {
    m.contains_key(nodes[i]) && smooth_at(m, nodes, i) is None
}

/// Where an outline lands at a node.
pub open spec fn landing(m: Map<u64, NodeView>, nid: u64) -> Point {
    if m.contains_key(nid) {
        Point::Kink { ci: m[nid].kink }
    } else {
        Point::Grid { nid }
    }
}

/// Where the curve of a chain from node `nid` towards node `to` ends: halfway
/// to the next control point, or at it where the chain ends there.
pub open spec fn curve_end(m: Map<u64, NodeView>, ch: Chain, nid: u64, to: u64) -> Point {
    match chain_at(m, to, Want::Touching { a: nid }) {
        Some(p) => if goes_on(p) {
            Point::Mid { a: ch.ci, b: p.ci }
        } else {
            Point::Control { ci: p.ci }
        },
        None => landing(m, to),
    }
}

/// Where the pen is after node `i`.
pub open spec fn pen_after(m: Map<u64, NodeView>, nodes: Seq<u64>, i: int) -> Point {
    let nid = nodes[i];
    let j = after(nodes, i);
    let to = nodes[j];
    match smooth_at(m, nodes, i) {
        Some(ch) => curve_end(m, ch, nid, to),
        None => if m.contains_key(nid) {
            match (
                chain_at(m, nid, Want::Passing { a: to }),
                chain_at(m, to, Want::Touching { a: nid }),
            ) {
                (Some(part), Some(p)) => if goes_on(p) {
                    Point::Mid { a: part.ci, b: p.ci }
                } else {
                    Point::Control { ci: p.ci }
                },
                _ => if kink_at(m, nodes, j) {
                    landing(m, to)
                } else {
                    landing(m, nid)
                },
            }
        } else {
            grid_target(m, nodes, i)
        },
    }
}

/// Where the pen goes from a node without control points.
pub open spec fn grid_target(m: Map<u64, NodeView>, nodes: Seq<u64>, i: int) -> Point {
    let nid = nodes[i];
    let j = after(nodes, i);
    if !m.contains_key(nodes[j]) {
        Point::Grid { nid }
    } else {
        match smooth_at(m, nodes, j) {
            Some(ch) => Point::MidGrid { nid, ci: ch.ci },
            None => landing(m, nodes[j]),
        }
    }
}

/// The arrival at a kink, along the half of a curve.
pub open spec fn arrival(m: Map<u64, NodeView>, nodes: Seq<u64>, i: int) -> Seq<PathStep> {
    let nid = nodes[i];
    let from = nodes[before(nodes, i)];
    match chain_at(m, nid, Want::Passing { a: from }) {
        Some(part) => {
            let whole = match chain_at(m, from, Want::Touching { a: nid }) {
                Some(p) => !goes_on(p),
                None => true,
            };
            seq![
                PathStep::Quad {
                    control: if whole {
                        Handle::At { ci: part.ci }
                    } else {
                        Handle::FromPen { ci: part.ci, t: m[nid].crossing }
                    },
                    to: landing(m, nid),
                },
            ]
        },
        None => seq![],
    }
}

/// The departure from a kink, along the half of a curve, or straight to another
/// kink.
pub open spec fn departure(m: Map<u64, NodeView>, nodes: Seq<u64>, i: int) -> Seq<PathStep> {
    let nid = nodes[i];
    let j = after(nodes, i);
    let to = nodes[j];
    match chain_at(m, nid, Want::Passing { a: to }) {
        Some(part) => match chain_at(m, to, Want::Touching { a: nid }) {
            Some(p) => if goes_on(p) {
                seq![
                    PathStep::LineUnlessThere { to: landing(m, nid) },
                    PathStep::Quad {
                        control: Handle::ToEnd { ci: part.ci, t: m[nid].crossing },
                        to: Point::Mid { a: part.ci, b: p.ci },
                    },
                ]
            } else {
                seq![
                    PathStep::Quad {
                        control: Handle::At { ci: part.ci },
                        to: Point::Control { ci: p.ci },
                    },
                ]
            },
            None => seq![],
        },
        None => if kink_at(m, nodes, j) {
            seq![PathStep::LineUnlessThere { to: landing(m, to) }]
        } else {
            seq![]
        },
    }
}

/// The steps of an outline at node `i`.
pub open spec fn steps_at(m: Map<u64, NodeView>, nodes: Seq<u64>, i: int) -> Seq<PathStep> {
    let nid = nodes[i];
    let to = nodes[after(nodes, i)];
    match smooth_at(m, nodes, i) {
        Some(ch) => seq![
            PathStep::Quad { control: Handle::At { ci: ch.ci }, to: curve_end(m, ch, nid, to) },
        ],
        None => if m.contains_key(nid) {
            arrival(m, nodes, i) + departure(m, nodes, i)
        } else if m.contains_key(to) {
            seq![
                PathStep::Line { to: Point::Grid { nid } },
                PathStep::Line { to: grid_target(m, nodes, i) },
            ]
        } else {
            seq![PathStep::Line { to: Point::Grid { nid } }]
        },
    }
}

/// The steps at the first `n` nodes.
pub open spec fn steps_until(m: Map<u64, NodeView>, nodes: Seq<u64>, n: nat) -> Seq<PathStep>
    decreases n,
{
    if n == 0 {
        seq![PathStep::Move { to: pen_after(m, nodes, nodes.len() - 1) }]
    } else {
        steps_until(m, nodes, (n - 1) as nat) + steps_at(m, nodes, n - 1)
    }
}

/// The outline of a face. It starts where its last node leaves the pen, so
/// that it closes without a seam.
pub open spec fn face_steps(m: Map<u64, NodeView>, nodes: Seq<u64>) -> Seq<PathStep> {
    if nodes.len() < 3 {
        seq![]
    } else {
        steps_until(m, nodes, nodes.len()).push(PathStep::Close)
    }
}

/// Looks at one node of a face.
struct Walker<'a> {
    map: &'a NodeMap,
    nodes: &'a Vec<u64>,
    m: Ghost<Map<u64, NodeView>>,
}

impl<'a> Walker<'a> {
    spec fn wf(&self) -> bool {
        self.map.holds(self.m@) && self.nodes@.len() >= 3
    }

    fn next_of(&self, i: usize) -> (r: usize)
        requires
            i < self.nodes@.len(),
        ensures
            r == after(self.nodes@, i as int),
            r < self.nodes@.len(),
    {
        let n: usize = self.nodes.len();
        if i < n - 1 {
            i + 1
        } else {
            0
        }
    }

    fn prev_of(&self, i: usize) -> (r: usize)
        requires
            i < self.nodes@.len(),
        ensures
            r == before(self.nodes@, i as int),
            r < self.nodes@.len(),
    {
        if i > 0 {
            i - 1
        } else {
            self.nodes.len() - 1
        }
    }

    fn chain(&self, nid: u64, want: Want) -> (r: Option<Chain>)
        requires
            self.wf(),
        ensures
            r == chain_at(self.m@, nid, want),
    {
        find_chain(self.map, nid, want, Ghost(self.m@))
    }

    fn has(&self, nid: u64) -> (r: bool)
        requires
            self.wf(),
        ensures
            r == self.m@.contains_key(nid),
    {
        self.map.lookup(nid, Ghost(self.m@)).is_some()
    }

    fn smooth(&self, i: usize) -> (r: Option<Chain>)
        requires
            self.wf(),
            i < self.nodes@.len(),
        ensures
            r == smooth_at(self.m@, self.nodes@, i as int),
    {
        self.chain(
            self.nodes[i],
            Want::Through { a: self.nodes[self.prev_of(i)], b: self.nodes[self.next_of(i)] },
        )
    }

    fn kink(&self, i: usize) -> (r: bool)
        requires
            self.wf(),
            i < self.nodes@.len(),
        ensures
            r == kink_at(self.m@, self.nodes@, i as int),
    {
        self.has(self.nodes[i]) && self.smooth(i).is_none()
    }

    fn landing(&self, nid: u64) -> (r: Point)
        requires
            self.wf(),
        ensures
            r == landing(self.m@, nid),
    {
        match self.map.lookup(nid, Ghost(self.m@)) {
            Some(n) => Point::Kink { ci: n.kink },
            None => Point::Grid { nid },
        }
    }

    fn crossing(&self, nid: u64) -> (r: Option<usize>)
        requires
            self.wf(),
            self.m@.contains_key(nid),
        ensures
            r == self.m@[nid].crossing,
    {
        match self.map.lookup(nid, Ghost(self.m@)) {
            Some(n) => n.crossing,
            None => None,
        }
    }

    fn curve_end(&self, ch: Chain, nid: u64, to: u64) -> (r: Point)
        requires
            self.wf(),
        ensures
            r == curve_end(self.m@, ch, nid, to),
    {
        match self.chain(to, Want::Touching { a: nid }) {
            Some(p) => if p.prev.is_some() && p.next.is_some() {
                Point::Mid { a: ch.ci, b: p.ci }
            } else {
                Point::Control { ci: p.ci }
            },
            None => self.landing(to),
        }
    }

    fn grid_target(&self, i: usize) -> (r: Point)
        requires
            self.wf(),
            i < self.nodes@.len(),
        ensures
            r == grid_target(self.m@, self.nodes@, i as int),
    {
        let nid: u64 = self.nodes[i];
        let j: usize = self.next_of(i);
        if !self.has(self.nodes[j]) {
            Point::Grid { nid }
        } else {
            match self.smooth(j) {
                Some(ch) => Point::MidGrid { nid, ci: ch.ci },
                None => self.landing(self.nodes[j]),
            }
        }
    }

    fn pen_after(&self, i: usize) -> (r: Point)
        requires
            self.wf(),
            i < self.nodes@.len(),
        ensures
            r == pen_after(self.m@, self.nodes@, i as int),
    {
        let nid: u64 = self.nodes[i];
        let j: usize = self.next_of(i);
        let to: u64 = self.nodes[j];
        match self.smooth(i) {
            Some(ch) => self.curve_end(ch, nid, to),
            None => if self.has(nid) {
                match (
                    self.chain(nid, Want::Passing { a: to }),
                    self.chain(to, Want::Touching { a: nid }),
                ) {
                    (Some(part), Some(p)) => if p.prev.is_some() && p.next.is_some() {
                        Point::Mid { a: part.ci, b: p.ci }
                    } else {
                        Point::Control { ci: p.ci }
                    },
                    _ => if self.kink(j) {
                        self.landing(to)
                    } else {
                        self.landing(nid)
                    },
                }
            } else {
                self.grid_target(i)
            },
        }
    }

    fn push_arrival(&self, i: usize, out: &mut Vec<PathStep>)
        requires
            self.wf(),
            i < self.nodes@.len(),
            self.m@.contains_key(self.nodes@[i as int]),
        ensures
            final(out)@ == old(out)@ + arrival(self.m@, self.nodes@, i as int),
    {
        let nid: u64 = self.nodes[i];
        let from: u64 = self.nodes[self.prev_of(i)];
        if let Some(part) = self.chain(nid, Want::Passing { a: from }) {
            let whole: bool = match self.chain(from, Want::Touching { a: nid }) {
                Some(p) => !(p.prev.is_some() && p.next.is_some()),
                None => true,
            };
            let control: Handle = if whole {
                Handle::At { ci: part.ci }
            } else {
                Handle::FromPen { ci: part.ci, t: self.crossing(nid) }
            };
            let to: Point = self.landing(nid);
            out.push(PathStep::Quad { control, to });
        }
        assert(out@ =~= old(out)@ + arrival(self.m@, self.nodes@, i as int));
    }

    fn push_departure(&self, i: usize, out: &mut Vec<PathStep>)
        requires
            self.wf(),
            i < self.nodes@.len(),
            self.m@.contains_key(self.nodes@[i as int]),
        ensures
            final(out)@ == old(out)@ + departure(self.m@, self.nodes@, i as int),
    {
        let nid: u64 = self.nodes[i];
        let j: usize = self.next_of(i);
        let to: u64 = self.nodes[j];
        match self.chain(nid, Want::Passing { a: to }) {
            Some(part) => {
                if let Some(p) = self.chain(to, Want::Touching { a: nid }) {
                    if p.prev.is_some() && p.next.is_some() {
                        out.push(PathStep::LineUnlessThere { to: self.landing(nid) });
                        out.push(
                            PathStep::Quad {
                                control: Handle::ToEnd { ci: part.ci, t: self.crossing(nid) },
                                to: Point::Mid { a: part.ci, b: p.ci },
                            },
                        );
                    } else {
                        out.push(
                            PathStep::Quad {
                                control: Handle::At { ci: part.ci },
                                to: Point::Control { ci: p.ci },
                            },
                        );
                    }
                }
            },
            None => {
                if self.kink(j) {
                    out.push(PathStep::LineUnlessThere { to: self.landing(to) });
                }
            },
        }
        assert(out@ =~= old(out)@ + departure(self.m@, self.nodes@, i as int));
    }

    fn push_steps(&self, i: usize, out: &mut Vec<PathStep>)
        requires
            self.wf(),
            i < self.nodes@.len(),
        ensures
            final(out)@ == old(out)@ + steps_at(self.m@, self.nodes@, i as int),
    {
        let nid: u64 = self.nodes[i];
        let to: u64 = self.nodes[self.next_of(i)];
        match self.smooth(i) {
            Some(ch) => {
                out.push(
                    PathStep::Quad {
                        control: Handle::At { ci: ch.ci },
                        to: self.curve_end(ch, nid, to),
                    },
                );
            },
            None => {
                if self.has(nid) {
                    self.push_arrival(i, out);
                    self.push_departure(i, out);
                } else {
                    out.push(PathStep::Line { to: Point::Grid { nid } });
                    if self.has(to) {
                        out.push(PathStep::Line { to: self.grid_target(i) });
                    }
                }
            },
        }
        assert(out@ =~= old(out)@ + steps_at(self.m@, self.nodes@, i as int));
    }
}

/// The outline of a face, appended to those before it.
pub(crate) fn append_face_path(
    nodes: &Vec<u64>,
    map: &NodeMap,
    out: &mut Vec<PathStep>,
    m: Ghost<Map<u64, NodeView>>,
)
    requires
        map.holds(m@),
    ensures
        final(out)@ == old(out)@ + face_steps(m@, nodes@),
{
    let n: usize = nodes.len();
    let ghost start = out@;
    if n < 3 {
        assert(out@ =~= start + face_steps(m@, nodes@));
        return;
    }
    let walker = Walker { map, nodes, m };
    out.push(PathStep::Move { to: walker.pen_after(n - 1) });
    assert(out@ =~= start + steps_until(m@, nodes@, 0));
    let mut i: usize = 0;
    while i < n
        invariant
            i <= n == nodes@.len(),
            walker.wf(),
            walker.nodes == nodes,
            walker.m@ == m@,
            out@ == start + steps_until(m@, nodes@, i as nat),
        decreases n - i,
    {
        let ghost so_far = out@;
        walker.push_steps(i, out);
        i += 1;
        assert(out@ =~= start + steps_until(m@, nodes@, i as nat));
    }
    out.push(PathStep::Close);
    assert(out@ =~= start + face_steps(m@, nodes@));
}

// ── Laws ──

proof fn lemma_inner_steps(m: Map<u64, NodeView>, nodes: Seq<u64>, n: nat)
    ensures
        steps_until(m, nodes, n).len() >= 1,
        steps_until(m, nodes, n)[0] is Move,
        forall|k: int|
            0 < k < steps_until(m, nodes, n).len() ==> !(#[trigger] steps_until(m, nodes, n)[k] is Move)
                && !(steps_until(m, nodes, n)[k] is Close),
        !(steps_until(m, nodes, n)[0] is Close),
    decreases n,
{
    if n > 0 {
        lemma_inner_steps(m, nodes, (n - 1) as nat);
        let a = steps_until(m, nodes, (n - 1) as nat);
        let b = steps_at(m, nodes, n - 1);
        assert forall|k: int| 0 < k < (a + b).len() implies !(#[trigger] (a + b)[k] is Move) && !((a
            + b)[k] is Close) by {
            if k < a.len() {
                assert((a + b)[k] == a[k]);
            } else {
                assert((a + b)[k] == b[k - a.len()]);
            }
        }
    }
}

/// An outline is one closed path: it starts with a move, ends by closing, and
/// does neither in between.
pub proof fn law_outlines_are_closed_paths(m: Map<u64, NodeView>, nodes: Seq<u64>, k: int)
    requires
        nodes.len() >= 3,
        0 <= k < face_steps(m, nodes).len(),
    ensures
        face_steps(m, nodes)[k] is Move <==> k == 0,
        face_steps(m, nodes)[k] is Close <==> k == face_steps(m, nodes).len() - 1,
{
    lemma_inner_steps(m, nodes, nodes.len());
    let a = steps_until(m, nodes, nodes.len());
    if 0 < k < a.len() {
        assert(face_steps(m, nodes)[k] == a[k]);
    }
}

/// Where a face follows a chain through its last node, the last curve ends at
/// the very point where the outline started.
pub proof fn law_smooth_outlines_meet_their_start(m: Map<u64, NodeView>, nodes: Seq<u64>)
    requires
        nodes.len() >= 3,
        smooth_at(m, nodes, nodes.len() - 1) is Some,
    ensures
        ({
            let s = face_steps(m, nodes);
            s[0] matches PathStep::Move { to } && s[s.len() - 2] matches PathStep::Quad {
                to: end,
                ..
            } && to == end
        }),
{
    lemma_inner_steps(m, nodes, nodes.len());
    lemma_inner_steps(m, nodes, (nodes.len() - 1) as nat);
    let a = steps_until(m, nodes, (nodes.len() - 1) as nat);
    let b = steps_at(m, nodes, nodes.len() - 1);
    assert(steps_until(m, nodes, nodes.len()) == a + b);
    assert(a[0] == PathStep::Move { to: pen_after(m, nodes, nodes.len() - 1) }) by {
        lemma_first_step(m, nodes, (nodes.len() - 1) as nat);
    }
    let s = face_steps(m, nodes);
    assert(s[0] == a[0]);
    assert(s[s.len() - 2] == b[0]);
}

proof fn lemma_first_step(m: Map<u64, NodeView>, nodes: Seq<u64>, n: nat)
    ensures
        steps_until(m, nodes, n).len() >= 1,
        steps_until(m, nodes, n)[0] == (PathStep::Move {
            to: pen_after(m, nodes, nodes.len() - 1),
        }),
    decreases n,
{
    if n > 0 {
        lemma_first_step(m, nodes, (n - 1) as nat);
    }
}

} // verus!
