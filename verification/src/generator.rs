//! The generator: owns the nodes and links of the computation graph,
//! derives a deterministic evaluation order rooted at the sink, and drives
//! the per-pixel loop that renders the image.
//!
//! The sink (node 0) exists from construction.  Evaluation follows each
//! consumer's named inputs, where for links carrying the same name into the
//! same consumer the last link added wins; nodes with no path into the sink
//! are pruned and never evaluated.  A cycle among the nodes the sink needs
//! is a configuration error, as is a sink with no incoming link.
use vstd::prelude::*;

use crate::coordinate::Coordinate;
use crate::input_output_value::{spec_to_pixel, InputOutputValue};
use crate::library::output::Output;
use crate::link::Link;
use crate::node::{InputName, NamedValues, NameView, NodeError, NodeErrorView};
use crate::node_kind::{spec_node_generate, Node, NodeData};
use crate::pixel::Pixel;
use crate::plane::Plane;
use crate::scalar::{Scalar, SCALE};

verus! {

/// The mathematical form of a link: producer, consumer, and the name the
/// value travels under.
pub struct LinkData {
    pub from: int,
    pub to: int,
    pub name: NameView,
}

/// The mathematical form of a generator: its nodes and its links, in the
/// order they were added.
pub struct GenData {
    pub nodes: Seq<NodeData>,
    pub links: Seq<LinkData>,
}

/// Why a generation run failed.
#[derive(Debug, Clone, PartialEq)]
pub enum GenError {
    /// A dimension was zero, above the coordinate range, or the buffer
    /// would not fit in memory.
    InvalidDimensions,
    /// No link feeds the sink.
    NoOutputInput,
    /// The nodes the sink needs contain a cycle.
    CycleDetected,
    /// A node rejected its inputs: a graph-construction error, reported
    /// with the node and what was wrong.
    Node { node: usize, error: NodeError },
}

/// The mathematical form of a generation error.
pub enum GenErrorView {
    InvalidDimensions,
    NoOutputInput,
    Cycle,
    Node(int, NodeErrorView),
}

impl View for GenError {
    type V = GenErrorView;

    open spec fn view(&self) -> GenErrorView {
        match self {
            GenError::InvalidDimensions => GenErrorView::InvalidDimensions,
            GenError::NoOutputInput => GenErrorView::NoOutputInput,
            GenError::CycleDetected => GenErrorView::Cycle,
            GenError::Node { node, error } => GenErrorView::Node(*node as int, error@),
        }
    }
}

/// What evaluating a node can reject: exhausted depth (a cycle), or a
/// node's own configuration error.
pub enum EvalErr {
    Cycle,
    Node(int, NodeErrorView),
}

/// Entries of `s` except those named `k`, in order.
pub open spec fn spec_remove_name(s: Seq<(NameView, int)>, k: NameView) -> Seq<(NameView, int)>
    decreases s.len(),
{
    if s.len() == 0 {
        s
    } else {
        let pre = spec_remove_name(s.drop_last(), k);
        if s.last().0 == k {
            pre
        } else {
            pre.push(s.last())
        }
    }
}

/// The effective named inputs of consumer `c`: one `(name, producer)` pair
/// per name, where a later link under the same name replaces the earlier
/// one and moves to the end.
pub open spec fn spec_input_list(links: Seq<LinkData>, c: int) -> Seq<(NameView, int)>
    decreases links.len(),
{
    if links.len() == 0 {
        Seq::empty()
    } else {
        let pre = spec_input_list(links.drop_last(), c);
        let l = links.last();
        if l.to == c {
            spec_remove_name(pre, l.name).push((l.name, l.from))
        } else {
            pre
        }
    }
}

/// The producer the sink takes its value from: the last link added into
/// `sink`, of any name; `None` if no link feeds it.
pub open spec fn spec_sink_source(links: Seq<LinkData>, sink: int) -> Option<int>
    decreases links.len(),
{
    if links.len() == 0 {
        None
    } else if links.last().to == sink {
        Some(links.last().from)
    } else {
        spec_sink_source(links.drop_last(), sink)
    }
}

/// What evaluating node `n` at a position yields, with a recursion budget:
/// producers are evaluated first, in input-list order, and their values
/// collected by name; an exhausted budget means the node sits on a cycle
/// and dominates any other error.
pub open spec fn spec_eval(
    g: GenData,
    n: int,
    pos: Coordinate,
    size: (u32, u32),
    fuel: nat,
) -> Result<InputOutputValue, EvalErr>
    decreases fuel, 0nat,
{
    if fuel == 0 {
        Err(EvalErr::Cycle)
    } else if !(0 <= n < g.nodes.len()) {
        Err(EvalErr::Cycle)
    } else {
        match spec_eval_inputs(g, spec_input_list(g.links, n), pos, size, (fuel - 1) as nat) {
            Err(e) => Err(e),
            Ok(m) => match spec_node_generate(g.nodes[n], pos, size, m) {
                Ok(v) => Ok(v),
                Err(ne) => Err(EvalErr::Node(n, ne)),
            },
        }
    }
}

/// The named values an input list provides: each producer evaluated with
/// the same budget; a cycle anywhere dominates, otherwise the earliest
/// failing producer's error is the result.
pub open spec fn spec_eval_inputs(
    g: GenData,
    lst: Seq<(NameView, int)>,
    pos: Coordinate,
    size: (u32, u32),
    fuel: nat,
) -> Result<Map<NameView, InputOutputValue>, EvalErr>
    decreases fuel, lst.len() + 1,
{
    if lst.len() == 0 {
        Ok(Map::empty())
    } else {
        let rest = spec_eval_inputs(g, lst.drop_last(), pos, size, fuel);
        let lastr = spec_eval(g, lst.last().1, pos, size, fuel);
        if (lastr is Err && lastr->Err_0 is Cycle) || (rest is Err && rest->Err_0 is Cycle) {
            Err(EvalErr::Cycle)
        } else {
            match rest {
                Err(e) => Err(e),
                Ok(m) => match lastr {
                    Err(e) => Err(e),
                    Ok(v) => Ok(m.insert(lst.last().0, v)),
                },
            }
        }
    }
}

/// The budget that suffices for every cycle-free graph: one level per node
/// and two to spare.
pub open spec fn spec_fuel(g: GenData) -> nat {
    g.nodes.len() + 2
}

/// The coordinate the driver hands the tree for pixel `(x, y)`.
pub open spec fn spec_pixel_coord(x: int, y: int) -> Coordinate {
    Coordinate {
        x: Scalar { bits: (x * SCALE) as i64 },
        y: Scalar { bits: (y * SCALE) as i64 },
        z: Scalar { bits: 0 },
    }
}

/// A generation error carrying the node context, from an evaluation error.
pub open spec fn spec_gen_err(e: EvalErr) -> GenErrorView {
    match e {
        EvalErr::Cycle => GenErrorView::Cycle,
        EvalErr::Node(n, ne) => GenErrorView::Node(n, ne),
    }
}

/// The value of pixel `(x, y)`: the sink's source node `c` evaluated at
/// the pixel's coordinate.
pub open spec fn spec_pixel_value(
    g: GenData,
    c: int,
    x: int,
    y: int,
    size: (u32, u32),
) -> Result<InputOutputValue, EvalErr> {
    spec_eval(g, c, spec_pixel_coord(x, y), size, spec_fuel(g))
}

/// The four bytes a lattice value contributes to the buffer.
pub open spec fn spec_value_bytes(v: InputOutputValue) -> Seq<u8> {
    let p = spec_to_pixel(v);
    seq![p.r, p.g, p.b, p.a]
}

/// The first `k` pixels of the image, row-major, or the error of the first
/// failing pixel in that order.
pub open spec fn spec_render(g: GenData, c: int, w: u32, h: u32, k: nat) -> Result<
    Seq<u8>,
    GenErrorView,
>
    decreases k,
{
    if k == 0 {
        Ok(Seq::empty())
    } else {
        match spec_render(g, c, w, h, (k - 1) as nat) {
            Err(e) => Err(e),
            Ok(bytes) => {
                let idx = k - 1;
                match spec_pixel_value(g, c, idx % (w as int), idx / (w as int), (w, h)) {
                    Err(e) => Err(spec_gen_err(e)),
                    Ok(v) => Ok(bytes + spec_value_bytes(v)),
                }
            },
        }
    }
}

/// Whether the requested size is renderable: no zero dimension, each
/// dimension within the fixed-point coordinate range, and the byte buffer
/// addressable.
pub open spec fn spec_size_ok(w: u32, h: u32) -> bool {
    w > 0 && h > 0 && w <= 0x8000_0000 && h <= 0x8000_0000 && 4 * (w as int) * (h as int)
        <= usize::MAX
}

/// The whole image a generator produces at a size, or the error: exactly
/// what `generate` returns.
pub open spec fn spec_generate(g: GenData, w: u32, h: u32) -> Result<Seq<u8>, GenErrorView> {
    if !spec_size_ok(w, h) {
        Err(GenErrorView::InvalidDimensions)
    } else {
        match spec_sink_source(g.links, 0) {
            None => Err(GenErrorView::NoOutputInput),
            Some(c) => spec_render(g, c, w, h, ((w as int) * (h as int)) as nat),
        }
    }
}

/// The generator: sole owner of the node arena and the link list; callers
/// hold plain indices.
#[derive(Debug)]
pub struct Generator {
    nodes: Vec<Node>,
    links: Vec<(Link, InputName)>,
}

impl View for Generator {
    type V = GenData;

    closed spec fn view(&self) -> GenData {
        GenData {
            nodes: self.nodes@.map_values(|n: Node| n@),
            links: self.links@.map_values(
                |p: (Link, InputName)|
                    LinkData {
                        from: p.0.input_node as int,
                        to: p.0.output_node as int,
                        name: p.1@,
                    },
            ),
        }
    }
}

impl Generator {
    /// The sink exists, and every link points at nodes the generator owns.
    pub open spec fn wf(&self) -> bool {
        &&& self@.nodes.len() >= 1
        &&& forall|i: int|
            0 <= i < self@.links.len() ==> 0 <= #[trigger] self@.links[i].from < self@.nodes.len()
                && 0 <= self@.links[i].to < self@.nodes.len()
    }

    /// A graph holding exactly the sink, pre-registered at index 0.
    pub fn new() -> (r: Generator)
        ensures
            r@.nodes =~= seq![NodeData::Output],
            r@.links =~= Seq::<LinkData>::empty(),
            r.wf(),
    {
        let mut nodes: Vec<Node> = Vec::new();
        nodes.push(Node::Output(Output::new()));
        Generator { nodes, links: Vec::new() }
    }

    /// The sink's index.
    pub fn output_node(&self) -> (r: usize)
        ensures
            r == 0,
    {
        0
    }

    /// Adds a node and returns its index.
    pub fn add_node(&mut self, node: Node) -> (r: usize)
        requires
            old(self).wf(),
        ensures
            final(self)@.nodes =~= old(self)@.nodes.push(node@),
            final(self)@.links == old(self)@.links,
            r == old(self)@.nodes.len(),
            final(self).wf(),
    {
        let r = self.nodes.len();
        self.nodes.push(node);
        proof {
            assert(final(self)@.nodes =~= old(self)@.nodes.push(node@));
            assert(final(self)@.links =~= old(self)@.links);
        }
        r
    }

    /// Adds a link under the given name and returns its index.
    pub fn add_edge_named(&mut self, link: Link, name: &str) -> (r: usize)
        requires
            old(self).wf(),
            link.input_node < old(self)@.nodes.len(),
            link.output_node < old(self)@.nodes.len(),
        ensures
            final(self)@.nodes == old(self)@.nodes,
            final(self)@.links =~= old(self)@.links.push(
                LinkData {
                    from: link.input_node as int,
                    to: link.output_node as int,
                    name: NameView::Named(name@),
                },
            ),
            r == old(self)@.links.len(),
            final(self).wf(),
    {
        let r = self.links.len();
        self.links.push((link, InputName::Named(String::from_str(name))));
        proof {
            assert(final(self)@.nodes =~= old(self)@.nodes);
            assert forall|i: int| 0 <= i < self@.links.len() implies 0 <= #[trigger] self@.links[i].from
                < self@.nodes.len() && 0 <= self@.links[i].to < self@.nodes.len() by {
                if i < old(self)@.links.len() {
                    assert(0 <= old(self)@.links[i].from < old(self)@.nodes.len());
                    assert(self@.links[i] == old(self)@.links[i]);
                }
            }
        }
        r
    }

    /// Adds a link with a synthetic name no user-supplied name can equal,
    /// and returns its index.
    pub fn add_edge(&mut self, link: Link) -> (r: usize)
        requires
            old(self).wf(),
            link.input_node < old(self)@.nodes.len(),
            link.output_node < old(self)@.nodes.len(),
        ensures
            final(self)@.nodes == old(self)@.nodes,
            final(self)@.links =~= old(self)@.links.push(
                LinkData {
                    from: link.input_node as int,
                    to: link.output_node as int,
                    name: NameView::Auto(old(self)@.links.len() as u64),
                },
            ),
            r == old(self)@.links.len(),
            final(self).wf(),
    {
        let r = self.links.len();
        let tag: u64 = r as u64;
        self.links.push((link, InputName::Auto(tag)));
        proof {
            assert(final(self)@.nodes =~= old(self)@.nodes);
            assert forall|i: int| 0 <= i < self@.links.len() implies 0 <= #[trigger] self@.links[i].from
                < self@.nodes.len() && 0 <= self@.links[i].to < self@.nodes.len() by {
                if i < old(self)@.links.len() {
                    assert(0 <= old(self)@.links[i].from < old(self)@.nodes.len());
                    assert(self@.links[i] == old(self)@.links[i]);
                }
            }
        }
        r
    }

    /// The node at an index, for the editor layer.
    pub fn node_at(&self, i: usize) -> (r: &Node)
        requires
            i < self@.nodes.len(),
        ensures
            r@ == self@.nodes[i as int],
    {
        &self.nodes[i]
    }

    /// How many nodes the generator owns.
    pub fn node_count(&self) -> (r: usize)
        ensures
            r == self@.nodes.len(),
    {
        self.nodes.len()
    }

    /// Moves a node on the editor canvas; the graph's evaluation data is
    /// untouched.
    pub fn move_node_to(&mut self, i: usize, x: i64, y: i64)
        requires
            old(self).wf(),
            i < old(self)@.nodes.len(),
        ensures
            final(self)@.nodes =~= old(self)@.nodes,
            final(self)@.links == old(self)@.links,
            final(self).wf(),
    {
        let node = &mut self.nodes[i];
        node.set_position(x, y);
        proof {
            assert(final(self)@.nodes =~= old(self)@.nodes);
            assert(final(self)@.links =~= old(self)@.links);
        }
    }

    /// Renames a node's editor label; the graph's evaluation data is
    /// untouched.
    pub fn set_node_name(&mut self, i: usize, name: String)
        requires
            old(self).wf(),
            i < old(self)@.nodes.len(),
        ensures
            final(self)@.nodes =~= old(self)@.nodes,
            final(self)@.links == old(self)@.links,
            final(self).wf(),
    {
        let node = &mut self.nodes[i];
        node.set_name(name);
        proof {
            assert(final(self)@.nodes =~= old(self)@.nodes);
            assert(final(self)@.links =~= old(self)@.links);
        }
    }
}


/// How many flags in a boolean sequence are set.
pub open spec fn count_trues(s: Seq<bool>) -> nat
    decreases s.len(),
{
    if s.len() == 0 {
        0
    } else {
        count_trues(s.drop_last()) + if s.last() {
            1nat
        } else {
            0nat
        }
    }
}

/// No more flags can be set than there are positions.
pub proof fn lemma_count_trues_le(s: Seq<bool>)
    ensures
        count_trues(s) <= s.len(),
    decreases s.len(),
{
    if s.len() > 0 {
        lemma_count_trues_le(s.drop_last());
    }
}

/// Setting one unset flag raises the count by exactly one.
pub proof fn lemma_count_trues_set(s: Seq<bool>, i: int)
    requires
        0 <= i < s.len(),
        !s[i],
    ensures
        count_trues(s.update(i, true)) == count_trues(s) + 1,
    decreases s.len(),
{
    if i == s.len() - 1 {
        assert(s.update(i, true).drop_last() =~= s.drop_last());
    } else {
        lemma_count_trues_set(s.drop_last(), i);
        assert(s.update(i, true).drop_last() =~= s.drop_last().update(i, true));
    }
}

/// The placement phase's running state, well formed: the flag and index
/// tables match the plan built so far, and that plan is well formed.
#[verifier::opaque]
pub open spec fn plan_state_ok(
    g: GenData,
    needed: Seq<bool>,
    placed: Seq<bool>,
    idx_of: Seq<usize>,
    entries: Seq<PlanEntry>,
) -> bool {
    &&& placed.len() == g.nodes.len()
    &&& idx_of.len() == g.nodes.len()
    &&& entries.len() == count_trues(placed)
    &&& count_trues(placed) <= g.nodes.len()
    &&& (forall|cc: int|
        0 <= cc < g.nodes.len() && #[trigger] placed[cc] ==> needed[cc] && idx_of[cc]
            < entries.len() && plan_view(entries)[idx_of[cc] as int].0 == cc)
    &&& (forall|j: int|
        0 <= j < entries.len() ==> {
            let node = (#[trigger] plan_view(entries)[j]).0;
            0 <= node < g.nodes.len() && placed[node] && idx_of[node] == j
        })
    &&& plan_wf(plan_view(entries), g)
}

/// Membership survives dropping the last element unless it was the match.
pub proof fn lemma_contains_drop_last(s: Seq<usize>, c: usize)
    requires
        s.len() > 0,
        s.contains(c),
    ensures
        s.drop_last().contains(c) || s.last() == c,
{
    let j = choose|j: int| 0 <= j < s.len() && s[j] == c;
    if j < s.len() - 1 {
        assert(s.drop_last()[j] == c);
    }
}

/// Membership survives a push, and the pushed element is a member.
pub proof fn lemma_contains_push(s: Seq<usize>, e: usize, c: usize)
    ensures
        s.contains(c) ==> s.push(e).contains(c),
        s.push(e).contains(e),
{
    if s.contains(c) {
        let j = choose|j: int| 0 <= j < s.len() && s[j] == c;
        assert(s.push(e)[j] == c);
    }
    assert(s.push(e)[s.len() as int] == e);
}

/// The view of an executable `(name, index)` pair list.
pub open spec fn pairs_view(s: Seq<(InputName, usize)>) -> Seq<(NameView, int)> {
    s.map_values(|p: (InputName, usize)| (p.0@, p.1 as int))
}

impl Generator {
    /// The producer feeding the sink, matching the last-link-wins rule.
    fn sink_source(&self) -> (r: Option<usize>)
        ensures
            match r {
                Some(c) => spec_sink_source(self@.links, 0) == Some(c as int),
                None => spec_sink_source(self@.links, 0) is None,
            },
    {
        let ghost links = self@.links;
        proof {
            assert(links.take(links.len() as int) =~= links);
        }
        let mut i: usize = self.links.len();
        while i > 0
            invariant
                i <= self.links@.len(),
                links == self@.links,
                links.len() == self.links@.len(),
                spec_sink_source(links, 0) == spec_sink_source(links.take(i as int), 0),
            decreases i,
        {
            i = i - 1;
            proof {
                assert(links.take(i + 1).drop_last() =~= links.take(i as int));
                assert(links.take(i + 1).last() == links[i as int]);
            }
            if self.links[i].0.output_node == 0 {
                return Some(self.links[i].0.input_node);
            }
        }
        proof {
            assert(links.take(0) =~= Seq::<LinkData>::empty());
        }
        None
    }

    /// The effective input list of every node: for each consumer one
    /// `(name, producer)` pair per name, the last link under a name winning.
    fn input_lists(&self) -> (r: Vec<Vec<(InputName, usize)>>)
        requires
            self.wf(),
        ensures
            r@.len() == self@.nodes.len(),
            forall|c: int|
                0 <= c < r@.len() ==> pairs_view(#[trigger] r@[c]@) == spec_input_list(
                    self@.links,
                    c,
                ),
            forall|c: int, k: int|
                0 <= c < r@.len() && 0 <= k < r@[c]@.len() ==> (#[trigger] r@[c]@[k]).1
                    < self@.nodes.len(),
    {
        let ghost links = self@.links;
        let n = self.nodes.len();
        let mut r: Vec<Vec<(InputName, usize)>> = Vec::new();
        let mut i: usize = 0;
        while i < n
            invariant
                i <= n,
                r@.len() == i,
                forall|c: int| 0 <= c < i ==> (#[trigger] r@[c]@).len() == 0,
            decreases n - i,
        {
            r.push(Vec::new());
            i = i + 1;
        }
        proof {
            assert forall|c: int| 0 <= c < r@.len() implies pairs_view(#[trigger] r@[c]@)
                == spec_input_list(links.take(0), c) by {
                assert(links.take(0) =~= Seq::<LinkData>::empty());
                assert(r@[c]@ =~= Seq::<(InputName, usize)>::empty());
                assert(pairs_view(r@[c]@) =~= Seq::<(NameView, int)>::empty());
            }
        }
        let mut k: usize = 0;
        while k < self.links.len()
            invariant
                self.wf(),
                k <= self.links@.len(),
                links == self@.links,
                links.len() == self.links@.len(),
                r@.len() == self@.nodes.len(),
                forall|c: int|
                    0 <= c < r@.len() ==> pairs_view(#[trigger] r@[c]@) == spec_input_list(
                        links.take(k as int),
                        c,
                    ),
                forall|c: int, j: int|
                    0 <= c < r@.len() && 0 <= j < r@[c]@.len() ==> (#[trigger] r@[c]@[j]).1
                        < self@.nodes.len(),
            decreases self.links@.len() - k,
        {
            let to = self.links[k].0.output_node;
            let from = self.links[k].0.input_node;
            proof {
                assert(0 <= self@.links[k as int].from);
                assert(0 <= links[k as int].to < self@.nodes.len());
            }
            let ghost old_list = r@[to as int]@;
            // Rebuild the consumer's list without this name, then append.
            let mut fresh: Vec<(InputName, usize)> = Vec::new();
            let mut j: usize = 0;
            while j < r[to].len()
                invariant
                    to < r@.len(),
                    k < self.links@.len(),
                    old_list == r@[to as int]@,
                    j <= old_list.len(),
                    links == self@.links,
                    pairs_view(fresh@) == spec_remove_name(
                        pairs_view(old_list.take(j as int)),
                        links[k as int].name,
                    ),
                    forall|jj: int|
                        0 <= jj < fresh@.len() ==> (#[trigger] fresh@[jj]).1 < self@.nodes.len(),
                    forall|jj: int|
                        0 <= jj < old_list.len() ==> (#[trigger] old_list[jj]).1
                            < self@.nodes.len(),
                decreases old_list.len() - j,
            {
                let keep = match (&r[to][j].0, &self.links[k].1) {
                    (InputName::Named(a), InputName::Named(b)) => !(*a == *b),
                    (InputName::Auto(a), InputName::Auto(b)) => !(*a == *b),
                    _ => true,
                };
                proof {
                    assert(old_list.take(j + 1).drop_last() =~= old_list.take(j as int));
                    assert(old_list.take(j + 1).last() == old_list[j as int]);
                    assert(pairs_view(old_list.take(j + 1)).drop_last() =~= pairs_view(
                        old_list.take(j as int),
                    ));
                    assert(pairs_view(old_list.take(j + 1)).last() == (
                        old_list[j as int].0@,
                        old_list[j as int].1 as int,
                    ));
                }
                if keep {
                    let ghost fresh_pre = fresh@;
                    let name_copy = r[to][j].0.duplicate();
                    let idx = r[to][j].1;
                    fresh.push((name_copy, idx));
                    proof {
                        assert(fresh@.drop_last() =~= fresh_pre);
                        assert(pairs_view(fresh@) =~= pairs_view(fresh_pre).push(
                            (old_list[j as int].0@, old_list[j as int].1 as int),
                        ));
                    }
                } else {
                }
                j = j + 1;
            }
            proof {
                assert(old_list.take(old_list.len() as int) =~= old_list);
            }
            let new_name = self.links[k].1.duplicate();
            fresh.push((new_name, from));
            let ghost pre_set = r@;
            r.set(to, fresh);
            proof {
                let lk = links[k as int];
                assert forall|c: int| 0 <= c < r@.len() implies pairs_view(#[trigger] r@[c]@)
                    == spec_input_list(links.take(k + 1), c) by {
                    assert(links.take(k + 1).drop_last() =~= links.take(k as int));
                    assert(links.take(k + 1).last() == lk);
                    if c == to as int {
                        assert(pairs_view(r@[c]@).drop_last() =~= spec_remove_name(
                            spec_input_list(links.take(k as int), c),
                            lk.name,
                        ));
                        assert(pairs_view(r@[c]@).last() == (lk.name, lk.from));
                        assert(pairs_view(r@[c]@) =~= spec_remove_name(
                            spec_input_list(links.take(k as int), c),
                            lk.name,
                        ).push((lk.name, lk.from)));
                    } else {
                        assert(r@[c]@ == pre_set[c]@);
                    }
                }
            }
            k = k + 1;
        }
        proof {
            assert(links.take(links.len() as int) =~= links);
        }
        r
    }
}


/// One step of the derived evaluation order: a node and, for each of its
/// effective inputs, the plan position its producer was placed at.
#[derive(Debug)]
pub struct PlanEntry {
    pub node: usize,
    pub inputs: Vec<(InputName, usize)>,
}

/// The mathematical form of a plan entry.
pub open spec fn entry_view(e: PlanEntry) -> (int, Seq<(NameView, int)>) {
    (e.node as int, pairs_view(e.inputs@))
}

pub open spec fn plan_view(entries: Seq<PlanEntry>) -> Seq<(int, Seq<(NameView, int)>)> {
    entries.map_values(|e: PlanEntry| entry_view(e))
}

/// A well-formed plan for a graph: entries name nodes of the graph, each
/// entry's inputs mirror the node's effective input list name for name, and
/// every referenced producer stands earlier in the plan.
#[verifier::opaque]
pub open spec fn plan_wf(pl: Seq<(int, Seq<(NameView, int)>)>, g: GenData) -> bool {
    &&& pl.len() <= g.nodes.len()
    &&& forall|i: int|
        0 <= i < pl.len() ==> {
            let lst = spec_input_list(g.links, (#[trigger] pl[i]).0);
            &&& 0 <= pl[i].0 < g.nodes.len()
            &&& pl[i].1.len() == lst.len()
            &&& forall|k: int|
                0 <= k < lst.len() ==> {
                    &&& (#[trigger] pl[i].1[k]).0 == lst[k].0
                    &&& 0 <= pl[i].1[k].1 < i
                    &&& pl[pl[i].1[k].1].0 == lst[k].1
                }
        }
}



/// A sequence of unset flags has count zero.
pub proof fn lemma_count_trues_zero(s: Seq<bool>)
    requires
        forall|j: int| 0 <= j < s.len() ==> !(#[trigger] s[j]),
    ensures
        count_trues(s) == 0,
    decreases s.len(),
{
    if s.len() > 0 {
        lemma_count_trues_zero(s.drop_last());
    }
}

/// If any member of an input list evaluates to a cycle, the whole input
/// collection does: exhausted depth dominates every other outcome.
proof fn lemma_inputs_cycle(
    g: GenData,
    lst: Seq<(NameView, int)>,
    pos: Coordinate,
    size: (u32, u32),
    fuel: nat,
    k: int,
)
    requires
        0 <= k < lst.len(),
        spec_eval(g, lst[k].1, pos, size, fuel) == Err::<InputOutputValue, EvalErr>(EvalErr::Cycle),
    ensures
        spec_eval_inputs(g, lst, pos, size, fuel) == Err::<
            Map<NameView, InputOutputValue>,
            EvalErr,
        >(EvalErr::Cycle),
    decreases lst.len(),
{
    if k == lst.len() - 1 {
    } else {
        assert(lst.drop_last()[k] == lst[k]);
        lemma_inputs_cycle(g, lst.drop_last(), pos, size, fuel, k);
    }
}

/// In a stuck state -- every needed, unplaced node waits on an unplaced
/// producer, and needed nodes' producers are needed -- a needed, unplaced
/// node evaluates to a cycle whatever the budget.
proof fn lemma_stuck_node_cycle(
    g: GenData,
    effs: Seq<Vec<(InputName, usize)>>,
    needed: Seq<bool>,
    placed: Seq<bool>,
    m: int,
    pos: Coordinate,
    size: (u32, u32),
    fuel: nat,
)
    requires
        effs.len() == g.nodes.len(),
        forall|c: int|
            0 <= c < effs.len() ==> pairs_view(#[trigger] effs[c]@) == spec_input_list(
                g.links,
                c,
            ),
        forall|c: int, k2: int|
            0 <= c < effs.len() && 0 <= k2 < effs[c]@.len() ==> (#[trigger] effs[c]@[k2]).1
                < g.nodes.len(),
        needed.len() == g.nodes.len(),
        placed.len() == g.nodes.len(),
        forall|c: int, k2: int|
            0 <= c < g.nodes.len() && needed[c] && 0 <= k2 < effs[c]@.len() ==> needed[(
            #[trigger] effs[c]@[k2]).1 as int],
        forall|c: int|
            0 <= c < g.nodes.len() && needed[c] && !(#[trigger] placed[c]) ==> exists|k2: int|
                0 <= k2 < effs[c]@.len() && !placed[(#[trigger] effs[c]@[k2]).1 as int],
        0 <= m < g.nodes.len(),
        needed[m],
        !placed[m],
    ensures
        spec_eval(g, m, pos, size, fuel) == Err::<InputOutputValue, EvalErr>(EvalErr::Cycle),
    decreases fuel,
{
    if fuel == 0 {
    } else {
        let lst = spec_input_list(g.links, m);
        assert(pairs_view(effs[m]@) == lst);
        let kw = choose|k2: int|
            0 <= k2 < effs[m]@.len() && !placed[(#[trigger] effs[m]@[k2]).1 as int];
        assert(lst[kw] == (effs[m]@[kw].0@, effs[m]@[kw].1 as int));
        let p = effs[m]@[kw].1 as int;
        assert(0 <= p < g.nodes.len() && needed[p] && !placed[p]);
        lemma_stuck_node_cycle(g, effs, needed, placed, p, pos, size, (fuel - 1) as nat);
        lemma_inputs_cycle(g, lst, pos, size, (fuel - 1) as nat, kw);
    }
}


/// Whether every producer in an input list is already placed; when not, a
/// waiting producer exists.
fn all_placed(eff_c: &Vec<(InputName, usize)>, placed: &Vec<bool>) -> (r: bool)
    requires
        forall|k: int| 0 <= k < eff_c@.len() ==> (#[trigger] eff_c@[k]).1 < placed@.len(),
    ensures
        r ==> forall|k: int| 0 <= k < eff_c@.len() ==> placed@[(#[trigger] eff_c@[k]).1 as int],
        !r ==> exists|k: int|
            0 <= k < eff_c@.len() && !placed@[(#[trigger] eff_c@[k]).1 as int],
{
    let mut ready: bool = true;
    let mut k: usize = 0;
    while k < eff_c.len()
        invariant
            k <= eff_c@.len(),
            forall|k2: int| 0 <= k2 < eff_c@.len() ==> (#[trigger] eff_c@[k2]).1 < placed@.len(),
            ready ==> forall|k2: int|
                0 <= k2 < k ==> placed@[(#[trigger] eff_c@[k2]).1 as int],
            !ready ==> exists|k2: int|
                0 <= k2 < eff_c@.len() && !placed@[(#[trigger] eff_c@[k2]).1 as int],
        decreases eff_c@.len() - k,
    {
        if !placed[eff_c[k].1] {
            ready = false;
        }
        k = k + 1;
    }
    ready
}

/// Appends one ready node to the plan: all its producers stand placed, so
/// its entry can point at their plan positions.
fn place_one(
    entries: &mut Vec<PlanEntry>,
    placed: &mut Vec<bool>,
    idx_of: &mut Vec<usize>,
    c: usize,
    eff_c: &Vec<(InputName, usize)>,
    Ghost(g): Ghost<GenData>,
    Ghost(needed): Ghost<Seq<bool>>,
)
    requires
        needed.len() == g.nodes.len(),
        old(placed)@.len() == g.nodes.len(),
        old(idx_of)@.len() == g.nodes.len(),
        (c as int) < g.nodes.len(),
        needed[c as int],
        !old(placed)@[c as int],
        pairs_view(eff_c@) == spec_input_list(g.links, c as int),
        forall|k: int| 0 <= k < eff_c@.len() ==> (#[trigger] eff_c@[k]).1 < g.nodes.len(),
        forall|k: int|
            0 <= k < eff_c@.len() ==> old(placed)@[(#[trigger] eff_c@[k]).1 as int],
        plan_state_ok(g, needed, old(placed)@, old(idx_of)@, old(entries)@),
    ensures
        final(placed)@ =~= old(placed)@.update(c as int, true),
        final(idx_of)@.len() == old(idx_of)@.len(),
        final(entries)@.len() == old(entries)@.len() + 1,
        plan_state_ok(g, needed, final(placed)@, final(idx_of)@, final(entries)@),
{
    proof {
        reveal(plan_state_ok);
    }
    let mut inputs: Vec<(InputName, usize)> = Vec::new();
    let mut k2: usize = 0;
    while k2 < eff_c.len()
        invariant
            idx_of@ == old(idx_of)@,
            placed@ == old(placed)@,
            entries@ == old(entries)@,
            idx_of@.len() == g.nodes.len(),
            k2 <= eff_c@.len(),
            inputs@.len() == k2,
            forall|k3: int| 0 <= k3 < eff_c@.len() ==> (#[trigger] eff_c@[k3]).1 < g.nodes.len(),
            forall|k3: int|
                0 <= k3 < eff_c@.len() ==> placed@[(#[trigger] eff_c@[k3]).1 as int],
            forall|k3: int|
                0 <= k3 < k2 ==> (#[trigger] inputs@[k3]).0@ == eff_c@[k3].0@ && inputs@[k3].1
                    == idx_of@[eff_c@[k3].1 as int],
        decreases eff_c@.len() - k2,
    {
        let name = eff_c[k2].0.duplicate();
        let producer = eff_c[k2].1;
        inputs.push((name, idx_of[producer]));
        k2 = k2 + 1;
    }
    let ghost entries_pre = entries@;
    let ghost idx_pre = idx_of@;
    let ghost placed_pre = placed@;
    let entry = PlanEntry { node: c, inputs };
    let ghost ev = entry_view(entry);
    proof {
        lemma_count_trues_set(placed@, c as int);
        lemma_count_trues_le(placed@.update(c as int, true));
    }
    entries.push(entry);
    idx_of.set(c, entries.len() - 1);
    placed.set(c, true);
    proof {
        reveal(plan_wf);
        assert(plan_view(entries@) =~= plan_view(entries_pre).push(ev));
        let pl = plan_view(entries@);
        let lst = spec_input_list(g.links, c as int);
        assert(ev.0 == c as int);
        assert(pairs_view(eff_c@) == lst);
        assert(ev.1.len() == lst.len());
        assert forall|k3: int| 0 <= k3 < lst.len() implies (#[trigger] ev.1[k3]).0 == lst[k3].0
            && ev.1[k3].1 == idx_pre[eff_c@[k3].1 as int] by {
            assert(ev.1[k3] == (eff_c@[k3].0@, idx_pre[eff_c@[k3].1 as int] as int));
            assert(lst[k3] == (eff_c@[k3].0@, eff_c@[k3].1 as int));
        }
        assert forall|cc: int|
            0 <= cc < g.nodes.len() && #[trigger] placed@[cc] implies needed[cc] && idx_of@[cc]
            < entries@.len() && pl[idx_of@[cc] as int].0 == cc by {
            if cc != c as int {
                assert(placed_pre[cc]);
                assert(idx_of@[cc] == idx_pre[cc]);
                assert(pl[idx_pre[cc] as int] == plan_view(entries_pre)[idx_pre[cc] as int]);
            } else {
                assert(pl[pl.len() - 1] == ev);
            }
        }
        assert forall|j: int|
            0 <= j < entries@.len() implies {
                let node = (#[trigger] pl[j]).0;
                0 <= node < g.nodes.len() && placed@[node] && idx_of@[node] == j
            } by {
            if j < entries_pre.len() {
                assert(pl[j] == plan_view(entries_pre)[j]);
                let node = plan_view(entries_pre)[j].0;
                assert(placed_pre[node] && idx_pre[node] == j);
                assert(node != c as int);
            } else {
                assert(pl[j] == ev);
            }
        }
        assert(plan_wf(pl, g)) by {
            assert forall|i: int| 0 <= i < pl.len() implies {
                let lst2 = spec_input_list(g.links, (#[trigger] pl[i]).0);
                &&& 0 <= pl[i].0 < g.nodes.len()
                &&& pl[i].1.len() == lst2.len()
                &&& forall|k3: int|
                    0 <= k3 < lst2.len() ==> {
                        &&& (#[trigger] pl[i].1[k3]).0 == lst2[k3].0
                        &&& 0 <= pl[i].1[k3].1 < i
                        &&& pl[pl[i].1[k3].1].0 == lst2[k3].1
                    }
            } by {
                if i < entries_pre.len() {
                    assert(pl[i] == plan_view(entries_pre)[i]);
                    assert forall|k3: int|
                        0 <= k3 < spec_input_list(g.links, pl[i].0).len() implies {
                            &&& (#[trigger] pl[i].1[k3]).0 == spec_input_list(g.links, pl[i].0)[k3].0
                            &&& 0 <= pl[i].1[k3].1 < i
                            &&& pl[pl[i].1[k3].1].0 == spec_input_list(g.links, pl[i].0)[k3].1
                        } by {
                        assert(plan_view(entries_pre)[i].1[k3]
                            == pl[i].1[k3]);
                        assert(pl[pl[i].1[k3].1] == plan_view(entries_pre)[pl[i].1[k3].1]);
                    }
                } else {
                    assert(pl[i] == ev);
                    let lst2 = spec_input_list(g.links, c as int);
                    assert forall|k3: int| 0 <= k3 < lst2.len() implies {
                        &&& (#[trigger] ev.1[k3]).0 == lst2[k3].0
                        &&& 0 <= ev.1[k3].1 < i
                        &&& pl[ev.1[k3].1].0 == lst2[k3].1
                    } by {
                        assert(ev.1[k3] == lst2[k3] || true);
                        assert(ev.1[k3].1 == idx_pre[eff_c@[k3].1 as int] as int);
                        let prod = eff_c@[k3].1 as int;
                        assert(placed_pre[prod]);
                        assert(idx_pre[prod] < entries_pre.len());
                        assert(plan_view(entries_pre)[idx_pre[prod] as int].0 == prod);
                        assert(pl[idx_pre[prod] as int] == plan_view(entries_pre)[idx_pre[
                            prod] as int]);
                        assert(lst2[k3].1 == prod);
                        assert(ev.1[k3].0 == lst2[k3].0);
                    }
                }
            }
        }
        assert(plan_state_ok(g, needed, placed@, idx_of@, entries@));
    }
}






impl GenError {
    /// A copy carrying the same error.
    pub fn duplicate(&self) -> (r: GenError)
        ensures
            r@ == self@,
    {
        match self {
            GenError::InvalidDimensions => GenError::InvalidDimensions,
            GenError::NoOutputInput => GenError::NoOutputInput,
            GenError::CycleDetected => GenError::CycleDetected,
            GenError::Node { node, error } => GenError::Node {
                node: *node,
                error: error.duplicate(),
            },
        }
    }
}

/// Whether an executable outcome carries exactly a specification outcome:
/// the same value, or an error with the same mathematical form.
pub open spec fn outcome_matches(
    r: Result<InputOutputValue, GenError>,
    s: Result<InputOutputValue, EvalErr>,
) -> bool {
    match s {
        Ok(v) => r == Ok::<InputOutputValue, GenError>(v),
        Err(e) => r is Err && r->Err_0@ == spec_gen_err(e),
    }
}

/// Whether an evaluation outcome is the exhausted-depth error.
pub open spec fn is_cycle_err(r: Result<InputOutputValue, EvalErr>) -> bool {
    r is Err && r->Err_0 is Cycle
}

pub open spec fn is_cycle_err_inputs(r: Result<Map<NameView, InputOutputValue>, EvalErr>) -> bool {
    r is Err && r->Err_0 is Cycle
}

/// Under a well-formed plan, a planned node's evaluation settles: any
/// budget past its plan position gives the same outcome, and never the
/// exhausted-depth error.
proof fn lemma_plan_eval(
    g: GenData,
    pl: Seq<(int, Seq<(NameView, int)>)>,
    i: int,
    pos: Coordinate,
    size: (u32, u32),
    fuel: nat,
)
    requires
        plan_wf(pl, g),
        0 <= i < pl.len(),
        fuel >= i + 1,
    ensures
        spec_eval(g, pl[i].0, pos, size, fuel) == spec_eval(g, pl[i].0, pos, size, (i + 1) as nat),
        !is_cycle_err(spec_eval(g, pl[i].0, pos, size, fuel)),
    decreases i, spec_input_list(g.links, pl[i].0).len() + 2,
{
    reveal(plan_wf);
    let n = pl[i].0;
    let lst = spec_input_list(g.links, n);
    assert(lst.take(lst.len() as int) =~= lst);
    lemma_plan_eval_inputs(g, pl, i, lst.len() as int, pos, size, (fuel - 1) as nat);
    lemma_plan_eval_inputs(g, pl, i, lst.len() as int, pos, size, i as nat);
}

/// The prefix of a planned node's input list settles in the same way.
proof fn lemma_plan_eval_inputs(
    g: GenData,
    pl: Seq<(int, Seq<(NameView, int)>)>,
    i: int,
    k: int,
    pos: Coordinate,
    size: (u32, u32),
    fuel: nat,
)
    requires
        plan_wf(pl, g),
        0 <= i < pl.len(),
        0 <= k <= spec_input_list(g.links, pl[i].0).len(),
        fuel >= i,
    ensures
        spec_eval_inputs(g, spec_input_list(g.links, pl[i].0).take(k), pos, size, fuel)
            == spec_eval_inputs(g, spec_input_list(g.links, pl[i].0).take(k), pos, size, i as nat),
        !is_cycle_err_inputs(
            spec_eval_inputs(g, spec_input_list(g.links, pl[i].0).take(k), pos, size, fuel),
        ),
    decreases i, k + 1,
{
    reveal(plan_wf);
    let lst = spec_input_list(g.links, pl[i].0);
    if k == 0 {
        assert(lst.take(0) =~= Seq::<(NameView, int)>::empty());
    } else {
        assert(lst.take(k).drop_last() =~= lst.take(k - 1));
        assert(lst.take(k).last() == lst[k - 1]);
        lemma_plan_eval_inputs(g, pl, i, k - 1, pos, size, fuel);
        let pidx = pl[i].1[k - 1].1;
        assert(0 <= pidx < i && pl[pidx].0 == lst[k - 1].1);
        lemma_plan_eval(g, pl, pidx, pos, size, fuel);
        lemma_plan_eval(g, pl, pidx, pos, size, i as nat);
    }
}

/// When a placement pass finds nothing to place, the unplaced needed
/// nodes wait on one another: the sink's source evaluates to a cycle
/// whatever the position or budget.
#[verifier::rlimit(100)]
#[verifier::spinoff_prover]
proof fn lemma_stuck_cycle_all(
    g: GenData,
    effs: Seq<Vec<(InputName, usize)>>,
    needed: Seq<bool>,
    placed: Seq<bool>,
    c_star: int,
)
    requires
        effs.len() == g.nodes.len(),
        forall|c: int|
            0 <= c < effs.len() ==> pairs_view(#[trigger] effs[c]@) == spec_input_list(
                g.links,
                c,
            ),
        forall|c: int, k2: int|
            0 <= c < effs.len() && 0 <= k2 < effs[c]@.len() ==> (#[trigger] effs[c]@[k2]).1
                < g.nodes.len(),
        needed.len() == g.nodes.len(),
        placed.len() == g.nodes.len(),
        forall|c: int, k2: int|
            0 <= c < g.nodes.len() && needed[c] && 0 <= k2 < effs[c]@.len() ==> needed[(
            #[trigger] effs[c]@[k2]).1 as int],
        forall|c: int|
            0 <= c < g.nodes.len() && needed[c] && !(#[trigger] placed[c]) ==> exists|k2: int|
                0 <= k2 < effs[c]@.len() && !placed[(#[trigger] effs[c]@[k2]).1 as int],
        0 <= c_star < g.nodes.len(),
        needed[c_star],
        !placed[c_star],
    ensures
        forall|pos: Coordinate, size: (u32, u32), fuel: nat|
            spec_eval(g, c_star, pos, size, fuel) == Err::<InputOutputValue, EvalErr>(
                EvalErr::Cycle,
            ),
{
    assert forall|pos: Coordinate, size: (u32, u32), fuel: nat|
        spec_eval(g, c_star, pos, size, fuel) == Err::<InputOutputValue, EvalErr>(
            EvalErr::Cycle,
        ) by {
        lemma_stuck_node_cycle(g, effs, needed, placed, c_star, pos, size, fuel);
    }
}



/// One placement pass: scans every node and places those whose producers
/// all stand placed.  Reports whether anything was placed; when nothing
/// was, every needed unplaced node waits on an unplaced producer.
fn place_pass(
    eff: &Vec<Vec<(InputName, usize)>>,
    needed: &Vec<bool>,
    placed: &mut Vec<bool>,
    idx_of: &mut Vec<usize>,
    entries: &mut Vec<PlanEntry>,
    Ghost(g): Ghost<GenData>,
)
    requires
        eff@.len() == g.nodes.len(),
        forall|c: int|
            0 <= c < eff@.len() ==> pairs_view(#[trigger] eff@[c]@) == spec_input_list(
                g.links,
                c,
            ),
        forall|c: int, k2: int|
            0 <= c < eff@.len() && 0 <= k2 < eff@[c]@.len() ==> (#[trigger] eff@[c]@[k2]).1
                < g.nodes.len(),
        needed@.len() == g.nodes.len(),
        old(placed)@.len() == g.nodes.len(),
        old(idx_of)@.len() == g.nodes.len(),
        plan_state_ok(g, needed@, old(placed)@, old(idx_of)@, old(entries)@),
    ensures
        plan_state_ok(g, needed@, final(placed)@, final(idx_of)@, final(entries)@),
        final(placed)@.len() == g.nodes.len(),
        final(idx_of)@.len() == g.nodes.len(),
        old(entries)@.len() <= final(entries)@.len(),
        final(entries)@.len() == old(entries)@.len() ==> final(placed)@ == old(placed)@
            && (forall|cc: int|
            0 <= cc < g.nodes.len() && needed@[cc] && !(#[trigger] final(placed)@[cc])
                ==> exists|k2: int|
                0 <= k2 < eff@[cc]@.len() && !final(placed)@[(#[trigger] eff@[cc]@[k2]).1 as int]),
{
    let n = needed.len();
    let ghost entries0 = entries@;
    let mut progress: bool = false;
    let mut c: usize = 0;
    while c < n
        invariant
            n == g.nodes.len(),
            eff@.len() == n,
            forall|cc: int|
                0 <= cc < eff@.len() ==> pairs_view(#[trigger] eff@[cc]@) == spec_input_list(
                    g.links,
                    cc,
                ),
            forall|cc: int, k2: int|
                0 <= cc < eff@.len() && 0 <= k2 < eff@[cc]@.len() ==> (
                #[trigger] eff@[cc]@[k2]).1 < n,
            needed@.len() == n,
            placed@.len() == n,
            idx_of@.len() == n,
            c <= n,
            placed@.len() == n,
            idx_of@.len() == n,
            plan_state_ok(g, needed@, placed@, idx_of@, entries@),
            entries0.len() <= entries@.len(),
            progress ==> entries@.len() > entries0.len(),
            !progress ==> entries@ == entries0 && placed@ == old(placed)@,
            !progress ==> forall|cc: int|
                0 <= cc < c && needed@[cc] && !(#[trigger] placed@[cc]) ==> exists|k2: int|
                    0 <= k2 < eff@[cc]@.len() && !placed@[(#[trigger] eff@[cc]@[k2]).1 as int],
        decreases n - c,
    {
        if needed[c] && !placed[c] {
            if all_placed(&eff[c], &placed) {
                place_one(entries, placed, idx_of, c, &eff[c], Ghost(g), Ghost(needed@));
                progress = true;
            }
        }
        c = c + 1;
    }
}


/// Places every needed node after its producers, pass by pass, and roots
/// the plan at the sink's source; when a pass can place nothing, the
/// needed nodes wait on one another in a cycle.
#[verifier::rlimit(100)]
fn build_plan(
    eff: &Vec<Vec<(InputName, usize)>>,
    needed: &Vec<bool>,
    c_star: usize,
    Ghost(g): Ghost<GenData>,
) -> (r: Result<(Vec<PlanEntry>, usize), GenError>)
    requires
        eff@.len() == g.nodes.len(),
        forall|c: int|
            0 <= c < eff@.len() ==> pairs_view(#[trigger] eff@[c]@) == spec_input_list(
                g.links,
                c,
            ),
        forall|c: int, k2: int|
            0 <= c < eff@.len() && 0 <= k2 < eff@[c]@.len() ==> (#[trigger] eff@[c]@[k2]).1
                < g.nodes.len(),
        needed@.len() == g.nodes.len(),
        (c_star as int) < g.nodes.len(),
        needed@[c_star as int],
        forall|c: int, k2: int|
            0 <= c < g.nodes.len() && needed@[c] && 0 <= k2 < eff@[c]@.len() ==> needed@[(
            #[trigger] eff@[c]@[k2]).1 as int],
    ensures
        match r {
            Ok((entries, root)) => plan_wf(plan_view(entries@), g) && root < entries@.len()
                && plan_view(entries@)[root as int].0 == c_star,
            Err(e) => e@ is Cycle && (forall|pos: Coordinate, size: (u32, u32), fuel: nat|
                spec_eval(g, c_star as int, pos, size, fuel) == Err::<InputOutputValue, EvalErr>(
                    EvalErr::Cycle,
                )),
        },
{
    let n = needed.len();
    let mut placed: Vec<bool> = Vec::new();
    let mut idx_of: Vec<usize> = Vec::new();
    let mut i2: usize = 0;
    while i2 < n
        invariant
            i2 <= n,
            placed@.len() == i2,
            idx_of@.len() == i2,
            forall|j: int| 0 <= j < i2 ==> !(#[trigger] placed@[j]),
        decreases n - i2,
    {
        placed.push(false);
        idx_of.push(0);
        i2 = i2 + 1;
    }
    let mut entries: Vec<PlanEntry> = Vec::new();
    proof {
        lemma_count_trues_zero(placed@);
        reveal(plan_wf);
        reveal(plan_state_ok);
        assert(plan_view(entries@) =~= Seq::<(int, Seq<(NameView, int)>)>::empty());
        assert(plan_wf(plan_view(entries@), g));
        assert(plan_state_ok(g, needed@, placed@, idx_of@, entries@));
    }
    loop
        invariant
            n == g.nodes.len(),
            eff@.len() == n,
            forall|c: int|
                0 <= c < eff@.len() ==> pairs_view(#[trigger] eff@[c]@) == spec_input_list(
                    g.links,
                    c,
                ),
            forall|c: int, k2: int|
                0 <= c < eff@.len() && 0 <= k2 < eff@[c]@.len() ==> (#[trigger] eff@[c]@[k2]).1
                    < n,
            needed@.len() == n,
            placed@.len() == n,
            idx_of@.len() == n,
            c_star < n,
            needed@[c_star as int],
            forall|c: int, k2: int|
                0 <= c < n && needed@[c] && 0 <= k2 < eff@[c]@.len() ==> needed@[(
                #[trigger] eff@[c]@[k2]).1 as int],
            plan_state_ok(g, needed@, placed@, idx_of@, entries@),
            entries@.len() <= n,
        decreases n + 1 - entries@.len(),
    {
        let len_before = entries.len();
        place_pass(eff, needed, &mut placed, &mut idx_of, &mut entries, Ghost(g));
        let progress = entries.len() > len_before;
        if placed[c_star] {
            proof {
                assert(idx_of@[c_star as int] < entries@.len() && plan_view(
                    entries@,
                )[idx_of@[c_star as int] as int].0 == c_star && plan_wf(
                    plan_view(entries@),
                    g,
                )) by {
                    reveal(plan_state_ok);
                }
            }
            let root = idx_of[c_star];
            return Ok((entries, root));
        }
        if !progress {
            proof {
                lemma_stuck_cycle_all(g, eff@, needed@, placed@, c_star as int);
            }
            return Err(GenError::CycleDetected);
        }
        proof {
            assert(entries@.len() <= n) by {
                reveal(plan_state_ok);
            }
        }
    }
}

impl Generator {
    /// Derives the evaluation order for everything the sink's source node
    /// needs; a cycle among those nodes is reported as the configuration
    /// error it is.
    #[verifier::rlimit(100)]
    fn derive_plan(&self, c_star: usize, eff: &Vec<Vec<(InputName, usize)>>) -> (r: Result<
        (Vec<PlanEntry>, usize),
        GenError,
    >)
        requires
            self.wf(),
            c_star < self@.nodes.len(),
            eff@.len() == self@.nodes.len(),
            forall|c: int|
                0 <= c < eff@.len() ==> pairs_view(#[trigger] eff@[c]@) == spec_input_list(
                    self@.links,
                    c,
                ),
            forall|c: int, k: int|
                0 <= c < eff@.len() && 0 <= k < eff@[c]@.len() ==> (#[trigger] eff@[c]@[k]).1
                    < self@.nodes.len(),
        ensures
            match r {
                Ok((entries, root)) => plan_wf(plan_view(entries@), self@) && root
                    < entries@.len() && plan_view(entries@)[root as int].0 == c_star,
                Err(e) => e@ is Cycle && (forall|pos: Coordinate, size: (u32, u32), fuel: nat|
                    spec_eval(self@, c_star as int, pos, size, fuel) == Err::<
                        InputOutputValue,
                        EvalErr,
                    >(EvalErr::Cycle)),
            },
    {
        let ghost g = self@;
        let n = self.nodes.len();
        // Phase one: the set of nodes the sink's source transitively needs.
        let mut needed: Vec<bool> = Vec::new();
        let mut i: usize = 0;
        while i < n
            invariant
                i <= n,
                needed@.len() == i,
                forall|j: int| 0 <= j < i ==> !(#[trigger] needed@[j]),
            decreases n - i,
        {
            needed.push(false);
            i = i + 1;
        }
        let mut stack: Vec<usize> = Vec::new();
        proof {
            assert(count_trues(needed@) <= n) by {
                lemma_count_trues_le(needed@);
            }
            lemma_count_trues_set(needed@, c_star as int);
        }
        needed.set(c_star, true);
        stack.push(c_star);
        proof {
            lemma_count_trues_le(needed@);
            assert(stack@[0] == c_star);
            assert(stack@.contains(c_star));
        }
        while stack.len() > 0
            invariant
                g == self@,
                needed@.len() == n,
                n == g.nodes.len(),
                eff@.len() == n,
                forall|c: int|
                    0 <= c < eff@.len() ==> pairs_view(#[trigger] eff@[c]@) == spec_input_list(
                        g.links,
                        c,
                    ),
                forall|c: int, k2: int|
                    0 <= c < eff@.len() && 0 <= k2 < eff@[c]@.len() ==> (#[trigger] eff@[c]@[k2]).1
                        < n,
                c_star < n,
                needed@[c_star as int],
                forall|j: int|
                    0 <= j < stack@.len() ==> (#[trigger] stack@[j]) < n && needed@[stack@[j] as int],
                forall|c: int, k2: int|
                    0 <= c < n && needed@[c] && !stack@.contains(c as usize) && 0 <= k2
                        < eff@[c]@.len() ==> needed@[(#[trigger] eff@[c]@[k2]).1 as int],
                count_trues(needed@) <= n,
            decreases 2 * n - 2 * count_trues(needed@) + stack@.len(),
        {
            let ghost stack_old = stack@;
            let node = stack[stack.len() - 1];
            stack.pop();
            proof {
                assert(stack@ =~= stack_old.drop_last());
                assert(stack_old.last() == node);
                assert forall|c: int, k2: int|
                    0 <= c < n && needed@[c] && c != node as int && !stack@.contains(c as usize)
                        && 0 <= k2 < eff@[c]@.len() implies needed@[(#[trigger] eff@[c]@[k2]).1 as int] by {
                    if stack_old.contains(c as usize) {
                        lemma_contains_drop_last(stack_old, c as usize);
                        assert(false);
                    }
                }
            }
            let ghost count0 = count_trues(needed@);
            let ghost stack0 = stack@;
            let mut k: usize = 0;
            while k < eff[node].len()
                invariant
                    g == self@,
                    node < n,
                    needed@.len() == n,
                    n == g.nodes.len(),
                    eff@.len() == n,
                    forall|c: int|
                        0 <= c < eff@.len() ==> pairs_view(#[trigger] eff@[c]@) == spec_input_list(
                            g.links,
                            c,
                        ),
                    forall|c: int, k2: int|
                        0 <= c < eff@.len() && 0 <= k2 < eff@[c]@.len() ==> (
                        #[trigger] eff@[c]@[k2]).1 < n,
                    k <= eff@[node as int]@.len(),
                    c_star < n,
                    needed@[c_star as int],
                    needed@[node as int],
                    forall|j: int|
                        0 <= j < stack@.len() ==> (#[trigger] stack@[j]) < n
                            && needed@[stack@[j] as int],
                    forall|k2: int|
                        0 <= k2 < k ==> needed@[(#[trigger] eff@[node as int]@[k2]).1 as int],
                    forall|c: int, k2: int|
                        0 <= c < n && needed@[c] && c != node && !stack@.contains(c as usize) && 0
                            <= k2 < eff@[c]@.len() ==> needed@[(#[trigger] eff@[c]@[k2]).1 as int],
                    count_trues(needed@) <= n,
                    2 * n - 2 * count_trues(needed@) + stack@.len() <= 2 * n - 2 * count0
                        + stack0.len(),
                decreases eff@[node as int]@.len() - k,
            {
                let p = eff[node][k].1;
                if !needed[p] {
                    let ghost needed_pre = needed@;
                    let ghost stack_pre2 = stack@;
                    proof {
                        lemma_count_trues_set(needed@, p as int);
                        lemma_count_trues_le(needed@.update(p as int, true));
                    }
                    needed.set(p, true);
                    stack.push(p);
                    proof {
                        lemma_contains_push(stack_pre2, p, p);
                        assert forall|j: int|
                            0 <= j < stack@.len() implies (#[trigger] stack@[j]) < n
                                && needed@[stack@[j] as int] by {
                            if j < stack_pre2.len() {
                                assert(stack@[j] == stack_pre2[j]);
                            } else {
                                assert(stack@[j] == p);
                            }
                        }
                        assert forall|c: int, k2: int|
                            0 <= c < n && needed@[c] && c != node as int && !stack@.contains(
                                c as usize,
                            ) && 0 <= k2 < eff@[c]@.len() implies needed@[(
                        #[trigger] eff@[c]@[k2]).1 as int] by {
                            if c == p as int {
                                lemma_contains_push(stack_pre2, p, p);
                                assert(false);
                            } else {
                                assert(needed_pre[c]);
                                if stack_pre2.contains(c as usize) {
                                    lemma_contains_push(stack_pre2, p, c as usize);
                                    assert(false);
                                }
                                assert(needed_pre[(eff@[c]@[k2]).1 as int]);
                            }
                        }
                    }
                }
                k = k + 1;
            }
        }
        // Phase two: place every needed node after its producers.
        build_plan(eff, &needed, c_star, Ghost(g))
    }
}


impl Generator {
    /// Evaluates the planned nodes in order at one position, reproducing
    /// the specification's outcome for the plan's root exactly.
    #[verifier::rlimit(100)]
    fn eval_plan(
        &self,
        entries: &Vec<PlanEntry>,
        root: usize,
        pos: &Coordinate,
        size: (u32, u32),
    ) -> (r: Result<InputOutputValue, GenError>)
        requires
            self.wf(),
            plan_wf(plan_view(entries@), self@),
            root < entries@.len(),
        ensures
            outcome_matches(
                r,
                spec_eval(
                    self@,
                    plan_view(entries@)[root as int].0,
                    *pos,
                    size,
                    spec_fuel(self@),
                ),
            ),
    {
        let ghost g = self@;
        let ghost pl = plan_view(entries@);
        proof {
            reveal(plan_wf);
        }
        let mut scratch: Vec<Result<InputOutputValue, GenError>> = Vec::new();
        let mut j: usize = 0;
        while j < entries.len()
            invariant
                self.wf(),
                g == self@,
                pl == plan_view(entries@),
                plan_wf(pl, g),
                scratch@.len() == j,
                j <= entries@.len(),
                forall|jj: int|
                    0 <= jj < j ==> outcome_matches(
                        #[trigger] scratch@[jj],
                        spec_eval(g, pl[jj].0, *pos, size, (jj + 1) as nat),
                    ),
            decreases entries@.len() - j,
        {
            proof {
                reveal(plan_wf);
            }
            let ghost lst = spec_input_list(g.links, pl[j as int].0);
            let mut nv = NamedValues::new();
            let mut errv: Option<GenError> = None;
            let mut k: usize = 0;
            proof {
                assert(lst.take(0) =~= Seq::<(NameView, int)>::empty());
            }
            while k < entries[j].inputs.len()
                invariant
                    self.wf(),
                    g == self@,
                    pl == plan_view(entries@),
                    plan_wf(pl, g),
                    scratch@.len() == j,
                    j < entries@.len(),
                    k <= entries@[j as int].inputs@.len(),
                    lst == spec_input_list(g.links, pl[j as int].0),
                    forall|jj: int|
                        0 <= jj < j ==> outcome_matches(
                            #[trigger] scratch@[jj],
                            spec_eval(g, pl[jj].0, *pos, size, (jj + 1) as nat),
                        ),
                    nv.wf(),
                    match errv {
                        None => spec_eval_inputs(g, lst.take(k as int), *pos, size, j as nat)
                            == Ok::<Map<NameView, InputOutputValue>, EvalErr>(nv@),
                        Some(e2) => {
                            let se = spec_eval_inputs(g, lst.take(k as int), *pos, size, j as nat);
                            se is Err && !(se->Err_0 is Cycle) && e2@ == spec_gen_err(se->Err_0)
                        },
                    },
                decreases entries@[j as int].inputs@.len() - k,
            {
                proof {
                    reveal(plan_wf);
                    assert(pl[j as int].1[k as int] == (
                        entries@[j as int].inputs@[k as int].0@,
                        entries@[j as int].inputs@[k as int].1 as int,
                    ));
                    assert(pl[j as int].1.len() == lst.len());
                }
                let pidx = entries[j].inputs[k].1;
                proof {
                    assert(0 <= pl[j as int].1[k as int].1 < j as int);
                    assert(pl[pidx as int].0 == lst[k as int].1);
                    lemma_plan_eval(g, pl, pidx as int, *pos, size, j as nat);
                    assert(lst.take(k + 1).drop_last() =~= lst.take(k as int));
                    assert(lst.take(k + 1).last() == lst[k as int]);
                }
                match &scratch[pidx] {
                    Ok(v) => {
                        if errv.is_none() {
                            let name = entries[j].inputs[k].0.duplicate();
                            nv.insert(name, *v);
                        }
                    },
                    Err(e2) => {
                        if errv.is_none() {
                            errv = Some(e2.duplicate());
                        }
                    },
                }
                k = k + 1;
            }
            proof {
                assert(lst.take(lst.len() as int) =~= lst);
            }
            let res: Result<InputOutputValue, GenError> = match errv {
                Some(e2) => Err(e2),
                None => {
                    let node_idx = entries[j].node;
                    proof {
                        assert(pl[j as int].0 == node_idx as int);
                        assert(0 <= pl[j as int].0 < g.nodes.len());
                    }
                    match self.nodes[node_idx].generate(pos, size, &nv) {
                        Ok(v) => Ok(v),
                        Err(ne) => Err(GenError::Node { node: node_idx, error: ne }),
                    }
                },
            };
            scratch.push(res);
            j = j + 1;
        }
        proof {
            lemma_plan_eval(g, pl, root as int, *pos, size, spec_fuel(g));
        }
        let out = scratch.remove(root);
        out
    }
}


/// An error once reached stays the image's outcome for every larger pixel
/// count.
pub proof fn lemma_render_err_persists(g: GenData, c: int, w: u32, h: u32, k0: nat, k: nat)
    requires
        k0 <= k,
        spec_render(g, c, w, h, k0) is Err,
    ensures
        spec_render(g, c, w, h, k) == spec_render(g, c, w, h, k0),
    decreases k,
{
    if k > k0 {
        lemma_render_err_persists(g, c, w, h, k0, (k - 1) as nat);
    }
}

/// When every position evaluates to a cycle, so does the whole image.
proof fn lemma_render_cycle(g: GenData, c: int, w: u32, h: u32, k: nat)
    requires
        k >= 1,
        forall|pos: Coordinate|
            spec_eval(g, c, pos, (w, h), spec_fuel(g)) == Err::<InputOutputValue, EvalErr>(
                EvalErr::Cycle,
            ),
    ensures
        spec_render(g, c, w, h, k) == Err::<Seq<u8>, GenErrorView>(GenErrorView::Cycle),
    decreases k,
{
    if k > 1 {
        lemma_render_cycle(g, c, w, h, (k - 1) as nat);
    } else {
        assert(spec_render(g, c, w, h, 0) == Ok::<Seq<u8>, GenErrorView>(Seq::empty()));
        assert(spec_eval(g, c, spec_pixel_coord(0int % (w as int), 0int / (w as int)), (w, h), spec_fuel(g))
            == Err::<InputOutputValue, EvalErr>(EvalErr::Cycle));
    }
}

/// A sink source named by the link registry names one of the graph's nodes.
proof fn lemma_sink_source_in_range(links: Seq<LinkData>, n: int)
    requires
        forall|i: int| 0 <= i < links.len() ==> 0 <= #[trigger] links[i].from < n,
    ensures
        spec_sink_source(links, 0) is Some ==> 0 <= spec_sink_source(links, 0)->Some_0 < n,
    decreases links.len(),
{
    if links.len() > 0 && links.last().to != 0 {
        assert(forall|i: int|
            0 <= i < links.drop_last().len() ==> 0 <= #[trigger] links.drop_last()[i].from < n);
        lemma_sink_source_in_range(links.drop_last(), n);
    }
}

impl Generator {
    /// Renders the graph at a size: derives the evaluation order from the
    /// current links, walks it once per pixel, and writes each value's
    /// canonical pixel into the surface, row-major.  Success is owed
    /// whenever the size is renderable, the sink is fed, the nodes it needs
    /// are acyclic, and each of them accepts its inputs at every pixel;
    /// each failure reports which of those went wrong.
    #[verifier::rlimit(100)]
    pub fn generate(&self, width: u32, height: u32) -> (r: Result<Plane, GenError>)
        requires
            self.wf(),
        ensures
            match r {
                Ok(p) => spec_generate(self@, width, height) is Ok && p.wf() && p.spec_width()
                    == width && p.spec_height() == height && p.spec_data() == spec_generate(
                    self@,
                    width,
                    height,
                )->Ok_0,
                Err(e) => spec_generate(self@, width, height) is Err && e@ == spec_generate(
                    self@,
                    width,
                    height,
                )->Err_0,
            },
    {
        let ghost g = self@;
        if width == 0 || height == 0 || width > 0x8000_0000 || height > 0x8000_0000 {
            return Err(GenError::InvalidDimensions);
        }
        proof {
            assert(4 * (width as int) * (height as int) <= 4 * 0x8000_0000 * 0x8000_0000int && (4
                * (width as int)) * (height as int) == 4 * (width as int) * (height as int) && 4
                * (width as int) <= 4 * 0x8000_0000int) by (nonlinear_arith)
                requires
                    0 < width <= 0x8000_0000,
                    0 < height <= 0x8000_0000,
            ;
        }
        let total: u128 = 4u128 * (width as u128) * (height as u128);
        if total > usize::MAX as u128 {
            return Err(GenError::InvalidDimensions);
        }
        let c_star = match self.sink_source() {
            None => {
                return Err(GenError::NoOutputInput);
            },
            Some(c) => c,
        };
        proof {
            assert(forall|i: int|
                0 <= i < g.links.len() ==> 0 <= #[trigger] g.links[i].from < g.nodes.len());
            lemma_sink_source_in_range(g.links, g.nodes.len() as int);
        }
        let eff = self.input_lists();
        let (entries, root) = match self.derive_plan(c_star, &eff) {
            Err(e) => {
                proof {
                    assert((width as int) * (height as int) >= 1) by (nonlinear_arith)
                        requires
                            width >= 1,
                            height >= 1,
                    ;
                    lemma_render_cycle(
                        g,
                        c_star as int,
                        width,
                        height,
                        ((width as int) * (height as int)) as nat,
                    );
                }
                return Err(e);
            },
            Ok(p) => p,
        };
        let mut data: Vec<u8> = Vec::new();
        let mut y: u32 = 0;
        while y < height
            invariant
                self.wf(),
                g == self@,
                plan_wf(plan_view(entries@), g),
                root < entries@.len(),
                plan_view(entries@)[root as int].0 == c_star,
                spec_sink_source(g.links, 0) == Some(c_star as int),
                0 < width <= 0x8000_0000,
                0 < height <= 0x8000_0000,
                4 * (width as int) * (height as int) <= usize::MAX,
                y <= height,
                data@.len() == 4 * ((y as int) * (width as int)),
                spec_render(g, c_star as int, width, height, ((y as int) * (width as int)) as nat)
                    == Ok::<Seq<u8>, GenErrorView>(data@),
            decreases height - y,
        {
            let mut x: u32 = 0;
            while x < width
                invariant
                    self.wf(),
                    g == self@,
                    plan_wf(plan_view(entries@), g),
                    root < entries@.len(),
                    plan_view(entries@)[root as int].0 == c_star,
                    spec_sink_source(g.links, 0) == Some(c_star as int),
                    0 < width <= 0x8000_0000,
                    0 < height <= 0x8000_0000,
                    4 * (width as int) * (height as int) <= usize::MAX,
                    y < height,
                    x <= width,
                    data@.len() == 4 * ((y as int) * (width as int) + x as int),
                    spec_render(
                        g,
                        c_star as int,
                        width,
                        height,
                        ((y as int) * (width as int) + x as int) as nat,
                    ) == Ok::<Seq<u8>, GenErrorView>(data@),
                decreases width - x,
            {
                let ghost k: int = (y as int) * (width as int) + x as int;
                proof {
                    assert(0 <= (y as int) * (width as int) + (x as int) && ((y as int) * (
                    width as int) + (x as int)) + 1 <= (width as int) * (height as int))
                        by (nonlinear_arith)
                        requires
                            0 <= x < width,
                            0 <= y < height,
                    ;
                    vstd::arithmetic::div_mod::lemma_fundamental_div_mod_converse(
                        k,
                        width as int,
                        y as int,
                        x as int,
                    );
                }
                let px = Scalar::from_int(x as i64);
                let py = Scalar::from_int(y as i64);
                let pos = Coordinate::new(px, py, Scalar::zero());
                proof {
                    assert(pos == spec_pixel_coord(x as int, y as int));
                }
                match self.eval_plan(&entries, root, &pos, (width, height)) {
                    Ok(v) => {
                        let ghost data_pre = data@;
                        let p = v.to_common_ground();
                        data.push(p.r);
                        data.push(p.g);
                        data.push(p.b);
                        data.push(p.a);
                        proof {
                            assert(data@ =~= data_pre + spec_value_bytes(v));
                            assert(spec_pixel_value(
                                g,
                                c_star as int,
                                k % (width as int),
                                k / (width as int),
                                (width, height),
                            ) == Ok::<InputOutputValue, EvalErr>(v));
                            assert(spec_render(g, c_star as int, width, height, (k + 1) as nat)
                                == Ok::<Seq<u8>, GenErrorView>(data@));
                        }
                    },
                    Err(e) => {
                        proof {
                            assert(spec_render(g, c_star as int, width, height, (k + 1) as nat)
                                is Err);
                            assert(spec_render(
                                g,
                                c_star as int,
                                width,
                                height,
                                (k + 1) as nat,
                            )->Err_0 == e@);
                            lemma_render_err_persists(
                                g,
                                c_star as int,
                                width,
                                height,
                                (k + 1) as nat,
                                ((width as int) * (height as int)) as nat,
                            );
                        }
                        return Err(e);
                    },
                }
                x = x + 1;
            }
            proof {
                assert((y as int) * (width as int) + width as int == ((y as int) + 1) * (
                width as int)) by (nonlinear_arith);
            }
            y = y + 1;
        }
        proof {
            assert((height as int) * (width as int) == (width as int) * (height as int) && 4 * ((
            height as int) * (width as int)) == 4 * (width as int) * (height as int))
                by (nonlinear_arith);
        }
        let plane = Plane::from_data(width, height, data);
        Ok(plane)
    }
}


/// Whether node `n` has a directed path of at most `fuel` links to the
/// sink.
pub open spec fn spec_connected(links: Seq<LinkData>, n: int, fuel: nat) -> bool
    decreases fuel,
{
    if n == 0 {
        true
    } else if fuel == 0 {
        false
    } else {
        exists|i: int|
            0 <= i < links.len() && (#[trigger] links[i]).from == n && spec_connected(
                links,
                links[i].to,
                (fuel - 1) as nat,
            )
    }
}

/// In a stable marking — the sink marked, and every producer of a marked
/// consumer marked — every node connected to the sink is marked.
proof fn lemma_connected_marked(links: Seq<LinkData>, conn: Seq<bool>, n: int, fuel: nat)
    requires
        forall|i: int| 0 <= i < links.len() ==> 0 <= (#[trigger] links[i]).from < conn.len() && 0
            <= links[i].to < conn.len(),
        conn.len() > 0,
        conn[0],
        forall|i: int|
            0 <= i < links.len() && conn[(#[trigger] links[i]).to] ==> conn[links[i].from],
        0 <= n < conn.len(),
        spec_connected(links, n, fuel),
    ensures
        conn[n],
    decreases fuel,
{
    if n != 0 {
        let i = choose|i: int|
            0 <= i < links.len() && (#[trigger] links[i]).from == n && spec_connected(
                links,
                links[i].to,
                (fuel - 1) as nat,
            );
        lemma_connected_marked(links, conn, links[i].to, (fuel - 1) as nat);
    }
}

impl Generator {
    /// The nodes with a directed path to the sink, each exactly once, the
    /// sink itself standing last; everything else is dead to the output.
    pub fn connected_nodes_to_output(&self) -> (r: Vec<usize>)
        requires
            self.wf(),
        ensures
            forall|j: int, j2: int| 0 <= j < j2 < r@.len() ==> r@[j] != r@[j2],
            forall|j: int|
                0 <= j < r@.len() ==> (#[trigger] r@[j]) < self@.nodes.len() && exists|f: nat|
                    spec_connected(self@.links, r@[j] as int, f),
            forall|n: int, f: nat|
                0 <= n < self@.nodes.len() && spec_connected(self@.links, n, f)
                    ==> #[trigger] spec_connected(self@.links, n, f) && r@.contains(n as usize),
            r@.len() >= 1 && r@.last() == 0,
    {
        let ghost g = self@;
        let n = self.nodes.len();
        let mut conn: Vec<bool> = Vec::new();
        let mut i: usize = 0;
        while i < n
            invariant
                i <= n,
                conn@.len() == i,
                forall|j: int| 0 <= j < i ==> !(#[trigger] conn@[j]),
            decreases n - i,
        {
            conn.push(false);
            i = i + 1;
        }
        proof {
            lemma_count_trues_zero(conn@);
            lemma_count_trues_set(conn@, 0);
        }
        conn.set(0, true);
        proof {
            lemma_count_trues_le(conn@);
            assert(spec_connected(g.links, 0, 0nat));
            assert forall|j: int| 0 <= j < n && #[trigger] conn@[j] implies exists|f: nat|
                spec_connected(g.links, j, f) by {
                assert(j == 0);
                assert(spec_connected(g.links, 0, 0nat));
            }
        }
        // saturate: a producer of a connected consumer is connected
        loop
            invariant_except_break
                g == self@,
                self.wf(),
                n == g.nodes.len(),
                n >= 1,
                conn@.len() == n,
                conn@[0],
                count_trues(conn@) <= n,
                forall|j: int|
                    0 <= j < n && #[trigger] conn@[j] ==> exists|f: nat|
                        spec_connected(g.links, j, f),
            ensures
                conn@.len() == n,
                conn@[0],
                forall|j: int|
                    0 <= j < n && #[trigger] conn@[j] ==> exists|f: nat|
                        spec_connected(g.links, j, f),
                forall|i2: int|
                    0 <= i2 < g.links.len() && conn@[(#[trigger] g.links[i2]).to]
                        ==> conn@[g.links[i2].from],
            decreases n + 1 - count_trues(conn@),
        {
            let ghost count0 = count_trues(conn@);
            let mut progress: bool = false;
            let mut k: usize = 0;
            while k < self.links.len()
                invariant
                    g == self@,
                    self.wf(),
                    n == g.nodes.len(),
                    n >= 1,
                    conn@.len() == n,
                    conn@[0],
                    k <= g.links.len(),
                    g.links.len() == self.links@.len(),
                    count_trues(conn@) <= n,
                    count0 <= count_trues(conn@),
                    progress ==> count_trues(conn@) > count0,
                    !progress ==> count_trues(conn@) == count0 && forall|i2: int|
                        0 <= i2 < k && conn@[(#[trigger] g.links[i2]).to] ==> conn@[g.links[i2].from],
                    forall|j: int|
                        0 <= j < n && #[trigger] conn@[j] ==> exists|f: nat|
                            spec_connected(g.links, j, f),
                decreases g.links.len() - k,
            {
                proof {
                    assert(0 <= g.links[k as int].from);
                }
                let to = self.links[k].0.output_node;
                let from = self.links[k].0.input_node;
                if conn[to] && !conn[from] {
                    proof {
                        lemma_count_trues_set(conn@, from as int);
                        lemma_count_trues_le(conn@.update(from as int, true));
                        let fto = choose|f: nat| spec_connected(g.links, to as int, f);
                        assert(spec_connected(g.links, from as int, (fto + 1) as nat)) by {
                            assert(g.links[k as int].from == from as int && spec_connected(
                                g.links,
                                g.links[k as int].to,
                                fto,
                            ));
                        }
                    }
                    conn.set(from, true);
                    progress = true;
                }
                k = k + 1;
            }
            if !progress {
                break;
            }
        }
        // collect: every connected node, ascending, the sink last
        let ghost connf = conn@;
        let mut r: Vec<usize> = Vec::new();
        let mut j: usize = 1;
        while j < n
            invariant
                connf == conn@,
                conn@.len() == n,
                1 <= j <= n || (n < 1 && j == 1),
                forall|a: int, b: int| 0 <= a < b < r@.len() ==> r@[a] != r@[b],
                forall|a: int| 0 <= a < r@.len() ==> 1 <= (#[trigger] r@[a]) < j,
                forall|m: int| 1 <= m < j && connf[m] ==> r@.contains(m as usize),
                forall|a: int| 0 <= a < r@.len() ==> connf[r@[a] as int],
            decreases n - j,
        {
            if conn[j] {
                let ghost r_pre = r@;
                r.push(j);
                proof {
                    assert forall|m: int| 1 <= m < j + 1 && connf[m] implies r@.contains(
                        m as usize,
                    ) by {
                        if m < j {
                            let a = choose|a: int| 0 <= a < r_pre.len() && r_pre[a] == m as usize;
                            assert(r@[a] == m as usize);
                        } else {
                            assert(r@[r@.len() - 1] == m as usize);
                        }
                    }
                }
            }
            j = j + 1;
        }
        let ghost r_pre = r@;
        r.push(0);
        proof {
            assert(r@.last() == 0usize);
            assert forall|jj: int| 0 <= jj < r@.len() implies (#[trigger] r@[jj])
                < self@.nodes.len() && exists|f: nat|
                spec_connected(self@.links, r@[jj] as int, f) by {
                if jj < r@.len() - 1 {
                    assert(r@[jj] == r_pre[jj]);
                    assert(connf[r_pre[jj] as int]);
                } else {
                    assert(r@[jj] == 0usize);
                    assert(spec_connected(self@.links, 0, 0nat));
                }
            }
            assert forall|n2: int, f: nat|
                0 <= n2 < self@.nodes.len() && spec_connected(self@.links, n2, f) implies
                r@.contains(n2 as usize) by {
                if n2 == 0 {
                    assert(r@[r@.len() - 1] == 0usize);
                } else {
                    lemma_connected_marked(g.links, connf, n2, f);
                    let a = choose|a: int| 0 <= a < r_pre.len() && r_pre[a] == n2 as usize;
                    assert(r@[a] == n2 as usize);
                }
            }
        }
        r
    }
}

} // verus!
