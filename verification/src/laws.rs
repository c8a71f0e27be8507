//! The engine's cross-cutting guarantees, stated and proved once: what
//! renders is a function of the graph and the size alone, constant sources
//! paint uniform images, named operands never cross, and nodes the sink
//! cannot reach change nothing.
use vstd::prelude::*;

use crate::coordinate::Coordinate;
use crate::generator::{
    is_cycle_err, is_cycle_err_inputs, spec_eval, spec_eval_inputs, spec_fuel, spec_generate,
    spec_input_list, spec_render, spec_sink_source, spec_size_ok, spec_value_bytes, EvalErr,
    GenData, GenErrorView, LinkData,
};
use crate::input_output_value::InputOutputValue;
use crate::node::NameView;
use crate::node_kind::{spec_node_generate, NodeData};

verus! {

/// Determinism: the image is a mathematical function of the graph and the
/// requested size, so rendering the same graph at the same size twice gives
/// byte-identical surfaces.
pub proof fn lemma_generate_deterministic(g1: GenData, g2: GenData, w: u32, h: u32)
    requires
        g1 == g2,
    ensures
        spec_generate(g1, w, h) == spec_generate(g2, w, h),
{
}

/// A constant source with no inputs yields its stored value at every
/// position, whatever the budget allows.
pub proof fn lemma_constant_eval(
    g: GenData,
    c: int,
    v: InputOutputValue,
    pos: Coordinate,
    size: (u32, u32),
    fuel: nat,
)
    requires
        0 <= c < g.nodes.len(),
        g.nodes[c] == NodeData::StaticValue(v),
        spec_input_list(g.links, c) == Seq::<(NameView, int)>::empty(),
        fuel >= 1,
    ensures
        spec_eval(g, c, pos, size, fuel) == Ok::<InputOutputValue, EvalErr>(v),
{
    reveal(spec_node_generate);
    assert(spec_eval_inputs(g, spec_input_list(g.links, c), pos, size, (fuel - 1) as nat)
        == Ok::<Map<NameView, InputOutputValue>, EvalErr>(Map::empty()));
}

/// Constant node invariance, pixel by pixel: with a constant source wired
/// straight to the sink, every pixel of the rendered prefix carries that
/// constant's canonical color, for any extent.
pub proof fn lemma_constant_render(g: GenData, c: int, v: InputOutputValue, w: u32, h: u32, k: nat)
    requires
        0 <= c < g.nodes.len(),
        g.nodes[c] == NodeData::StaticValue(v),
        spec_input_list(g.links, c) == Seq::<(NameView, int)>::empty(),
    ensures
        spec_render(g, c, w, h, k) is Ok,
        spec_render(g, c, w, h, k)->Ok_0.len() == 4 * k,
        forall|i: int|
            0 <= i < k ==> #[trigger] spec_render(g, c, w, h, k)->Ok_0.subrange(
                4 * i,
                4 * i + 4,
            ) =~= spec_value_bytes(v),
    decreases k,
{
    if k > 0 {
        lemma_constant_render(g, c, v, w, h, (k - 1) as nat);
        lemma_constant_eval(
            g,
            c,
            v,
            crate::generator::spec_pixel_coord(
                (k - 1) % (w as int),
                (k - 1) / (w as int),
            ),
            (w, h),
            spec_fuel(g),
        );
        let pre = spec_render(g, c, w, h, (k - 1) as nat)->Ok_0;
        let cur = spec_render(g, c, w, h, k)->Ok_0;
        assert(cur == pre + spec_value_bytes(v));
        assert forall|i: int| 0 <= i < k implies #[trigger] cur.subrange(4 * i, 4 * i + 4)
            =~= spec_value_bytes(v) by {
            if i < k - 1 {
                assert(cur.subrange(4 * i, 4 * i + 4) =~= pre.subrange(4 * i, 4 * i + 4));
            } else {
                assert(cur.subrange(4 * i, 4 * i + 4) =~= spec_value_bytes(v));
            }
        }
    }
}

/// Constant node invariance: with a constant source wired straight to the
/// sink, the whole image at any renderable size is that constant's
/// canonical color, uniformly.
pub proof fn lemma_constant_node_uniform(g: GenData, c: int, v: InputOutputValue, w: u32, h: u32)
    requires
        crate::generator::spec_size_ok(w, h),
        spec_sink_source(g.links, 0) == Some(c),
        0 <= c < g.nodes.len(),
        g.nodes[c] == NodeData::StaticValue(v),
        spec_input_list(g.links, c) == Seq::<(NameView, int)>::empty(),
    ensures
        spec_generate(g, w, h) is Ok,
        spec_generate(g, w, h)->Ok_0.len() == 4 * (w as int) * (h as int),
        forall|i: int|
            0 <= i < (w as int) * (h as int) ==> #[trigger] spec_generate(g, w, h)->Ok_0.subrange(
                4 * i,
                4 * i + 4,
            ) =~= spec_value_bytes(v),
{
    lemma_constant_render(g, c, v, w, h, ((w as int) * (h as int)) as nat);
    assert(4 * (((w as int) * (h as int)) as nat) == 4 * (w as int) * (h as int))
        by (nonlinear_arith)
        requires
            w >= 1,
            h >= 1,
    ;
}

/// Named-input isolation: every binding a consumer receives traces back to
/// a link that carries exactly that name into exactly that consumer, so two
/// links under distinct names can never cross-assign their values.
pub proof fn lemma_named_input_isolation(links: Seq<LinkData>, c: int, k: int)
    requires
        0 <= k < spec_input_list(links, c).len(),
    ensures
        exists|i: int|
            0 <= i < links.len() && (#[trigger] links[i]).to == c && links[i].name
                == spec_input_list(links, c)[k].0 && links[i].from == spec_input_list(
                links,
                c,
            )[k].1,
    decreases links.len(),
{
    let lst = spec_input_list(links, c);
    if links.len() > 0 {
        let pre = spec_input_list(links.drop_last(), c);
        let l = links.last();
        if l.to == c && k == lst.len() - 1 {
            assert(links[links.len() - 1].to == c && links[links.len() - 1].name == lst[k].0
                && links[links.len() - 1].from == lst[k].1);
        } else {
            let k0: int = if l.to == c {
                lemma_remove_name_source(pre, l.name, k);
                choose|k0: int|
                    0 <= k0 < pre.len() && pre[k0] == crate::generator::spec_remove_name(
                        pre,
                        l.name,
                    )[k]
            } else {
                k
            };
            lemma_named_input_isolation(links.drop_last(), c, k0);
            let i = choose|i: int|
                0 <= i < links.drop_last().len() && (#[trigger] links.drop_last()[i]).to == c
                    && links.drop_last()[i].name == pre[k0].0 && links.drop_last()[i].from
                    == pre[k0].1;
            assert(links[i].to == c && links[i].name == lst[k].0 && links[i].from == lst[k].1);
        }
    }
}

/// Every entry of a name-filtered list is an entry of the unfiltered one.
proof fn lemma_remove_name_source(s: Seq<(NameView, int)>, n: NameView, k: int)
    requires
        0 <= k < crate::generator::spec_remove_name(s, n).len(),
    ensures
        exists|k0: int|
            0 <= k0 < s.len() && s[k0] == crate::generator::spec_remove_name(s, n)[k],
    decreases s.len(),
{
    let r = crate::generator::spec_remove_name(s, n);
    if s.len() > 0 {
        let pre = crate::generator::spec_remove_name(s.drop_last(), n);
        if s.last().0 != n && k == r.len() - 1 {
            assert(s[s.len() - 1] == r[k]);
        } else {
            lemma_remove_name_source(s.drop_last(), n, k);
            let k0 = choose|k0: int| 0 <= k0 < s.drop_last().len() && s.drop_last()[k0] == pre[k];
            assert(s[k0] == r[k]);
        }
    }
}

/// Whether a graph extends another by dead growth only: new nodes appended,
/// and new links that feed only the new nodes.
pub open spec fn spec_dead_extension(g: GenData, g2: GenData) -> bool {
    &&& g.nodes.len() <= g2.nodes.len()
    &&& g2.nodes.take(g.nodes.len() as int) == g.nodes
    &&& g.links.len() <= g2.links.len()
    &&& g2.links.take(g.links.len() as int) == g.links
    &&& forall|i: int|
        g.links.len() <= i < g2.links.len() ==> (#[trigger] g2.links[i]).to >= g.nodes.len()
}

/// Dead growth adds nothing to an old consumer's inputs.
proof fn lemma_dead_input_list(g: GenData, g2: GenData, c: int)
    requires
        spec_dead_extension(g, g2),
        0 <= c < g.nodes.len(),
    ensures
        spec_input_list(g2.links, c) == spec_input_list(g.links, c),
    decreases g2.links.len(),
{
    if g2.links.len() > g.links.len() {
        let shorter = GenData { nodes: g2.nodes, links: g2.links.drop_last() };
        assert(g2.links.drop_last().take(g.links.len() as int) =~= g.links);
        lemma_dead_input_list(g, shorter, c);
        assert(g2.links.last() == g2.links[g2.links.len() - 1]);
        assert(g2.links.last().to != c);
    } else {
        assert(g2.links =~= g.links);
    }
}

/// Dead growth leaves the sink's source alone.
proof fn lemma_dead_sink_source(g: GenData, g2: GenData)
    requires
        spec_dead_extension(g, g2),
        g.nodes.len() >= 1,
    ensures
        spec_sink_source(g2.links, 0) == spec_sink_source(g.links, 0),
    decreases g2.links.len(),
{
    if g2.links.len() > g.links.len() {
        let shorter = GenData { nodes: g2.nodes, links: g2.links.drop_last() };
        assert(g2.links.drop_last().take(g.links.len() as int) =~= g.links);
        lemma_dead_sink_source(g, shorter);
        assert(g2.links.last().to != 0);
    } else {
        assert(g2.links =~= g.links);
    }
}

/// Whether every link of a graph names nodes the graph owns, as every
/// generator's links do.
pub open spec fn spec_links_in_range(g: GenData) -> bool {
    forall|i: int|
        0 <= i < g.links.len() ==> 0 <= (#[trigger] g.links[i]).from < g.nodes.len() && 0
            <= g.links[i].to < g.nodes.len()
}

/// Dead-node pruning, node by node: evaluating any of the base graph's
/// nodes in the grown graph gives exactly what the base graph gives,
/// whatever the budget — the dead growth is never consulted, so it cannot
/// affect the output nor fail, however malformed.
pub proof fn lemma_dead_nodes_eval(
    g: GenData,
    g2: GenData,
    n: int,
    pos: Coordinate,
    size: (u32, u32),
    fuel: nat,
)
    requires
        spec_dead_extension(g, g2),
        spec_links_in_range(g),
        0 <= n < g.nodes.len(),
    ensures
        spec_eval(g2, n, pos, size, fuel) == spec_eval(g, n, pos, size, fuel),
    decreases fuel, 0nat,
{
    if fuel > 0 {
        lemma_dead_input_list(g, g2, n);
        assert(g2.nodes[n] == g.nodes[n]) by {
            assert(g2.nodes.take(g.nodes.len() as int)[n] == g2.nodes[n]);
        }
        let lst = spec_input_list(g.links, n);
        assert forall|k: int| 0 <= k < lst.len() implies 0 <= (#[trigger] lst[k]).1
            < g.nodes.len() by {
            lemma_named_input_isolation(g.links, n, k);
        }
        lemma_dead_nodes_eval_inputs(g, g2, lst, pos, size, (fuel - 1) as nat);
    }
}

/// The input lists of the base graph's nodes evaluate alike in both
/// graphs, provided every producer they name is a base-graph node.
proof fn lemma_dead_nodes_eval_inputs(
    g: GenData,
    g2: GenData,
    lst: Seq<(NameView, int)>,
    pos: Coordinate,
    size: (u32, u32),
    fuel: nat,
)
    requires
        spec_dead_extension(g, g2),
        spec_links_in_range(g),
        forall|k: int| 0 <= k < lst.len() ==> 0 <= (#[trigger] lst[k]).1 < g.nodes.len(),
    ensures
        spec_eval_inputs(g2, lst, pos, size, fuel) == spec_eval_inputs(g, lst, pos, size, fuel),
    decreases fuel, lst.len() + 1,
{
    if lst.len() > 0 {
        assert(forall|k: int|
            0 <= k < lst.drop_last().len() ==> #[trigger] lst.drop_last()[k] == lst[k]);
        lemma_dead_nodes_eval_inputs(g, g2, lst.drop_last(), pos, size, fuel);
        lemma_dead_nodes_eval(g, g2, lst.last().1, pos, size, fuel);
    }
}



/// A settled evaluation stays put: once a budget avoids the exhausted-depth
/// error, every larger budget gives the same outcome.
proof fn lemma_eval_mono(g: GenData, n: int, pos: Coordinate, size: (u32, u32), f1: nat, f2: nat)
    requires
        f1 <= f2,
        !is_cycle_err(spec_eval(g, n, pos, size, f1)),
    ensures
        spec_eval(g, n, pos, size, f2) == spec_eval(g, n, pos, size, f1),
    decreases f1, 0nat,
{
    lemma_eval_inputs_mono(
        g,
        spec_input_list(g.links, n),
        pos,
        size,
        (f1 - 1) as nat,
        (f2 - 1) as nat,
    );
}

proof fn lemma_eval_inputs_mono(
    g: GenData,
    lst: Seq<(NameView, int)>,
    pos: Coordinate,
    size: (u32, u32),
    f1: nat,
    f2: nat,
)
    requires
        f1 <= f2,
        !is_cycle_err_inputs(spec_eval_inputs(g, lst, pos, size, f1)),
    ensures
        spec_eval_inputs(g, lst, pos, size, f2) == spec_eval_inputs(g, lst, pos, size, f1),
    decreases f1, lst.len() + 1,
{
    if lst.len() > 0 {
        lemma_eval_inputs_mono(g, lst.drop_last(), pos, size, f1, f2);
        lemma_eval_mono(g, lst.last().1, pos, size, f1, f2);
    }
}

/// Dead-node pruning, image level: growing the graph by nodes and links
/// the sink cannot reach leaves every rendered prefix unchanged, byte for
/// byte, whenever the base image does not already fail on a cycle.
proof fn lemma_dead_nodes_render(g: GenData, g2: GenData, c: int, w: u32, h: u32, k: nat)
    requires
        spec_dead_extension(g, g2),
        spec_links_in_range(g),
        0 <= c < g.nodes.len(),
        !(spec_render(g, c, w, h, k) == Err::<Seq<u8>, GenErrorView>(GenErrorView::Cycle)),
    ensures
        spec_render(g2, c, w, h, k) == spec_render(g, c, w, h, k),
    decreases k,
{
    if k > 0 {
        if spec_render(g, c, w, h, (k - 1) as nat) is Err {
            crate::generator::lemma_render_err_persists(g, c, w, h, (k - 1) as nat, k);
            lemma_dead_nodes_render(g, g2, c, w, h, (k - 1) as nat);
        } else {
            lemma_dead_nodes_render(g, g2, c, w, h, (k - 1) as nat);
            let pos = crate::generator::spec_pixel_coord(
                (k - 1) % (w as int),
                (k - 1) / (w as int),
            );
            assert(!is_cycle_err(spec_eval(g, c, pos, (w, h), spec_fuel(g))));
            lemma_eval_mono(g, c, pos, (w, h), spec_fuel(g), spec_fuel(g2));
            lemma_dead_nodes_eval(g, g2, c, pos, (w, h), spec_fuel(g2));
        }
    }
}

/// Dead-node pruning, whole image: nodes without a path into the sink, and
/// the links that feed them, change nothing about what renders — unless the
/// base graph already fails on a cycle, the grown graph's image is the base
/// image, byte for byte, errors included.
pub proof fn lemma_dead_nodes_image(g: GenData, g2: GenData, w: u32, h: u32)
    requires
        spec_dead_extension(g, g2),
        spec_links_in_range(g),
        g.nodes.len() >= 1,
        !(spec_generate(g, w, h) == Err::<Seq<u8>, GenErrorView>(GenErrorView::Cycle)),
    ensures
        spec_generate(g2, w, h) == spec_generate(g, w, h),
{
    lemma_dead_sink_source(g, g2);
    if spec_size_ok(w, h) && spec_sink_source(g.links, 0) is Some {
        let c = spec_sink_source(g.links, 0)->Some_0;
        if 0 <= c < g.nodes.len() {
            lemma_dead_nodes_render(g, g2, c, w, h, ((w as int) * (h as int)) as nat);
        } else {
            lemma_dead_eval_dangling(g, g2, c, w, h, ((w as int) * (h as int)) as nat);
        }
    }
}

/// A dangling sink source — one naming no node of the base graph — renders
/// the same cycle error in both graphs; dead growth cannot own it either,
/// since dead links only feed dead nodes.
proof fn lemma_dead_eval_dangling(g: GenData, g2: GenData, c: int, w: u32, h: u32, k: nat)
    requires
        spec_dead_extension(g, g2),
        spec_links_in_range(g),
        spec_sink_source(g.links, 0) == Some(c),
        !(0 <= c < g.nodes.len()),
    ensures
        spec_render(g2, c, w, h, k) == spec_render(g, c, w, h, k),
{
    lemma_sink_source_from_links(g.links, c);
}

/// A sink source returned by the link registry is some link's producer.
proof fn lemma_sink_source_from_links(links: Seq<LinkData>, c: int)
    requires
        spec_sink_source(links, 0) == Some(c),
    ensures
        exists|i: int| 0 <= i < links.len() && (#[trigger] links[i]).from == c,
    decreases links.len(),
{
    if links.len() > 0 {
        if links.last().to == 0 {
            assert(links[links.len() - 1].from == c);
        } else {
            lemma_sink_source_from_links(links.drop_last(), c);
            let i = choose|i: int|
                0 <= i < links.drop_last().len() && (#[trigger] links.drop_last()[i]).from == c;
            assert(links[i].from == c);
        }
    }
}

} // verus!
