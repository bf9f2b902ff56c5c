use vstd::prelude::*;

use crate::skill_graph::{GraphEdge, SkillGraph, StatId};
use crate::text::{chars_of, string_from_chars};
use crate::validation::{ModifierDefRaw, StatRangeRaw};

verus! {

/// A skill-tree node as the tree file writes it.
pub struct SkillTreeNodeRaw<V> {
    pub name: String,
    pub position: (i32, i32),
    pub max_level: u32,
    pub modifiers: Vec<ModifierDefRaw<V>>,
}

/// The skill-tree file: grid size, nodes, and edges as index pairs.
pub struct SkillTreeDefRaw<G, V> {
    pub grid_size: G,
    pub nodes: Vec<SkillTreeNodeRaw<V>>,
    pub edges: Vec<(usize, usize)>,
}

/// The name the tree file gives stat `id`: its registry name, or `unknown`.
pub open spec fn stat_file_name(names: Seq<String>, id: StatId) -> Seq<char> {
    if id < names.len() { names[id as int]@ } else { "unknown"@ }
}

/// `r` is the fixed stat `(id, value)` as the tree file writes it.
pub open spec fn writes_stat<V>(r: StatRangeRaw<V>, names: Seq<String>, id: StatId, value: V) -> bool {
    match r {
        StatRangeRaw::Fixed { stat, value: v } => stat@ == stat_file_name(names, id) && v == value,
        StatRangeRaw::Range { .. } => false,
    }
}

fn stat_name(names: &Vec<String>, id: StatId) -> (s: String)
    ensures
        s@ == stat_file_name(names@, id),
{
    if (id as usize) < names.len() {
        names[id as usize].clone()
    } else {
        string_from_chars(&chars_of("unknown"))
    }
}

/// The tree file of `graph`: each node with its name, grid cell, max level
/// and, if it has rolled values, one modifier of fixed stats (named through
/// `stat_names`); the edges as index pairs, in order.
pub fn graph_to_raw<P, V: Copy, G>(graph: &SkillGraph<P, V>, stat_names: &Vec<String>, grid_size: G) -> (raw: SkillTreeDefRaw<G, V>)
    ensures
        raw.grid_size == grid_size,
        raw.nodes.len() == graph.nodes.len(),
        raw.edges@ == graph.edges@.map_values(|e: GraphEdge| (e.a, e.b)),
        forall|i: int| 0 <= i < graph.nodes.len() ==> {
            let n = #[trigger] graph.nodes@[i];
            let r = raw.nodes@[i];
            &&& r.name@ == n.name@
            &&& r.position == n.grid_cell
            &&& r.max_level == n.max_level
            &&& r.modifiers.len() == (if n.rolled_values.len() == 0 { 0int } else { 1int })
            &&& n.rolled_values.len() > 0 ==> r.modifiers@[0].stats.len() == n.rolled_values.len()
                && forall|k: int| 0 <= k < n.rolled_values.len() ==> writes_stat(
                    #[trigger] r.modifiers@[0].stats@[k],
                    stat_names@,
                    n.rolled_values@[k].0,
                    n.rolled_values@[k].1,
                )
        },
{
    let mut nodes: Vec<SkillTreeNodeRaw<V>> = Vec::new();
    let mut i: usize = 0;
    while i < graph.nodes.len()
        invariant
            0 <= i <= graph.nodes.len(),
            nodes.len() == i,
            forall|j: int| 0 <= j < i ==> {
                let n = #[trigger] graph.nodes@[j];
                let r = nodes@[j];
                &&& r.name@ == n.name@
                &&& r.position == n.grid_cell
                &&& r.max_level == n.max_level
                &&& r.modifiers.len() == (if n.rolled_values.len() == 0 { 0int } else { 1int })
                &&& n.rolled_values.len() > 0 ==> r.modifiers@[0].stats.len() == n.rolled_values.len()
                    && forall|k: int| 0 <= k < n.rolled_values.len() ==> writes_stat(
                        #[trigger] r.modifiers@[0].stats@[k],
                        stat_names@,
                        n.rolled_values@[k].0,
                        n.rolled_values@[k].1,
                    )
            },
        decreases graph.nodes.len() - i,
    {
        let node = &graph.nodes[i];
        let mut modifiers: Vec<ModifierDefRaw<V>> = Vec::new();
        if node.rolled_values.len() > 0 {
            let mut stats: Vec<StatRangeRaw<V>> = Vec::new();
            let mut k: usize = 0;
            while k < node.rolled_values.len()
                invariant
                    0 <= k <= node.rolled_values.len(),
                    stats.len() == k,
                    forall|m: int| 0 <= m < k ==> writes_stat(
                        #[trigger] stats@[m],
                        stat_names@,
                        node.rolled_values@[m].0,
                        node.rolled_values@[m].1,
                    ),
                decreases node.rolled_values.len() - k,
            {
                let (id, value) = node.rolled_values[k];
                let stat = stat_name(stat_names, id);
                stats.push(StatRangeRaw::Fixed { stat, value });
                k = k + 1;
            }
            modifiers.push(ModifierDefRaw { stats });
        }
        nodes.push(SkillTreeNodeRaw {
            name: node.name.clone(),
            position: node.grid_cell,
            max_level: node.max_level,
            modifiers,
        });
        i = i + 1;
    }
    let mut edges: Vec<(usize, usize)> = Vec::new();
    let mut k: usize = 0;
    while k < graph.edges.len()
        invariant
            0 <= k <= graph.edges.len(),
            edges@ == graph.edges@.take(k as int).map_values(|e: GraphEdge| (e.a, e.b)),
        decreases graph.edges.len() - k,
    {
        let e = graph.edges[k];
        edges.push((e.a, e.b));
        k = k + 1;
        assert(edges@ =~= graph.edges@.take(k as int).map_values(|e: GraphEdge| (e.a, e.b)));
    }
    assert(graph.edges@.take(graph.edges.len() as int) =~= graph.edges@);
    SkillTreeDefRaw { grid_size, nodes, edges }
}

} // verus!
