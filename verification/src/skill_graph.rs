use vstd::prelude::*;

use crate::text::{decimal, parse_u32, parsed_u32, push_decimal, push_str, string_from_chars};

verus! {

/// Index of a stat in the stat registry.
pub type StatId = u32;

/// An undirected link between the nodes at indices `a` and `b`.
#[derive(Clone, Copy, PartialEq, Eq, Debug)]
pub struct GraphEdge {
    pub a: usize,
    pub b: usize,
}

/// A node of the passive skill tree. `P` is its position in the world and `V`
/// the type of its rolled stat values; the graph logic never looks inside them.
pub struct GraphNode<P, V> {
    pub position: P,
    pub grid_cell: (i32, i32),
    pub rarity: u8,
    pub rolled_values: Vec<(StatId, V)>,
    pub level: u32,
    pub max_level: u32,
    pub name: String,
}

/// The skill tree: nodes, undirected edges, and for each node the list of its
/// neighbours, kept in step with the edges.
pub struct SkillGraph<P, V> {
    pub nodes: Vec<GraphNode<P, V>>,
    pub edges: Vec<GraphEdge>,
    pub adjacency: Vec<Vec<usize>>,
    pub start_node: usize,
}

/// `e` links `i` and `j` (in either direction).
pub open spec fn joins(e: GraphEdge, i: int, j: int) -> bool {
    (e.a == i && e.b == j) || (e.a == j && e.b == i)
}

/// `{i, j}` and `{s, c}` are the same unordered pair.
pub open spec fn same_pair(i: int, j: int, s: int, c: int) -> bool {
    (i == s && j == c) || (i == c && j == s)
}

/// How many edges of `edges` link `i` and `j`.
pub open spec fn edge_count(edges: Seq<GraphEdge>, i: int, j: int) -> nat
    decreases edges.len(),
{
    if edges.len() == 0 {
        0
    } else {
        edge_count(edges.drop_last(), i, j) + if joins(edges.last(), i, j) { 1nat } else { 0nat }
    }
}

/// The neighbour list of node `i`: for each edge in order, the far end of
/// every side of it that is `i` (a loop on `i` gives `i` twice).
pub open spec fn neighbors(edges: Seq<GraphEdge>, i: int) -> Seq<usize>
    decreases edges.len(),
{
    if edges.len() == 0 {
        Seq::empty()
    } else {
        let e = edges.last();
        let rest = neighbors(edges.drop_last(), i);
        let with_b = if e.a == i { rest.push(e.b) } else { rest };
        if e.b == i { with_b.push(e.a) } else { with_b }
    }
}

/// `s` with every occurrence of `x` taken out, order kept.
pub open spec fn remove_value(s: Seq<usize>, x: int) -> Seq<usize>
    decreases s.len(),
{
    if s.len() == 0 {
        Seq::empty()
    } else {
        let rest = remove_value(s.drop_last(), x);
        if s.last() == x { rest } else { rest.push(s.last()) }
    }
}

/// `edges` without the edges that link `s` and `c`, order kept.
pub open spec fn remove_joining(edges: Seq<GraphEdge>, s: int, c: int) -> Seq<GraphEdge>
    decreases edges.len(),
{
    if edges.len() == 0 {
        Seq::empty()
    } else {
        let rest = remove_joining(edges.drop_last(), s, c);
        if joins(edges.last(), s, c) { rest } else { rest.push(edges.last()) }
    }
}

/// The edges after an edge toggle between `s` and `c`: removed if linked, added otherwise.
pub open spec fn toggled(edges: Seq<GraphEdge>, s: usize, c: usize) -> Seq<GraphEdge> {
    if edge_count(edges, s as int, c as int) > 0 {
        remove_joining(edges, s as int, c as int)
    } else {
        edges.push(GraphEdge { a: s, b: c })
    }
}

/// Index `i` of the graph after node `idx` was removed, as an index of the graph before.
pub open spec fn up(i: int, idx: int) -> int {
    if i < idx { i } else { i + 1 }
}

/// Index `k` of the graph before node `idx` was removed, as an index after (for `k != idx`).
pub open spec fn down(k: usize, idx: int) -> usize {
    if k > idx { (k - 1) as usize } else { k }
}

/// The edges after node `idx` was removed: edges touching it dropped, the others renumbered.
pub open spec fn edges_after_removal(edges: Seq<GraphEdge>, idx: int) -> Seq<GraphEdge>
    decreases edges.len(),
{
    if edges.len() == 0 {
        Seq::empty()
    } else {
        let rest = edges_after_removal(edges.drop_last(), idx);
        let e = edges.last();
        if e.a == idx || e.b == idx {
            rest
        } else {
            rest.push(GraphEdge { a: down(e.a, idx), b: down(e.b, idx) })
        }
    }
}

impl<P, V> SkillGraph<P, V> {
    /// Edges point at existing nodes, the start node exists, and each node's
    /// neighbour list is the one its edges give.
    pub open spec fn wf(&self) -> bool {
        &&& self.start_node < self.nodes.len()
        &&& forall|k: int|
            0 <= k < self.edges.len() ==> #[trigger] self.edges@[k].a < self.nodes.len()
                && self.edges@[k].b < self.nodes.len()
        &&& self.adjacency.len() == self.nodes.len()
        &&& forall|i: int|
            0 <= i < self.nodes.len() ==> #[trigger] self.adjacency@[i]@ == neighbors(self.edges@, i)
    }
}

proof fn lemma_push_drop_last<T>(s: Seq<T>, x: T)
    ensures
        s.push(x).drop_last() == s,
        s.push(x).last() == x,
        s.push(x).len() == s.len() + 1,
{
    assert(s.push(x).drop_last() =~= s);
}

proof fn lemma_take_push<T>(s: Seq<T>, k: int)
    requires
        0 <= k < s.len(),
    ensures
        s.take(k + 1) == s.take(k).push(s[k]),
{
    assert(s.take(k + 1) =~= s.take(k).push(s[k]));
}

/// How the neighbour lists change when the edges linking `s` and `c` are removed.
proof fn lemma_neighbors_remove_joining(edges: Seq<GraphEdge>, s: int, c: int, i: int)
    requires
        s != c,
    ensures
        neighbors(remove_joining(edges, s, c), i) == (if i == s {
            remove_value(neighbors(edges, i), c)
        } else if i == c {
            remove_value(neighbors(edges, i), s)
        } else {
            neighbors(edges, i)
        }),
    decreases edges.len(),
{
    if edges.len() > 0 {
        let e = edges.last();
        let init = edges.drop_last();
        lemma_neighbors_remove_joining(init, s, c, i);
        let r = remove_joining(init, s, c);
        lemma_neighbors_push(init, e, i);
        let n0 = neighbors(init, i);
        let wb = if e.a == i { n0.push(e.b) } else { n0 };
        let x: int = if i == s { c } else if i == c { s } else { -1 };
        if i == s || i == c {
            if e.a == i {
                lemma_remove_value_push(n0, e.b, x);
            }
            if e.b == i {
                lemma_remove_value_push(wb, e.a, x);
            }
        }
        if joins(e, s, c) {
            assert(remove_joining(edges, s, c) == r);
        } else {
            assert(remove_joining(edges, s, c) == r.push(e));
            lemma_neighbors_push(r, e, i);
            let m0 = neighbors(r, i);
            if e.a == i && (i == s || i == c) {
                lemma_remove_value_push(n0, e.b, x);
            }
        }
    }
}

/// Edge counts after removing the edges that link `s` and `c`.
proof fn lemma_count_remove_joining(edges: Seq<GraphEdge>, s: int, c: int, i: int, j: int)
    ensures
        edge_count(remove_joining(edges, s, c), i, j) == (if same_pair(i, j, s, c) {
            0
        } else {
            edge_count(edges, i, j)
        }),
    decreases edges.len(),
{
    if edges.len() > 0 {
        let e = edges.last();
        let init = edges.drop_last();
        lemma_count_remove_joining(init, s, c, i, j);
        let r = remove_joining(init, s, c);
        if !joins(e, s, c) {
            lemma_push_drop_last(r, e);
        }
    }
}

proof fn lemma_count_push(edges: Seq<GraphEdge>, e: GraphEdge, i: int, j: int)
    ensures
        edge_count(edges.push(e), i, j) == edge_count(edges, i, j) + if joins(e, i, j) {
            1nat
        } else {
            0nat
        },
{
    lemma_push_drop_last(edges, e);
}

proof fn lemma_neighbors_push(edges: Seq<GraphEdge>, e: GraphEdge, i: int)
    ensures
        neighbors(edges.push(e), i) == ({
            let with_b = if e.a == i { neighbors(edges, i).push(e.b) } else { neighbors(edges, i) };
            if e.b == i { with_b.push(e.a) } else { with_b }
        }),
{
    lemma_push_drop_last(edges, e);
}

/// Edge counts after a node removal are the counts between the same nodes before.
pub proof fn lemma_count_after_removal(edges: Seq<GraphEdge>, idx: int, i: int, j: int)
    requires
        0 <= idx,
        0 <= i,
        0 <= j,
    ensures
        edge_count(edges_after_removal(edges, idx), i, j) == edge_count(edges, up(i, idx), up(j, idx)),
    decreases edges.len(),
{
    if edges.len() > 0 {
        let e = edges.last();
        let init = edges.drop_last();
        lemma_count_after_removal(init, idx, i, j);
        let r = edges_after_removal(init, idx);
        if !(e.a == idx || e.b == idx) {
            lemma_push_drop_last(r, GraphEdge { a: down(e.a, idx), b: down(e.b, idx) });
        }
    }
}

/// Removing every `x` from a sequence that was built by pushes.
proof fn lemma_remove_value_push(s: Seq<usize>, y: usize, x: int)
    ensures
        remove_value(s.push(y), x) == (if y == x { remove_value(s, x) } else { remove_value(s, x).push(y) }),
{
    lemma_push_drop_last(s, y);
}

/// `v` without any `x`.
fn without_value(v: &Vec<usize>, x: usize) -> (r: Vec<usize>)
    ensures
        r@ == remove_value(v@, x as int),
{
    let mut r: Vec<usize> = Vec::new();
    let mut k: usize = 0;
    while k < v.len()
        invariant
            0 <= k <= v.len(),
            r@ == remove_value(v@.take(k as int), x as int),
        decreases v.len() - k,
    {
        proof {
            lemma_take_push(v@, k as int);
            lemma_remove_value_push(v@.take(k as int), v@[k as int], x as int);
        }
        if v[k] != x {
            r.push(v[k]);
        }
        k = k + 1;
    }
    assert(v@.take(v.len() as int) =~= v@);
    r
}

/// `edges` without the edges linking `s` and `c`.
fn edges_without_pair(edges: &Vec<GraphEdge>, s: usize, c: usize) -> (r: Vec<GraphEdge>)
    ensures
        r@ == remove_joining(edges@, s as int, c as int),
{
    let mut r: Vec<GraphEdge> = Vec::new();
    let mut k: usize = 0;
    while k < edges.len()
        invariant
            0 <= k <= edges.len(),
            r@ == remove_joining(edges@.take(k as int), s as int, c as int),
        decreases edges.len() - k,
    {
        proof {
            lemma_take_push(edges@, k as int);
            lemma_push_drop_last(edges@.take(k as int), edges@[k as int]);
        }
        let e = edges[k];
        if !((e.a == s && e.b == c) || (e.a == c && e.b == s)) {
            r.push(e);
        }
        k = k + 1;
    }
    assert(edges@.take(edges.len() as int) =~= edges@);
    r
}

/// The neighbour list of node `i` under `edges`.
fn neighbor_list(edges: &Vec<GraphEdge>, i: usize) -> (r: Vec<usize>)
    ensures
        r@ == neighbors(edges@, i as int),
{
    let mut r: Vec<usize> = Vec::new();
    let mut k: usize = 0;
    while k < edges.len()
        invariant
            0 <= k <= edges.len(),
            r@ == neighbors(edges@.take(k as int), i as int),
        decreases edges.len() - k,
    {
        proof {
            lemma_take_push(edges@, k as int);
            lemma_neighbors_push(edges@.take(k as int), edges@[k as int], i as int);
        }
        let e = edges[k];
        if e.a == i {
            r.push(e.b);
        }
        if e.b == i {
            r.push(e.a);
        }
        k = k + 1;
    }
    assert(edges@.take(edges.len() as int) =~= edges@);
    r
}

impl<P, V> SkillGraph<P, V> {
    /// Tells whether an edge links `a` and `b`.
    pub fn has_edge(&self, a: usize, b: usize) -> (r: bool)
        ensures
            r == (edge_count(self.edges@, a as int, b as int) > 0),
    {
        let mut k: usize = 0;
        while k < self.edges.len()
            invariant
                0 <= k <= self.edges.len(),
                edge_count(self.edges@.take(k as int), a as int, b as int) == 0,
            decreases self.edges.len() - k,
        {
            proof {
                lemma_take_push(self.edges@, k as int);
                lemma_count_push(self.edges@.take(k as int), self.edges@[k as int], a as int, b as int);
            }
            let e = self.edges[k];
            if (e.a == a && e.b == b) || (e.a == b && e.b == a) {
                proof {
                    lemma_count_prefix_le(self.edges@, k + 1, a as int, b as int);
                }
                return true;
            }
            k = k + 1;
        }
        assert(self.edges@.take(self.edges.len() as int) =~= self.edges@);
        false
    }

    /// Links `start` and `clicked` if no edge does, otherwise removes every
    /// edge between them; neighbour lists follow.
    pub fn toggle_edge(&mut self, start: usize, clicked: usize)
        requires
            old(self).wf(),
            start < old(self).nodes.len(),
            clicked < old(self).nodes.len(),
            start != clicked,
        ensures
            final(self).wf(),
            final(self).nodes@ == old(self).nodes@,
            final(self).start_node == old(self).start_node,
            final(self).edges@ == toggled(old(self).edges@, start, clicked),
    {
        let ghost old_edges = self.edges@;
        let n = self.nodes.len();
        if self.has_edge(start, clicked) {
            let new_edges = edges_without_pair(&self.edges, start, clicked);
            let new_s = without_value(&self.adjacency[start], clicked);
            let new_c = without_value(&self.adjacency[clicked], start);
            self.edges = new_edges;
            self.adjacency.set(start, new_s);
            self.adjacency.set(clicked, new_c);
            proof {
                assert forall|k: int| 0 <= k < self.edges.len() implies #[trigger] self.edges@[k].a < n
                    && self.edges@[k].b < n by {
                    lemma_remove_joining_members(old_edges, start as int, clicked as int, k);
                }
                assert forall|i: int| 0 <= i < self.nodes.len() implies #[trigger] self.adjacency@[i]@
                    == neighbors(self.edges@, i) by {
                    lemma_neighbors_remove_joining(old_edges, start as int, clicked as int, i);
                }
            }
        } else {
            let e = GraphEdge { a: start, b: clicked };
            self.edges.push(e);
            self.adjacency[start].push(clicked);
            self.adjacency[clicked].push(start);
            proof {
                assert forall|i: int| 0 <= i < self.nodes.len() implies #[trigger] self.adjacency@[i]@
                    == neighbors(self.edges@, i) by {
                    lemma_neighbors_push(old_edges, e, i);
                }
            }
        }
    }
}

/// A prefix has no more links between two nodes than the whole sequence.
proof fn lemma_count_prefix_le(edges: Seq<GraphEdge>, m: int, i: int, j: int)
    requires
        0 <= m <= edges.len(),
    ensures
        edge_count(edges.take(m), i, j) <= edge_count(edges, i, j),
    decreases edges.len(),
{
    if m < edges.len() {
        lemma_count_prefix_le(edges.drop_last(), m, i, j);
        assert(edges.drop_last().take(m) =~= edges.take(m));
    } else {
        assert(edges.take(m) =~= edges);
    }
}

/// Every edge kept by `remove_joining` was an edge before.
proof fn lemma_remove_joining_members(edges: Seq<GraphEdge>, s: int, c: int, k: int)
    requires
        0 <= k < remove_joining(edges, s, c).len(),
    ensures
        exists|m: int| 0 <= m < edges.len() && edges[m] == #[trigger] remove_joining(edges, s, c)[k],
    decreases edges.len(),
{
    let init = edges.drop_last();
    let r = remove_joining(init, s, c);
    if joins(edges.last(), s, c) {
        lemma_remove_joining_members(init, s, c, k);
        let m = choose|m: int| 0 <= m < init.len() && init[m] == r[k];
        assert(edges[m] == init[m]);
    } else {
        lemma_push_drop_last(r, edges.last());
        if k < r.len() {
            lemma_remove_joining_members(init, s, c, k);
            let m = choose|m: int| 0 <= m < init.len() && init[m] == r[k];
            assert(edges[m] == init[m]);
        } else {
            assert(edges[edges.len() - 1] == remove_joining(edges, s, c)[k]);
        }
    }
}

/// Links between two nodes do not depend on the order they are named in.
pub proof fn lemma_count_symmetric(edges: Seq<GraphEdge>, i: int, j: int)
    ensures
        edge_count(edges, i, j) == edge_count(edges, j, i),
    decreases edges.len(),
{
    if edges.len() > 0 {
        lemma_count_symmetric(edges.drop_last(), i, j);
    }
}

/// A toggle links two unlinked nodes and unlinks two linked ones.
pub proof fn lemma_toggle_flips(edges: Seq<GraphEdge>, s: usize, c: usize)
    requires
        s != c,
    ensures
        (edge_count(toggled(edges, s, c), s as int, c as int) > 0) == (edge_count(edges, s as int, c as int) == 0),
{
    if edge_count(edges, s as int, c as int) > 0 {
        lemma_count_remove_joining(edges, s as int, c as int, s as int, c as int);
    } else {
        lemma_count_push(edges, GraphEdge { a: s, b: c }, s as int, c as int);
    }
}

/// Toggling the same pair twice gives back the links of every pair, as long
/// as the pair was not linked by more than one edge.
pub proof fn lemma_toggle_twice(edges: Seq<GraphEdge>, s: usize, c: usize, i: int, j: int)
    requires
        s != c,
        edge_count(edges, s as int, c as int) <= 1,
    ensures
        edge_count(toggled(toggled(edges, s, c), s, c), i, j) == edge_count(edges, i, j),
{
    let e = GraphEdge { a: s, b: c };
    let t1 = toggled(edges, s, c);
    lemma_toggle_flips(edges, s, c);
    lemma_count_symmetric(edges, s as int, c as int);
    lemma_count_symmetric(edges, i, j);
    if edge_count(edges, s as int, c as int) > 0 {
        lemma_count_remove_joining(edges, s as int, c as int, i, j);
        lemma_count_push(t1, e, i, j);
    } else {
        lemma_count_push(edges, e, i, j);
        lemma_count_remove_joining(t1, s as int, c as int, i, j);
    }
}

/// No edge mentions node `i`, so it has no neighbours.
proof fn lemma_neighbors_untouched(edges: Seq<GraphEdge>, i: int)
    requires
        forall|k: int| 0 <= k < edges.len() ==> #[trigger] edges[k].a != i && edges[k].b != i,
    ensures
        neighbors(edges, i) == Seq::<usize>::empty(),
    decreases edges.len(),
{
    if edges.len() > 0 {
        let init = edges.drop_last();
        assert forall|k: int| 0 <= k < init.len() implies #[trigger] init[k].a != i && init[k].b != i by {
            assert(init[k] == edges[k]);
        }
        lemma_neighbors_untouched(init, i);
    }
}

/// The name a newly created node gets: `Node <index>`.
pub open spec fn new_node_name(idx: nat) -> Seq<char> {
    "Node "@ + decimal(idx)
}

impl<P, V> SkillGraph<P, V> {
    /// Removes node `idx` (not the start node): edges touching it go, the
    /// others are renumbered, neighbour lists are rebuilt and the start node
    /// index follows.
    pub fn remove_node(&mut self, idx: usize)
        requires
            old(self).wf(),
            idx < old(self).nodes.len(),
            idx != old(self).start_node,
        ensures
            final(self).wf(),
            final(self).nodes@ == old(self).nodes@.remove(idx as int),
            final(self).edges@ == edges_after_removal(old(self).edges@, idx as int),
            final(self).start_node == down(old(self).start_node, idx as int),
    {
        let ghost old_edges = self.edges@;
        let n = self.nodes.len();
        let _removed = self.nodes.remove(idx);
        let mut new_edges: Vec<GraphEdge> = Vec::new();
        let mut k: usize = 0;
        while k < self.edges.len()
            invariant
                0 <= k <= self.edges.len(),
                self.edges@ == old_edges,
                n == old(self).nodes.len(),
                idx < n,
                forall|m: int| 0 <= m < old_edges.len() ==> #[trigger] old_edges[m].a < n
                    && old_edges[m].b < n,
                new_edges@ == edges_after_removal(old_edges.take(k as int), idx as int),
                forall|m: int| 0 <= m < new_edges.len() ==> #[trigger] new_edges@[m].a < n - 1
                    && new_edges@[m].b < n - 1,
            decreases self.edges.len() - k,
        {
            proof {
                lemma_take_push(old_edges, k as int);
                lemma_push_drop_last(old_edges.take(k as int), old_edges[k as int]);
            }
            let e = self.edges[k];
            if e.a != idx && e.b != idx {
                let a = if e.a > idx { e.a - 1 } else { e.a };
                let b = if e.b > idx { e.b - 1 } else { e.b };
                let ghost before = new_edges@;
                new_edges.push(GraphEdge { a, b });
                proof {
                    assert forall|m: int| 0 <= m < new_edges.len() implies #[trigger] new_edges@[m].a
                        < n - 1 && new_edges@[m].b < n - 1 by {
                        if m < before.len() {
                            assert(new_edges@[m] == before[m]);
                        }
                    }
                }
            }
            k = k + 1;
        }
        assert(old_edges.take(old_edges.len() as int) =~= old_edges);
        self.edges = new_edges;
        let len = self.nodes.len();
        let mut adjacency: Vec<Vec<usize>> = Vec::new();
        let mut i: usize = 0;
        while i < len
            invariant
                0 <= i <= len,
                len == self.nodes.len(),
                adjacency.len() == i,
                forall|j: int| 0 <= j < i ==> #[trigger] adjacency@[j]@ == neighbors(self.edges@, j),
            decreases len - i,
        {
            let list = neighbor_list(&self.edges, i);
            adjacency.push(list);
            i = i + 1;
        }
        self.adjacency = adjacency;
        if self.start_node > idx {
            self.start_node = self.start_node - 1;
        }
    }

    /// Adds an unlinked node at the end, named `Node <index>`, and returns its index.
    pub fn create_node(&mut self, position: P, grid_cell: (i32, i32)) -> (new_idx: usize)
        requires
            old(self).wf(),
            old(self).nodes.len() < usize::MAX,
        ensures
            final(self).wf(),
            new_idx == old(self).nodes.len(),
            final(self).nodes.len() == old(self).nodes.len() + 1,
            forall|k: int| 0 <= k < new_idx ==> #[trigger] final(self).nodes@[k] == old(self).nodes@[k],
            final(self).nodes@[new_idx as int].position == position,
            final(self).nodes@[new_idx as int].grid_cell == grid_cell,
            final(self).nodes@[new_idx as int].rarity == 0,
            final(self).nodes@[new_idx as int].rolled_values@.len() == 0,
            final(self).nodes@[new_idx as int].level == 0,
            final(self).nodes@[new_idx as int].max_level == 1,
            final(self).nodes@[new_idx as int].name@ == new_node_name(new_idx as nat),
            final(self).edges@ == old(self).edges@,
            final(self).start_node == old(self).start_node,
    {
        let new_idx = self.nodes.len();
        let mut name_chars: Vec<char> = Vec::new();
        push_str(&mut name_chars, "Node ");
        push_decimal(&mut name_chars, new_idx as u64);
        let name = string_from_chars(&name_chars);
        proof {
            assert(name_chars@ =~= new_node_name(new_idx as nat));
        }
        self.nodes.push(GraphNode {
            position,
            grid_cell,
            rarity: 0,
            rolled_values: Vec::new(),
            level: 0,
            max_level: 1,
            name,
        });
        self.adjacency.push(Vec::new());
        proof {
            lemma_neighbors_untouched(self.edges@, new_idx as int);
            assert forall|i: int| 0 <= i < self.nodes.len() implies #[trigger] self.adjacency@[i]@
                == neighbors(self.edges@, i) by {
                if i == new_idx {
                    assert(self.adjacency@[i]@ =~= Seq::<usize>::empty());
                }
            }
        }
        new_idx
    }
}

/// A node property that can be edited as text.
#[derive(Clone, Copy, PartialEq, Eq, Debug)]
pub enum EditField {
    NodeName(usize),
    MaxLevel(usize),
    StatValue(usize, usize),
}

/// The node list after setting node `idx`'s max level from `text`: the parsed
/// number (at least 1) if `text` is a `u32` and `idx` a node, else unchanged.
pub open spec fn with_max_level<P, V>(nodes: Seq<GraphNode<P, V>>, idx: int, text: Seq<char>) -> Seq<GraphNode<P, V>> {
    match parsed_u32(text) {
        Some(v) => if 0 <= idx < nodes.len() {
            nodes.update(idx, GraphNode { max_level: if v < 1 { 1 } else { v }, ..nodes[idx] })
        } else {
            nodes
        },
        None => nodes,
    }
}

/// `a` and `b` agree on everything but their rolled values.
pub open spec fn same_but_values<P, V>(a: GraphNode<P, V>, b: GraphNode<P, V>) -> bool {
    &&& a.position == b.position
    &&& a.grid_cell == b.grid_cell
    &&& a.rarity == b.rarity
    &&& a.level == b.level
    &&& a.max_level == b.max_level
    &&& a.name == b.name
}

impl<P, V> SkillGraph<P, V> {
    /// Gives node `idx` a new name; nothing happens if there is no such node.
    pub fn rename_node(&mut self, idx: usize, name: String)
        requires
            old(self).wf(),
        ensures
            final(self).wf(),
            final(self).edges == old(self).edges,
            final(self).adjacency == old(self).adjacency,
            final(self).start_node == old(self).start_node,
            final(self).nodes@ == (if idx < old(self).nodes.len() {
                old(self).nodes@.update(idx as int, GraphNode { name: name, ..old(self).nodes@[idx as int] })
            } else {
                old(self).nodes@
            }),
    {
        if idx < self.nodes.len() {
            self.nodes[idx].name = name;
        }
    }

    /// Sets node `idx`'s max level from the text `text`: a `u32`, raised to 1
    /// if it is 0. Text that is not a `u32`, or a missing node, changes nothing.
    pub fn set_max_level_text(&mut self, idx: usize, text: &str)
        requires
            old(self).wf(),
        ensures
            final(self).wf(),
            final(self).edges == old(self).edges,
            final(self).adjacency == old(self).adjacency,
            final(self).start_node == old(self).start_node,
            final(self).nodes@ == with_max_level(old(self).nodes@, idx as int, text@),
    {
        match parse_u32(text) {
            Some(v) => {
                let level = if v < 1 { 1 } else { v };
                if idx < self.nodes.len() {
                    self.nodes[idx].max_level = level;
                }
            },
            None => {},
        }
    }

    /// Adds the stat `stat` with `value` to the end of node `idx`'s rolled
    /// values; nothing happens if there is no such node.
    pub fn add_stat(&mut self, idx: usize, stat: StatId, value: V)
        requires
            old(self).wf(),
        ensures
            final(self).wf(),
            final(self).edges == old(self).edges,
            final(self).adjacency == old(self).adjacency,
            final(self).start_node == old(self).start_node,
            final(self).nodes.len() == old(self).nodes.len(),
            forall|k: int| 0 <= k < old(self).nodes.len() && k != idx ==> #[trigger] final(self).nodes@[k]
                == old(self).nodes@[k],
            idx < old(self).nodes.len() ==> final(self).nodes@[idx as int].rolled_values@
                == old(self).nodes@[idx as int].rolled_values@.push((stat, value)),
            idx < old(self).nodes.len() ==> same_but_values(final(self).nodes@[idx as int], old(self).nodes@[idx as int]),
    {
        if idx < self.nodes.len() {
            self.nodes[idx].rolled_values.push((stat, value));
        }
    }

    /// Removes rolled value `stat_idx` of node `idx`; nothing happens if either is missing.
    pub fn remove_stat(&mut self, idx: usize, stat_idx: usize)
        requires
            old(self).wf(),
        ensures
            final(self).wf(),
            final(self).edges == old(self).edges,
            final(self).adjacency == old(self).adjacency,
            final(self).start_node == old(self).start_node,
            final(self).nodes.len() == old(self).nodes.len(),
            forall|k: int| 0 <= k < old(self).nodes.len() && k != idx ==> #[trigger] final(self).nodes@[k]
                == old(self).nodes@[k],
            idx < old(self).nodes.len() ==> final(self).nodes@[idx as int].rolled_values@ == (if stat_idx
                < old(self).nodes@[idx as int].rolled_values.len() {
                old(self).nodes@[idx as int].rolled_values@.remove(stat_idx as int)
            } else {
                old(self).nodes@[idx as int].rolled_values@
            }),
            idx < old(self).nodes.len() ==> same_but_values(final(self).nodes@[idx as int], old(self).nodes@[idx as int]),
    {
        if idx < self.nodes.len() {
            if stat_idx < self.nodes[idx].rolled_values.len() {
                let _gone = self.nodes[idx].rolled_values.remove(stat_idx);
            }
        }
    }

    /// Replaces the stat of rolled value `stat_idx` of node `idx` by `stat`,
    /// keeping its value; nothing happens if either is missing.
    pub fn set_stat(&mut self, idx: usize, stat_idx: usize, stat: StatId)
        requires
            old(self).wf(),
        ensures
            final(self).wf(),
            final(self).edges == old(self).edges,
            final(self).adjacency == old(self).adjacency,
            final(self).start_node == old(self).start_node,
            final(self).nodes.len() == old(self).nodes.len(),
            forall|k: int| 0 <= k < old(self).nodes.len() && k != idx ==> #[trigger] final(self).nodes@[k]
                == old(self).nodes@[k],
            idx < old(self).nodes.len() ==> final(self).nodes@[idx as int].rolled_values@ == (if stat_idx
                < old(self).nodes@[idx as int].rolled_values.len() {
                old(self).nodes@[idx as int].rolled_values@.update(
                    stat_idx as int,
                    (stat, old(self).nodes@[idx as int].rolled_values@[stat_idx as int].1),
                )
            } else {
                old(self).nodes@[idx as int].rolled_values@
            }),
            idx < old(self).nodes.len() ==> same_but_values(final(self).nodes@[idx as int], old(self).nodes@[idx as int]),
    {
        if idx < self.nodes.len() {
            if stat_idx < self.nodes[idx].rolled_values.len() {
                self.nodes[idx].rolled_values[stat_idx].0 = stat;
            }
        }
    }

    /// Replaces the value of rolled value `stat_idx` of node `idx` by `value`,
    /// keeping its stat; nothing happens if either is missing.
    pub fn set_stat_value(&mut self, idx: usize, stat_idx: usize, value: V)
        requires
            old(self).wf(),
        ensures
            final(self).wf(),
            final(self).edges == old(self).edges,
            final(self).adjacency == old(self).adjacency,
            final(self).start_node == old(self).start_node,
            final(self).nodes.len() == old(self).nodes.len(),
            forall|k: int| 0 <= k < old(self).nodes.len() && k != idx ==> #[trigger] final(self).nodes@[k]
                == old(self).nodes@[k],
            idx < old(self).nodes.len() ==> final(self).nodes@[idx as int].rolled_values@ == (if stat_idx
                < old(self).nodes@[idx as int].rolled_values.len() {
                old(self).nodes@[idx as int].rolled_values@.update(
                    stat_idx as int,
                    (old(self).nodes@[idx as int].rolled_values@[stat_idx as int].0, value),
                )
            } else {
                old(self).nodes@[idx as int].rolled_values@
            }),
            idx < old(self).nodes.len() ==> same_but_values(final(self).nodes@[idx as int], old(self).nodes@[idx as int]),
    {
        if idx < self.nodes.len() {
            if stat_idx < self.nodes[idx].rolled_values.len() {
                self.nodes[idx].rolled_values[stat_idx].1 = value;
            }
        }
    }
}

} // verus!
