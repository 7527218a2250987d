//! Document pipelines: graphs of source, transform, condition and output
//! nodes, their execution order, validation and the pure node operations.
use vstd::prelude::*;
use vstd::set_lib::*;
use crate::text::{occurs_at, contains_seq, lines, opt_or, replace_all, find_from, trim, trim_char, spec_lowercase};

verus! {

/// The kind of a pipeline node.
#[derive(Clone, Copy, Debug, PartialEq, Eq, Structural)]
pub enum NodeType {
    Source,
    Transform,
    Output,
    Condition,
}

/// A pipeline variable: its JSON serialisation, and its text when the value
/// is a JSON string.
pub struct VariableValue {
    pub json: String,
    pub text: Option<String>,
}

/// The configuration carried by a node. `parameters` holds the string-valued
/// entries of the node's parameter object.
pub struct NodeData {
    pub label: String,
    pub source_type: Option<String>,
    pub path: Option<String>,
    pub operation: Option<String>,
    pub parameters: Option<Vec<(String, String)>>,
    pub format: Option<String>,
    pub output_path: Option<String>,
    pub condition: Option<String>,
}

/// A node in the pipeline.
pub struct PipelineNode {
    pub id: String,
    pub node_type: NodeType,
    pub data: NodeData,
}

/// A directed edge from `source` to `target` (node ids).
pub struct PipelineEdge {
    pub id: String,
    pub source: String,
    pub target: String,
    pub source_handle: Option<String>,
    pub target_handle: Option<String>,
}

/// A complete pipeline definition.
pub struct Pipeline {
    pub id: String,
    pub name: String,
    pub nodes: Vec<PipelineNode>,
    pub edges: Vec<PipelineEdge>,
    pub variables: Option<Vec<(String, VariableValue)>>,
}

/// The ids of the nodes, in node order.
pub open spec fn node_ids(p: Pipeline) -> Seq<Seq<char>> {
    p.nodes@.map_values(|n: PipelineNode| n.id@)
}

/// No two nodes share an id.
pub open spec fn ids_distinct(p: Pipeline) -> bool {
    node_ids(p).no_duplicates()
}

/// Every edge names existing nodes at both ends.
pub open spec fn edges_resolve(p: Pipeline) -> bool {
    forall|k: int|
        0 <= k < p.edges.len() ==> node_ids(p).contains(#[trigger] p.edges@[k].source@)
            && node_ids(p).contains(p.edges@[k].target@)
}

/// Some ranking of node ids strictly increases along every edge: the graph
/// has no cycle.
pub open spec fn acyclic(p: Pipeline) -> bool {
    exists|rank: spec_fn(Seq<char>) -> int| #[trigger] ranks_edges(p, rank)
}

/// `rank` strictly increases along every edge of `p`.
pub open spec fn ranks_edges(p: Pipeline, rank: spec_fn(Seq<char>) -> int) -> bool {
    forall|k: int|
        0 <= k < p.edges.len() ==> rank(#[trigger] p.edges@[k].source@) < rank(
            p.edges@[k].target@,
        )
}

/// `order` lists every node id exactly once, and the source of every edge
/// comes before its target.
pub open spec fn is_execution_order(p: Pipeline, order: Seq<Seq<char>>) -> bool {
    &&& order.len() == p.nodes.len()
    &&& order.no_duplicates()
    &&& forall|i: int| 0 <= i < order.len() ==> node_ids(p).contains(#[trigger] order[i])
    &&& forall|k: int|
        0 <= k < p.edges.len() ==> exists|i: int, j: int|
            0 <= i < j < order.len() && order[i] == (#[trigger] p.edges@[k]).source@ && order[j]
                == p.edges@[k].target@
}

/// The message of a refused execution order.
pub open spec fn cycle_message() -> Seq<char> {
    "Pipeline contains a cycle"@
}

pub open spec fn strings_view(v: Seq<String>) -> Seq<Seq<char>> {
    v.map_values(|s: String| s@)
}

/// Law: a pipeline that has an execution order has no cycle (the position in
/// the order is a ranking).
pub proof fn lemma_execution_order_implies_acyclic(p: Pipeline, order: Seq<Seq<char>>)
    requires
        is_execution_order(p, order),
    ensures
        acyclic(p),
{
    let rank = |x: Seq<char>| order.index_of(x);
    assert(ranks_edges(p, rank));
    assert forall|k: int| 0 <= k < p.edges.len() implies rank(
        #[trigger] p.edges@[k].source@,
    ) < rank(p.edges@[k].target@) by {
        let (i, j) = choose|i: int, j: int|
            0 <= i < j < order.len() && order[i] == p.edges@[k].source@ && order[j]
                == p.edges@[k].target@;
        assert(order.contains(order[i]));
        assert(order.contains(order[j]));
        assert(order.index_of(order[i]) == i) by {
            let ii = order.index_of(order[i]);
            assert(order[ii] == order[i]);
        }
        assert(order.index_of(order[j]) == j) by {
            let jj = order.index_of(order[j]);
            assert(order[jj] == order[j]);
        }
    }
}

// ---- Edge counting over resolved index pairs ----------------------------

/// Edges into `v` whose source is not yet `done`.
pub open spec fn in_count(es: Seq<(int, int)>, v: int, done: Seq<bool>) -> nat
    decreases es.len(),
{
    if es.len() == 0 {
        0
    } else {
        in_count(es.drop_last(), v, done) + if es.last().1 == v && !done[es.last().0] {
            1nat
        } else {
            0nat
        }
    }
}

/// Edges from `u` to `v`.
pub open spec fn from_count(es: Seq<(int, int)>, u: int, v: int) -> nat
    decreases es.len(),
{
    if es.len() == 0 {
        0
    } else {
        from_count(es.drop_last(), u, v) + if es.last().0 == u && es.last().1 == v {
            1nat
        } else {
            0nat
        }
    }
}

pub open spec fn edges_in_range(es: Seq<(int, int)>, n: int) -> bool {
    forall|k: int| 0 <= k < es.len() ==> 0 <= (#[trigger] es[k]).0 < n && 0 <= es[k].1 < n
}

proof fn lemma_in_count_bound(es: Seq<(int, int)>, v: int, done: Seq<bool>)
    ensures
        in_count(es, v, done) <= es.len(),
    decreases es.len(),
{
    if es.len() > 0 {
        lemma_in_count_bound(es.drop_last(), v, done);
    }
}

proof fn lemma_from_count_prefix(es: Seq<(int, int)>, u: int, v: int, k: int)
    requires
        0 <= k <= es.len(),
    ensures
        from_count(es.take(k), u, v) <= from_count(es, u, v),
    decreases es.len(),
{
    if k < es.len() {
        assert(es.drop_last().take(k) == es.take(k));
        lemma_from_count_prefix(es.drop_last(), u, v, k);
    } else {
        assert(es.take(k) == es);
    }
}

/// Marking `u` done removes exactly the edges from `u` from every in-count.
proof fn lemma_in_count_mark(es: Seq<(int, int)>, v: int, done: Seq<bool>, u: int, n: int)
    requires
        edges_in_range(es, n),
        done.len() == n,
        0 <= u < n,
        !done[u],
    ensures
        in_count(es, v, done) == in_count(es, v, done.update(u, true)) + from_count(es, u, v),
    decreases es.len(),
{
    if es.len() > 0 {
        assert(edges_in_range(es.drop_last(), n)) by {
            assert forall|k: int| 0 <= k < es.drop_last().len() implies 0 <= (
            #[trigger] es.drop_last()[k]).0 < n && 0 <= es.drop_last()[k].1 < n by {
                assert(es.drop_last()[k] == es[k]);
            }
        }
        lemma_in_count_mark(es.drop_last(), v, done, u, n);
        assert(0 <= es.last().0 < n) by {
            assert(es.last() == es[es.len() - 1]);
        }
    }
}

/// An in-count of zero means every edge into `v` starts at a done node.
proof fn lemma_in_count_zero(es: Seq<(int, int)>, v: int, done: Seq<bool>, k: int)
    requires
        in_count(es, v, done) == 0,
        0 <= k < es.len(),
        es[k].1 == v,
    ensures
        done[es[k].0],
    decreases es.len(),
{
    if k < es.len() - 1 {
        assert(es.drop_last()[k] == es[k]);
        lemma_in_count_zero(es.drop_last(), v, done, k);
    }
}

/// A positive in-count names an edge into `v` from a node that is not done.
proof fn lemma_in_count_pos(es: Seq<(int, int)>, v: int, done: Seq<bool>) -> (k: int)
    requires
        in_count(es, v, done) > 0,
    ensures
        0 <= k < es.len(),
        es[k].1 == v,
        !done[es[k].0],
    decreases es.len(),
{
    if es.last().1 == v && !done[es.last().0] {
        es.len() - 1
    } else {
        let k = lemma_in_count_pos(es.drop_last(), v, done);
        assert(es.drop_last()[k] == es[k]);
        k
    }
}

/// A repetition-free sequence of indices below `n` has at most `n`
/// elements, and exactly `n` only when it holds every index below `n`.
proof fn lemma_pigeonhole(s: Seq<usize>, n: nat)
    requires
        n <= usize::MAX,
        s.no_duplicates(),
        forall|i: int| 0 <= i < s.len() ==> (#[trigger] s[i]) < n,
    ensures
        s.len() <= n,
        s.len() == n ==> forall|v: usize| v < n ==> s.contains(v),
        (forall|v: usize| v < n ==> s.contains(v)) ==> s.len() == n,
{
    let t = s.map_values(|x: usize| x as int);
    assert(t.no_duplicates()) by {
        assert forall|i: int, j: int| 0 <= i < t.len() && 0 <= j < t.len() && i != j implies t[i]
            != t[j] by {
            assert(s[i] != s[j]);
        }
    }
    t.unique_seq_to_set();
    lemma_int_range(0, n as int);
    assert(t.to_set().subset_of(set_int_range(0, n as int))) by {
        assert forall|x: int| t.to_set().contains(x) implies set_int_range(0, n as int).contains(
            x,
        ) by {
            let i = choose|i: int| 0 <= i < t.len() && t[i] == x;
            assert(s[i] < n);
        }
    }
    lemma_len_subset(t.to_set(), set_int_range(0, n as int));
    if forall|v: usize| v < n ==> s.contains(v) {
        assert(set_int_range(0, n as int).subset_of(t.to_set())) by {
            assert forall|x: int| set_int_range(0, n as int).contains(x) implies t.to_set().contains(
                x,
            ) by {
                assert(0 <= x < n);
                assert(s.contains(x as usize));
                let i = choose|i: int| 0 <= i < s.len() && s[i] == x as usize;
                assert(t[i] == s[i] as int);
                assert(s[i] as int == x);
            }
        }
        lemma_len_subset(set_int_range(0, n as int), t.to_set());
    }
    if s.len() == n {
        assert forall|v: usize| v < n implies s.contains(v) by {
            if !s.contains(v) {
                let r = set_int_range(0, n as int).remove(v as int);
                assert(t.to_set().subset_of(r)) by {
                    assert forall|x: int| t.to_set().contains(x) implies r.contains(x) by {
                        let i = choose|i: int| 0 <= i < t.len() && t[i] == x;
                        assert(s[i] < n);
                        assert(s[i] != v);
                    }
                }
                lemma_len_subset(t.to_set(), r);
            }
        }
    }
}

/// Among the nodes not yet reached, some node has the least rank.
proof fn lemma_min_rank(reached: Seq<bool>, rank: spec_fn(int) -> int, n: int, w: int) -> (m: int)
    requires
        reached.len() == n,
        0 <= w < n,
        !reached[w],
    ensures
        0 <= m < n,
        !reached[m],
        forall|x: int| 0 <= x < n && !reached[x] ==> rank(m) <= rank(x),
    decreases n,
{
    if n == 1 {
        w
    } else {
        let r2 = reached.take(n - 1);
        if w < n - 1 {
            let m2 = lemma_min_rank(r2, rank, n - 1, w);
            assert(forall|x: int| 0 <= x < n - 1 ==> r2[x] == reached[x]);
            if !reached[n - 1] && rank(n - 1) < rank(m2) {
                n - 1
            } else {
                m2
            }
        } else {
            let some = (choose|x: int| 0 <= x < n - 1 && !reached[x]);
            if exists|x: int| 0 <= x < n - 1 && !reached[x] {
                let m2 = lemma_min_rank(r2, rank, n - 1, some);
                assert(forall|x: int| 0 <= x < n - 1 ==> r2[x] == reached[x]);
                if rank(n - 1) < rank(m2) {
                    n - 1
                } else {
                    m2
                }
            } else {
                n - 1
            }
        }
    }
}

fn cycle_error() -> (s: String)
    ensures
        s@ == cycle_message(),
{
    String::from_str("Pipeline contains a cycle")
}

/// Index of the node with the given id.
fn find_node(nodes: &Vec<PipelineNode>, id: &String) -> (i: usize)
    requires
        nodes@.map_values(|n: PipelineNode| n.id@).contains(id@),
    ensures
        i < nodes.len(),
        nodes@[i as int].id@ == id@,
{
    let ghost ids = nodes@.map_values(|n: PipelineNode| n.id@);
    let mut i: usize = 0;
    while i < nodes.len()
        invariant
            i <= nodes.len(),
            ids == nodes@.map_values(|n: PipelineNode| n.id@),
            ids.contains(id@),
            forall|j: int| 0 <= j < i ==> nodes@[j].id@ != id@,
        decreases nodes.len() - i,
    {
        if nodes[i].id == *id {
            return i;
        }
        i = i + 1;
    }
    proof {
        let j = choose|j: int| 0 <= j < ids.len() && ids[j] == id@;
        assert(nodes@[j].id@ == id@);
    }
    0
}

/// Orders the nodes so that every edge's source precedes its target (Kahn's
/// algorithm). Refused when two nodes share an id or the graph has a cycle.
pub fn build_execution_order(pipeline: &Pipeline) -> (r: Result<Vec<String>, String>)
    requires
        edges_resolve(*pipeline),
    ensures
        match r {
            Ok(order) => ids_distinct(*pipeline) && is_execution_order(
                *pipeline,
                strings_view(order@),
            ),
            Err(msg) => msg@ == cycle_message() && !(ids_distinct(*pipeline) && acyclic(
                *pipeline,
            )),
        },
{
    let n = pipeline.nodes.len();
    let m = pipeline.edges.len();
    let ghost ids = node_ids(*pipeline);
    // Two pipeline.nodes with one id cannot be ordered.
    let mut a: usize = 0;
    while a < n
        invariant
            n == pipeline.nodes.len(),
            ids == node_ids(*pipeline),
            a <= n,
            forall|x: int, y: int| 0 <= x < a && x < y < n ==> ids[x] != ids[y],
        decreases n - a,
    {
        let mut b: usize = a + 1;
        while b < n
            invariant
                n == pipeline.nodes.len(),
                ids == node_ids(*pipeline),
                a < n,
                a + 1 <= b <= n,
                forall|x: int, y: int| 0 <= x < a && x < y < n ==> ids[x] != ids[y],
                forall|y: int| a < y < b ==> ids[a as int] != ids[y],
            decreases n - b,
        {
            if pipeline.nodes[a].id == pipeline.nodes[b].id {
                assert(ids[a as int] == ids[b as int]);
                return Err(cycle_error());
            }
            b = b + 1;
        }
        a = a + 1;
    }
    assert(ids.no_duplicates()) by {
        assert forall|x: int, y: int| 0 <= x < ids.len() && 0 <= y < ids.len() && x != y implies ids[x]
            != ids[y] by {
            if x < y {
            } else {
            }
        }
    }
    // Resolve edge endpoints to node indices.
    let mut esrc: Vec<usize> = Vec::new();
    let mut etgt: Vec<usize> = Vec::new();
    let mut k: usize = 0;
    while k < m
        invariant
            n == pipeline.nodes.len(),
            m == pipeline.edges.len(),
            ids == node_ids(*pipeline),
            edges_resolve(*pipeline),
            k <= m,
            esrc.len() == k,
            etgt.len() == k,
            forall|j: int|
                0 <= j < k ==> esrc@[j] < n && etgt@[j] < n && ids[esrc@[j] as int]
                    == pipeline.edges@[j].source@ && ids[etgt@[j] as int] == pipeline.edges@[j].target@,
        decreases m - k,
    {
        assert(node_ids(*pipeline).contains(pipeline.edges@[k as int].source@));
        let s = find_node(&pipeline.nodes, &pipeline.edges[k].source);
        let t = find_node(&pipeline.nodes, &pipeline.edges[k].target);
        esrc.push(s);
        etgt.push(t);
        k = k + 1;
    }
    let ghost es: Seq<(int, int)> = Seq::new(m as nat, |j: int| (esrc@[j] as int, etgt@[j] as int));
    assert(edges_in_range(es, n as int));
    // In-degrees.
    let ghost none: Seq<bool> = Seq::new(n as nat, |_i: int| false);
    let mut indeg: Vec<usize> = Vec::new();
    let mut i: usize = 0;
    while i < n
        invariant
            i <= n,
            indeg.len() == i,
            forall|v: int| 0 <= v < i ==> indeg@[v] == 0,
        decreases n - i,
    {
        indeg.push(0);
        i = i + 1;
    }
    let mut k: usize = 0;
    while k < m
        invariant
            n == pipeline.nodes.len(),
            m == pipeline.edges.len(),
            esrc.len() == m,
            etgt.len() == m,
            es == Seq::new(m as nat, |j: int| (esrc@[j] as int, etgt@[j] as int)),
            edges_in_range(es, n as int),
            none == Seq::new(n as nat, |_i: int| false),
            k <= m,
            indeg.len() == n,
            forall|v: int| 0 <= v < n ==> indeg@[v] == in_count(es.take(k as int), v, none),
        decreases m - k,
    {
        let t = etgt[k];
        proof {
            assert(es[k as int] == (esrc@[k as int] as int, etgt@[k as int] as int));
            assert(es.take(k + 1).drop_last() == es.take(k as int));
            assert(es.take(k + 1).last() == es[k as int]);
            lemma_in_count_bound(es.take(k as int), t as int, none);
        }
        indeg.set(t, indeg[t] + 1);
        k = k + 1;
    }
    assert(es.take(m as int) == es);
    // Nodes with no incoming edge start the queue.
    let mut seen: Vec<usize> = Vec::new();
    let mut v: usize = 0;
    while v < n
        invariant
            v <= n,
            indeg.len() == n,
            seen@.no_duplicates(),
            forall|j: int| 0 <= j < seen.len() ==> (#[trigger] seen@[j]) < v,
            forall|x: usize| x < v ==> (seen@.contains(x) <==> indeg@[x as int] == 0),
        decreases n - v,
    {
        let ghost prev = seen@;
        if indeg[v] == 0 {
            seen.push(v);
            proof {
                assert forall|x: usize| x <= v implies (seen@.contains(x) <==> indeg@[x as int]
                    == 0) by {
                    if x < v {
                        if prev.contains(x) {
                            let j = choose|j: int| 0 <= j < prev.len() && prev[j] == x;
                            assert(seen@[j] == x);
                        }
                        if seen@.contains(x) {
                            let j = choose|j: int| 0 <= j < seen@.len() && seen@[j] == x;
                            if j < prev.len() {
                                assert(prev[j] == x);
                            }
                        }
                    } else {
                        assert(seen@[seen.len() - 1] == v);
                    }
                }
            }
        } else {
            proof {
                assert(!prev.contains(v)) by {
                    if prev.contains(v) {
                        let j = choose|j: int| 0 <= j < prev.len() && prev[j] == v;
                        assert(prev[j] < v);
                    }
                }
            }
        }
        v = v + 1;
    }
    let ghost mut done: Seq<bool> = none;
    proof {
        assert(seen@.take(0) =~= Seq::<usize>::empty());
        assert forall|kk: int| 0 <= kk < m && seen@.contains(#[trigger] es[kk].1 as usize) implies false by {
            assert(indeg@[es[kk].1] == 0);
            lemma_in_count_zero(es, es[kk].1, none, kk);
        }
    }
    let mut head: usize = 0;
    while head < seen.len()
        invariant
            n == pipeline.nodes.len(),
            m == pipeline.edges.len(),
            esrc.len() == m,
            etgt.len() == m,
            es == Seq::new(m as nat, |j: int| (esrc@[j] as int, etgt@[j] as int)),
            edges_in_range(es, n as int),
            indeg.len() == n,
            done.len() == n,
            head <= seen.len(),
            seen@.no_duplicates(),
            forall|j: int| 0 <= j < seen.len() ==> (#[trigger] seen@[j]) < n,
            forall|x: usize| x < n ==> (seen@.contains(x) <==> indeg@[x as int] == 0),
            forall|x: int| 0 <= x < n ==> (done[x] <==> seen@.take(head as int).contains(x as usize)),
            forall|x: int| 0 <= x < n ==> indeg@[x] == in_count(es, x, done),
            forall|kk: int|
                0 <= kk < m && seen@.contains(#[trigger] es[kk].1 as usize) ==> exists|ia: int, ib: int|
                    0 <= ia < head && ia < ib < seen.len() && seen@[ia] == es[kk].0 && seen@[ib]
                        == es[kk].1,
        decreases n - head,
    {
        proof {
            lemma_pigeonhole(seen@, n as nat);
        }
        let u = seen[head];
        let ghost old_done = done;
        proof {
            done = done.update(u as int, true);
            assert(seen@.take(head + 1) == seen@.take(head as int).push(u));
            assert(!old_done[u as int]) by {
                if seen@.take(head as int).contains(u) {
                    let j = choose|j: int| 0 <= j < head && seen@.take(head as int)[j] == u;
                    assert(seen@[j] == seen@[head as int]);
                }
            }
            assert forall|x: int| 0 <= x < n implies (done[x] <==> seen@.take(head + 1).contains(
                x as usize,
            )) by {
                let tk = seen@.take(head as int);
                let tk1 = seen@.take(head + 1);
                assert(old_done[x] <==> tk.contains(x as usize));
                assert(done[x] <==> (x == u as int || old_done[x]));
                if x == u as int {
                    assert(tk1[head as int] == u);
                }
                if tk.contains(x as usize) {
                    let j = choose|j: int| 0 <= j < tk.len() && tk[j] == x as usize;
                    assert(seen@.take(head + 1)[j] == x as usize);
                }
                if tk1.contains(x as usize) {
                    let j = choose|j: int| 0 <= j < tk1.len() && tk1[j] == x as usize;
                    if j < head {
                        assert(tk[j] == x as usize);
                    }
                }
            }
            assert forall|x: int| 0 <= x < n implies in_count(es, x, old_done) == in_count(
                es,
                x,
                done,
            ) + from_count(es, u as int, x) by {
                lemma_in_count_mark(es, x, old_done, u as int, n as int);
            }
        }
        head = head + 1;
        let mut k: usize = 0;
        while k < m
            invariant
                n == pipeline.nodes.len(),
                m == pipeline.edges.len(),
                esrc.len() == m,
                etgt.len() == m,
                es == Seq::new(m as nat, |j: int| (esrc@[j] as int, etgt@[j] as int)),
                edges_in_range(es, n as int),
                indeg.len() == n,
                done.len() == n,
                u < n,
                0 < head <= seen.len(),
                seen@[head - 1] == u,
                k <= m,
                seen@.no_duplicates(),
                forall|j: int| 0 <= j < seen.len() ==> (#[trigger] seen@[j]) < n,
                forall|x: usize| x < n ==> (seen@.contains(x) <==> indeg@[x as int] == 0),
                forall|x: int| 0 <= x < n ==> (done[x] <==> seen@.take(head as int).contains(x as usize)),
                forall|x: int|
                    0 <= x < n ==> indeg@[x] + from_count(es.take(k as int), u as int, x) == in_count(
                        es,
                        x,
                        done,
                    ) + from_count(es, u as int, x),
                forall|kk: int|
                    0 <= kk < m && seen@.contains(#[trigger] es[kk].1 as usize) ==> exists|ia: int, ib: int|
                        0 <= ia < head && ia < ib < seen.len() && seen@[ia] == es[kk].0 && seen@[ib]
                            == es[kk].1,
            decreases m - k,
        {
            let ghost prev_seen = seen@;
            proof {
                assert(es.take(k + 1).drop_last() == es.take(k as int));
                assert(es.take(k + 1).last() == es[k as int]);
            }
            if esrc[k] == u {
                let t = etgt[k];
                proof {
                    lemma_from_count_prefix(es, u as int, t as int, k + 1);
                }
                let ghost prev_indeg = indeg@;
                indeg.set(t, indeg[t] - 1);
                if indeg[t] == 0 {
                    seen.push(t);
                    proof {
                        assert(!prev_seen.contains(t));
                        assert forall|x: usize| x < n implies (seen@.contains(x) <==> indeg@[x as int]
                            == 0) by {
                            if x != t {
                                assert(indeg@[x as int] == prev_indeg[x as int]);
                                if prev_seen.contains(x) {
                                    let j = choose|j: int| 0 <= j < prev_seen.len() && prev_seen[j] == x;
                                    assert(seen@[j] == x);
                                }
                                if seen@.contains(x) {
                                    let j = choose|j: int| 0 <= j < seen@.len() && seen@[j] == x;
                                    if j < prev_seen.len() {
                                        assert(prev_seen[j] == x);
                                    }
                                }
                            } else {
                                assert(seen@[seen.len() - 1] == t);
                            }
                        }
                        assert(seen@.take(head as int) == prev_seen.take(head as int));
                        assert forall|kk: int|
                            0 <= kk < m && seen@.contains(#[trigger] es[kk].1 as usize) implies exists|ia: int, ib: int|
                                0 <= ia < head && ia < ib < seen.len() && seen@[ia] == es[kk].0
                                    && seen@[ib] == es[kk].1 by {
                            if prev_seen.contains(es[kk].1 as usize) {
                                let (ia, ib) = choose|ia: int, ib: int|
                                    0 <= ia < head && ia < ib < prev_seen.len() && prev_seen[ia]
                                        == es[kk].0 && prev_seen[ib] == es[kk].1;
                                assert(seen@[ia] == prev_seen[ia]);
                                assert(seen@[ib] == prev_seen[ib]);
                            } else {
                                assert(es[kk].1 == t as int);
                                lemma_from_count_prefix(es, u as int, t as int, k + 1);
                                assert(in_count(es, t as int, done) == 0);
                                lemma_in_count_zero(es, t as int, done, kk);
                                let ia = choose|ia: int| 0 <= ia < head && seen@.take(head as int)[ia] == es[kk].0 as usize;
                                assert(seen@[ia] == es[kk].0);
                                assert(seen@[seen.len() - 1] == t);
                            }
                        }
                    }
                } else {
                    proof {
                        assert(!prev_seen.contains(t));
                        assert forall|x: usize| x < n implies (seen@.contains(x) <==> indeg@[x as int]
                            == 0) by {
                            if x != t {
                                assert(indeg@[x as int] == prev_indeg[x as int]);
                            }
                        }
                    }
                }
            }
            k = k + 1;
        }
        proof {
            assert(es.take(m as int) == es);
        }
    }
    proof {
        lemma_pigeonhole(seen@, n as nat);
        assert(seen@.take(head as int) == seen@);
    }
    if seen.len() != n {
        proof {
            // Some node was never reached; every unreached node has an
            // unreached predecessor, so no ranking can exist.
            let w = choose|w: usize| w < n && !seen@.contains(w);
            if ids.no_duplicates() && acyclic(*pipeline) {
                let rank = choose|rank: spec_fn(Seq<char>) -> int| ranks_edges(*pipeline, rank);
                let irank = |x: int| rank(ids[x]);
                let mn = lemma_min_rank(done, irank, n as int, w as int);
                assert(indeg@[mn] != 0);
                let kk = lemma_in_count_pos(es, mn, done);
                assert(rank(pipeline.edges@[kk].source@) < rank(pipeline.edges@[kk].target@));
                assert(ids[es[kk].0] == pipeline.edges@[kk].source@);
                assert(ids[es[kk].1] == pipeline.edges@[kk].target@);
            }
        }
        return Err(cycle_error());
    }
    // Every node was reached: emit their ids in queue order.
    let mut order: Vec<String> = Vec::new();
    let mut i: usize = 0;
    while i < n
        invariant
            n == pipeline.nodes.len(),
            seen.len() == n,
            ids == node_ids(*pipeline),
            forall|j: int| 0 <= j < seen.len() ==> (#[trigger] seen@[j]) < n,
            i <= n,
            order.len() == i,
            forall|j: int| 0 <= j < i ==> (#[trigger] order@[j])@ == ids[seen@[j] as int],
        decreases n - i,
    {
        order.push(pipeline.nodes[seen[i]].id.clone());
        i = i + 1;
    }
    proof {
        let ov = strings_view(order@);
        assert forall|j: int| 0 <= j < n implies ov[j] == ids[seen@[j] as int] by {
            assert(order@[j]@ == ids[seen@[j] as int]);
        }
        assert(ov.no_duplicates()) by {
            assert forall|x: int, y: int| 0 <= x < ov.len() && 0 <= y < ov.len() && x != y implies ov[x]
                != ov[y] by {
                assert(seen@[x] != seen@[y]);
            }
        }
        assert forall|j: int| 0 <= j < ov.len() implies ids.contains(#[trigger] ov[j]) by {
            assert(ids[seen@[j] as int] == ov[j]);
        }
        assert forall|kk: int| 0 <= kk < pipeline.edges.len() implies exists|i: int, j: int|
            0 <= i < j < ov.len() && ov[i] == (#[trigger] pipeline.edges@[kk]).source@ && ov[j]
                == pipeline.edges@[kk].target@ by {
            assert(seen@.contains(es[kk].1 as usize));
            let (ia, ib) = choose|ia: int, ib: int|
                0 <= ia < head && ia < ib < seen.len() && seen@[ia] == es[kk].0 && seen@[ib]
                    == es[kk].1;
            assert(ov[ia] == ids[es[kk].0]);
            assert(ov[ib] == ids[es[kk].1]);
        }
    }
    Ok(order)
}

} // verus!

verus! {

// ---- Node outputs ---------------------------------------------------------

/// Structured metadata attached to a node's output.
pub enum NodeMetadata {
    /// Files found in a source folder.
    Files(Vec<String>),
    /// Parts of a split transform.
    Parts(Vec<String>),
    /// The outcome of a condition node.
    Condition { result: bool, condition: String },
    /// A PDF written to disk.
    PdfFile { size_bytes: usize, compile_time_ms: u64 },
    /// A PDF kept in memory, base64-encoded.
    PdfInline { size_bytes: usize, compile_time_ms: u64, pdf_base64: String },
}

/// The mathematical content of a [`NodeMetadata`].
pub enum MetadataView {
    Files(Seq<Seq<char>>),
    Parts(Seq<Seq<char>>),
    Condition { result: bool, condition: Seq<char> },
    PdfFile { size_bytes: usize, compile_time_ms: u64 },
    PdfInline { size_bytes: usize, compile_time_ms: u64, pdf_base64: Seq<char> },
}

impl View for NodeMetadata {
    type V = MetadataView;

    open spec fn view(&self) -> MetadataView {
        match self {
            NodeMetadata::Files(v) => MetadataView::Files(v.deep_view()),
            NodeMetadata::Parts(v) => MetadataView::Parts(v.deep_view()),
            NodeMetadata::Condition { result, condition } => MetadataView::Condition {
                result: *result,
                condition: condition@,
            },
            NodeMetadata::PdfFile { size_bytes, compile_time_ms } => MetadataView::PdfFile {
                size_bytes: *size_bytes,
                compile_time_ms: *compile_time_ms,
            },
            NodeMetadata::PdfInline { size_bytes, compile_time_ms, pdf_base64 } =>
                MetadataView::PdfInline {
                size_bytes: *size_bytes,
                compile_time_ms: *compile_time_ms,
                pdf_base64: pdf_base64@,
            },
        }
    }
}

/// What a node produced.
pub struct NodeOutput {
    pub content: Option<String>,
    pub path: Option<String>,
    pub format: Option<String>,
    pub metadata: Option<NodeMetadata>,
}

/// The mathematical content of a [`NodeOutput`].
pub struct NodeOutputView {
    pub content: Option<Seq<char>>,
    pub path: Option<Seq<char>>,
    pub format: Option<Seq<char>>,
    pub metadata: Option<MetadataView>,
}

impl View for NodeOutput {
    type V = NodeOutputView;

    open spec fn view(&self) -> NodeOutputView {
        NodeOutputView {
            content: self.content.deep_view(),
            path: self.path.deep_view(),
            format: self.format.deep_view(),
            metadata: match self.metadata {
                Some(m) => Some(m@),
                None => None,
            },
        }
    }
}

pub fn copy_strings(v: &Vec<String>) -> (r: Vec<String>)
    ensures
        r.deep_view() == v.deep_view(),
{
    let r = crate::text::clone_strings(v);
    assert(r.deep_view() =~= v.deep_view());
    r
}

pub fn copy_metadata(m: &NodeMetadata) -> (r: NodeMetadata)
    ensures
        r@ == m@,
{
    match m {
        NodeMetadata::Files(v) => NodeMetadata::Files(copy_strings(v)),
        NodeMetadata::Parts(v) => NodeMetadata::Parts(copy_strings(v)),
        NodeMetadata::Condition { result, condition } => NodeMetadata::Condition {
            result: *result,
            condition: condition.clone(),
        },
        NodeMetadata::PdfFile { size_bytes, compile_time_ms } => NodeMetadata::PdfFile {
            size_bytes: *size_bytes,
            compile_time_ms: *compile_time_ms,
        },
        NodeMetadata::PdfInline { size_bytes, compile_time_ms, pdf_base64 } =>
            NodeMetadata::PdfInline {
            size_bytes: *size_bytes,
            compile_time_ms: *compile_time_ms,
            pdf_base64: pdf_base64.clone(),
        },
    }
}

/// A copy of a node output.
pub fn copy_output(o: &NodeOutput) -> (r: NodeOutput)
    ensures
        r@ == o@,
{
    NodeOutput {
        content: crate::text::clone_opt(&o.content),
        path: crate::text::clone_opt(&o.path),
        format: crate::text::clone_opt(&o.format),
        metadata: match &o.metadata {
            Some(m) => Some(copy_metadata(m)),
            None => None,
        },
    }
}

pub open spec fn opt_output_view(o: Option<NodeOutput>) -> Option<NodeOutputView> {
    match o {
        Some(x) => Some(x@),
        None => None,
    }
}

pub open spec fn outputs_view(v: Seq<NodeOutput>) -> Seq<NodeOutputView> {
    v.map_values(|o: NodeOutput| o@)
}

// ---- Inputs of a node -----------------------------------------------------

/// The output recorded for `id`, if any (the first record for that id).
pub open spec fn output_of(outputs: Seq<(String, NodeOutput)>, id: Seq<char>) -> Option<NodeOutputView>
    decreases outputs.len(),
{
    if outputs.len() == 0 {
        None
    } else if outputs[0].0@ == id {
        Some(outputs[0].1@)
    } else {
        output_of(outputs.drop_first(), id)
    }
}

/// The recorded output of the node named by the first edge that ends at
/// `id` (none when no edge ends there or that source has no output).
pub open spec fn first_input(edges: Seq<PipelineEdge>, outputs: Seq<(String, NodeOutput)>, id: Seq<char>) -> Option<NodeOutputView>
    decreases edges.len(),
{
    if edges.len() == 0 {
        None
    } else if edges[0].target@ == id {
        output_of(outputs, edges[0].source@)
    } else {
        first_input(edges.drop_first(), outputs, id)
    }
}

/// The recorded outputs of the sources of all edges ending at `id`, in edge
/// order (sources without output are passed over).
pub open spec fn all_inputs(edges: Seq<PipelineEdge>, outputs: Seq<(String, NodeOutput)>, id: Seq<char>) -> Seq<NodeOutputView>
    decreases edges.len(),
{
    if edges.len() == 0 {
        seq![]
    } else {
        all_inputs(edges.drop_last(), outputs, id) + if edges.last().target@ == id {
            match output_of(outputs, edges.last().source@) {
                Some(o) => seq![o],
                None => seq![],
            }
        } else {
            seq![]
        }
    }
}

/// Looks up the recorded output of `id`.
pub fn find_output(outputs: &Vec<(String, NodeOutput)>, id: &String) -> (r: Option<NodeOutput>)
    ensures
        opt_output_view(r) == output_of(outputs@, id@),
{
    let mut i: usize = 0;
    assert(outputs@.skip(0) == outputs@);
    while i < outputs.len()
        invariant
            i <= outputs.len(),
            output_of(outputs@, id@) == output_of(outputs@.skip(i as int), id@),
        decreases outputs.len() - i,
    {
        assert(outputs@.skip(i as int)[0] == outputs@[i as int]);
        if outputs[i].0 == *id {
            return Some(copy_output(&outputs[i].1));
        }
        assert(outputs@.skip(i as int).drop_first() == outputs@.skip(i + 1));
        i = i + 1;
    }
    assert(outputs@.skip(i as int).len() == 0);
    None
}

/// The input of a single-input node (condition and output nodes).
pub fn get_input(edges: &Vec<PipelineEdge>, outputs: &Vec<(String, NodeOutput)>, id: &String) -> (r: Option<NodeOutput>)
    ensures
        opt_output_view(r) == first_input(edges@, outputs@, id@),
{
    let mut i: usize = 0;
    assert(edges@.skip(0) == edges@);
    while i < edges.len()
        invariant
            i <= edges.len(),
            first_input(edges@, outputs@, id@) == first_input(edges@.skip(i as int), outputs@, id@),
        decreases edges.len() - i,
    {
        assert(edges@.skip(i as int)[0] == edges@[i as int]);
        if edges[i].target == *id {
            return find_output(outputs, &edges[i].source);
        }
        assert(edges@.skip(i as int).drop_first() == edges@.skip(i + 1));
        i = i + 1;
    }
    None
}

/// The inputs of a transform node.
pub fn get_inputs(edges: &Vec<PipelineEdge>, outputs: &Vec<(String, NodeOutput)>, id: &String) -> (r: Vec<NodeOutput>)
    ensures
        outputs_view(r@) == all_inputs(edges@, outputs@, id@),
{
    let mut r: Vec<NodeOutput> = Vec::new();
    let mut i: usize = 0;
    while i < edges.len()
        invariant
            i <= edges.len(),
            outputs_view(r@) == all_inputs(edges@.take(i as int), outputs@, id@),
        decreases edges.len() - i,
    {
        proof {
            assert(edges@.take(i + 1).drop_last() == edges@.take(i as int));
            assert(edges@.take(i + 1).last() == edges@[i as int]);
        }
        if edges[i].target == *id {
            match find_output(outputs, &edges[i].source) {
                Some(o) => {
                    let ghost before = outputs_view(r@);
                    r.push(o);
                    assert(outputs_view(r@) == before.push(o@));
                },
                None => {
                    assert(outputs_view(r@) == outputs_view(r@) + Seq::<NodeOutputView>::empty());
                },
            }
        } else {
            assert(outputs_view(r@) == outputs_view(r@) + Seq::<NodeOutputView>::empty());
        }
        i = i + 1;
    }
    assert(edges@.take(edges.len() as int) == edges@);
    r
}

} // verus!

verus! {

// ---- Parameters and variables ---------------------------------------------

/// The value of the first entry with the given key.
pub open spec fn lookup_pair(ps: Seq<(String, String)>, key: Seq<char>) -> Option<Seq<char>>
    decreases ps.len(),
{
    if ps.len() == 0 {
        None
    } else if ps[0].0@ == key {
        Some(ps[0].1@)
    } else {
        lookup_pair(ps.drop_first(), key)
    }
}

/// A string parameter of a node, or `default`.
pub open spec fn param_or(d: NodeData, key: Seq<char>, default: Seq<char>) -> Seq<char> {
    match d.parameters {
        Some(ps) => match lookup_pair(ps@, key) {
            Some(v) => v,
            None => default,
        },
        None => default,
    }
}

/// The variable with the given name (the first, if several).
pub open spec fn lookup_var(vars: Seq<(String, VariableValue)>, name: Seq<char>) -> Option<VariableValue>
    decreases vars.len(),
{
    if vars.len() == 0 {
        None
    } else if vars[0].0@ == name {
        Some(vars[0].1)
    } else {
        lookup_var(vars.drop_first(), name)
    }
}

fn lookup_param(ps: &Vec<(String, String)>, key: &str) -> (r: Option<String>)
    ensures
        r.deep_view() == lookup_pair(ps@, key@),
{
    let mut i: usize = 0;
    assert(ps@.skip(0) == ps@);
    while i < ps.len()
        invariant
            i <= ps.len(),
            lookup_pair(ps@, key@) == lookup_pair(ps@.skip(i as int), key@),
        decreases ps.len() - i,
    {
        assert(ps@.skip(i as int)[0] == ps@[i as int]);
        if crate::text::eq_str(ps[i].0.as_str(), key) {
            return Some(ps[i].1.clone());
        }
        assert(ps@.skip(i as int).drop_first() == ps@.skip(i + 1));
        i = i + 1;
    }
    None
}

/// A string parameter of a node, or `default`.
pub fn get_param_or(d: &NodeData, key: &str, default: &str) -> (r: String)
    ensures
        r@ == param_or(*d, key@, default@),
{
    match &d.parameters {
        Some(ps) => match lookup_param(ps, key) {
            Some(v) => v,
            None => String::from_str(default),
        },
        None => String::from_str(default),
    }
}

/// Looks up a variable by name.
pub fn find_var<'a>(vars: &'a Vec<(String, VariableValue)>, name: &[char]) -> (r: Option<&'a VariableValue>)
    ensures
        match r {
            Some(v) => lookup_var(vars@, name@) == Some(*v),
            None => lookup_var(vars@, name@) is None,
        },
{
    let mut i: usize = 0;
    assert(vars@.skip(0) == vars@);
    let name_s = crate::text::string_of(name);
    while i < vars.len()
        invariant
            i <= vars.len(),
            name_s@ == name@,
            lookup_var(vars@, name@) == lookup_var(vars@.skip(i as int), name@),
        decreases vars.len() - i,
    {
        assert(vars@.skip(i as int)[0] == vars@[i as int]);
        if vars[i].0 == name_s {
            return Some(&vars[i].1);
        }
        assert(vars@.skip(i as int).drop_first() == vars@.skip(i + 1));
        i = i + 1;
    }
    None
}

// ---- Transform nodes ------------------------------------------------------

/// The contents of the inputs that have one, each followed by a blank line.
pub open spec fn merge_contents(inputs: Seq<NodeOutputView>) -> Seq<char>
    decreases inputs.len(),
{
    if inputs.len() == 0 {
        seq![]
    } else {
        merge_contents(inputs.drop_last()) + match inputs.last().content {
            Some(c) => c + "\n\n"@,
            None => seq![],
        }
    }
}

/// The `{{name}}` placeholder of a variable.
pub open spec fn placeholder(name: Seq<char>) -> Seq<char> {
    "{{"@ + name + "}}"@
}

/// What a variable's placeholder is replaced with: its text, or its JSON.
pub open spec fn var_replacement(v: VariableValue) -> Seq<char> {
    match v.text {
        Some(t) => t@,
        None => v.json@,
    }
}

/// Every variable's placeholder replaced, variable by variable.
pub open spec fn inject_vars(content: Seq<char>, vars: Seq<(String, VariableValue)>) -> Seq<char>
    decreases vars.len(),
{
    if vars.len() == 0 {
        content
    } else {
        replace_all(
            inject_vars(content, vars.drop_last()),
            placeholder(vars.last().0@),
            var_replacement(vars.last().1),
        )
    }
}

/// `parts` joined with `sep` between neighbours.
pub open spec fn join(parts: Seq<Seq<char>>, sep: Seq<char>) -> Seq<char>
    decreases parts.len(),
{
    if parts.len() == 0 {
        seq![]
    } else if parts.len() == 1 {
        parts[0]
    } else {
        join(parts.drop_last(), sep) + sep + parts.last()
    }
}

/// The lines that contain `pattern`, joined with newlines.
pub open spec fn filter_lines(content: Seq<char>, pattern: Seq<char>) -> Seq<char> {
    join(lines(content).filter(|l: Seq<char>| contains_seq(l, pattern)), "\n"@)
}

/// `str::split` with a non-empty delimiter, from position `pos` on.
pub open spec fn split_from(s: Seq<char>, d: Seq<char>, pos: int) -> Seq<Seq<char>>
    decreases s.len() + 1 - pos,
{
    if d.len() == 0 || pos < 0 || pos > s.len() {
        seq![]
    } else {
        match find_from(s, d, pos) {
            Some(i) => if pos <= i && i + d.len() <= s.len() {
                seq![s.subrange(pos, i)] + split_from(s, d, i + d.len())
            } else {
                seq![]
            },
            None => seq![s.subrange(pos, s.len() as int)],
        }
    }
}

/// `str::split` with a string delimiter (an empty delimiter splits around
/// every character).
pub open spec fn split_str(s: Seq<char>, d: Seq<char>) -> Seq<Seq<char>> {
    if d.len() == 0 {
        seq![seq![]] + s.map_values(|c: char| seq![c]) + seq![seq![]]
    } else {
        split_from(s, d, 0)
    }
}

pub open spec fn text_or_empty(c: Option<Seq<char>>) -> Seq<char> {
    match c {
        Some(x) => x,
        None => seq![],
    }
}

pub open spec fn transform_error() -> Seq<char> {
    "Transform node has no inputs"@
}

/// What a transform node yields for the given inputs.
pub open spec fn transform_result(
    d: NodeData,
    inputs: Seq<NodeOutputView>,
    vars: Seq<(String, VariableValue)>,
) -> Result<NodeOutputView, Seq<char>> {
    let op = opt_or(d.operation, "passthrough"@);
    if inputs.len() == 0 {
        Err(transform_error())
    } else {
        let first = inputs[0];
        let content = text_or_empty(first.content);
        if op == "merge"@ {
            Ok(
                NodeOutputView {
                    content: Some(merge_contents(inputs)),
                    path: None,
                    format: first.format,
                    metadata: None,
                },
            )
        } else if op == "inject"@ {
            Ok(
                NodeOutputView {
                    content: Some(inject_vars(content, vars)),
                    path: first.path,
                    format: first.format,
                    metadata: None,
                },
            )
        } else if op == "filter"@ {
            Ok(
                NodeOutputView {
                    content: Some(filter_lines(content, param_or(d, "pattern"@, ""@))),
                    path: first.path,
                    format: first.format,
                    metadata: None,
                },
            )
        } else if op == "template"@ {
            Ok(
                NodeOutputView {
                    content: Some(
                        replace_all(
                            param_or(d, "template"@, "{{content}}"@),
                            "{{content}}"@,
                            content,
                        ),
                    ),
                    path: first.path,
                    format: first.format,
                    metadata: None,
                },
            )
        } else if op == "split"@ {
            Ok(
                NodeOutputView {
                    content: Some(content),
                    path: first.path,
                    format: first.format,
                    metadata: Some(
                        MetadataView::Parts(
                            split_str(content, param_or(d, "delimiter"@, "\n---\n"@)),
                        ),
                    ),
                },
            )
        } else {
            Ok(first)
        }
    }
}

pub open spec fn result_view(r: Result<NodeOutput, String>) -> Result<NodeOutputView, Seq<char>> {
    match r {
        Ok(o) => Ok(o@),
        Err(e) => Err(e@),
    }
}

fn merge_inputs(inputs: &Vec<NodeOutput>) -> (r: String)
    ensures
        r@ == merge_contents(outputs_view(inputs@)),
{
    let mut out = String::new();
    let mut i: usize = 0;
    while i < inputs.len()
        invariant
            i <= inputs.len(),
            out@ == merge_contents(outputs_view(inputs@).take(i as int)),
        decreases inputs.len() - i,
    {
        proof {
            assert(outputs_view(inputs@).take(i + 1).drop_last() == outputs_view(inputs@).take(
                i as int,
            ));
            assert(outputs_view(inputs@).take(i + 1).last() == inputs@[i as int]@);
        }
        match &inputs[i].content {
            Some(c) => {
                out.append(c.as_str());
                out.append("\n\n");
                assert(out@ == merge_contents(outputs_view(inputs@).take(i as int)) + (c@ + "\n\n"@));
            },
            None => {
                assert(out@ == out@ + Seq::<char>::empty());
            },
        }
        i = i + 1;
    }
    assert(outputs_view(inputs@).take(inputs.len() as int) == outputs_view(inputs@));
    out
}

fn placeholder_of(name: &String) -> (r: String)
    ensures
        r@ == placeholder(name@),
{
    let mut p = String::from_str("{{");
    p.append(name.as_str());
    p.append("}}");
    p
}

proof fn lemma_placeholder_nonempty(name: Seq<char>)
    ensures
        placeholder(name).len() > 0,
{
    reveal_strlit("{{");
}

fn inject_variables(content: String, vars: &Vec<(String, VariableValue)>) -> (r: String)
    ensures
        r@ == inject_vars(content@, vars@),
{
    let mut cur = content;
    let mut i: usize = 0;
    while i < vars.len()
        invariant
            i <= vars.len(),
            cur@ == inject_vars(content@, vars@.take(i as int)),
        decreases vars.len() - i,
    {
        proof {
            assert(vars@.take(i + 1).drop_last() == vars@.take(i as int));
            assert(vars@.take(i + 1).last() == vars@[i as int]);
            lemma_placeholder_nonempty(vars@[i as int].0@);
        }
        let ph = placeholder_of(&vars[i].0);
        let rep = match &vars[i].1.text {
            Some(t) => t.clone(),
            None => vars[i].1.json.clone(),
        };
        let cv = crate::text::chars_of(cur.as_str());
        cur = crate::text::replace_str(cv.as_slice(), ph.as_str(), rep.as_str());
        i = i + 1;
    }
    assert(vars@.take(vars.len() as int) == vars@);
    cur
}

fn filter_content(content: &String, pattern: &String) -> (r: String)
    ensures
        r@ == filter_lines(content@, pattern@),
{
    let cv = crate::text::chars_of(content.as_str());
    let pv = crate::text::chars_of(pattern.as_str());
    let ls = crate::text::lines_of(cv.as_slice());
    let ghost all = ls@.map_values(|l: Vec<char>| l@);
    let ghost pred = |l: Seq<char>| contains_seq(l, pattern@);
    let mut out = String::new();
    let mut count: usize = 0;
    let mut i: usize = 0;
    while i < ls.len()
        invariant
            i <= ls.len(),
            all == ls@.map_values(|l: Vec<char>| l@),
            pred == (|l: Seq<char>| contains_seq(l, pattern@)),
            pv@ == pattern@,
            count == all.take(i as int).filter(pred).len(),
            out@ == join(all.take(i as int).filter(pred), "\n"@),
        decreases ls.len() - i,
    {
        proof {
            assert(all.take(i + 1) == all.take(i as int).push(all[i as int]));
            all.take(i as int).lemma_filter_push(all[i as int], pred);
        }
        if crate::text::contains_chars(ls[i].as_slice(), pv.as_slice()) {
            let ghost before = all.take(i as int).filter(pred);
            if count > 0 {
                out.append("\n");
            }
            crate::text::append_chars(&mut out, ls[i].as_slice(), 0, ls[i].len());
            proof {
                assert(ls[i as int]@.subrange(0, ls[i as int]@.len() as int) == ls[i as int]@);
                let after = before.push(all[i as int]);
                assert(after.drop_last() == before);
                assert(after.last() == all[i as int]);
            }
            count = count + 1;
        }
        i = i + 1;
    }
    assert(all.take(ls.len() as int) == all);
    out
}

fn split_content(s: &[char], d: &[char]) -> (r: Vec<String>)
    ensures
        r.deep_view() == split_str(s@, d@),
{
    let mut parts: Vec<String> = Vec::new();
    if d.len() == 0 {
        parts.push(String::new());
        let mut i: usize = 0;
        while i < s.len()
            invariant
                i <= s.len(),
                parts.deep_view() == seq![Seq::<char>::empty()] + s@.take(i as int).map_values(
                    |c: char| seq![c],
                ),
            decreases s.len() - i,
        {
            let mut one = String::new();
            crate::text::push_char(&mut one, s[i]);
            let ghost before = parts.deep_view();
            parts.push(one);
            proof {
                assert(parts.deep_view() =~= before.push(seq![s@[i as int]]));
                assert(s@.take(i + 1) == s@.take(i as int).push(s@[i as int]));
                assert(s@.take(i + 1).map_values(|c: char| seq![c]) =~= s@.take(i as int).map_values(
                    |c: char| seq![c],
                ).push(seq![s@[i as int]]));
            }
            i = i + 1;
        }
        parts.push(String::new());
        assert(s@.take(s.len() as int) == s@);
        assert(parts.deep_view() =~= split_str(s@, d@));
        return parts;
    }
    let mut pos: usize = 0;
    loop
        invariant
            d.len() > 0,
            pos <= s.len(),
            parts.deep_view() + split_from(s@, d@, pos as int) == split_from(s@, d@, 0),
        decreases s.len() + 1 - pos,
    {
        let f = crate::text::find_chars(s, d, pos);
        proof {
            crate::text::lemma_find_from(s@, d@, pos as int);
        }
        match f {
            Some(i) => {
                let mut part = String::new();
                crate::text::append_chars(&mut part, s, pos, i);
                let ghost before = parts.deep_view();
                parts.push(part);
                proof {
                    assert(parts.deep_view() == before.push(s@.subrange(pos as int, i as int)));
                    assert(split_from(s@, d@, pos as int) == seq![s@.subrange(pos as int, i as int)]
                        + split_from(s@, d@, i + d.len()));
                    assert(before.push(s@.subrange(pos as int, i as int)) + split_from(s@, d@, i + d.len())
                        == before + (seq![s@.subrange(pos as int, i as int)] + split_from(s@, d@, i + d.len())));
                }
                pos = i + d.len();
            },
            None => {
                let mut part = String::new();
                crate::text::append_chars(&mut part, s, pos, s.len());
                let ghost before = parts.deep_view();
                parts.push(part);
                proof {
                    assert(parts.deep_view() == before.push(s@.subrange(pos as int, s.len() as int)));
                    assert(parts.deep_view() =~= before + split_from(s@, d@, pos as int));
                }
                return parts;
            },
        }
    }
}

/// Runs a transform node on its inputs.
pub fn execute_transform_node(
    node: &PipelineNode,
    inputs: &Vec<NodeOutput>,
    vars: &Vec<(String, VariableValue)>,
) -> (r: Result<NodeOutput, String>)
    ensures
        result_view(r) == transform_result(node.data, outputs_view(inputs@), vars@),
{
    let op = crate::text::opt_or_string(&node.data.operation, "passthrough");
    if inputs.len() == 0 {
        return Err(String::from_str("Transform node has no inputs"));
    }
    let first = &inputs[0];
    let content = crate::text::opt_or_string(&first.content, "");
    proof {
        crate::text::lemma_opt_deep(first.content);
        reveal_strlit("");
    }
    assert(content@ == text_or_empty(first@.content));
    if crate::text::eq_str(op.as_str(), "merge") {
        Ok(
            NodeOutput {
                content: Some(merge_inputs(inputs)),
                path: None,
                format: crate::text::clone_opt(&first.format),
                metadata: None,
            },
        )
    } else if crate::text::eq_str(op.as_str(), "inject") {
        Ok(
            NodeOutput {
                content: Some(inject_variables(content, vars)),
                path: crate::text::clone_opt(&first.path),
                format: crate::text::clone_opt(&first.format),
                metadata: None,
            },
        )
    } else if crate::text::eq_str(op.as_str(), "filter") {
        let pattern = get_param_or(&node.data, "pattern", "");
        Ok(
            NodeOutput {
                content: Some(filter_content(&content, &pattern)),
                path: crate::text::clone_opt(&first.path),
                format: crate::text::clone_opt(&first.format),
                metadata: None,
            },
        )
    } else if crate::text::eq_str(op.as_str(), "template") {
        let template = get_param_or(&node.data, "template", "{{content}}");
        let tv = crate::text::chars_of(template.as_str());
        proof {
            reveal_strlit("{{content}}");
        }
        Ok(
            NodeOutput {
                content: Some(crate::text::replace_str(tv.as_slice(), "{{content}}", content.as_str())),
                path: crate::text::clone_opt(&first.path),
                format: crate::text::clone_opt(&first.format),
                metadata: None,
            },
        )
    } else if crate::text::eq_str(op.as_str(), "split") {
        let delimiter = get_param_or(&node.data, "delimiter", "\n---\n");
        let cv = crate::text::chars_of(content.as_str());
        let dv = crate::text::chars_of(delimiter.as_str());
        let parts = split_content(cv.as_slice(), dv.as_slice());
        Ok(
            NodeOutput {
                content: Some(content),
                path: crate::text::clone_opt(&first.path),
                format: crate::text::clone_opt(&first.format),
                metadata: Some(NodeMetadata::Parts(parts)),
            },
        )
    } else {
        Ok(copy_output(first))
    }
}

} // verus!

verus! {

// ---- Condition nodes ------------------------------------------------------

/// The verdict of a `name == value` comparison, when the condition has that
/// shape, the variable exists and holds text.
pub open spec fn comparison_verdict(c: Seq<char>, vars: Seq<(String, VariableValue)>) -> Option<bool> {
    if !contains_seq(c, "=="@) {
        None
    } else {
        match find_from(c, "=="@, 0) {
            Some(i) => if find_from(c, "=="@, i + 2) is None {
                let name = trim(c.take(i));
                let expected = trim_char(trim(c.skip(i + 2)), '"');
                match lookup_var(vars, name) {
                    Some(v) => match v.text {
                        Some(t) => Some(t@ == expected),
                        None => None,
                    },
                    None => None,
                }
            } else {
                None
            },
            None => None,
        }
    }
}

/// How a condition evaluates: `true`/`false` literally, a comparison with a
/// text variable, `has_content` on the input, and `true` otherwise. The
/// condition is trimmed and lower-cased first.
pub open spec fn condition_holds(
    condition: Seq<char>,
    input: Option<NodeOutputView>,
    vars: Seq<(String, VariableValue)>,
) -> bool {
    let c = spec_lowercase(trim(condition));
    if c == "true"@ {
        true
    } else if c == "false"@ {
        false
    } else {
        match comparison_verdict(c, vars) {
            Some(b) => b,
            None => if contains_seq(c, "has_content"@) {
                input matches Some(i) && i.content is Some
            } else {
                true
            },
        }
    }
}

/// Evaluates a condition expression.
pub fn evaluate_condition(
    condition: &str,
    input: &Option<NodeOutput>,
    vars: &Vec<(String, VariableValue)>,
) -> (r: bool)
    ensures
        r == condition_holds(condition@, opt_output_view(*input), vars@),
{
    let raw = crate::text::chars_of(condition);
    let trimmed = crate::text::trim_chars(raw.as_slice());
    let ts = crate::text::string_of(trimmed.as_slice());
    let lower = crate::text::to_lowercase(ts.as_str());
    let c = crate::text::chars_of(lower.as_str());
    if crate::text::eq_str(lower.as_str(), "true") {
        return true;
    }
    if crate::text::eq_str(lower.as_str(), "false") {
        return false;
    }
    let eq = crate::text::chars_of("==");
    proof {
        reveal_strlit("==");
    }
    assert(eq@.len() == 2);
    assert(eq@ == "=="@);
    if crate::text::contains_chars(c.as_slice(), eq.as_slice()) {
        match crate::text::find_chars(c.as_slice(), eq.as_slice(), 0) {
            Some(i) => {
                proof {
                    crate::text::lemma_find_from(c@, eq@, 0);
                    assert(find_from(c@, eq@, 0) == Some(i as int));
                    assert(occurs_at(c@, eq@, i as int));
                }
                assert(i + 2 <= c.len());
                if crate::text::find_chars(c.as_slice(), eq.as_slice(), i + 2).is_none() {
                    let mut left: Vec<char> = Vec::new();
                    let mut k: usize = 0;
                    while k < i
                        invariant
                            k <= i <= c.len(),
                            left@ == c@.take(k as int),
                        decreases i - k,
                    {
                        left.push(c[k]);
                        k = k + 1;
                        assert(c@.take(k as int) == c@.take(k - 1).push(c@[k - 1]));
                    }
                    let mut right: Vec<char> = Vec::new();
                    let mut k: usize = i + 2;
                    while k < c.len()
                        invariant
                            i + 2 <= c.len(),
                            i + 2 <= k <= c.len(),
                            right@ == c@.subrange(i + 2, k as int),
                        decreases c.len() - k,
                    {
                        right.push(c[k]);
                        k = k + 1;
                        assert(c@.subrange(i + 2, k as int) == c@.subrange(i + 2, k - 1).push(
                            c@[k - 1],
                        ));
                    }
                    assert(c@.subrange(i + 2, c.len() as int) == c@.skip(i + 2));
                    let name = crate::text::trim_chars(left.as_slice());
                    let rt = crate::text::trim_chars(right.as_slice());
                    let expected = crate::text::trim_char_chars(rt.as_slice(), '"');
                    match find_var(vars, name.as_slice()) {
                        Some(v) => match &v.text {
                            Some(t) => {
                                let es = crate::text::string_of(expected.as_slice());
                                return crate::text::eq_str(t.as_str(), es.as_str());
                            },
                            None => {},
                        },
                        None => {},
                    }
                }
            },
            None => {},
        }
    }
    if crate::text::contains_str(c.as_slice(), "has_content") {
        return match input {
            Some(i) => i.content.is_some(),
            None => false,
        };
    }
    true
}

/// Runs a condition node: its input passes through, with the verdict as
/// metadata.
pub fn execute_condition_node(
    node: &PipelineNode,
    input: &Option<NodeOutput>,
    vars: &Vec<(String, VariableValue)>,
) -> (r: NodeOutput)
    ensures
        r@ == (NodeOutputView {
            content: match opt_output_view(*input) {
                Some(i) => i.content,
                None => None,
            },
            path: match opt_output_view(*input) {
                Some(i) => i.path,
                None => None,
            },
            format: match opt_output_view(*input) {
                Some(i) => i.format,
                None => None,
            },
            metadata: Some(
                MetadataView::Condition {
                    result: condition_holds(
                        opt_or(node.data.condition, "true"@),
                        opt_output_view(*input),
                        vars@,
                    ),
                    condition: opt_or(node.data.condition, "true"@),
                },
            ),
        }),
{
    let condition = crate::text::opt_or_string(&node.data.condition, "true");
    let result = evaluate_condition(condition.as_str(), input, vars);
    match input {
        Some(i) => NodeOutput {
            content: crate::text::clone_opt(&i.content),
            path: crate::text::clone_opt(&i.path),
            format: crate::text::clone_opt(&i.format),
            metadata: Some(NodeMetadata::Condition { result, condition }),
        },
        None => NodeOutput {
            content: None,
            path: None,
            format: None,
            metadata: Some(NodeMetadata::Condition { result, condition }),
        },
    }
}

// ---- Source and output nodes ----------------------------------------------

/// What a source node asks for.
pub enum SourcePlan {
    /// Read the file at this path (relative paths resolve under the root).
    ReadFile(String),
    /// List the files of this folder.
    ReadFolder(String),
    /// The output is known without reading anything.
    Ready(NodeOutput),
}

pub enum SourcePlanView {
    ReadFile(Seq<char>),
    ReadFolder(Seq<char>),
    Ready(NodeOutputView),
}

pub open spec fn source_plan_view(r: Result<SourcePlan, String>) -> Result<SourcePlanView, Seq<char>> {
    match r {
        Ok(SourcePlan::ReadFile(p)) => Ok(SourcePlanView::ReadFile(p@)),
        Ok(SourcePlan::ReadFolder(p)) => Ok(SourcePlanView::ReadFolder(p@)),
        Ok(SourcePlan::Ready(o)) => Ok(SourcePlanView::Ready(o@)),
        Err(e) => Err(e@),
    }
}

/// What a source node does with its type and path.
pub open spec fn source_plan(d: NodeData, vars: Seq<(String, VariableValue)>) -> Result<SourcePlanView, Seq<char>> {
    let t = opt_or(d.source_type, "file"@);
    if t == "file"@ {
        match d.path {
            Some(p) => Ok(SourcePlanView::ReadFile(p@)),
            None => Err("Source path not specified"@),
        }
    } else if t == "folder"@ {
        match d.path {
            Some(p) => Ok(SourcePlanView::ReadFolder(p@)),
            None => Err("Folder path not specified"@),
        }
    } else if t == "variable"@ {
        match d.path {
            Some(name) => match lookup_var(vars, name@) {
                Some(v) => Ok(
                    SourcePlanView::Ready(
                        NodeOutputView {
                            content: Some(v.json@),
                            path: None,
                            format: Some("json"@),
                            metadata: None,
                        },
                    ),
                ),
                None => Err("Variable '"@ + name@ + "' not found"@),
            },
            None => Err("Variable name not specified"@),
        }
    } else {
        Err("Unknown source type: "@ + t)
    }
}

/// Decides what a source node reads, or produces a variable's value.
pub fn plan_source_node(node: &PipelineNode, vars: &Vec<(String, VariableValue)>) -> (r: Result<SourcePlan, String>)
    ensures
        source_plan_view(r) == source_plan(node.data, vars@),
{
    let t = crate::text::opt_or_string(&node.data.source_type, "file");
    if crate::text::eq_str(t.as_str(), "file") {
        match &node.data.path {
            Some(p) => Ok(SourcePlan::ReadFile(p.clone())),
            None => Err(String::from_str("Source path not specified")),
        }
    } else if crate::text::eq_str(t.as_str(), "folder") {
        match &node.data.path {
            Some(p) => Ok(SourcePlan::ReadFolder(p.clone())),
            None => Err(String::from_str("Folder path not specified")),
        }
    } else if crate::text::eq_str(t.as_str(), "variable") {
        match &node.data.path {
            Some(name) => {
                let nv = crate::text::chars_of(name.as_str());
                match find_var(vars, nv.as_slice()) {
                    Some(v) => Ok(
                        SourcePlan::Ready(
                            NodeOutput {
                                content: Some(v.json.clone()),
                                path: None,
                                format: Some(String::from_str("json")),
                                metadata: None,
                            },
                        ),
                    ),
                    None => {
                        let mut e = String::from_str("Variable '");
                        e.append(name.as_str());
                        e.append("' not found");
                        Err(e)
                    },
                }
            },
            None => Err(String::from_str("Variable name not specified")),
        }
    } else {
        let mut e = String::from_str("Unknown source type: ");
        e.append(t.as_str());
        Err(e)
    }
}

/// What an output node writes: a PDF compiled from the content, or text in
/// the given format.
pub enum OutputPlan {
    Pdf { content: String },
    Text { content: String, format: String },
}

pub enum OutputPlanView {
    Pdf { content: Seq<char> },
    Text { content: Seq<char>, format: Seq<char> },
}

pub open spec fn output_plan_view(r: Result<OutputPlan, String>) -> Result<OutputPlanView, Seq<char>> {
    match r {
        Ok(OutputPlan::Pdf { content }) => Ok(OutputPlanView::Pdf { content: content@ }),
        Ok(OutputPlan::Text { content, format }) => Ok(
            OutputPlanView::Text { content: content@, format: format@ },
        ),
        Err(e) => Err(e@),
    }
}

/// The minimal HTML page an output node writes for `html`.
pub open spec fn html_page(label: Seq<char>, content: Seq<char>) -> Seq<char> {
    "<!DOCTYPE html>\n<html>\n<head>\n<meta charset=\"UTF-8\">\n<title>"@ + label
        + "</title>\n</head>\n<body>\n<pre>"@ + replace_all(
        replace_all(content, "<"@, "&lt;"@),
        ">"@,
        "&gt;"@,
    ) + "</pre>\n</body>\n</html>"@
}

/// What an output node does with its input and format.
pub open spec fn output_plan(d: NodeData, input: Option<NodeOutputView>) -> Result<OutputPlanView, Seq<char>> {
    let f = opt_or(d.format, "pdf"@);
    match input {
        None => Err("Output node has no input"@),
        Some(i) => {
            let content = text_or_empty(i.content);
            if f == "pdf"@ {
                Ok(OutputPlanView::Pdf { content })
            } else if f == "html"@ {
                Ok(OutputPlanView::Text { content: html_page(d.label@, content), format: "html"@ })
            } else if f == "md"@ || f == "markdown"@ {
                Ok(OutputPlanView::Text { content, format: "markdown"@ })
            } else {
                Ok(OutputPlanView::Text { content, format: f })
            }
        },
    }
}

/// Decides what an output node writes.
pub fn plan_output_node(node: &PipelineNode, input: &Option<NodeOutput>) -> (r: Result<OutputPlan, String>)
    ensures
        output_plan_view(r) == output_plan(node.data, opt_output_view(*input)),
{
    let f = crate::text::opt_or_string(&node.data.format, "pdf");
    match input {
        None => {
            let e = String::from_str("Output node has no input");
            assert(opt_output_view(*input) is None);
            assert(output_plan(node.data, opt_output_view(*input)) == Err::<OutputPlanView, Seq<char>>(e@));
            let r: Result<OutputPlan, String> = Err(e);
            assert(output_plan_view(r) == Err::<OutputPlanView, Seq<char>>(e@));
            r
        },
        Some(i) => {
            let content = crate::text::opt_or_string(&i.content, "");
            proof {
                crate::text::lemma_opt_deep(i.content);
                reveal_strlit("");
                reveal_strlit("<");
                reveal_strlit(">");
            }
            assert(content@ == text_or_empty(i@.content));
            if crate::text::eq_str(f.as_str(), "pdf") {
                Ok(OutputPlan::Pdf { content })
            } else if crate::text::eq_str(f.as_str(), "html") {
                let cv = crate::text::chars_of(content.as_str());
                let lt = crate::text::replace_str(cv.as_slice(), "<", "&lt;");
                let lv = crate::text::chars_of(lt.as_str());
                let gt = crate::text::replace_str(lv.as_slice(), ">", "&gt;");
                let mut page = String::from_str(
                    "<!DOCTYPE html>\n<html>\n<head>\n<meta charset=\"UTF-8\">\n<title>",
                );
                page.append(node.data.label.as_str());
                page.append("</title>\n</head>\n<body>\n<pre>");
                page.append(gt.as_str());
                page.append("</pre>\n</body>\n</html>");
                Ok(OutputPlan::Text { content: page, format: String::from_str("html") })
            } else if crate::text::eq_str(f.as_str(), "md") || crate::text::eq_str(
                f.as_str(),
                "markdown",
            ) {
                Ok(OutputPlan::Text { content, format: String::from_str("markdown") })
            } else {
                Ok(OutputPlan::Text { content, format: f })
            }
        },
    }
}

} // verus!

verus! {

// ---- Validation -----------------------------------------------------------

/// Some edge starts or ends at `id`.
pub open spec fn is_connected(p: Pipeline, id: Seq<char>) -> bool {
    exists|k: int|
        0 <= k < p.edges.len() && ((#[trigger] p.edges@[k]).source@ == id || p.edges@[k].target@
            == id)
}

/// One warning per node that no edge touches, when there is more than one
/// node.
pub open spec fn disconnected_warnings(p: Pipeline, nodes: Seq<PipelineNode>) -> Seq<Seq<char>>
    decreases nodes.len(),
{
    if nodes.len() == 0 {
        seq![]
    } else {
        disconnected_warnings(p, nodes.drop_last()) + if !is_connected(p, nodes.last().id@)
            && p.nodes.len() > 1 {
            seq!["Node '"@ + nodes.last().data.label@ + "' is not connected to the pipeline"@]
        } else {
            seq![]
        }
    }
}

/// The warning for a node whose required field is missing, if any.
pub open spec fn field_warning(n: PipelineNode) -> Seq<Seq<char>> {
    match n.node_type {
        NodeType::Source => if n.data.path is None && !(n.data.source_type matches Some(t) && t@
            == "variable"@) {
            seq!["Source node '"@ + n.data.label@ + "' has no path specified"@]
        } else {
            seq![]
        },
        NodeType::Output => if n.data.format is None {
            seq!["Output node '"@ + n.data.label@ + "' has no format specified"@]
        } else {
            seq![]
        },
        _ => seq![],
    }
}

pub open spec fn field_warnings(nodes: Seq<PipelineNode>) -> Seq<Seq<char>>
    decreases nodes.len(),
{
    if nodes.len() == 0 {
        seq![]
    } else {
        field_warnings(nodes.drop_last()) + field_warning(nodes.last())
    }
}

pub open spec fn has_output_node(p: Pipeline) -> bool {
    exists|i: int| 0 <= i < p.nodes.len() && (#[trigger] p.nodes@[i]).node_type == NodeType::Output
}

/// All warnings about a pipeline's structure, in the order they are found.
pub open spec fn validation_warnings(p: Pipeline) -> Seq<Seq<char>> {
    disconnected_warnings(p, p.nodes@) + field_warnings(p.nodes@) + if has_output_node(p) {
        seq![]
    } else {
        seq!["Pipeline has no output nodes"@]
    }
}

fn connected(p: &Pipeline, id: &String) -> (r: bool)
    ensures
        r == is_connected(*p, id@),
{
    let mut k: usize = 0;
    while k < p.edges.len()
        invariant
            k <= p.edges.len(),
            forall|j: int|
                0 <= j < k ==> !((#[trigger] p.edges@[j]).source@ == id@ || p.edges@[j].target@
                    == id@),
        decreases p.edges.len() - k,
    {
        if p.edges[k].source == *id || p.edges[k].target == *id {
            assert(p.edges@[k as int].source@ == id@ || p.edges@[k as int].target@ == id@);
            return true;
        }
        k = k + 1;
    }
    false
}

fn push_quoted(out: &mut Vec<String>, pre: &str, label: &String, post: &str)
    ensures
        final(out).deep_view() == old(out).deep_view().push(pre@ + label@ + post@),
{
    let mut w = String::from_str(pre);
    w.append(label.as_str());
    w.append(post);
    let ghost before = out.deep_view();
    out.push(w);
    assert(out.deep_view() =~= before.push(pre@ + label@ + post@));
}

/// Checks a pipeline: refused when it has no execution order, otherwise the
/// list of structural warnings.
pub fn validate_pipeline(pipeline: Pipeline) -> (r: Result<Vec<String>, String>)
    requires
        edges_resolve(pipeline),
    ensures
        match r {
            Ok(w) => ids_distinct(pipeline) && acyclic(pipeline) && w.deep_view()
                == validation_warnings(pipeline),
            Err(e) => e@ == cycle_message() && !(ids_distinct(pipeline) && acyclic(pipeline)),
        },
{
    match build_execution_order(&pipeline) {
        Err(e) => {
            return Err(e);
        },
        Ok(order) => {
            proof {
                lemma_execution_order_implies_acyclic(pipeline, strings_view(order@));
            }
        },
    }
    let mut warnings: Vec<String> = Vec::new();
    let n = pipeline.nodes.len();
    let mut i: usize = 0;
    while i < n
        invariant
            n == pipeline.nodes.len(),
            i <= n,
            warnings.deep_view() == disconnected_warnings(pipeline, pipeline.nodes@.take(i as int)),
        decreases n - i,
    {
        proof {
            assert(pipeline.nodes@.take(i + 1).drop_last() == pipeline.nodes@.take(i as int));
            assert(pipeline.nodes@.take(i + 1).last() == pipeline.nodes@[i as int]);
        }
        if !connected(&pipeline, &pipeline.nodes[i].id) && n > 1 {
            push_quoted(
                &mut warnings,
                "Node '",
                &pipeline.nodes[i].data.label,
                "' is not connected to the pipeline",
            );
        } else {
            assert(warnings.deep_view() == warnings.deep_view() + Seq::<Seq<char>>::empty());
        }
        i = i + 1;
    }
    assert(pipeline.nodes@.take(n as int) == pipeline.nodes@);
    let ghost first_part = warnings.deep_view();
    let mut i: usize = 0;
    while i < n
        invariant
            n == pipeline.nodes.len(),
            i <= n,
            warnings.deep_view() == first_part + field_warnings(pipeline.nodes@.take(i as int)),
        decreases n - i,
    {
        proof {
            assert(pipeline.nodes@.take(i + 1).drop_last() == pipeline.nodes@.take(i as int));
            assert(pipeline.nodes@.take(i + 1).last() == pipeline.nodes@[i as int]);
        }
        let node = &pipeline.nodes[i];
        let ghost before = warnings.deep_view();
        match node.node_type {
            NodeType::Source => {
                if node.data.path.is_none() && !crate::text::opt_eq_str(
                    &node.data.source_type,
                    "variable",
                ) {
                    push_quoted(&mut warnings, "Source node '", &node.data.label, "' has no path specified");
                }
            },
            NodeType::Output => {
                if node.data.format.is_none() {
                    push_quoted(&mut warnings, "Output node '", &node.data.label, "' has no format specified");
                }
            },
            _ => {},
        }
        assert(warnings.deep_view() =~= before + field_warning(pipeline.nodes@[i as int]));
        i = i + 1;
    }
    assert(pipeline.nodes@.take(n as int) == pipeline.nodes@);
    let mut has_output = false;
    let mut i: usize = 0;
    while i < n
        invariant
            n == pipeline.nodes.len(),
            i <= n,
            has_output == exists|j: int|
                0 <= j < i && (#[trigger] pipeline.nodes@[j]).node_type == NodeType::Output,
        decreases n - i,
    {
        if pipeline.nodes[i].node_type == NodeType::Output {
            has_output = true;
        }
        i = i + 1;
    }
    if !has_output {
        let ghost before = warnings.deep_view();
        warnings.push(String::from_str("Pipeline has no output nodes"));
        assert(warnings.deep_view() =~= before.push("Pipeline has no output nodes"@));
    }
    Ok(warnings)
}

/// A new, empty pipeline with a fresh random id.
pub fn create_pipeline(name: String) -> (p: Pipeline)
    ensures
        p.name == name,
        p.nodes@.len() == 0,
        p.edges@.len() == 0,
        p.variables matches Some(v) && v@.len() == 0,
{
    Pipeline {
        id: crate::outside::new_uuid_v4(),
        name,
        nodes: Vec::new(),
        edges: Vec::new(),
        variables: Some(Vec::new()),
    }
}

// ---- Execution records ----------------------------------------------------

/// The state of a node or a pipeline run.
#[derive(Clone, Copy, Debug, PartialEq, Eq, Structural)]
pub enum ExecutionStatus {
    Pending,
    Running,
    Completed,
    Failed,
    Skipped,
}

/// The record of one node's execution.
pub struct NodeResult {
    pub node_id: String,
    pub status: ExecutionStatus,
    pub output: Option<NodeOutput>,
    pub error: Option<String>,
    pub duration_ms: u64,
}

/// A file-producing output of a pipeline run.
pub struct PipelineOutput {
    pub node_id: String,
    pub format: String,
    pub path: Option<String>,
    pub content: Option<Vec<u8>>,
}

/// The record of a whole pipeline run.
pub struct PipelineResult {
    pub pipeline_id: String,
    pub status: ExecutionStatus,
    pub node_results: Vec<NodeResult>,
    pub outputs: Vec<PipelineOutput>,
    pub total_duration_ms: u64,
    pub error: Option<String>,
}

/// Progress reported while a pipeline runs.
pub struct PipelineProgress {
    pub pipeline_id: String,
    pub current_node: String,
    pub completed_nodes: usize,
    pub total_nodes: usize,
    pub status: ExecutionStatus,
    pub message: String,
}

/// Records how a node's execution ended: completed with its output, or
/// failed with its error.
pub fn node_result(node_id: &String, outcome: Result<NodeOutput, String>, duration_ms: u64) -> (r: NodeResult)
    ensures
        r.node_id@ == node_id@,
        r.duration_ms == duration_ms,
        match outcome {
            Ok(o) => r.status == ExecutionStatus::Completed && opt_output_view(r.output) == Some(o@)
                && r.error is None,
            Err(e) => r.status == ExecutionStatus::Failed && r.output is None && r.error == Some(e),
        },
{
    match outcome {
        Ok(o) => NodeResult {
            node_id: node_id.clone(),
            status: ExecutionStatus::Completed,
            output: Some(o),
            error: None,
            duration_ms,
        },
        Err(e) => NodeResult {
            node_id: node_id.clone(),
            status: ExecutionStatus::Failed,
            output: None,
            error: Some(e),
            duration_ms,
        },
    }
}

/// The progress report sent before a node runs.
pub fn node_progress(
    pipeline_id: &String,
    node: &PipelineNode,
    completed: usize,
    total: usize,
) -> (r: PipelineProgress)
    ensures
        r.pipeline_id@ == pipeline_id@,
        r.current_node@ == node.id@,
        r.completed_nodes == completed,
        r.total_nodes == total,
        r.status == ExecutionStatus::Running,
        r.message@ == "Executing "@ + node.data.label@,
{
    let mut message = String::from_str("Executing ");
    message.append(node.data.label.as_str());
    PipelineProgress {
        pipeline_id: pipeline_id.clone(),
        current_node: node.id.clone(),
        completed_nodes: completed,
        total_nodes: total,
        status: ExecutionStatus::Running,
        message,
    }
}

/// The progress report sent when every node has run.
pub fn completion_progress(pipeline_id: &String, total: usize) -> (r: PipelineProgress)
    ensures
        r.pipeline_id@ == pipeline_id@,
        r.current_node@ == Seq::<char>::empty(),
        r.completed_nodes == total,
        r.total_nodes == total,
        r.status == ExecutionStatus::Completed,
        r.message@ == "Pipeline completed successfully"@,
{
    PipelineProgress {
        pipeline_id: pipeline_id.clone(),
        current_node: String::new(),
        completed_nodes: total,
        total_nodes: total,
        status: ExecutionStatus::Completed,
        message: String::from_str("Pipeline completed successfully"),
    }
}

/// `po` lists the output `o` of the output node `node`: the node's id, the
/// output's format (empty when it has none) and path, and no content.
pub open spec fn listed_output(po: PipelineOutput, node: PipelineNode, o: NodeOutput) -> bool {
    &&& po.node_id@ == node.id@
    &&& po.format@ == opt_or(o.format, seq![])
    &&& po.path == o.path
    &&& po.content is None
}

/// The pipeline output recorded for a completed output node (none for other
/// node kinds, or a node without output).
pub fn collect_output(node: &PipelineNode, result: &NodeResult) -> (r: Option<PipelineOutput>)
    ensures
        match r {
            Some(po) => node.node_type == NodeType::Output && (result.output matches Some(o)
                && listed_output(po, *node, o)),
            None => !(node.node_type == NodeType::Output && result.output is Some),
        },
{
    if node.node_type == NodeType::Output {
        match &result.output {
            Some(o) => {
                let format = crate::text::opt_or_string(&o.format, "");
                proof {
                    reveal_strlit("");
                }
                let po = PipelineOutput {
                    node_id: node.id.clone(),
                    format,
                    path: crate::text::clone_opt(&o.path),
                    content: None,
                };
                assert(""@ =~= Seq::<char>::empty());
                assert(po.format@ == opt_or(o.format, seq![]));
                assert(listed_output(po, *node, *o));
                Some(po)
            },
            None => None,
        }
    } else {
        None
    }
}

} // verus!

verus! {

// ---- Running a pipeline ---------------------------------------------------

/// A pipeline run in progress: the execution order, how far it has got, and
/// what the nodes run so far produced.
pub struct PipelineRun {
    pub pipeline_id: String,
    pub order: Vec<String>,
    pub position: usize,
    pub node_results: Vec<NodeResult>,
    pub outputs: Vec<PipelineOutput>,
    pub node_outputs: Vec<(String, NodeOutput)>,
}

/// Starts a run: the nodes in an execution order, nothing run yet. Refused
/// when two nodes share an id or the graph has a cycle.
pub fn start_run(pipeline: &Pipeline) -> (r: Result<PipelineRun, String>)
    requires
        edges_resolve(*pipeline),
    ensures
        match r {
            Ok(run) => {
                &&& run.pipeline_id == pipeline.id
                &&& ids_distinct(*pipeline)
                &&& is_execution_order(*pipeline, strings_view(run.order@))
                &&& run.position == 0
                &&& run.node_results@.len() == 0
                &&& run.outputs@.len() == 0
                &&& run.node_outputs@.len() == 0
            },
            Err(e) => e@ == cycle_message() && !(ids_distinct(*pipeline) && acyclic(*pipeline)),
        },
{
    match build_execution_order(pipeline) {
        Ok(order) => Ok(
            PipelineRun {
                pipeline_id: pipeline.id.clone(),
                order,
                position: 0,
                node_results: Vec::new(),
                outputs: Vec::new(),
                node_outputs: Vec::new(),
            },
        ),
        Err(e) => Err(e),
    }
}

/// The result of a run that could not start.
pub fn failed_start(pipeline_id: String, error: String, total_duration_ms: u64) -> (r: PipelineResult)
    ensures
        r.pipeline_id == pipeline_id,
        r.status == ExecutionStatus::Failed,
        r.node_results@.len() == 0,
        r.outputs@.len() == 0,
        r.total_duration_ms == total_duration_ms,
        r.error == Some(error),
{
    PipelineResult {
        pipeline_id,
        status: ExecutionStatus::Failed,
        node_results: Vec::new(),
        outputs: Vec::new(),
        total_duration_ms,
        error: Some(error),
    }
}

/// What a run does next.
pub enum RunStep {
    /// Run the node at this index of the pipeline's nodes, after reporting
    /// this progress.
    Execute { node: usize, progress: PipelineProgress },
    /// Every node has run.
    Finished,
}

/// Some node of the pipeline has the id.
pub open spec fn has_node(p: Pipeline, id: Seq<char>) -> bool {
    node_ids(p).contains(id)
}

fn first_node_with_id(nodes: &Vec<PipelineNode>, id: &String) -> (r: Option<usize>)
    ensures
        match r {
            Some(i) => i < nodes.len() && nodes@[i as int].id@ == id@ && forall|j: int|
                0 <= j < i ==> nodes@[j].id@ != id@,
            None => !nodes@.map_values(|n: PipelineNode| n.id@).contains(id@),
        },
{
    let mut i: usize = 0;
    while i < nodes.len()
        invariant
            i <= nodes.len(),
            forall|j: int| 0 <= j < i ==> nodes@[j].id@ != id@,
        decreases nodes.len() - i,
    {
        if nodes[i].id == *id {
            return Some(i);
        }
        i = i + 1;
    }
    proof {
        let ids = nodes@.map_values(|n: PipelineNode| n.id@);
        if ids.contains(id@) {
            let j = choose|j: int| 0 <= j < ids.len() && ids[j] == id@;
            assert(nodes@[j].id@ == id@);
        }
    }
    None
}

/// Finds the next node to run: the first id of the order, from the current
/// position on, that names a node of the pipeline (ids that name none are
/// passed over). Its progress report counts the ids before it.
pub fn next_step(run: &mut PipelineRun, pipeline: &Pipeline) -> (s: RunStep)
    requires
        old(run).position <= old(run).order.len(),
    ensures
        final(run).pipeline_id == old(run).pipeline_id,
        final(run).order == old(run).order,
        final(run).node_results == old(run).node_results,
        final(run).outputs == old(run).outputs,
        final(run).node_outputs == old(run).node_outputs,
        old(run).position <= final(run).position <= final(run).order.len(),
        forall|k: int|
            old(run).position <= k < final(run).position ==> !has_node(
                *pipeline,
                (#[trigger] final(run).order@[k])@,
            ),
        match s {
            RunStep::Execute { node, progress } => {
                &&& final(run).position < final(run).order.len()
                &&& node < pipeline.nodes.len()
                &&& pipeline.nodes@[node as int].id@ == final(run).order@[final(run).position as int]@
                &&& forall|j: int|
                    0 <= j < node ==> pipeline.nodes@[j].id@ != final(run).order@[final(run).position as int]@
                &&& progress.pipeline_id@ == final(run).pipeline_id@
                &&& progress.current_node@ == pipeline.nodes@[node as int].id@
                &&& progress.completed_nodes == final(run).position
                &&& progress.total_nodes == final(run).order.len()
                &&& progress.status == ExecutionStatus::Running
                &&& progress.message@ == "Executing "@ + pipeline.nodes@[node as int].data.label@
            },
            RunStep::Finished => final(run).position == final(run).order.len(),
        },
{
    while run.position < run.order.len()
        invariant
            run.pipeline_id == old(run).pipeline_id,
            run.order == old(run).order,
            run.node_results == old(run).node_results,
            run.outputs == old(run).outputs,
            run.node_outputs == old(run).node_outputs,
            old(run).position <= run.position <= run.order.len(),
            forall|k: int|
                old(run).position <= k < run.position ==> !has_node(
                    *pipeline,
                    (#[trigger] run.order@[k])@,
                ),
        decreases run.order.len() - run.position,
    {
        let found = first_node_with_id(&pipeline.nodes, &run.order[run.position]);
        match found {
            Some(i) => {
                let progress = node_progress(
                    &run.pipeline_id,
                    &pipeline.nodes[i],
                    run.position,
                    run.order.len(),
                );
                return RunStep::Execute { node: i, progress };
            },
            None => {
                run.position = run.position + 1;
            },
        }
    }
    RunStep::Finished
}

/// The recorded outputs, by node id, as mathematical values.
pub open spec fn recorded_view(v: Seq<(String, NodeOutput)>) -> Seq<(Seq<char>, NodeOutputView)> {
    v.map_values(|p: (String, NodeOutput)| (p.0@, p.1@))
}

/// Records how the node at the current position ended. A failure ends the
/// run with the failed result; otherwise the node's output is kept for the
/// nodes after it, an output node's file is listed, and the run moves on.
pub fn record_result(run: PipelineRun, node: &PipelineNode, result: NodeResult, total_duration_ms: u64) -> (r: Result<PipelineRun, PipelineResult>)
    requires
        run.position < run.order.len(),
    ensures
        match r {
            Err(fin) => {
                &&& result.status == ExecutionStatus::Failed
                &&& fin.pipeline_id == run.pipeline_id
                &&& fin.status == ExecutionStatus::Failed
                &&& fin.node_results@ == run.node_results@.push(result)
                &&& fin.outputs == run.outputs
                &&& fin.total_duration_ms == total_duration_ms
                &&& fin.error == result.error
            },
            Ok(next) => {
                &&& result.status != ExecutionStatus::Failed
                &&& next.pipeline_id == run.pipeline_id
                &&& next.order == run.order
                &&& next.position == run.position + 1
                &&& next.node_results@ == run.node_results@.push(result)
                &&& recorded_view(next.node_outputs@) == match result.output {
                    Some(o) => recorded_view(run.node_outputs@).push((node.id@, o@)),
                    None => recorded_view(run.node_outputs@),
                }
                &&& if node.node_type == NodeType::Output && result.output is Some {
                    &&& next.outputs@.len() == run.outputs@.len() + 1
                    &&& next.outputs@.take(run.outputs@.len() as int) == run.outputs@
                    &&& listed_output(next.outputs@.last(), *node, result.output->0)
                } else {
                    next.outputs@ == run.outputs@
                }
            },
        },
{
    let mut run = run;
    if result.status == ExecutionStatus::Failed {
        let error = crate::text::clone_opt(&result.error);
        let mut node_results = run.node_results;
        node_results.push(result);
        return Err(
            PipelineResult {
                pipeline_id: run.pipeline_id,
                status: ExecutionStatus::Failed,
                node_results,
                outputs: run.outputs,
                total_duration_ms,
                error,
            },
        );
    }
    let ghost old_outputs = run.outputs@;
    match collect_output(node, &result) {
        Some(po) => {
            run.outputs.push(po);
        },
        None => {},
    }
    assert(run.outputs@.take(old_outputs.len() as int) == old_outputs);
    let ghost old_recorded = recorded_view(run.node_outputs@);
    match &result.output {
        Some(o) => {
            let entry = (node.id.clone(), copy_output(o));
            run.node_outputs.push(entry);
            assert(recorded_view(run.node_outputs@) =~= old_recorded.push((node.id@, o@)));
        },
        None => {},
    }
    run.node_results.push(result);
    run.position = run.position + 1;
    Ok(run)
}

/// The result of a run in which every node completed.
pub fn finish_run(run: PipelineRun, total_duration_ms: u64) -> (r: PipelineResult)
    ensures
        r.pipeline_id == run.pipeline_id,
        r.status == ExecutionStatus::Completed,
        r.node_results == run.node_results,
        r.outputs == run.outputs,
        r.total_duration_ms == total_duration_ms,
        r.error is None,
{
    PipelineResult {
        pipeline_id: run.pipeline_id,
        status: ExecutionStatus::Completed,
        node_results: run.node_results,
        outputs: run.outputs,
        total_duration_ms,
        error: None,
    }
}

} // verus!

verus! {

// ---- Finishing source and output nodes ------------------------------------

/// What reading a source node's file or folder gave.
pub enum SourceRead {
    /// The file was read: its resolved path, text and extension.
    File { path: String, content: String, extension: Option<String> },
    /// The file could not be read.
    FileFailed { error: String },
    /// The folder was listed: its resolved path and the paths of its files.
    Folder { path: String, files: Vec<String> },
    /// The folder could not be opened.
    FolderFailed { error: String },
    /// An entry of the folder could not be read.
    EntryFailed { error: String },
}

/// The output of a source node given what was read.
pub fn source_output(read: SourceRead) -> (r: Result<NodeOutput, String>)
    ensures
        match read {
            SourceRead::File { path, content, extension } => result_view(r) == Ok::<
                NodeOutputView,
                Seq<char>,
            >(
                NodeOutputView {
                    content: Some(content@),
                    path: Some(path@),
                    format: extension.deep_view(),
                    metadata: None,
                },
            ),
            SourceRead::FileFailed { error } => result_view(r) == Err::<NodeOutputView, Seq<char>>(
                "Failed to read file: "@ + error@,
            ),
            SourceRead::Folder { path, files } => result_view(r) == Ok::<
                NodeOutputView,
                Seq<char>,
            >(
                NodeOutputView {
                    content: None,
                    path: Some(path@),
                    format: Some("folder"@),
                    metadata: Some(MetadataView::Files(files.deep_view())),
                },
            ),
            SourceRead::FolderFailed { error } => result_view(r) == Err::<
                NodeOutputView,
                Seq<char>,
            >("Failed to read directory: "@ + error@),
            SourceRead::EntryFailed { error } => result_view(r) == Err::<NodeOutputView, Seq<char>>(
                error@,
            ),
        },
{
    match read {
        SourceRead::File { path, content, extension } => Ok(
            NodeOutput { content: Some(content), path: Some(path), format: extension, metadata: None },
        ),
        SourceRead::FileFailed { error } => {
            let mut m = String::from_str("Failed to read file: ");
            m.append(error.as_str());
            Err(m)
        },
        SourceRead::Folder { path, files } => Ok(
            NodeOutput {
                content: None,
                path: Some(path),
                format: Some(String::from_str("folder")),
                metadata: Some(NodeMetadata::Files(files)),
            },
        ),
        SourceRead::FolderFailed { error } => {
            let mut m = String::from_str("Failed to read directory: ");
            m.append(error.as_str());
            Err(m)
        },
        SourceRead::EntryFailed { error } => Err(error),
    }
}

/// What to do with a compiled PDF.
pub enum PdfStep {
    /// No PDF was produced.
    Fail(String),
    /// Write the PDF to this (unresolved) path.
    Write { path: String, data: Vec<u8> },
    /// Keep the PDF in the output.
    Inline { data: Vec<u8> },
}

/// Decides what happens to the PDF an output node compiled: an error when
/// there is none, written when the node has an output path, kept otherwise.
pub fn pdf_step(pdf_data: Option<Vec<u8>>, output_path: Option<String>) -> (s: PdfStep)
    ensures
        match pdf_data {
            None => s matches PdfStep::Fail(m) && m@ == "No PDF data generated"@,
            Some(d) => match output_path {
                Some(p) => s matches PdfStep::Write { path, data } && path == p && data == d,
                None => s matches PdfStep::Inline { data } && data == d,
            },
        },
{
    match pdf_data {
        None => PdfStep::Fail(String::from_str("No PDF data generated")),
        Some(d) => match output_path {
            Some(p) => PdfStep::Write { path: p, data: d },
            None => PdfStep::Inline { data: d },
        },
    }
}

/// The output of a PDF node once its file was written to `path` (or
/// failed to be).
pub fn pdf_written(path: String, size_bytes: usize, compile_time_ms: u64, write_error: Option<String>) -> (r: Result<NodeOutput, String>)
    ensures
        match write_error {
            Some(e) => result_view(r) == Err::<NodeOutputView, Seq<char>>(
                "Failed to write PDF: "@ + e@,
            ),
            None => result_view(r) == Ok::<NodeOutputView, Seq<char>>(
                NodeOutputView {
                    content: None,
                    path: Some(path@),
                    format: Some("pdf"@),
                    metadata: Some(MetadataView::PdfFile { size_bytes, compile_time_ms }),
                },
            ),
        },
{
    match write_error {
        Some(e) => {
            let mut m = String::from_str("Failed to write PDF: ");
            m.append(e.as_str());
            Err(m)
        },
        None => Ok(
            NodeOutput {
                content: None,
                path: Some(path),
                format: Some(String::from_str("pdf")),
                metadata: Some(NodeMetadata::PdfFile { size_bytes, compile_time_ms }),
            },
        ),
    }
}

/// The output of a PDF node that keeps its PDF, base64-encoded.
pub fn pdf_inline(data: &Vec<u8>, compile_time_ms: u64) -> (r: NodeOutput)
    requires
        data@.len() <= usize::MAX / 2,
    ensures
        r@ == (NodeOutputView {
            content: None,
            path: None,
            format: Some("pdf"@),
            metadata: Some(
                MetadataView::PdfInline {
                    size_bytes: data.len(),
                    compile_time_ms,
                    pdf_base64: crate::outside::base64_standard(data@),
                },
            ),
        }),
{
    let encoded = crate::outside::base64_encode(data.as_slice());
    NodeOutput {
        content: None,
        path: None,
        format: Some(String::from_str("pdf")),
        metadata: Some(
            NodeMetadata::PdfInline { size_bytes: data.len(), compile_time_ms, pdf_base64: encoded },
        ),
    }
}

/// How a written text output is named in a failure message.
pub open spec fn written_label(format: Seq<char>) -> Seq<char> {
    if format == "html"@ {
        "HTML"@
    } else if format == "markdown"@ {
        "Markdown"@
    } else {
        "output"@
    }
}

/// The output of a text output node: its text, and, when it was saved, the
/// resolved path it was written to or the failure to write it.
pub fn text_output(content: String, format: String, saved: Option<(String, Option<String>)>) -> (r: Result<NodeOutput, String>)
    ensures
        match saved {
            None => result_view(r) == Ok::<NodeOutputView, Seq<char>>(
                NodeOutputView {
                    content: Some(content@),
                    path: None,
                    format: Some(format@),
                    metadata: None,
                },
            ),
            Some((path, None)) => result_view(r) == Ok::<NodeOutputView, Seq<char>>(
                NodeOutputView {
                    content: Some(content@),
                    path: Some(path@),
                    format: Some(format@),
                    metadata: None,
                },
            ),
            Some((_, Some(e))) => result_view(r) == Err::<NodeOutputView, Seq<char>>(
                "Failed to write "@ + written_label(format@) + ": "@ + e@,
            ),
        },
{
    match saved {
        None => Ok(NodeOutput { content: Some(content), path: None, format: Some(format), metadata: None }),
        Some((path, None)) => Ok(
            NodeOutput { content: Some(content), path: Some(path), format: Some(format), metadata: None },
        ),
        Some((_, Some(e))) => {
            let label = if crate::text::eq_str(format.as_str(), "html") {
                "HTML"
            } else if crate::text::eq_str(format.as_str(), "markdown") {
                "Markdown"
            } else {
                "output"
            };
            let mut m = String::from_str("Failed to write ");
            m.append(label);
            m.append(": ");
            m.append(e.as_str());
            Err(m)
        },
    }
}

} // verus!

verus! {

/// Law: a condition (trimmed and lower-cased) that reads `true` holds and
/// one that reads `false` does not; any other condition without a `==`
/// comparison holds unless it asks `has_content` of an input that has no
/// content.
pub proof fn lemma_condition_outcomes(
    condition: Seq<char>,
    input: Option<NodeOutputView>,
    vars: Seq<(String, VariableValue)>,
)
    ensures
        ({
            let c = spec_lowercase(trim(condition));
            let holds = condition_holds(condition, input, vars);
            &&& c == "true"@ ==> holds
            &&& c == "false"@ ==> !holds
            &&& c != "true"@ && c != "false"@ && !contains_seq(c, "=="@) ==> (holds <==> (
            !contains_seq(c, "has_content"@) || (input matches Some(i) && i.content is Some)))
        }),
{
    reveal_strlit("true");
    reveal_strlit("false");
    assert("false"@[0] != "true"@[0]);
}

} // verus!

verus! {

proof fn lemma_replace_whole(p: Seq<char>, c: Seq<char>)
    requires
        p.len() > 0,
    ensures
        replace_all(p, p, c) == c,
{
    assert(p.subrange(0, p.len() as int) =~= p);
    assert(p.skip(p.len() as int) =~= Seq::<char>::empty());
    assert(replace_all(Seq::<char>::empty(), p, c) == Seq::<char>::empty());
    assert(crate::text::starts_with(p, p));
    assert(c + Seq::<char>::empty() =~= c);
}

/// Law: a transform fails exactly when it has no input, with the no-input
/// message; otherwise its output keeps the first input's format. An
/// operation other than merge, inject, filter, template and split passes
/// the first input through unchanged; every operation but merge keeps its
/// path; with no variables, inject keeps its content; and a template node
/// without a template yields its content.
pub proof fn lemma_transform_outcomes(
    d: NodeData,
    inputs: Seq<NodeOutputView>,
    vars: Seq<(String, VariableValue)>,
)
    ensures
        ({
            let r = transform_result(d, inputs, vars);
            let op = opt_or(d.operation, "passthrough"@);
            &&& inputs.len() == 0 ==> r == Err::<NodeOutputView, Seq<char>>(
                "Transform node has no inputs"@,
            )
            &&& inputs.len() > 0 ==> (r matches Ok(o) && o.format == inputs[0].format)
            &&& inputs.len() > 0 && op != "merge"@ ==> (r matches Ok(o) && o.path == inputs[0].path)
            &&& inputs.len() > 0 && op != "merge"@ && op != "inject"@ && op != "filter"@ && op
                != "template"@ && op != "split"@ ==> r == Ok::<NodeOutputView, Seq<char>>(inputs[0])
            &&& inputs.len() > 0 && op == "inject"@ && vars.len() == 0 ==> (r matches Ok(o)
                && o.content == Some(text_or_empty(inputs[0].content)))
            &&& inputs.len() > 0 && op == "template"@ && param_or(d, "template"@, "{{content}}"@)
                == "{{content}}"@ ==> (r matches Ok(o) && o.content == Some(
                text_or_empty(inputs[0].content),
            ))
        }),
{
    reveal_strlit("{{content}}");
    reveal_strlit("merge");
    reveal_strlit("inject");
    reveal_strlit("filter");
    reveal_strlit("template");
    assert("inject"@[0] != "merge"@[0]);
    assert("template"@[0] != "merge"@[0] && "template"@[0] != "inject"@[0] && "template"@[0]
        != "filter"@[0]);
    lemma_replace_whole("{{content}}"@, text_or_empty(if inputs.len() > 0 {
        inputs[0].content
    } else {
        None
    }));
}

} // verus!
