//! Data shown beside the chat: the agent list, ordered busiest first, and
//! the conversation graph, capped in edges.
use vstd::prelude::*;

use vstd::multiset::Multiset;

verus! {

broadcast use vstd::seq_lib::group_to_multiset_ensures;

/// One agent as the agent list shows it.
#[derive(Debug, PartialEq)]
pub struct AgentRow {
    pub name: String,
    pub active_runs: u64,
    /// When the agent was last seen, in milliseconds since the Unix epoch.
    pub last_seen_ms: Option<u64>,
    /// How many conversations it took part in recently.
    pub recent_conversations: usize,
}

pub ghost struct AgentView {
    pub name: Seq<char>,
    pub active_runs: u64,
    pub last_seen_ms: Option<u64>,
    pub recent_conversations: usize,
}

impl View for AgentRow {
    type V = AgentView;

    open spec fn view(&self) -> AgentView {
        AgentView {
            name: self.name@,
            active_runs: self.active_runs,
            last_seen_ms: self.last_seen_ms,
            recent_conversations: self.recent_conversations,
        }
    }
}

pub open spec fn agent_views(rows: Seq<AgentRow>) -> Seq<AgentView> {
    rows.map_values(|r: AgentRow| r@)
}

/// Lexicographic order of names by code point, as `String`'s order is.
pub open spec fn name_le(a: Seq<char>, b: Seq<char>) -> bool
    decreases a.len(),
{
    if a.len() == 0 {
        true
    } else if b.len() == 0 {
        false
    } else if (a[0] as u32) != (b[0] as u32) {
        (a[0] as u32) < (b[0] as u32)
    } else {
        name_le(a.drop_first(), b.drop_first())
    }
}

/// Whether row `a` may stand before row `b`: more active runs first, then
/// by name.
pub open spec fn row_before(a: AgentView, b: AgentView) -> bool {
    a.active_runs > b.active_runs || (a.active_runs == b.active_runs && name_le(a.name, b.name))
}

/// Each row may stand before the next.
pub open spec fn rows_ordered(rows: Seq<AgentView>) -> bool {
    forall|i: int| 0 <= i < rows.len() - 1 ==> row_before(#[trigger] rows[i], rows[i + 1])
}

/// Whether a row has the given name and run count.
pub open spec fn tie_pred(name: Seq<char>, runs: u64) -> spec_fn(AgentView) -> bool {
    |v: AgentView| v.name == name && v.active_runs == runs
}

/// The rows with the given name and run count, in order.
pub open spec fn ties(rows: Seq<AgentView>, name: Seq<char>, runs: u64) -> Seq<AgentView> {
    rows.filter(tie_pred(name, runs))
}

proof fn lemma_ties_concat(a: Seq<AgentView>, b: Seq<AgentView>, name: Seq<char>, runs: u64)
    ensures
        ties(a + b, name, runs) == ties(a, name, runs) + ties(b, name, runs),
{
    Seq::filter_distributes_over_add(a, b, tie_pred(name, runs));
}

proof fn lemma_ties_none(s: Seq<AgentView>, name: Seq<char>, runs: u64)
    requires
        forall|i: int| 0 <= i < s.len() ==> !(#[trigger] s[i].name == name && s[i].active_runs == runs),
    ensures
        ties(s, name, runs) == Seq::<AgentView>::empty(),
    decreases s.len(),
{
    reveal(Seq::filter);
    if s.len() > 0 {
        let t = s.drop_last();
        assert forall|i: int| 0 <= i < t.len() implies !(#[trigger] t[i].name == name && t[i].active_runs == runs) by {
            assert(t[i] == s[i]);
        }
        lemma_ties_none(t, name, runs);
        assert(s.last() == s[s.len() - 1]);
    }
}

proof fn lemma_ties_one(x: AgentView, name: Seq<char>, runs: u64)
    ensures
        ties(seq![x], name, runs) == if x.name == name && x.active_runs == runs {
            seq![x]
        } else {
            Seq::<AgentView>::empty()
        },
{
    reveal(Seq::filter);
    assert(seq![x].drop_last() =~= Seq::<AgentView>::empty());
    assert(Seq::<AgentView>::empty().filter(tie_pred(name, runs)) == Seq::<AgentView>::empty());
    assert(Seq::<AgentView>::empty().push(x) =~= seq![x]);
}

proof fn lemma_name_le_refl(a: Seq<char>)
    ensures
        name_le(a, a),
    decreases a.len(),
{
    if a.len() > 0 {
        lemma_name_le_refl(a.drop_first());
    }
}

proof fn lemma_name_le_total(a: Seq<char>, b: Seq<char>)
    ensures
        name_le(a, b) || name_le(b, a),
    decreases a.len(),
{
    if a.len() > 0 && b.len() > 0 && (a[0] as u32) == (b[0] as u32) {
        lemma_name_le_total(a.drop_first(), b.drop_first());
    }
}

fn name_le_exec(a: &str, b: &str) -> (r: bool)
    ensures
        r == name_le(a@, b@),
{
    let na = a.unicode_len();
    let nb = b.unicode_len();
    let mut i: usize = 0;
    assert(a@.skip(0) =~= a@);
    assert(b@.skip(0) =~= b@);
    while i < na && i < nb
        invariant
            na == a@.len(),
            nb == b@.len(),
            i <= na,
            i <= nb,
            name_le(a@, b@) == name_le(a@.skip(i as int), b@.skip(i as int)),
        decreases na - i,
    {
        let ca = a.get_char(i) as u32;
        let cb = b.get_char(i) as u32;
        assert(a@.skip(i as int)[0] as u32 == ca);
        assert(b@.skip(i as int)[0] as u32 == cb);
        if ca != cb {
            return ca < cb;
        }
        assert(a@.skip(i as int).drop_first() =~= a@.skip(i + 1));
        assert(b@.skip(i as int).drop_first() =~= b@.skip(i + 1));
        i = i + 1;
    }
    i == na
}

fn row_before_exec(a: &AgentRow, b: &AgentRow) -> (r: bool)
    ensures
        r == row_before(a@, b@),
{
    a.active_runs > b.active_runs || (a.active_runs == b.active_runs && name_le_exec(
        a.name.as_str(),
        b.name.as_str(),
    ))
}

impl AgentRow {
    /// A row from what the agent list reports: a last-seen time that is not
    /// positive counts as never seen.
    pub fn new(name: String, last_seen_ms: Option<i64>, active_runs: u64, recent_conversations: usize) -> (r: AgentRow)
        ensures
            r@ == (AgentView {
                name: name@,
                active_runs,
                last_seen_ms: match last_seen_ms {
                    Some(ms) => if ms > 0 {
                        Some(ms as u64)
                    } else {
                        None
                    },
                    None => None,
                },
                recent_conversations,
            }),
    {
        let last_seen_ms = match last_seen_ms {
            Some(ms) => if ms > 0 {
                Some(ms as u64)
            } else {
                None
            },
            None => None,
        };
        AgentRow { name, active_runs, last_seen_ms, recent_conversations }
    }
}

/// The rows ordered busiest first, then by name. The result holds the same
/// rows, and rows with the same name and run count keep their order.
pub fn sort_agents(rows: Vec<AgentRow>) -> (r: Vec<AgentRow>)
    ensures
        rows_ordered(agent_views(r@)),
        agent_views(r@).to_multiset() == agent_views(rows@).to_multiset(),
        forall|name: Seq<char>, runs: u64|
            #[trigger] ties(agent_views(r@), name, runs) == ties(agent_views(rows@), name, runs),
{
    let mut rows = rows;
    let ghost all = agent_views(rows@).to_multiset();
    let ghost orig = agent_views(rows@);
    let mut out: Vec<AgentRow> = Vec::new();
    assert(agent_views(out@).to_multiset() =~= Multiset::<AgentView>::empty());
    assert forall|name: Seq<char>, runs: u64|
        #[trigger] ties(orig, name, runs) == ties(agent_views(out@), name, runs) + ties(
            agent_views(rows@),
            name,
            runs,
        ) by {
        assert(agent_views(out@) =~= Seq::<AgentView>::empty());
        lemma_ties_none(agent_views(out@), name, runs);
        assert(Seq::<AgentView>::empty() + ties(agent_views(rows@), name, runs) =~= ties(
            agent_views(rows@),
            name,
            runs,
        ));
    }
    while rows.len() > 0
        invariant
            rows_ordered(agent_views(out@)),
            agent_views(out@).to_multiset().add(agent_views(rows@).to_multiset()) == all,
            forall|name: Seq<char>, runs: u64|
                #[trigger] ties(orig, name, runs) == ties(agent_views(out@), name, runs) + ties(
                    agent_views(rows@),
                    name,
                    runs,
                ),
        decreases rows.len(),
    {
        let ghost before_rows = rows@;
        let item = rows.remove(0);
        proof {
            assert(agent_views(rows@) =~= agent_views(before_rows).remove(0));
            vstd::seq_lib::to_multiset_remove(agent_views(before_rows), 0);
        }
        let n = out.len();
        let mut p: usize = n;
        while p > 0 && !row_before_exec(&out[p - 1], &item)
            invariant
                n == out@.len(),
                p <= n,
                forall|k: int| p <= k < n ==> !row_before((#[trigger] out@[k])@, item@),
            decreases p,
        {
            p = p - 1;
        }
        proof {
            if p < n {
                lemma_name_le_total(out@[p as int]@.name, item@.name);
            }
        }
        let ghost before_out = out@;
        out.insert(p, item);
        proof {
            let v = agent_views(before_out);
            assert(agent_views(out@) =~= v.insert(p as int, item@));
            vstd::seq_lib::to_multiset_insert(v, p as int, item@);
            let w = agent_views(out@);
            assert forall|i: int| 0 <= i < w.len() - 1 implies row_before(#[trigger] w[i], w[i + 1]) by {
                if i + 1 < p {
                    assert(w[i] == v[i] && w[i + 1] == v[i + 1]);
                } else if i + 1 == p {
                    assert(w[i] == v[i]);
                } else if i == p {
                } else {
                    assert(w[i] == v[i - 1] && w[i + 1] == v[i]);
                }
            }
            let rest = agent_views(rows@);
            let pre = agent_views(before_rows);
            assert(pre =~= seq![item@] + rest);
            assert(w =~= v.take(p as int) + seq![item@] + v.skip(p as int));
            assert(v =~= v.take(p as int) + v.skip(p as int));
            lemma_name_le_refl(item@.name);
            assert forall|name: Seq<char>, runs: u64|
                #[trigger] ties(orig, name, runs) == ties(w, name, runs) + ties(rest, name, runs) by {
                lemma_ties_concat(seq![item@], rest, name, runs);
                lemma_ties_concat(v.take(p as int), v.skip(p as int), name, runs);
                lemma_ties_concat(v.take(p as int) + seq![item@], v.skip(p as int), name, runs);
                lemma_ties_concat(v.take(p as int), seq![item@], name, runs);
                lemma_ties_one(item@, name, runs);
                let a = ties(v.take(p as int), name, runs);
                let b = ties(v.skip(p as int), name, runs);
                let c = ties(rest, name, runs);
                if item@.name == name && item@.active_runs == runs {
                    assert forall|i: int| 0 <= i < v.skip(p as int).len() implies !(
                    #[trigger] v.skip(p as int)[i].name == name && v.skip(p as int)[i].active_runs
                        == runs) by {
                        assert(v.skip(p as int)[i] == before_out[p + i]@);
                    }
                    lemma_ties_none(v.skip(p as int), name, runs);
                    assert(a + b + (seq![item@] + c) =~= a + seq![item@] + b + c);
                } else {
                    assert(a + b + (Seq::<AgentView>::empty() + c) =~= a + Seq::<AgentView>::empty() + b + c);
                }
            }
            assert(agent_views(out@).to_multiset().add(agent_views(rows@).to_multiset()) =~= all);
        }
    }
    assert(agent_views(rows@).to_multiset() =~= Multiset::<AgentView>::empty());
    assert forall|name: Seq<char>, runs: u64|
        #[trigger] ties(agent_views(out@), name, runs) == ties(orig, name, runs) by {
        assert(agent_views(rows@) =~= Seq::<AgentView>::empty());
        lemma_ties_none(agent_views(rows@), name, runs);
        assert(ties(agent_views(out@), name, runs) + Seq::<AgentView>::empty() =~= ties(
            agent_views(out@),
            name,
            runs,
        ));
    }
    assert(agent_views(out@).to_multiset().add(Multiset::<AgentView>::empty()) =~= agent_views(out@).to_multiset());
    out
}

/// Most edges the graph panel shows.
pub const GRAPH_EDGE_LIMIT: usize = 120;

#[derive(Debug, PartialEq)]
pub struct GraphNode {
    pub id: String,
    pub kind: String,
}

#[derive(Debug, PartialEq)]
pub struct GraphEdge {
    pub from: String,
    pub to: String,
    pub count: i64,
}

/// A conversation graph as the graph panel shows it.
#[derive(Debug)]
pub struct GraphData {
    pub nodes: Vec<GraphNode>,
    pub edges: Vec<GraphEdge>,
    /// How many edges were left out past the limit.
    pub omitted_edges: usize,
}

/// The graph with its first `GRAPH_EDGE_LIMIT` edges kept, in order, and a
/// count of the rest.
pub fn graph_data(nodes: Vec<GraphNode>, edges: Vec<GraphEdge>) -> (r: GraphData)
    ensures
        r.nodes@ == nodes@,
        edges@.len() <= GRAPH_EDGE_LIMIT ==> r.edges@ == edges@ && r.omitted_edges == 0,
        edges@.len() > GRAPH_EDGE_LIMIT ==> r.edges@ == edges@.take(GRAPH_EDGE_LIMIT as int)
            && r.omitted_edges == edges@.len() - GRAPH_EDGE_LIMIT,
{
    let mut edges = edges;
    let n = edges.len();
    let omitted_edges = if n > GRAPH_EDGE_LIMIT {
        n - GRAPH_EDGE_LIMIT
    } else {
        0
    };
    edges.truncate(GRAPH_EDGE_LIMIT);
    GraphData { nodes, edges, omitted_edges }
}

} // verus!
