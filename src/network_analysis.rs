//! The transaction graph and the network detectors over it: circular flow,
//! structuring, funnel and distributor accounts, pass-through accounts.
//!
//! Accounts are nodes, numbered in order of first appearance; an edge
//! aggregates every transfer of one ordered pair of accounts. Amounts are
//! in cents, timestamps in milliseconds since the Unix epoch.

use crate::bindings::now_millis;
use crate::validator::MS_PER_HOUR;
use vstd::prelude::*;

verus! {

/// Kinds of suspicious pattern.
#[derive(Debug, Clone, Copy, PartialEq, Eq, Structural)]
pub enum SuspiciousPattern {
    CircularFlow,
    Layering,
    Structuring,
    FunnelAccount,
    Aggregator,
    Distributor,
    ThresholdAvoidance,
    PassThrough,
}

/// An account of the graph. Neighbours are node numbers, each listed once.
#[derive(Debug)]
pub struct TransactionNode {
    pub account_id: String,
    pub total_inflow: i64,
    pub total_outflow: i64,
    pub transaction_count: usize,
    pub first_seen: i64,
    pub last_seen: i64,
    pub incoming_accounts: Vec<usize>,
    pub outgoing_accounts: Vec<usize>,
}

/// The transfers of one ordered pair of accounts.
#[derive(Debug)]
pub struct TransactionEdge {
    pub from_account: usize,
    pub to_account: usize,
    pub total_amount: i64,
    pub transaction_count: usize,
    pub timestamps: Vec<i64>,
}

/// What a node holds, as mathematical values.
pub ghost struct NodeView {
    pub account: Seq<char>,
    pub inflow: int,
    pub outflow: int,
    pub count: int,
    pub first_seen: int,
    pub last_seen: int,
    pub incoming: Seq<usize>,
    pub outgoing: Seq<usize>,
}

/// What an edge holds, as mathematical values.
pub ghost struct EdgeView {
    pub from: usize,
    pub to: usize,
    pub total: int,
    pub count: int,
    pub timestamps: Seq<i64>,
}

impl View for TransactionNode {
    type V = NodeView;

    open spec fn view(&self) -> NodeView {
        NodeView {
            account: self.account_id@,
            inflow: self.total_inflow as int,
            outflow: self.total_outflow as int,
            count: self.transaction_count as int,
            first_seen: self.first_seen as int,
            last_seen: self.last_seen as int,
            incoming: self.incoming_accounts@,
            outgoing: self.outgoing_accounts@,
        }
    }
}

impl View for TransactionEdge {
    type V = EdgeView;

    open spec fn view(&self) -> EdgeView {
        EdgeView {
            from: self.from_account,
            to: self.to_account,
            total: self.total_amount as int,
            count: self.transaction_count as int,
            timestamps: self.timestamps@,
        }
    }
}

pub open spec fn fits_i64(x: int) -> bool {
    i64::MIN <= x <= i64::MAX
}

pub open spec fn has_account(ns: Seq<NodeView>, account: Seq<char>) -> bool {
    exists|i: int| 0 <= i < ns.len() && ns[i].account == account
}

/// The number of the node of `account` (meaningful when it has one).
pub open spec fn index_of(ns: Seq<NodeView>, account: Seq<char>) -> int {
    choose|i: int| 0 <= i < ns.len() && ns[i].account == account
}

pub open spec fn fresh_node(account: Seq<char>, ts: i64) -> NodeView {
    NodeView {
        account,
        inflow: 0,
        outflow: 0,
        count: 0,
        first_seen: ts as int,
        last_seen: ts as int,
        incoming: Seq::empty(),
        outgoing: Seq::empty(),
    }
}

/// The nodes with one for `account`, appended when it is new.
pub open spec fn ensure_node(ns: Seq<NodeView>, account: Seq<char>, ts: i64) -> Seq<NodeView> {
    if has_account(ns, account) {
        ns
    } else {
        ns.push(fresh_node(account, ts))
    }
}

/// `s` with `x` appended unless it is there.
pub open spec fn insert_unique(s: Seq<usize>, x: usize) -> Seq<usize> {
    if s.contains(x) {
        s
    } else {
        s.push(x)
    }
}

pub open spec fn debited(n: NodeView, amount: i64, ts: i64, to: usize) -> NodeView {
    NodeView {
        outflow: n.outflow + amount,
        count: n.count + 1,
        last_seen: ts as int,
        outgoing: insert_unique(n.outgoing, to),
        ..n
    }
}

pub open spec fn credited(n: NodeView, amount: i64, ts: i64, from: usize) -> NodeView {
    NodeView {
        inflow: n.inflow + amount,
        count: n.count + 1,
        last_seen: ts as int,
        incoming: insert_unique(n.incoming, from),
        ..n
    }
}

/// Nodes once both accounts exist (source first).
pub open spec fn nodes_with(ns: Seq<NodeView>, from: Seq<char>, to: Seq<char>, ts: i64) -> Seq<NodeView> {
    ensure_node(ensure_node(ns, from, ts), to, ts)
}

/// The nodes after a transfer: the source debited, then the destination
/// credited (one node, both ways, for a transfer to itself).
pub open spec fn nodes_after(
    ns: Seq<NodeView>,
    from: Seq<char>,
    to: Seq<char>,
    amount: i64,
    ts: i64,
) -> Seq<NodeView> {
    let ns2 = nodes_with(ns, from, to, ts);
    let fi = index_of(ns2, from);
    let ti = index_of(ns2, to);
    let ns3 = ns2.update(fi, debited(ns2[fi], amount, ts, ti as usize));
    ns3.update(ti, credited(ns3[ti], amount, ts, fi as usize))
}

pub open spec fn has_edge(es: Seq<EdgeView>, u: usize, v: usize) -> bool {
    exists|k: int| 0 <= k < es.len() && es[k].from == u && es[k].to == v
}

pub open spec fn edge_index(es: Seq<EdgeView>, u: usize, v: usize) -> int {
    choose|k: int| 0 <= k < es.len() && es[k].from == u && es[k].to == v
}

/// The edges after a transfer from node `u` to node `v`.
pub open spec fn edges_after(es: Seq<EdgeView>, u: usize, v: usize, amount: i64, ts: i64) -> Seq<
    EdgeView,
> {
    if has_edge(es, u, v) {
        let k = edge_index(es, u, v);
        es.update(
            k,
            EdgeView {
                total: es[k].total + amount,
                count: es[k].count + 1,
                timestamps: es[k].timestamps.push(ts),
                ..es[k]
            },
        )
    } else {
        es.push(EdgeView { from: u, to: v, total: amount as int, count: 1, timestamps: seq![ts] })
    }
}

/// Node lists hold valid node numbers, each once.
pub open spec fn neighbours_wf(s: Seq<usize>, n: int) -> bool {
    &&& forall|j: int| 0 <= j < s.len() ==> (#[trigger] s[j]) < n
    &&& forall|i: int, j: int| 0 <= i < j < s.len() ==> s[i] != s[j]
}

#[verifier::opaque]
pub open spec fn graph_wf(ns: Seq<NodeView>, es: Seq<EdgeView>) -> bool {
    graph_shape(ns, es) && links_agree(ns, es)
}

/// Accounts are unique, neighbour lists and edges name valid nodes, each
/// neighbour once, each ordered pair one edge with at least one transfer.
pub open spec fn graph_shape(ns: Seq<NodeView>, es: Seq<EdgeView>) -> bool {
    &&& ns.len() <= usize::MAX
    &&& forall|i: int, j: int| 0 <= i < j < ns.len() ==> ns[i].account != ns[j].account
    &&& forall|i: int|
        0 <= i < ns.len() ==> neighbours_wf((#[trigger] ns[i]).outgoing, ns.len() as int)
            && neighbours_wf(ns[i].incoming, ns.len() as int)
    &&& forall|k: int|
        0 <= k < es.len() ==> (#[trigger] es[k]).from < ns.len() && es[k].to < ns.len()
            && es[k].count >= 1
    &&& forall|k: int, l: int|
        0 <= k < l < es.len() ==> !(es[k].from == es[l].from && es[k].to == es[l].to)
}

/// The neighbour lists say what the edges say: `v` is an outgoing
/// neighbour of `u`, and `u` an incoming neighbour of `v`, exactly when
/// there is an edge from `u` to `v`.
pub open spec fn links_agree(ns: Seq<NodeView>, es: Seq<EdgeView>) -> bool {
    &&& forall|u: usize, v: usize|
        (u as int) < ns.len() ==> (#[trigger] ns[u as int].outgoing.contains(v) <==> has_edge(es, u, v))
    &&& forall|u: usize, v: usize|
        (v as int) < ns.len() ==> (#[trigger] ns[v as int].incoming.contains(u) <==> has_edge(es, u, v))
}

proof fn lemma_contains_insert_unique(s: Seq<usize>, x: usize, v: usize)
    ensures
        insert_unique(s, x).contains(v) == (s.contains(v) || v == x),
{
    if !s.contains(x) {
        let t = s.push(x);
        assert(t[s.len() as int] == x);
        if s.contains(v) {
            let j = choose|j: int| 0 <= j < s.len() && s[j] == v;
            assert(t[j] == v);
        }
        if t.contains(v) {
            let j = choose|j: int| 0 <= j < t.len() && t[j] == v;
            if j < s.len() {
                assert(s[j] == v);
            }
        }
    }
}

proof fn lemma_has_edge_after(es: Seq<EdgeView>, fi: usize, ti: usize, amount: i64, ts: i64, u: usize, v: usize)
    ensures
        has_edge(edges_after(es, fi, ti, amount, ts), u, v) == (has_edge(es, u, v) || (u == fi && v == ti)),
{
    let e2 = edges_after(es, fi, ti, amount, ts);
    if has_edge(es, fi, ti) {
        let k = edge_index(es, fi, ti);
        assert(e2.len() == es.len());
        if has_edge(es, u, v) {
            let j = choose|j: int| 0 <= j < es.len() && es[j].from == u && es[j].to == v;
            assert(e2[j].from == u && e2[j].to == v);
        }
        if has_edge(e2, u, v) {
            let j = choose|j: int| 0 <= j < e2.len() && e2[j].from == u && e2[j].to == v;
            assert(es[j].from == u && es[j].to == v);
        }
    } else {
        assert(e2[es.len() as int].from == fi && e2[es.len() as int].to == ti);
        if has_edge(es, u, v) {
            let j = choose|j: int| 0 <= j < es.len() && es[j].from == u && es[j].to == v;
            assert(e2[j] == es[j]);
        }
        if has_edge(e2, u, v) && !(u == fi && v == ti) {
            let j = choose|j: int| 0 <= j < e2.len() && e2[j].from == u && e2[j].to == v;
            assert(j < es.len());
            assert(e2[j] == es[j]);
        }
    }
}

/// A transfer keeps the neighbour lists and the edges in agreement.
proof fn lemma_links_after_transfer(
    ns2: Seq<NodeView>,
    es: Seq<EdgeView>,
    fi: usize,
    ti: usize,
    amount: i64,
    ts: i64,
)
    requires
        links_agree(ns2, es),
        (fi as int) < ns2.len(),
        (ti as int) < ns2.len(),
    ensures
        ({
            let ns3 = ns2.update(fi as int, debited(ns2[fi as int], amount, ts, ti));
            let ns4 = ns3.update(ti as int, credited(ns3[ti as int], amount, ts, fi));
            links_agree(ns4, edges_after(es, fi, ti, amount, ts))
        }),
{
    let ns3 = ns2.update(fi as int, debited(ns2[fi as int], amount, ts, ti));
    let ns4 = ns3.update(ti as int, credited(ns3[ti as int], amount, ts, fi));
    let e2 = edges_after(es, fi, ti, amount, ts);
    assert forall|u: usize, v: usize| (u as int) < ns4.len() implies (#[trigger] ns4[u as int].outgoing.contains(v)
        <==> has_edge(e2, u, v)) by {
        lemma_has_edge_after(es, fi, ti, amount, ts, u, v);
        if u == fi {
            lemma_contains_insert_unique(ns2[fi as int].outgoing, ti, v);
            assert(ns4[u as int].outgoing == insert_unique(ns2[fi as int].outgoing, ti));
        } else {
            assert(ns4[u as int].outgoing == ns2[u as int].outgoing);
            assert(ns2[u as int].outgoing.contains(v) <==> has_edge(es, u, v));
        }
    }
    assert forall|u: usize, v: usize| (v as int) < ns4.len() implies (#[trigger] ns4[v as int].incoming.contains(u)
        <==> has_edge(e2, u, v)) by {
        lemma_has_edge_after(es, fi, ti, amount, ts, u, v);
        if v == ti {
            lemma_contains_insert_unique(ns3[ti as int].incoming, fi, u);
            assert(ns3[ti as int].incoming == ns2[ti as int].incoming);
            assert(ns2[v as int].incoming.contains(u) <==> has_edge(es, u, v));
        } else {
            assert(ns4[v as int].incoming == ns2[v as int].incoming);
            assert(ns2[v as int].incoming.contains(u) <==> has_edge(es, u, v));
        }
    }
}

/// A fresh node keeps the neighbour lists and the edges in agreement.
proof fn lemma_links_after_fresh(ns: Seq<NodeView>, es: Seq<EdgeView>, account: Seq<char>, ts: i64)
    requires
        links_agree(ns, es),
        forall|k: int| 0 <= k < es.len() ==> (#[trigger] es[k]).from < ns.len() && es[k].to < ns.len(),
    ensures
        links_agree(ns.push(fresh_node(account, ts)), es),
{
    let n2 = ns.push(fresh_node(account, ts));
    assert forall|u: usize, v: usize| (u as int) < n2.len() implies (#[trigger] n2[u as int].outgoing.contains(v)
        <==> has_edge(es, u, v)) by {
        if u as int == ns.len() {
            if has_edge(es, u, v) {
                let k = choose|k: int| 0 <= k < es.len() && es[k].from == u && es[k].to == v;
            }
        } else {
            assert(n2[u as int] == ns[u as int]);
            assert(ns[u as int].outgoing.contains(v) <==> has_edge(es, u, v));
        }
    }
    assert forall|u: usize, v: usize| (v as int) < n2.len() implies (#[trigger] n2[v as int].incoming.contains(u)
        <==> has_edge(es, u, v)) by {
        if v as int == ns.len() {
            if has_edge(es, u, v) {
                let k = choose|k: int| 0 <= k < es.len() && es[k].from == u && es[k].to == v;
            }
        } else {
            assert(n2[v as int] == ns[v as int]);
            assert(ns[v as int].incoming.contains(u) <==> has_edge(es, u, v));
        }
    }
}

/// Whether a transfer keeps every total within `i64` and every count
/// within `usize`.
pub open spec fn can_add(
    ns: Seq<NodeView>,
    es: Seq<EdgeView>,
    from: Seq<char>,
    to: Seq<char>,
    amount: i64,
    ts: i64,
) -> bool {
    let ns2 = nodes_with(ns, from, to, ts);
    let fi = index_of(ns2, from);
    let ti = index_of(ns2, to);
    let ns3 = ns2.update(fi, debited(ns2[fi], amount, ts, ti as usize));
    &&& ns2.len() <= usize::MAX
    &&& fits_i64(ns2[fi].outflow + amount)
    &&& ns2[fi].count + 1 <= usize::MAX
    &&& fits_i64(ns3[ti].inflow + amount)
    &&& ns3[ti].count + 1 <= usize::MAX
    &&& has_edge(es, fi as usize, ti as usize) ==> fits_i64(
        es[edge_index(es, fi as usize, ti as usize)].total + amount,
    ) && es[edge_index(es, fi as usize, ti as usize)].count + 1 <= usize::MAX
}

/// Many distinct sources (5 or more), few distinct destinations (2 or fewer).
pub open spec fn is_funnel(n: NodeView) -> bool {
    n.incoming.len() >= 5 && n.outgoing.len() <= 2
}

/// The mirror of a funnel.
pub open spec fn is_distributor(n: NodeView) -> bool {
    n.incoming.len() <= 2 && n.outgoing.len() >= 5
}

/// Nodes that are funnels or distributors, in node order.
pub open spec fn concentrated_nodes(ns: Seq<NodeView>) -> Seq<NodeView> {
    ns.filter(|n: NodeView| is_funnel(n) || is_distributor(n))
}

/// Outflow over inflow lies in [0.9, 1.1]; no ratio without inflow.
pub open spec fn ratio_within(outflow: int, inflow: int) -> bool {
    if inflow > 0 {
        9 * inflow <= 10 * outflow && 10 * outflow <= 11 * inflow
    } else if inflow < 0 {
        11 * inflow <= 10 * outflow && 10 * outflow <= 9 * inflow
    } else {
        false
    }
}

/// Flows that nearly balance, over 4 or more transactions.
pub open spec fn is_pass_through(n: NodeView) -> bool {
    ratio_within(n.outflow, n.inflow) && n.count >= 4
}

pub open spec fn pass_through_nodes(ns: Seq<NodeView>) -> Seq<NodeView> {
    ns.filter(|n: NodeView| is_pass_through(n))
}

/// Whole hours from `first` to `last`, rounded toward zero.
pub open spec fn hours_between(first: int, last: int) -> int {
    let d = last - first;
    if d >= 0 {
        d / (MS_PER_HOUR as int)
    } else {
        -((-d) / (MS_PER_HOUR as int))
    }
}

/// An edge whose average amount lies in [0.85 t, t).
pub open spec fn in_band(e: EdgeView, t: i64) -> bool {
    20 * e.total >= 17 * t * e.count && e.total < t * e.count
}

/// The edges out of node `u` whose average lies in the band, in edge order.
pub open spec fn band_edges(es: Seq<EdgeView>, u: int, t: i64) -> Seq<EdgeView> {
    es.filter(|e: EdgeView| e.from == u && in_band(e, t))
}

/// Average amount of an edge, rounded down to the cent.
pub open spec fn average_of(e: EdgeView) -> i64 {
    (e.total / e.count) as i64
}

pub open spec fn sum_of(s: Seq<i64>) -> int
    decreases s.len(),
{
    if s.len() == 0 {
        0
    } else {
        sum_of(s.drop_last()) + s.last()
    }
}

/// Nodes with at least three out-edges in the band, by number.
pub open spec fn structuring_nodes(ns: Seq<NodeView>, es: Seq<EdgeView>, t: i64) -> Seq<int> {
    flagged_upto(es, t, ns.len())
}

/// Node numbers below `n` with at least three out-edges in the band.
pub open spec fn flagged_upto(es: Seq<EdgeView>, t: i64, n: nat) -> Seq<int> {
    Seq::new(n, |i: int| i).filter(|u: int| band_edges(es, u, t).len() >= 3)
}


/// A funnel or distributor account.
#[derive(Debug, Clone)]
pub struct FunnelAccountResult {
    pub account_id: String,
    pub incoming_count: usize,
    pub outgoing_count: usize,
    pub total_inflow: i64,
    pub total_outflow: i64,
    pub pattern: SuspiciousPattern,
}

/// A pass-through account.
#[derive(Debug, Clone)]
pub struct PassThroughResult {
    pub account_id: String,
    pub total_inflow: i64,
    pub total_outflow: i64,
    pub transaction_count: usize,
    pub activity_duration_hours: i64,
    pub pattern: SuspiciousPattern,
}

/// An account with several out-edges averaging just under the threshold.
#[derive(Debug, Clone)]
pub struct StructuringResult {
    pub account_id: String,
    /// Average amount of each qualifying edge, in cents, rounded down.
    pub transaction_amounts: Vec<i64>,
    pub total_amount: i128,
    pub pattern: SuspiciousPattern,
    pub threshold_avoided: i64,
}

pub open spec fn funnel_result_of(r: FunnelAccountResult, n: NodeView) -> bool {
    &&& r.account_id@ == n.account
    &&& r.incoming_count == n.incoming.len()
    &&& r.outgoing_count == n.outgoing.len()
    &&& r.total_inflow == n.inflow
    &&& r.total_outflow == n.outflow
    &&& r.pattern == if is_funnel(n) {
        SuspiciousPattern::FunnelAccount
    } else {
        SuspiciousPattern::Distributor
    }
}

pub open spec fn pass_through_result_of(r: PassThroughResult, n: NodeView) -> bool {
    &&& r.account_id@ == n.account
    &&& r.total_inflow == n.inflow
    &&& r.total_outflow == n.outflow
    &&& r.transaction_count == n.count
    &&& r.activity_duration_hours == hours_between(n.first_seen, n.last_seen)
    &&& r.pattern == SuspiciousPattern::PassThrough
}

pub open spec fn structuring_result_of(
    r: StructuringResult,
    ns: Seq<NodeView>,
    es: Seq<EdgeView>,
    t: i64,
    u: int,
) -> bool {
    let amounts = band_edges(es, u, t).map_values(|e: EdgeView| average_of(e));
    &&& r.account_id@ == ns[u].account
    &&& r.transaction_amounts@ == amounts
    &&& r.total_amount == sum_of(amounts)
    &&& r.pattern == SuspiciousPattern::Structuring
    &&& r.threshold_avoided == t
}

/// Totals of one account.
#[derive(Debug, Clone)]
pub struct AccountStats {
    pub account_id: String,
    pub total_inflow: i64,
    pub total_outflow: i64,
    pub net_flow: i128,
    pub transaction_count: usize,
    pub incoming_connections: usize,
    pub outgoing_connections: usize,
    pub first_seen: i64,
    pub last_seen: i64,
}

/// Totals of the whole graph.
#[derive(Debug, Clone, Copy)]
pub struct GraphStats {
    pub node_count: usize,
    pub edge_count: usize,
    pub total_transactions: u128,
    pub total_amount: i128,
}

/// Sum of the transaction counts of the edges.
pub open spec fn sum_counts(es: Seq<EdgeView>) -> int
    decreases es.len(),
{
    if es.len() == 0 {
        0
    } else {
        sum_counts(es.drop_last()) + es.last().count
    }
}

/// Sum of the amounts of the edges.
pub open spec fn sum_totals(es: Seq<EdgeView>) -> int
    decreases es.len(),
{
    if es.len() == 0 {
        0
    } else {
        sum_totals(es.drop_last()) + es.last().total
    }
}

pub open spec fn account_stats_of(r: AccountStats, n: NodeView) -> bool {
    &&& r.account_id@ == n.account
    &&& r.total_inflow == n.inflow
    &&& r.total_outflow == n.outflow
    &&& r.net_flow == n.inflow - n.outflow
    &&& r.transaction_count == n.count
    &&& r.incoming_connections == n.incoming.len()
    &&& r.outgoing_connections == n.outgoing.len()
    &&& r.first_seen == n.first_seen
    &&& r.last_seen == n.last_seen
}

/// A transfer edge from node `u` to node `v`, by `u`'s neighbour list.
pub open spec fn steps_to(ns: Seq<NodeView>, u: int, v: usize) -> bool {
    0 <= u < ns.len() && ns[u].outgoing.contains(v)
}

/// `ext` continues `path` back to `target`: at most `remaining` hops along
/// neighbour lists, through nodes new to the path and to each other, so
/// that the closed walk visits more than two accounts.
pub open spec fn is_completion(
    ns: Seq<NodeView>,
    path: Seq<usize>,
    target: usize,
    ext: Seq<usize>,
    remaining: int,
) -> bool {
    &&& 1 <= ext.len() <= remaining
    &&& ext.last() == target
    &&& steps_to(ns, path.last() as int, ext[0])
    &&& forall|i: int| 1 <= i < ext.len() ==> steps_to(ns, ext[i - 1] as int, #[trigger] ext[i])
    &&& forall|i: int| 0 <= i < ext.len() - 1 ==> !path.contains(#[trigger] ext[i])
    &&& forall|i: int, j: int| 0 <= i < j < ext.len() - 1 ==> ext[i] != ext[j]
    &&& path.len() + ext.len() > 3
}

/// `p` is a cycle from node `s` back to it, of at most `max_hops` hops
/// through more than two distinct accounts.
pub open spec fn is_cycle_path(ns: Seq<NodeView>, s: usize, p: Seq<usize>, max_hops: int) -> bool {
    p.len() >= 2 && p[0] == s && is_completion(ns, seq![s], s, p.subrange(1, p.len() as int), max_hops)
}

/// Some such cycle goes through node `s`.
pub open spec fn has_cycle(ns: Seq<NodeView>, s: usize, max_hops: int) -> bool {
    exists|ext: Seq<usize>| #[trigger] is_completion(ns, seq![s], s, ext, max_hops)
}

proof fn lemma_neighbour_in_graph(ns: Seq<NodeView>, es: Seq<EdgeView>, u: int, j: int)
    requires
        graph_wf(ns, es),
        0 <= u < ns.len(),
        0 <= j < ns[u].outgoing.len(),
    ensures
        ns[u].outgoing[j] < ns.len(),
{
    reveal(graph_wf);
    assert(neighbours_wf(ns[u].outgoing, ns.len() as int));
}

proof fn lemma_extend(
    ns: Seq<NodeView>,
    path: Seq<usize>,
    target: usize,
    next: usize,
    ext2: Seq<usize>,
    remaining: int,
)
    requires
        path.len() >= 1,
        steps_to(ns, path.last() as int, next),
        !path.contains(next),
        is_completion(ns, path.push(next), target, ext2, remaining - 1),
    ensures
        is_completion(ns, path, target, seq![next] + ext2, remaining),
{
    let ext = seq![next] + ext2;
    let grown = path.push(next);
    assert(grown.last() == next);
    assert forall|i: int| 1 <= i < ext.len() implies steps_to(ns, ext[i - 1] as int, #[trigger] ext[i]) by {
        if i == 1 {
            assert(ext[0] == next && ext[1] == ext2[0]);
        } else {
            assert(ext[i] == ext2[i - 1] && ext[i - 1] == ext2[i - 2]);
        }
    }
    assert forall|i: int| 0 <= i < ext.len() - 1 implies !path.contains(#[trigger] ext[i]) by {
        if i > 0 {
            assert(ext[i] == ext2[i - 1]);
            if path.contains(ext2[i - 1]) {
                let j = choose|j: int| 0 <= j < path.len() && path[j] == ext2[i - 1];
                assert(grown[j] == ext2[i - 1]);
            }
        }
    }
    assert forall|i: int, j: int| 0 <= i < j < ext.len() - 1 implies ext[i] != ext[j] by {
        if i == 0 {
            assert(ext[j] == ext2[j - 1]);
            assert(grown[path.len() as int] == next);
        } else {
            assert(ext[i] == ext2[i - 1] && ext[j] == ext2[j - 1]);
        }
    }
}

proof fn lemma_shrink(
    ns: Seq<NodeView>,
    path: Seq<usize>,
    target: usize,
    ext: Seq<usize>,
    remaining: int,
)
    requires
        is_completion(ns, path, target, ext, remaining),
        ext.len() >= 2,
    ensures
        is_completion(ns, path.push(ext[0]), target, ext.subrange(1, ext.len() as int), remaining - 1),
{
    let grown = path.push(ext[0]);
    let e2 = ext.subrange(1, ext.len() as int);
    assert(e2[0] == ext[1]);
    assert(steps_to(ns, ext[0] as int, ext[1]));
    assert forall|i: int| 1 <= i < e2.len() implies steps_to(ns, e2[i - 1] as int, #[trigger] e2[i]) by {
        assert(e2[i] == ext[i + 1] && e2[i - 1] == ext[i]);
    }
    assert forall|i: int| 0 <= i < e2.len() - 1 implies !grown.contains(#[trigger] e2[i]) by {
        assert(e2[i] == ext[i + 1]);
        assert(!path.contains(ext[i + 1]));
        assert(ext[0] != ext[i + 1]);
        if grown.contains(e2[i]) {
            let j = choose|j: int| 0 <= j < grown.len() && grown[j] == e2[i];
            if j < path.len() {
                assert(path[j] == e2[i]);
            }
        }
    }
    assert forall|i: int, j: int| 0 <= i < j < e2.len() - 1 implies e2[i] != e2[j] by {
        assert(e2[i] == ext[i + 1] && e2[j] == ext[j + 1]);
    }
}

/// After a neighbour that is new to the path and led nowhere, no completion
/// starts with any neighbour seen so far.
proof fn lemma_unseen_neighbour_exhausted(
    ns: Seq<NodeView>,
    base: Seq<usize>,
    target: usize,
    out: Seq<usize>,
    i: int,
    remaining: int,
)
    requires
        0 <= i < out.len(),
        base.len() >= 1,
        base[0] == target,
        !base.contains(out[i]),
        forall|ext: Seq<usize>|
            !#[trigger] is_completion(ns, base.push(out[i]), target, ext, remaining - 1),
        forall|ext: Seq<usize>|
            #[trigger] is_completion(ns, base, target, ext, remaining) ==> !out.subrange(0, i).contains(
                ext[0],
            ),
    ensures
        forall|ext: Seq<usize>|
            #[trigger] is_completion(ns, base, target, ext, remaining) ==> !out.subrange(0, i + 1).contains(
                ext[0],
            ),
{
    assert forall|ext: Seq<usize>| #[trigger] is_completion(ns, base, target, ext, remaining) implies !out.subrange(
        0,
        i + 1,
    ).contains(ext[0]) by {
        let so = out.subrange(0, i + 1);
        if so.contains(ext[0]) {
            let j = choose|j: int| 0 <= j < so.len() && so[j] == ext[0];
            if j < i {
                assert(out.subrange(0, i)[j] == ext[0]);
            } else if ext.len() == 1 {
                assert(base.contains(target));
            } else {
                lemma_shrink(ns, base, target, ext, remaining);
            }
        }
    }
}

/// After a neighbour already on the path (and not closing it), no
/// completion starts with any neighbour seen so far.
proof fn lemma_seen_neighbour_exhausted(
    ns: Seq<NodeView>,
    base: Seq<usize>,
    target: usize,
    out: Seq<usize>,
    i: int,
    remaining: int,
)
    requires
        0 <= i < out.len(),
        base.contains(out[i]),
        !(out[i] == target && base.len() > 2),
        forall|ext: Seq<usize>|
            #[trigger] is_completion(ns, base, target, ext, remaining) ==> !out.subrange(0, i).contains(
                ext[0],
            ),
    ensures
        forall|ext: Seq<usize>|
            #[trigger] is_completion(ns, base, target, ext, remaining) ==> !out.subrange(0, i + 1).contains(
                ext[0],
            ),
{
    assert forall|ext: Seq<usize>| #[trigger] is_completion(ns, base, target, ext, remaining) implies !out.subrange(
        0,
        i + 1,
    ).contains(ext[0]) by {
        let so = out.subrange(0, i + 1);
        if so.contains(ext[0]) {
            let j = choose|j: int| 0 <= j < so.len() && so[j] == ext[0];
            if j < i {
                assert(out.subrange(0, i)[j] == ext[0]);
            } else {
                assert(ext[0] == out[i]);
                if ext.len() >= 2 {
                    assert(!base.contains(ext[0]));
                }
            }
        }
    }
}

proof fn lemma_first_step(ns: Seq<NodeView>, path: Seq<usize>, target: usize, ext: Seq<usize>, remaining: int)
    requires
        is_completion(ns, path, target, ext, remaining),
    ensures
        ext.len() >= 1,
        steps_to(ns, path.last() as int, ext[0]),
{
}

proof fn lemma_closing_hop(ns: Seq<NodeView>, path: Seq<usize>, target: usize, remaining: int)
    requires
        steps_to(ns, path.last() as int, target),
        path.len() > 2,
        remaining >= 1,
    ensures
        is_completion(ns, path, target, seq![target], remaining),
{
}

/// The nodes of a cycle path are nodes of the graph.
proof fn lemma_cycle_in_graph(ns: Seq<NodeView>, es: Seq<EdgeView>, s: usize, p: Seq<usize>, h: int)
    requires
        graph_wf(ns, es),
        s < ns.len(),
        is_cycle_path(ns, s, p, h),
    ensures
        forall|i: int| 0 <= i < p.len() ==> (#[trigger] p[i]) < ns.len(),
{
    let ext = p.subrange(1, p.len() as int);
    assert forall|i: int| 0 <= i < p.len() implies (#[trigger] p[i]) < ns.len() by {
        if i > 0 {
            assert(p[i] == ext[i - 1]);
            if i - 1 == 0 {
                assert(steps_to(ns, s as int, ext[0]));
                let j = choose|j: int| 0 <= j < ns[s as int].outgoing.len() && ns[s as int].outgoing[j] == ext[0];
                lemma_neighbour_in_graph(ns, es, s as int, j);
            } else {
                assert(steps_to(ns, ext[i - 2] as int, ext[i - 1]));
                let u = ext[i - 2] as int;
                let j = choose|j: int| 0 <= j < ns[u].outgoing.len() && ns[u].outgoing[j] == ext[i - 1];
                lemma_neighbour_in_graph(ns, es, u, j);
            }
        }
    }
}

/// Whether `v` holds `x`.
fn holds(v: &Vec<usize>, x: usize) -> (r: bool)
    ensures
        r == v@.contains(x),
{
    let mut i: usize = 0;
    while i < v.len()
        invariant
            i <= v@.len(),
            forall|j: int| 0 <= j < i ==> v@[j] != x,
        decreases v@.len() - i,
    {
        if v[i] == x {
            return true;
        }
        i = i + 1;
    }
    false
}

fn copy_path(v: &Vec<usize>) -> (r: Vec<usize>)
    ensures
        r@ == v@,
{
    let mut r: Vec<usize> = Vec::new();
    let mut i: usize = 0;
    while i < v.len()
        invariant
            i <= v@.len(),
            r@ == v@.subrange(0, i as int),
        decreases v@.len() - i,
    {
        r.push(v[i]);
        assert(r@ =~= v@.subrange(0, i + 1));
        i = i + 1;
    }
    assert(r@ =~= v@);
    r
}

/// Amount of the edge from `u` to `v`; 0 without one.
pub open spec fn edge_total(es: Seq<EdgeView>, u: usize, v: usize) -> int {
    if has_edge(es, u, v) {
        es[edge_index(es, u, v)].total
    } else {
        0
    }
}

/// Sum of the edge amounts along a path.
pub open spec fn path_total(es: Seq<EdgeView>, p: Seq<usize>) -> int
    decreases p.len(),
{
    if p.len() < 2 {
        0
    } else {
        path_total(es, p.drop_last()) + edge_total(es, p[p.len() - 2], p[p.len() - 1])
    }
}

/// Nodes below `n` through which a cycle of at most `max_hops` hops runs.
pub open spec fn cycle_starts(ns: Seq<NodeView>, n: nat, max_hops: int) -> Seq<int> {
    Seq::new(n, |i: int| i).filter(|u: int| has_cycle(ns, u as usize, max_hops))
}

/// A circular flow: the accounts of a cycle from the start back to it,
/// and the sum of the edge amounts along it.
#[derive(Debug, Clone)]
pub struct CircularFlowResult {
    pub accounts: Vec<String>,
    pub total_amount: i128,
    pub pattern: SuspiciousPattern,
}

/// `r` reports a cycle `p` through node `s`.
pub open spec fn circular_result_of(
    r: CircularFlowResult,
    ns: Seq<NodeView>,
    es: Seq<EdgeView>,
    s: int,
    p: Seq<usize>,
    max_hops: int,
) -> bool {
    &&& is_cycle_path(ns, s as usize, p, max_hops)
    &&& r.accounts@.len() == p.len()
    &&& forall|i: int| 0 <= i < p.len() ==> (#[trigger] r.accounts@[i])@ == ns[p[i] as int].account
    &&& r.total_amount == path_total(es, p)
    &&& r.pattern == SuspiciousPattern::CircularFlow
}

/// `r` reports some cycle through node `s`.
pub open spec fn reports_cycle(r: CircularFlowResult, ns: Seq<NodeView>, es: Seq<EdgeView>, s: int, max_hops: int) -> bool {
    exists|p: Seq<usize>| #[trigger] circular_result_of(r, ns, es, s, p, max_hops)
}

/// The circular flows of a graph: one per node that lies on a cycle, in
/// node order.
pub open spec fn circular_flows_of(
    ns: Seq<NodeView>,
    es: Seq<EdgeView>,
    max_hops: int,
    r: Seq<CircularFlowResult>,
) -> bool {
    &&& r.len() == cycle_starts(ns, ns.len(), max_hops).len()
    &&& forall|k: int|
        0 <= k < r.len() ==> reports_cycle(
            #[trigger] r[k],
            ns,
            es,
            cycle_starts(ns, ns.len(), max_hops)[k],
            max_hops,
        )
}

impl TransactionNode {
    /// A node for a new account, first and last seen at `ts`.
    fn new(account_id: &String, ts: i64) -> (n: Self)
        ensures
            n@ == fresh_node(account_id@, ts),
    {
        let n = TransactionNode {
            account_id: account_id.clone(),
            total_inflow: 0,
            total_outflow: 0,
            transaction_count: 0,
            first_seen: ts,
            last_seen: ts,
            incoming_accounts: Vec::new(),
            outgoing_accounts: Vec::new(),
        };
        assert(n@ =~= fresh_node(account_id@, ts));
        n
    }

    /// Many sources, few destinations.
    pub fn is_funnel(&self) -> (r: bool)
        ensures
            r == is_funnel(self@),
    {
        self.incoming_accounts.len() >= 5 && self.outgoing_accounts.len() <= 2
    }

    /// Few sources, many destinations.
    pub fn is_distributor(&self) -> (r: bool)
        ensures
            r == is_distributor(self@),
    {
        self.incoming_accounts.len() <= 2 && self.outgoing_accounts.len() >= 5
    }

    /// Outflow within 10% of a non-zero inflow, over 4 or more transactions.
    pub fn is_pass_through(&self) -> (r: bool)
        ensures
            r == is_pass_through(self@),
    {
        let inflow = self.total_inflow as i128;
        let outflow = self.total_outflow as i128;
        let balanced = if inflow > 0 {
            9 * inflow <= 10 * outflow && 10 * outflow <= 11 * inflow
        } else if inflow < 0 {
            11 * inflow <= 10 * outflow && 10 * outflow <= 9 * inflow
        } else {
            false
        };
        balanced && self.transaction_count >= 4
    }
}

/// The account graph.
pub struct TransactionGraph {
    nodes: Vec<TransactionNode>,
    edges: Vec<TransactionEdge>,
    reporting_threshold: i64,
}

/// Appends `x` to `v` unless it is there.
fn push_unique(v: &mut Vec<usize>, x: usize)
    ensures
        final(v)@ == insert_unique(old(v)@, x),
{
    let mut i: usize = 0;
    while i < v.len()
        invariant
            i <= v@.len(),
            forall|j: int| 0 <= j < i ==> v@[j] != x,
        decreases v@.len() - i,
    {
        if v[i] == x {
            assert(v@.contains(x));
            return;
        }
        i = i + 1;
    }
    assert(!v@.contains(x));
    v.push(x);
}

/// What one transfer does to the graph (see `add_transaction`).
pub open spec fn transfer_step(
    pre: TransactionGraph,
    from: Seq<char>,
    to: Seq<char>,
    amount: i64,
    ts: i64,
    post: TransactionGraph,
) -> bool {
    &&& post.wf()
    &&& post.threshold() == pre.threshold()
    &&& post.nodes() == nodes_after(pre.nodes(), from, to, amount, ts)
    &&& post.edges() == edges_after(
        pre.edges(),
        index_of(post.nodes(), from) as usize,
        index_of(post.nodes(), to) as usize,
        amount,
        ts,
    )
}

/// The structuring findings of a graph.
pub open spec fn structuring_of(ns: Seq<NodeView>, es: Seq<EdgeView>, t: i64, r: Seq<StructuringResult>) -> bool {
    &&& r.len() == structuring_nodes(ns, es, t).len()
    &&& forall|k: int|
        0 <= k < r.len() ==> structuring_result_of(#[trigger] r[k], ns, es, t, structuring_nodes(ns, es, t)[k])
}

/// The funnel and distributor findings of a graph.
pub open spec fn funnels_of(ns: Seq<NodeView>, r: Seq<FunnelAccountResult>) -> bool {
    &&& r.len() == concentrated_nodes(ns).len()
    &&& forall|k: int| 0 <= k < r.len() ==> funnel_result_of(#[trigger] r[k], concentrated_nodes(ns)[k])
}

/// The pass-through findings of a graph.
pub open spec fn pass_throughs_of(ns: Seq<NodeView>, r: Seq<PassThroughResult>) -> bool {
    &&& r.len() == pass_through_nodes(ns).len()
    &&& forall|k: int| 0 <= k < r.len() ==> pass_through_result_of(#[trigger] r[k], pass_through_nodes(ns)[k])
}

impl TransactionGraph {
    /// The nodes, in order of first appearance.
    pub closed spec fn nodes(&self) -> Seq<NodeView> {
        self.nodes@.map_values(|n: TransactionNode| n@)
    }

    /// The edges, in order of first transfer.
    pub closed spec fn edges(&self) -> Seq<EdgeView> {
        self.edges@.map_values(|e: TransactionEdge| e@)
    }

    /// The reporting threshold for structuring, in cents.
    pub closed spec fn threshold(&self) -> i64 {
        self.reporting_threshold
    }

    pub open spec fn wf(&self) -> bool {
        graph_wf(self.nodes(), self.edges())
    }

    /// An empty graph with a reporting threshold of 10,000.00.
    pub fn new() -> (g: Self)
        ensures
            g.wf(),
            g.nodes().len() == 0,
            g.edges().len() == 0,
            g.threshold() == 1_000_000,
    {
        proof {
            reveal(graph_wf);
        }
        let g = TransactionGraph { nodes: Vec::new(), edges: Vec::new(), reporting_threshold: 1_000_000 };
        assert(g.nodes() =~= Seq::empty());
        assert(g.edges() =~= Seq::empty());
        g
    }

    /// Sets the reporting threshold (in cents) used by structuring detection.
    pub fn set_reporting_threshold(&mut self, threshold: i64)
        ensures
            final(self).threshold() == threshold,
            final(self).nodes() == old(self).nodes(),
            final(self).edges() == old(self).edges(),
    {
        self.reporting_threshold = threshold;
    }

    fn find_node(&self, account: &String) -> (r: Option<usize>)
        ensures
            r matches Some(i) ==> i < self.nodes().len() && self.nodes()[i as int].account == account@,
            r is None ==> !has_account(self.nodes(), account@),
    {
        let mut i: usize = 0;
        while i < self.nodes.len()
            invariant
                i <= self.nodes().len(),
                forall|j: int| 0 <= j < i ==> self.nodes()[j].account != account@,
            decreases self.nodes().len() - i,
        {
            if self.nodes[i].account_id == *account {
                return Some(i);
            }
            i = i + 1;
        }
        None
    }

    /// The number of the node of `account`, appended when new.
    fn ensure_node(&mut self, account: &String, ts: i64) -> (r: usize)
        requires
            old(self).wf(),
            ensure_node(old(self).nodes(), account@, ts).len() <= usize::MAX,
        ensures
            final(self).wf(),
            final(self).nodes() == ensure_node(old(self).nodes(), account@, ts),
            final(self).edges() == old(self).edges(),
            final(self).threshold() == old(self).threshold(),
            r < final(self).nodes().len(),
            r == index_of(final(self).nodes(), account@),
            final(self).nodes()[r as int].account == account@,
    {
        proof {
            reveal(graph_wf);
        }
        let ghost ns = self.nodes();
        match self.find_node(account) {
            Some(i) => {
                assert(self.nodes()[i as int].account == account@);
                i
            },
            None => {
                let node = TransactionNode::new(account, ts);
                self.nodes.push(node);
                assert(self.nodes() =~= ns.push(fresh_node(account@, ts)));
                proof {
                    lemma_links_after_fresh(ns, self.edges(), account@, ts);
                }
                let i = self.nodes.len() - 1;
                assert(self.nodes()[i as int].account == account@);
                i
            },
        }
    }
}

impl TransactionGraph {
    /// Records a transfer: the source's outflow and the destination's
    /// inflow grow by `amount`, both counts by one, both last-seen times
    /// become `timestamp`, each gains the other as a distinct neighbour, and
    /// the pair's edge aggregates the transfer. New accounts get a node
    /// first seen at `timestamp`.
    pub fn add_transaction(&mut self, from_account: &str, to_account: &str, amount: i64, timestamp: i64)
        requires
            old(self).wf(),
            can_add(
                old(self).nodes(),
                old(self).edges(),
                from_account@,
                to_account@,
                amount,
                timestamp,
            ),
        ensures
            final(self).wf(),
            final(self).threshold() == old(self).threshold(),
            final(self).nodes() == nodes_after(
                old(self).nodes(),
                from_account@,
                to_account@,
                amount,
                timestamp,
            ),
            final(self).edges() == edges_after(
                old(self).edges(),
                index_of(final(self).nodes(), from_account@) as usize,
                index_of(final(self).nodes(), to_account@) as usize,
                amount,
                timestamp,
            ),
    {
        proof {
            reveal(graph_wf);
        }
        let ghost ns = self.nodes();
        let ghost es = self.edges();
        let from = from_account.to_owned();
        let to = to_account.to_owned();
        let fi = self.ensure_node(&from, timestamp);
        let ti = self.ensure_node(&to, timestamp);
        let ghost ns2 = self.nodes();
        assert(ns2 == nodes_with(ns, from@, to@, timestamp));
        assert(ns2[fi as int].account == from@);
        assert(fi as int == index_of(ns2, from@));
        assert(ti as int == index_of(ns2, to@));

        let outflow = self.nodes[fi].total_outflow + amount;
        let count = self.nodes[fi].transaction_count + 1;
        self.nodes[fi].total_outflow = outflow;
        self.nodes[fi].transaction_count = count;
        self.nodes[fi].last_seen = timestamp;
        push_unique(&mut self.nodes[fi].outgoing_accounts, ti);
        let ghost ns3 = ns2.update(fi as int, debited(ns2[fi as int], amount, timestamp, ti));
        assert(self.nodes() =~= ns3);

        let inflow = self.nodes[ti].total_inflow + amount;
        let count = self.nodes[ti].transaction_count + 1;
        self.nodes[ti].total_inflow = inflow;
        self.nodes[ti].transaction_count = count;
        self.nodes[ti].last_seen = timestamp;
        push_unique(&mut self.nodes[ti].incoming_accounts, fi);
        assert(self.nodes() =~= ns3.update(ti as int, credited(ns3[ti as int], amount, timestamp, fi)));
        assert(self.nodes()[fi as int].account == from@);
        assert(self.nodes()[ti as int].account == to@);
        let ghost ns4 = self.nodes();
        let ghost th = self.threshold();
        assert(th == old(self).threshold());
        assert(ns4 == nodes_after(ns, from@, to@, amount, timestamp));
        assert(graph_shape(ns4, es));
        proof {
            lemma_links_after_transfer(ns2, es, fi, ti, amount, timestamp);
        }
        assert(links_agree(ns4, edges_after(es, fi, ti, amount, timestamp)));

        let mut k: usize = 0;
        while k < self.edges.len()
            invariant
                es == self.edges(),
                forall|a: int, b: int|
                    0 <= a < b < es.len() ==> !(es[a].from == es[b].from && es[a].to == es[b].to),
                k <= es.len(),
                self.nodes() == ns4,
                self.threshold() == th,
                th == old(self).threshold(),
                ns == old(self).nodes(),
                es == old(self).edges(),
                from@ == from_account@,
                to@ == to_account@,
                ns4 == nodes_after(ns, from@, to@, amount, timestamp),
                graph_shape(ns4, es),
                links_agree(ns4, edges_after(es, fi, ti, amount, timestamp)),
                fi < ns4.len(),
                ti < ns4.len(),
                fi as int == index_of(ns4, from@),
                ti as int == index_of(ns4, to@),
                ns2 == nodes_with(ns, from@, to@, timestamp),
                can_add(ns, es, from@, to@, amount, timestamp),
                fi as int == index_of(ns2, from@),
                ti as int == index_of(ns2, to@),
                forall|j: int| 0 <= j < k ==> !(es[j].from == fi && es[j].to == ti),
            decreases es.len() - k,
        {
            proof {
                reveal(graph_wf);
            }
            assert(es[k as int] == self.edges@[k as int]@);
            if self.edges[k].from_account == fi && self.edges[k].to_account == ti {
                assert(edge_index(es, fi, ti) == k);
                let total = self.edges[k].total_amount + amount;
                let count = self.edges[k].transaction_count + 1;
                self.edges[k].total_amount = total;
                self.edges[k].transaction_count = count;
                self.edges[k].timestamps.push(timestamp);
                assert(self.edges() =~= edges_after(es, fi, ti, amount, timestamp));
                return;
            }
            k = k + 1;
        }
        let mut stamps: Vec<i64> = Vec::new();
        stamps.push(timestamp);
        assert(stamps@ =~= seq![timestamp]);
        self.edges.push(
            TransactionEdge {
                from_account: fi,
                to_account: ti,
                total_amount: amount,
                transaction_count: 1,
                timestamps: stamps,
            },
        );
        assert(self.edges() =~= edges_after(es, fi, ti, amount, timestamp));
    }
}

fn hours_between_exec(first: i64, last: i64) -> (r: i64)
    ensures
        r == hours_between(first as int, last as int),
{
    let d: i128 = last as i128 - first as i128;
    if d >= 0 {
        ((d as u128) / 3_600_000) as i64
    } else {
        let m: u128 = (-d) as u128;
        -((m / 3_600_000) as i64)
    }
}

/// Whether an edge's average lies in [0.85 t, t).
fn edge_in_band(e: &TransactionEdge, t: i64) -> (r: bool)
    ensures
        r == in_band(e@, t),
{
    let c = e.transaction_count;
    assert(-0x8000_0000_0000_0000 * 0xffff_ffff_ffff_ffff <= (t as int) * (c as int)
        <= 0x7fff_ffff_ffff_ffff * 0xffff_ffff_ffff_ffff) by (nonlinear_arith)
        requires
            -0x8000_0000_0000_0000 <= t < 0x8000_0000_0000_0000,
            0 <= c <= 0xffff_ffff_ffff_ffff,
    ;
    let scaled: i128 = t as i128 * c as i128;
    assert(17 * (t as int) * (c as int) == 17 * ((t as int) * (c as int))) by (nonlinear_arith);
    let total: i128 = e.total_amount as i128;
    // Seventeen times the scaled threshold; a product that overflows lies
    // beyond twenty times any total, on the side of its sign.
    let lower_ok = match scaled.checked_mul(17) {
        Some(s17) => 20 * total >= s17,
        None => scaled < 0,
    };
    lower_ok && total < scaled
}

impl TransactionGraph {
    /// Accounts that funnel (many sources, few destinations) or distribute
    /// (few sources, many destinations), by distinct neighbours, in node order.
    pub fn detect_funnel_accounts(&self) -> (r: Vec<FunnelAccountResult>)
        ensures
            r@.len() == concentrated_nodes(self.nodes()).len(),
            forall|k: int|
                0 <= k < r@.len() ==> funnel_result_of(
                    #[trigger] r@[k],
                    concentrated_nodes(self.nodes())[k],
                ),
    {
        let ghost ns = self.nodes();
        let mut results: Vec<FunnelAccountResult> = Vec::new();
        let mut i: usize = 0;
        while i < self.nodes.len()
            invariant
                ns == self.nodes(),
                i <= ns.len(),
                results@.len() == concentrated_nodes(ns.subrange(0, i as int)).len(),
                forall|k: int|
                    0 <= k < results@.len() ==> funnel_result_of(
                        #[trigger] results@[k],
                        concentrated_nodes(ns.subrange(0, i as int))[k],
                    ),
            decreases ns.len() - i,
        {
            proof {
                reveal(Seq::filter);
            }
            assert(ns.subrange(0, i + 1).drop_last() =~= ns.subrange(0, i as int));
            let node = &self.nodes[i];
            assert(ns[i as int] == node@);
            let incoming = node.incoming_accounts.len();
            let outgoing = node.outgoing_accounts.len();
            let funnel = node.is_funnel();
            if funnel || node.is_distributor() {
                let pattern = if funnel {
                    SuspiciousPattern::FunnelAccount
                } else {
                    SuspiciousPattern::Distributor
                };
                results.push(
                    FunnelAccountResult {
                        account_id: node.account_id.clone(),
                        incoming_count: incoming,
                        outgoing_count: outgoing,
                        total_inflow: node.total_inflow,
                        total_outflow: node.total_outflow,
                        pattern,
                    },
                );
            }
            i = i + 1;
        }
        assert(ns.subrange(0, ns.len() as int) =~= ns);
        results
    }

    /// Accounts whose outflow is within 10% of a non-zero inflow, over 4 or
    /// more transactions, in node order.
    pub fn detect_pass_through(&self) -> (r: Vec<PassThroughResult>)
        ensures
            r@.len() == pass_through_nodes(self.nodes()).len(),
            forall|k: int|
                0 <= k < r@.len() ==> pass_through_result_of(
                    #[trigger] r@[k],
                    pass_through_nodes(self.nodes())[k],
                ),
    {
        let ghost ns = self.nodes();
        let mut results: Vec<PassThroughResult> = Vec::new();
        let mut i: usize = 0;
        while i < self.nodes.len()
            invariant
                ns == self.nodes(),
                i <= ns.len(),
                results@.len() == pass_through_nodes(ns.subrange(0, i as int)).len(),
                forall|k: int|
                    0 <= k < results@.len() ==> pass_through_result_of(
                        #[trigger] results@[k],
                        pass_through_nodes(ns.subrange(0, i as int))[k],
                    ),
            decreases ns.len() - i,
        {
            proof {
                reveal(Seq::filter);
            }
            assert(ns.subrange(0, i + 1).drop_last() =~= ns.subrange(0, i as int));
            let node = &self.nodes[i];
            assert(ns[i as int] == node@);
            if node.is_pass_through() {
                results.push(
                    PassThroughResult {
                        account_id: node.account_id.clone(),
                        total_inflow: node.total_inflow,
                        total_outflow: node.total_outflow,
                        transaction_count: node.transaction_count,
                        activity_duration_hours: hours_between_exec(node.first_seen, node.last_seen),
                        pattern: SuspiciousPattern::PassThrough,
                    },
                );
            }
            i = i + 1;
        }
        assert(ns.subrange(0, ns.len() as int) =~= ns);
        results
    }

    /// Averages of the out-edges of node `u` that lie in the band, and
    /// their sum.
    fn band_averages(&self, u: usize) -> (r: (Vec<i64>, i128))
        requires
            self.wf(),
        ensures
            r.0@ == band_edges(self.edges(), u as int, self.threshold()).map_values(
                |e: EdgeView| average_of(e),
            ),
            r.1 == sum_of(r.0@),
    {
        proof {
            reveal(graph_wf);
        }
        let ghost es = self.edges();
        let t = self.reporting_threshold;
        let mut amounts: Vec<i64> = Vec::new();
        let mut sum: i128 = 0;
        let mut k: usize = 0;
        while k < self.edges.len()
            invariant
                es == self.edges(),
                t == self.threshold(),
                graph_wf(self.nodes(), es),
                k <= es.len(),
                amounts@ == band_edges(es.subrange(0, k as int), u as int, t).map_values(
                    |e: EdgeView| average_of(e),
                ),
                sum == sum_of(amounts@),
                amounts@.len() <= k,
                0 <= sum <= (amounts@.len() as int) * 0x8000_0000_0000_0000,
            decreases es.len() - k,
        {
            proof {
                reveal(graph_wf);
            }
            proof {
                reveal(Seq::filter);
            }
            let ghost prev = amounts@;
            assert(es.subrange(0, k + 1).drop_last() =~= es.subrange(0, k as int));
            let e = &self.edges[k];
            assert(es[k as int] == e@);
            if e.from_account == u && edge_in_band(e, t) {
                let ghost p = t as int * e.transaction_count as int;
                assert(17 * (t as int) * (e.transaction_count as int) == 17 * p) by (nonlinear_arith)
                    requires
                        p == t as int * e.transaction_count as int,
                ;
                assert(p > 0);
                assert(e.total_amount > 0);
                let avg = ((e.total_amount as u128) / (e.transaction_count as u128)) as i64;
                assert(avg == average_of(e@));
                amounts.push(avg);
                sum = sum + avg as i128;
                assert(amounts@.drop_last() =~= prev);
            }
            k = k + 1;
        }
        assert(es.subrange(0, es.len() as int) =~= es);
        (amounts, sum)
    }
}

impl TransactionGraph {
    /// Accounts with three or more out-edges whose average amount lies in
    /// [0.85 threshold, threshold), in node order, with those averages and
    /// their sum.
    pub fn detect_structuring(&self) -> (r: Vec<StructuringResult>)
        requires
            self.wf(),
        ensures
            r@.len() == structuring_nodes(self.nodes(), self.edges(), self.threshold()).len(),
            forall|k: int|
                0 <= k < r@.len() ==> structuring_result_of(
                    #[trigger] r@[k],
                    self.nodes(),
                    self.edges(),
                    self.threshold(),
                    structuring_nodes(self.nodes(), self.edges(), self.threshold())[k],
                ),
    {
        let ghost ns = self.nodes();
        let ghost es = self.edges();
        let ghost t = self.threshold();
        let mut results: Vec<StructuringResult> = Vec::new();
        let mut u: usize = 0;
        while u < self.nodes.len()
            invariant
                ns == self.nodes(),
                es == self.edges(),
                t == self.threshold(),
                self.wf(),
                u <= ns.len(),
                results@.len() == flagged_upto(es, t, u as nat).len(),
                forall|k: int|
                    0 <= k < results@.len() ==> structuring_result_of(
                        #[trigger] results@[k],
                        ns,
                        es,
                        t,
                        flagged_upto(es, t, u as nat)[k],
                    ),
                forall|k: int|
                    0 <= k < flagged_upto(es, t, u as nat).len() ==> 0 <= #[trigger] flagged_upto(
                        es,
                        t,
                        u as nat,
                    )[k] < u,
            decreases ns.len() - u,
        {
            proof {
                reveal(Seq::filter);
            }
            let ghost before = flagged_upto(es, t, u as nat);
            assert(Seq::new((u + 1) as nat, |i: int| i).drop_last() =~= Seq::new(
                u as nat,
                |i: int| i,
            ));
            let (amounts, total) = self.band_averages(u);
            assert(amounts@.len() == band_edges(es, u as int, t).len());
            if amounts.len() >= 3 {
                results.push(
                    StructuringResult {
                        account_id: self.nodes[u].account_id.clone(),
                        transaction_amounts: amounts,
                        total_amount: total,
                        pattern: SuspiciousPattern::Structuring,
                        threshold_avoided: self.reporting_threshold,
                    },
                );
                assert(flagged_upto(es, t, (u + 1) as nat) == before.push(u as int));
            } else {
                assert(flagged_upto(es, t, (u + 1) as nat) == before);
            }
            u = u + 1;
        }
        results
    }

    /// Totals of one account, if it is in the graph.
    pub fn get_account_stats(&self, account_id: &str) -> (r: Option<AccountStats>)
        requires
            self.wf(),
        ensures
            r is Some == has_account(self.nodes(), account_id@),
            r matches Some(st) ==> account_stats_of(
                st,
                self.nodes()[index_of(self.nodes(), account_id@)],
            ),
    {
        proof {
            reveal(graph_wf);
        }
        let key = account_id.to_owned();
        match self.find_node(&key) {
            Some(i) => {
                let node = &self.nodes[i];
                assert(self.nodes()[i as int] == node@);
                assert(index_of(self.nodes(), account_id@) == i);
                Some(
                    AccountStats {
                        account_id: node.account_id.clone(),
                        total_inflow: node.total_inflow,
                        total_outflow: node.total_outflow,
                        net_flow: node.total_inflow as i128 - node.total_outflow as i128,
                        transaction_count: node.transaction_count,
                        incoming_connections: node.incoming_accounts.len(),
                        outgoing_connections: node.outgoing_accounts.len(),
                        first_seen: node.first_seen,
                        last_seen: node.last_seen,
                    },
                )
            },
            None => None,
        }
    }

    /// Node and edge counts, and the transaction count and amount summed
    /// over the edges.
    pub fn get_stats(&self) -> (r: GraphStats)
        ensures
            r.node_count == self.nodes().len(),
            r.edge_count == self.edges().len(),
            r.total_transactions == sum_counts(self.edges()),
            r.total_amount == sum_totals(self.edges()),
    {
        let ghost es = self.edges();
        let mut count: u128 = 0;
        let mut amount: i128 = 0;
        let mut k: usize = 0;
        let n = self.edges.len();
        while k < n
            invariant
                es == self.edges(),
                n == es.len(),
                k <= n,
                count == sum_counts(es.subrange(0, k as int)),
                amount == sum_totals(es.subrange(0, k as int)),
                0 <= count <= (k as int) * 0xffff_ffff_ffff_ffff,
                -(k as int) * 0x8000_0000_0000_0000 <= amount <= (k as int) * 0x8000_0000_0000_0000,
            decreases n - k,
        {
            assert(es.subrange(0, k + 1).drop_last() =~= es.subrange(0, k as int));
            assert(es[k as int] == self.edges@[k as int]@);
            count = count + self.edges[k].transaction_count as u128;
            amount = amount + self.edges[k].total_amount as i128;
            k = k + 1;
        }
        assert(es.subrange(0, n as int) =~= es);
        GraphStats { node_count: self.nodes.len(), edge_count: n, total_transactions: count, total_amount: amount }
    }
}

impl TransactionGraph {
    /// Depth-first search from `current` for a way back to `target`
    /// (`path` starts there and ends at `current`). The first completion
    /// found is returned; `None` means there is none. `path` is restored.
    #[verifier::rlimit(100)]
    fn dfs_circular(&self, current: usize, target: usize, path: &mut Vec<usize>, remaining: usize) -> (r:
        Option<Vec<usize>>)
        requires
            self.wf(),
            old(path)@.len() >= 1,
            old(path)@[0] == target,
            old(path)@.last() == current,
            current < self.nodes().len(),
        ensures
            final(path)@ == old(path)@,
            r matches Some(p) ==> p@.len() > old(path)@.len() && p@.subrange(
                0,
                old(path)@.len() as int,
            ) == old(path)@ && is_completion(
                self.nodes(),
                old(path)@,
                target,
                p@.subrange(old(path)@.len() as int, p@.len() as int),
                remaining as int,
            ),
            r is None ==> forall|ext: Seq<usize>|
                !#[trigger] is_completion(self.nodes(), old(path)@, target, ext, remaining as int),
        decreases remaining,
    {
        let ghost ns = self.nodes();
        let ghost base = path@;
        if remaining == 0 {
            return None;
        }
        let out = &self.nodes[current].outgoing_accounts;
        assert(ns[current as int].outgoing == out@);
        let mut i: usize = 0;
        while i < out.len()
            invariant
                ns == self.nodes(),
                self.wf(),
                ns[current as int].outgoing == out@,
                path@ == base,
                base == old(path)@,
                base.len() >= 1,
                base[0] == target,
                base.last() == current,
                current < ns.len(),
                remaining >= 1,
                i <= out@.len(),
                forall|ext: Seq<usize>|
                    #[trigger] is_completion(ns, base, target, ext, remaining as int) ==> !out@.subrange(
                        0,
                        i as int,
                    ).contains(ext[0]),
            decreases out@.len() - i,
        {
            let next = out[i];
            proof {
                lemma_neighbour_in_graph(ns, self.edges(), current as int, i as int);
            }
            assert(next < ns.len());
            assert(steps_to(ns, current as int, next));
            if next == target && path.len() > 2 {
                let mut found = copy_path(path);
                found.push(target);
                proof {
                    let ext = seq![target];
                    assert(found@.subrange(base.len() as int, found@.len() as int) =~= ext);
                    assert(found@.subrange(0, base.len() as int) =~= base);
                    lemma_closing_hop(ns, base, target, remaining as int);
                }
                return Some(found);
            }
            let seen = holds(path, next);
            if !seen {
                path.push(next);
                let ghost longer = path@;
                assert(longer == base.push(next));
                let sub = self.dfs_circular(next, target, path, remaining - 1);
                path.pop();
                assert(path@ =~= base);
                match sub {
                    Some(p) => {
                        proof {
                            let ext2 = p@.subrange(longer.len() as int, p@.len() as int);
                            lemma_extend(ns, base, target, next, ext2, remaining as int);
                            assert(p@.subrange(base.len() as int, p@.len() as int) =~= seq![next] + ext2);
                            assert(p@[base.len() as int] == longer[base.len() as int]);
                            assert(p@.subrange(0, base.len() as int) =~= longer.subrange(0, base.len() as int));
                            assert(longer.subrange(0, base.len() as int) =~= base);
                        }
                        return Some(p);
                    },
                    None => {
                        proof {
                            lemma_unseen_neighbour_exhausted(ns, base, target, out@, i as int, remaining as int);
                        }
                    },
                }
            } else {
                proof {
                    lemma_seen_neighbour_exhausted(ns, base, target, out@, i as int, remaining as int);
                }
            }
            i = i + 1;
        }
        proof {
            assert forall|ext: Seq<usize>| !#[trigger] is_completion(ns, base, target, ext, remaining as int) by {
                if is_completion(ns, base, target, ext, remaining as int) {
                    lemma_first_step(ns, base, target, ext, remaining as int);
                    assert(out@.subrange(0, out@.len() as int) =~= out@);
                    assert(out@.contains(ext[0]));
                }
            }
        }
        None
    }
}

impl TransactionGraph {
    /// The first cycle found from node `start` back to it, if any.
    fn find_circular_path(&self, start: usize, max_hops: usize) -> (r: Option<Vec<usize>>)
        requires
            self.wf(),
            start < self.nodes().len(),
        ensures
            r matches Some(p) ==> is_cycle_path(self.nodes(), start, p@, max_hops as int),
            r is None ==> !has_cycle(self.nodes(), start, max_hops as int),
    {
        let mut path: Vec<usize> = Vec::new();
        path.push(start);
        assert(path@ =~= seq![start]);
        let r = self.dfs_circular(start, start, &mut path, max_hops);
        proof {
            if r is Some {
                let p = r->Some_0;
                assert(p@.subrange(0, 1) =~= seq![start]);
                assert(p@[0] == p@.subrange(0, 1)[0]);
            }
        }
        r
    }

    /// Amount of the edge from `u` to `v`; 0 without one.
    fn edge_amount(&self, u: usize, v: usize) -> (r: i64)
        requires
            self.wf(),
        ensures
            r == edge_total(self.edges(), u, v),
    {
        proof {
            reveal(graph_wf);
        }
        let ghost es = self.edges();
        let mut k: usize = 0;
        while k < self.edges.len()
            invariant
                es == self.edges(),
                graph_wf(self.nodes(), es),
                k <= es.len(),
                forall|j: int| 0 <= j < k ==> !(es[j].from == u && es[j].to == v),
            decreases es.len() - k,
        {
            proof {
                reveal(graph_wf);
            }
            assert(es[k as int] == self.edges@[k as int]@);
            if self.edges[k].from_account == u && self.edges[k].to_account == v {
                assert(edge_index(es, u, v) == k);
                return self.edges[k].total_amount;
            }
            k = k + 1;
        }
        0
    }

    /// Sum of the edge amounts along `p`.
    fn path_amount(&self, p: &Vec<usize>) -> (r: i128)
        requires
            self.wf(),
        ensures
            r == path_total(self.edges(), p@),
    {
        let mut sum: i128 = 0;
        let n = p.len();
        if n < 2 {
            return 0;
        }
        let mut i: usize = 1;
        assert(p@.subrange(0, 1).len() < 2);
        while i < n
            invariant
                n == p@.len(),
                1 <= i <= n,
                self.wf(),
                sum == path_total(self.edges(), p@.subrange(0, i as int)),
                -(i as int) * 0x8000_0000_0000_0000 <= sum <= (i as int) * 0x8000_0000_0000_0000,
            decreases n - i,
        {
            let ghost pre = p@.subrange(0, i as int);
            let ghost post = p@.subrange(0, i + 1);
            assert(post.drop_last() =~= pre);
            assert(post[post.len() - 2] == p@[i - 1] && post[post.len() - 1] == p@[i as int]);
            let amount = self.edge_amount(p[i - 1], p[i]);
            sum = sum + amount as i128;
            i = i + 1;
        }
        assert(p@.subrange(0, n as int) =~= p@);
        sum
    }

    fn account_names(&self, p: &Vec<usize>) -> (r: Vec<String>)
        requires
            forall|i: int| 0 <= i < p@.len() ==> (#[trigger] p@[i]) < self.nodes().len(),
        ensures
            r@.len() == p@.len(),
            forall|i: int| 0 <= i < p@.len() ==> (#[trigger] r@[i])@ == self.nodes()[p@[i] as int].account,
    {
        let mut names: Vec<String> = Vec::new();
        let mut i: usize = 0;
        while i < p.len()
            invariant
                i <= p@.len(),
                forall|j: int| 0 <= j < p@.len() ==> (#[trigger] p@[j]) < self.nodes().len(),
                names@.len() == i,
                forall|j: int| 0 <= j < i ==> (#[trigger] names@[j])@ == self.nodes()[p@[j] as int].account,
            decreases p@.len() - i,
        {
            let idx = p[i];
            assert(self.nodes()[idx as int] == self.nodes@[idx as int]@);
            names.push(self.nodes[idx].account_id.clone());
            i = i + 1;
        }
        names
    }

    /// For each account, in node order, the first cycle of at most
    /// `max_hops` hops found from it back to it through more than two
    /// distinct accounts, with the edge amounts along it.
    pub fn detect_circular_flows(&self, max_hops: usize) -> (r: Vec<CircularFlowResult>)
        requires
            self.wf(),
        ensures
            circular_flows_of(self.nodes(), self.edges(), max_hops as int, r@),
    {
        let ghost ns = self.nodes();
        let ghost es = self.edges();
        let ghost h = max_hops as int;
        let mut results: Vec<CircularFlowResult> = Vec::new();
        let mut s: usize = 0;
        while s < self.nodes.len()
            invariant
                ns == self.nodes(),
                es == self.edges(),
                h == max_hops,
                self.wf(),
                s <= ns.len(),
                results@.len() == cycle_starts(ns, s as nat, h).len(),
                forall|k: int|
                    0 <= k < results@.len() ==> reports_cycle(
                        #[trigger] results@[k],
                        ns,
                        es,
                        cycle_starts(ns, s as nat, h)[k],
                        h,
                    ),
            decreases ns.len() - s,
        {
            proof {
                reveal(Seq::filter);
            }
            let ghost before = cycle_starts(ns, s as nat, h);
            assert(Seq::new((s + 1) as nat, |i: int| i).drop_last() =~= Seq::new(s as nat, |i: int| i));
            match self.find_circular_path(s, max_hops) {
                Some(p) => {
                    proof {
                        lemma_cycle_in_graph(ns, self.edges(), s, p@, h);
                    }
                    let accounts = self.account_names(&p);
                    let total_amount = self.path_amount(&p);
                    let result = CircularFlowResult { accounts, total_amount, pattern: SuspiciousPattern::CircularFlow };
                    assert(circular_result_of(result, ns, es, s as int, p@, h));
                    results.push(result);
                    assert(cycle_starts(ns, (s + 1) as nat, h) == before.push(s as int));
                    assert forall|k: int| 0 <= k < results@.len() implies reports_cycle(
                        #[trigger] results@[k],
                        ns,
                        es,
                        cycle_starts(ns, (s + 1) as nat, h)[k],
                        h,
                    ) by {
                        if k == results@.len() - 1 {
                            assert(circular_result_of(results@[k], ns, es, s as int, p@, h));
                        }
                    }
                },
                None => {
                    assert(cycle_starts(ns, (s + 1) as nat, h) == before);
                },
            }
            s = s + 1;
        }
        results
    }
}

impl Default for TransactionGraph {
    /// The same as `new`.
    fn default() -> (g: Self)
        ensures
            g.wf(),
            g.nodes().len() == 0,
            g.edges().len() == 0,
            g.threshold() == 1_000_000,
    {
        TransactionGraph::new()
    }
}

/// The four detectors' findings, graph totals, and when they were made.
#[derive(Debug, Clone)]
pub struct NetworkAnalysisReport {
    pub circular_flows: Vec<CircularFlowResult>,
    pub structuring: Vec<StructuringResult>,
    pub funnel_accounts: Vec<FunnelAccountResult>,
    pub pass_through: Vec<PassThroughResult>,
    pub graph_stats: GraphStats,
    /// Milliseconds since the Unix epoch, UTC.
    pub analysis_time: i64,
}

impl NetworkAnalysisReport {
    /// Whether any detector found anything.
    pub fn has_suspicious_activity(&self) -> (r: bool)
        ensures
            r == (self.circular_flows@.len() > 0 || self.structuring@.len() > 0
                || self.funnel_accounts@.len() > 0 || self.pass_through@.len() > 0),
    {
        self.circular_flows.len() > 0 || self.structuring.len() > 0 || self.funnel_accounts.len() > 0
            || self.pass_through.len() > 0
    }

    /// Number of findings over the four detectors.
    pub fn suspicious_pattern_count(&self) -> (r: usize)
        requires
            self.circular_flows@.len() + self.structuring@.len() + self.funnel_accounts@.len()
                + self.pass_through@.len() <= usize::MAX,
        ensures
            r == self.circular_flows@.len() + self.structuring@.len() + self.funnel_accounts@.len()
                + self.pass_through@.len(),
    {
        self.circular_flows.len() + self.structuring.len() + self.funnel_accounts.len()
            + self.pass_through.len()
    }
}

/// Depth of the cycle search of a full analysis.
pub const ANALYSIS_MAX_HOPS: usize = 5;

/// Runs all detectors over one graph.
pub struct NetworkAnalyzer {
    graph: TransactionGraph,
}

impl NetworkAnalyzer {
    /// The analyzer's graph.
    pub closed spec fn graph(&self) -> TransactionGraph {
        self.graph
    }

    pub open spec fn wf(&self) -> bool {
        self.graph().wf()
    }

    /// An analyzer over an empty graph.
    pub fn new() -> (a: Self)
        ensures
            a.wf(),
            a.graph().nodes().len() == 0,
            a.graph().edges().len() == 0,
            a.graph().threshold() == 1_000_000,
    {
        proof {
            reveal(graph_wf);
        }
        NetworkAnalyzer { graph: TransactionGraph::new() }
    }

    /// Whether `add_transaction` can take this transfer.
    pub fn can_add_transaction(&self, from: &str, to: &str, amount: i64, timestamp: i64) -> (r: bool)
        requires
            self.wf(),
        ensures
            r == can_add(self.graph().nodes(), self.graph().edges(), from@, to@, amount, timestamp),
    {
        proof {
            reveal(graph_wf);
        }
        self.graph.can_add_transaction(from, to, amount, timestamp)
    }

    /// Adds a transfer to the graph.
    pub fn add_transaction(&mut self, from: &str, to: &str, amount: i64, timestamp: i64)
        requires
            old(self).wf(),
            can_add(old(self).graph().nodes(), old(self).graph().edges(), from@, to@, amount, timestamp),
        ensures
            final(self).wf(),
            transfer_step(old(self).graph(), from@, to@, amount, timestamp, final(self).graph()),
    {
        proof {
            reveal(graph_wf);
        }
        self.graph.add_transaction(from, to, amount, timestamp);
    }

    /// All four detectors (the cycle search five hops deep) and the graph
    /// totals.
    pub fn analyze_all(&self) -> (r: NetworkAnalysisReport)
        requires
            self.wf(),
        ensures
            circular_flows_of(
                self.graph().nodes(),
                self.graph().edges(),
                ANALYSIS_MAX_HOPS as int,
                r.circular_flows@,
            ),
            structuring_of(self.graph().nodes(), self.graph().edges(), self.graph().threshold(), r.structuring@),
            funnels_of(self.graph().nodes(), r.funnel_accounts@),
            pass_throughs_of(self.graph().nodes(), r.pass_through@),
            r.graph_stats.node_count == self.graph().nodes().len(),
            r.graph_stats.edge_count == self.graph().edges().len(),
            r.graph_stats.total_transactions == sum_counts(self.graph().edges()),
            r.graph_stats.total_amount == sum_totals(self.graph().edges()),
    {
        NetworkAnalysisReport {
            circular_flows: self.graph.detect_circular_flows(ANALYSIS_MAX_HOPS),
            structuring: self.graph.detect_structuring(),
            funnel_accounts: self.graph.detect_funnel_accounts(),
            pass_through: self.graph.detect_pass_through(),
            graph_stats: self.graph.get_stats(),
            analysis_time: now_millis(),
        }
    }

    /// Totals of one account, if it is in the graph.
    pub fn get_account_stats(&self, account_id: &str) -> (r: Option<AccountStats>)
        requires
            self.wf(),
        ensures
            r is Some == has_account(self.graph().nodes(), account_id@),
            r matches Some(st) ==> account_stats_of(
                st,
                self.graph().nodes()[index_of(self.graph().nodes(), account_id@)],
            ),
    {
        proof {
            reveal(graph_wf);
        }
        self.graph.get_account_stats(account_id)
    }
}

impl Default for NetworkAnalyzer {
    /// The same as `new`.
    fn default() -> (a: Self)
        ensures
            a.wf(),
            a.graph().nodes().len() == 0,
            a.graph().edges().len() == 0,
    {
        NetworkAnalyzer::new()
    }
}

/// With unique accounts, the node of an account is the one found.
proof fn lemma_index_unique(ns: Seq<NodeView>, account: Seq<char>, i: int)
    requires
        forall|a: int, b: int| 0 <= a < b < ns.len() ==> ns[a].account != ns[b].account,
        0 <= i < ns.len(),
        ns[i].account == account,
    ensures
        has_account(ns, account),
        index_of(ns, account) == i,
{
}

impl TransactionGraph {
    /// The number of the edge from `u` to `v`, if there is one.
    fn find_edge(&self, u: usize, v: usize) -> (r: Option<usize>)
        requires
            self.wf(),
        ensures
            r matches Some(k) ==> k < self.edges().len() && edge_index(self.edges(), u, v) == k
                && has_edge(self.edges(), u, v) && self.edges()[k as int] == self.edges@[k as int]@,
            r is None ==> !has_edge(self.edges(), u, v),
    {
        proof {
            reveal(graph_wf);
        }
        let ghost es = self.edges();
        let mut k: usize = 0;
        while k < self.edges.len()
            invariant
                es == self.edges(),
                graph_wf(self.nodes(), es),
                k <= es.len(),
                forall|j: int| 0 <= j < k ==> !(es[j].from == u && es[j].to == v),
            decreases es.len() - k,
        {
            proof {
                reveal(graph_wf);
            }
            assert(es[k as int] == self.edges@[k as int]@);
            if self.edges[k].from_account == u && self.edges[k].to_account == v {
                assert(edge_index(es, u, v) == k);
                return Some(k);
            }
            k = k + 1;
        }
        None
    }

    /// Whether `add_transaction` can take this transfer: every total it
    /// changes stays within `i64` and every count within `usize`.
    pub fn can_add_transaction(&self, from_account: &str, to_account: &str, amount: i64, timestamp: i64) -> (r: bool)
        requires
            self.wf(),
        ensures
            r == can_add(self.nodes(), self.edges(), from_account@, to_account@, amount, timestamp),
    {
        proof {
            reveal(graph_wf);
        }
        let ghost ns = self.nodes();
        let ghost es = self.edges();
        let from = from_account.to_owned();
        let to = to_account.to_owned();
        let n = self.nodes.len();
        let ghost ns1 = ensure_node(ns, from@, timestamp);
        let ghost ns2 = nodes_with(ns, from@, to@, timestamp);
        // The source node's number and its outflow and count, as they would
        // be once it exists.
        let (fi, out_f, count_f) = match self.find_node(&from) {
            Some(i) => {
                proof {
                    lemma_index_unique(ns, from@, i as int);
                }
                (i, self.nodes[i].total_outflow, self.nodes[i].transaction_count)
            },
            None => (n, 0i64, 0usize),
        };
        proof {
            if fi == n {
                assert(ns1 == ns.push(fresh_node(from@, timestamp)));
                lemma_index_unique(ns1, from@, n as int);
            }
            assert(ns1[fi as int].account == from@);
            assert(ns1[fi as int].outflow == out_f && ns1[fi as int].count == count_f);
        }
        let to_found = self.find_node(&to);
        let to_exists = to_found.is_some();
        // The destination's number (when it exists or is the source), its
        // inflow and its count once the source is debited.
        let same = from == to;
        let (ti, in_t, count_t) = match to_found {
            Some(j) => (j, self.nodes[j].total_inflow, self.nodes[j].transaction_count),
            None => (fi, 0i64, 0usize),
        };
        let ghost ti_g: int = if to_found is Some || same {
            ti as int
        } else {
            ns1.len() as int
        };
        proof {
            if to_found is Some {
                assert(ti == to_found->Some_0);
            }
            if to_found is Some {
                lemma_index_unique(ns, to@, ti as int);
                assert(ns1[ti as int] == ns[ti as int]);
                lemma_index_unique(ns1, to@, ti as int);
                assert(ns2 == ns1);
            } else if same {
                assert(fi == n);
                assert(ns2 == ns1);
            } else {
                assert(ns2 == ns1.push(fresh_node(to@, timestamp)));
                lemma_index_unique(ns2, to@, ns1.len() as int);
                assert(ns2[fi as int] == ns1[fi as int]);
                lemma_index_unique(ns2, from@, fi as int);
            }
            assert(index_of(ns2, from@) == fi);
            assert(index_of(ns2, to@) == ti_g);
        }
        let dest_is_source = to_exists && ti == fi || same;
        let count_t: usize = if dest_is_source {
            if count_f == usize::MAX {
                return false;
            }
            count_f + 1
        } else if to_exists {
            count_t
        } else {
            0
        };
        let in_t: i64 = if to_exists {
            in_t
        } else {
            0
        };
        let fresh: usize = (if fi == n { 1usize } else { 0 }) + (if !to_exists && !same { 1usize } else { 0 });
        if n > usize::MAX - fresh {
            return false;
        }
        assert(ns2.len() == n + fresh);
        let source_ok = (out_f as i128 + amount as i128) >= i64::MIN as i128 && (out_f as i128
            + amount as i128) <= i64::MAX as i128 && count_f < usize::MAX;
        let dest_ok = (in_t as i128 + amount as i128) >= i64::MIN as i128 && (in_t as i128
            + amount as i128) <= i64::MAX as i128 && count_t < usize::MAX;
        if !(source_ok && dest_ok) {
            return false;
        }
        if fi < n && to_exists {
            match self.find_edge(fi, ti) {
                Some(k) => {
                    assert(ti_g == ti);
                    let total = self.edges[k].total_amount as i128 + amount as i128;
                    return total >= i64::MIN as i128 && total <= i64::MAX as i128
                        && self.edges[k].transaction_count < usize::MAX;
                },
                None => {
                    assert(ti_g == ti);
                },
            }
        } else {
            assert(!has_edge(es, fi, ti_g as usize));
        }
        true
    }
}

/// What a transfer keeps: every earlier node keeps its account and its
/// outgoing neighbours; and the source gains the destination as one.
proof fn lemma_transfer_keeps(
    pre: TransactionGraph,
    from: Seq<char>,
    to: Seq<char>,
    amount: i64,
    ts: i64,
    post: TransactionGraph,
)
    requires
        pre.wf(),
        transfer_step(pre, from, to, amount, ts, post),
    ensures
        post.nodes().len() >= pre.nodes().len(),
        forall|k: int|
            0 <= k < pre.nodes().len() ==> (#[trigger] post.nodes()[k]).account
                == pre.nodes()[k].account,
        forall|k: int, v: usize|
            0 <= k < pre.nodes().len() && (#[trigger] pre.nodes()[k].outgoing.contains(v))
                ==> post.nodes()[k].outgoing.contains(v),
        has_account(post.nodes(), from),
        has_account(post.nodes(), to),
        steps_to(post.nodes(), index_of(post.nodes(), from), index_of(post.nodes(), to) as usize),
{
    reveal(graph_wf);
    let ns = pre.nodes();
    let ns1 = ensure_node(ns, from, ts);
    let ns2 = nodes_with(ns, from, to, ts);
    if !has_account(ns, from) {
        assert(ns1[ns.len() as int].account == from);
    }
    assert(has_account(ns1, from));
    if !has_account(ns1, to) {
        assert(ns2[ns1.len() as int].account == to);
    }
    assert(has_account(ns2, to));
    let fi = index_of(ns2, from);
    assert(ns1[index_of(ns1, from)].account == from);
    assert(ns2[index_of(ns1, from)] == ns1[index_of(ns1, from)]);
    assert(has_account(ns2, from));
    let ti = index_of(ns2, to);
    let ns3 = ns2.update(fi, debited(ns2[fi], amount, ts, ti as usize));
    let ns4 = ns3.update(ti, credited(ns3[ti], amount, ts, fi as usize));
    assert(post.nodes() == ns4);
    assert(ns4[fi].account == from);
    assert(ns4[ti].account == to);
    assert(index_of(ns4, from) == fi);
    assert(index_of(ns4, to) == ti);
    assert(ns4[fi].outgoing.contains(ti as usize)) by {
        assert(ns3[fi].outgoing == insert_unique(ns2[fi].outgoing, ti as usize));
        if !ns2[fi].outgoing.contains(ti as usize) {
            assert(ns3[fi].outgoing.last() == ti as usize);
        }
    }
    assert forall|k: int, v: usize|
        0 <= k < ns.len() && (#[trigger] ns[k].outgoing.contains(v)) implies ns4[k].outgoing.contains(v) by {
        assert(ns2[k] == ns[k]);
        let j = choose|j: int| 0 <= j < ns[k].outgoing.len() && ns[k].outgoing[j] == v;
        assert(insert_unique(ns[k].outgoing, ti as usize)[j] == v);
    }
}

proof fn lemma_single_lacks(a: usize, x: usize)
    requires
        a != x,
    ensures
        !seq![a].contains(x),
{
    let s = seq![a];
    assert(s.len() == 1 && s[0] == a);
    if s.contains(x) {
        let j = choose|j: int| 0 <= j < s.len() && s[j] == x;
        assert(j == 0);
    }
}

/// Three transfers A to B, B to C and C to A between distinct accounts,
/// into any graph, leave a cycle through A that the circular-flow detector
/// reports (searching at least three hops).
pub proof fn lemma_triangle_reported(
    g0: TransactionGraph,
    g1: TransactionGraph,
    g2: TransactionGraph,
    g3: TransactionGraph,
    a: Seq<char>,
    b: Seq<char>,
    c: Seq<char>,
    x1: i64,
    x2: i64,
    x3: i64,
    t1: i64,
    t2: i64,
    t3: i64,
    max_hops: int,
    r: Seq<CircularFlowResult>,
)
    requires
        g0.wf(),
        transfer_step(g0, a, b, x1, t1, g1),
        transfer_step(g1, b, c, x2, t2, g2),
        transfer_step(g2, c, a, x3, t3, g3),
        a != b && b != c && a != c,
        max_hops >= 3,
        circular_flows_of(g3.nodes(), g3.edges(), max_hops, r),
    ensures
        exists|k: int|
            0 <= k < r.len() && (#[trigger] r[k]).accounts@.len() > 0 && r[k].accounts@[0]@ == a,
{
    reveal(graph_wf);
    lemma_transfer_keeps(g0, a, b, x1, t1, g1);
    lemma_transfer_keeps(g1, b, c, x2, t2, g2);
    lemma_transfer_keeps(g2, c, a, x3, t3, g3);
    let n1 = g1.nodes();
    let n2 = g2.nodes();
    let ns = g3.nodes();
    let ia = index_of(n1, a);
    let ib = index_of(n1, b);
    let ic = index_of(n2, c);
    // Numbers stay with their accounts.
    assert(n1[ia].account == a && n1[ib].account == b && n2[ic].account == c);
    assert(n2[ia].account == a && n2[ib].account == b);
    assert(ns[ia].account == a && ns[ib].account == b && ns[ic].account == c);
    assert(index_of(n2, b) == ib);
    assert(index_of(ns, c) == ic);
    assert(index_of(ns, a) == ia);
    assert(n1[ia].outgoing.contains(ib as usize));
    assert(n2[ia].outgoing.contains(ib as usize));
    assert(ns[ia].outgoing.contains(ib as usize));
    assert(ns[ib].outgoing.contains(ic as usize));
    assert(ns[ic].outgoing.contains(ia as usize));
    assert(ia != ib && ib != ic && ia != ic);
    assert(0 <= ia < ns.len() && 0 <= ib < ns.len() && 0 <= ic < ns.len());
    let sa = ia as usize;
    let ext = seq![ib as usize, ic as usize, sa];
    assert(is_completion(ns, seq![sa], sa, ext, max_hops)) by {
        assert(seq![sa].last() == sa);
        lemma_single_lacks(sa, ib as usize);
        lemma_single_lacks(sa, ic as usize);
    }
    assert(has_cycle(ns, sa, max_hops));
    let ids = Seq::new(ns.len(), |i: int| i);
    let starts = cycle_starts(ns, ns.len(), max_hops);
    assert(ids[ia] == ia);
    ids.lemma_filter_contains(|u: int| has_cycle(ns, u as usize, max_hops), ia);
    assert(starts.contains(ia));
    let k = choose|k: int| 0 <= k < starts.len() && starts[k] == ia;
    assert(reports_cycle(r[k], ns, g3.edges(), ia, max_hops));
    let p = choose|p: Seq<usize>| #[trigger] circular_result_of(r[k], ns, g3.edges(), ia, p, max_hops);
    assert(p[0] == sa);
    assert(r[k].accounts@[0]@ == ns[p[0] as int].account);
}

/// Number of the positions below `j` of three given ones.
pub open spec fn below_count(j: int, k1: int, k2: int, k3: int) -> int {
    (if k1 < j { 1int } else { 0 }) + (if k2 < j { 1int } else { 0 }) + (if k3 < j { 1int } else { 0 })
}

proof fn lemma_filter_count(
    s: Seq<EdgeView>,
    pred: spec_fn(EdgeView) -> bool,
    j: int,
    k1: int,
    k2: int,
    k3: int,
)
    requires
        0 <= j <= s.len(),
        k1 < k2 < k3,
        pred(s[k1]) && pred(s[k2]) && pred(s[k3]),
        0 <= k1,
        k3 < s.len(),
    ensures
        s.subrange(0, j).filter(pred).len() >= below_count(j, k1, k2, k3),
    decreases j,
{
    reveal(Seq::filter);
    if j > 0 {
        lemma_filter_count(s, pred, j - 1, k1, k2, k3);
        assert(s.subrange(0, j).drop_last() =~= s.subrange(0, j - 1));
        assert(s.subrange(0, j).last() == s[j - 1]);
    }
}

/// An account with three or more out-edges whose average amounts lie
/// within 15% below the reporting threshold is flagged for structuring.
pub proof fn lemma_structuring_flagged(
    g: TransactionGraph,
    u: int,
    k1: int,
    k2: int,
    k3: int,
    r: Seq<StructuringResult>,
)
    requires
        g.wf(),
        0 <= u < g.nodes().len(),
        0 <= k1 < k2 < k3 < g.edges().len(),
        g.edges()[k1].from == u && in_band(g.edges()[k1], g.threshold()),
        g.edges()[k2].from == u && in_band(g.edges()[k2], g.threshold()),
        g.edges()[k3].from == u && in_band(g.edges()[k3], g.threshold()),
        structuring_of(g.nodes(), g.edges(), g.threshold(), r),
    ensures
        exists|k: int| 0 <= k < r.len() && (#[trigger] r[k]).account_id@ == g.nodes()[u].account,
{
    reveal(graph_wf);
    let es = g.edges();
    let t = g.threshold();
    let pred = |e: EdgeView| e.from == u && in_band(e, t);
    lemma_filter_count(es, pred, es.len() as int, k1, k2, k3);
    assert(es.subrange(0, es.len() as int) =~= es);
    assert(band_edges(es, u, t).len() >= 3);
    let ids = Seq::new(g.nodes().len(), |i: int| i);
    assert(ids[u] == u);
    ids.lemma_filter_contains(|v: int| band_edges(es, v, t).len() >= 3, u);
    let flagged = structuring_nodes(g.nodes(), es, t);
    assert(flagged.contains(u));
    let k = choose|k: int| 0 <= k < flagged.len() && flagged[k] == u;
    assert(structuring_result_of(r[k], g.nodes(), es, t, u));
    assert forall|j: int|
        0 <= j < r.len() && (#[trigger] r[j]).account_id@ == g.nodes()[u].account implies flagged[j] == u by {
        let v = flagged[j];
        assert(flagged.contains(v));
        ids.lemma_filter_contains_rev(|w: int| band_edges(es, w, t).len() >= 3, v);
        let q = choose|q: int| 0 <= q < ids.len() && ids[q] == v;
        assert(0 <= v < g.nodes().len());
        assert(structuring_result_of(r[j], g.nodes(), es, t, v));
    }
}

/// An account with 10 distinct sources and 1 destination is reported as a
/// funnel; one with 1 source and 10 destinations as a distributor.
pub proof fn lemma_funnel_and_distributor(g: TransactionGraph, u: int, r: Seq<FunnelAccountResult>)
    requires
        g.wf(),
        0 <= u < g.nodes().len(),
        funnels_of(g.nodes(), r),
    ensures
        g.nodes()[u].incoming.len() == 10 && g.nodes()[u].outgoing.len() == 1 ==> exists|k: int|
            0 <= k < r.len() && (#[trigger] r[k]).account_id@ == g.nodes()[u].account && r[k].pattern
                == SuspiciousPattern::FunnelAccount,
        g.nodes()[u].incoming.len() == 1 && g.nodes()[u].outgoing.len() == 10 ==> exists|k: int|
            0 <= k < r.len() && (#[trigger] r[k]).account_id@ == g.nodes()[u].account && r[k].pattern
                == SuspiciousPattern::Distributor,
{
    reveal(graph_wf);
    let ns = g.nodes();
    let n = ns[u];
    if is_funnel(n) || is_distributor(n) {
        ns.lemma_filter_contains(|m: NodeView| is_funnel(m) || is_distributor(m), u);
        let c = concentrated_nodes(ns);
        assert(c.contains(n));
        let k = choose|k: int| 0 <= k < c.len() && c[k] == n;
        assert(funnel_result_of(r[k], n));
    }
}

} // verus!
