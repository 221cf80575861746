//! The seed's per-cluster bookkeeping.
//!
//! Every cluster is watched for observability: when each node started,
//! when it ended, and whether the whole cluster has finished. Events
//! arrive as [`Message`]s — one serial task owns the state, so each
//! message is applied atomically. A tracing span accompanies each node
//! and each cluster in the running system; here a span is modelled by
//! whether it is still open, and the rules say exactly when it closes:
//! a node's span closes when the node ends, the cluster's span closes
//! with the last expected node.

use vstd::prelude::*;

verus! {

/// When a node started and, once known, when it ended. Times are
/// milliseconds on the caller's clock.
#[derive(Clone, Copy, Debug, PartialEq, Eq, Structural)]
pub struct NodeState {
    pub start_time: u64,
    pub end_time: Option<u64>,
}

/// A node's state together with its tracing span, modelled by whether
/// the span is still open.
#[derive(Clone, Copy, Debug, PartialEq, Eq, Structural)]
pub struct TracedNodeState {
    pub state: NodeState,
    pub span_open: bool,
}

/// An event about a cluster.
pub enum Message {
    /// A node announced itself: when, how large it believes the cluster
    /// to be, and under which virtual IP.
    BindNodeStart { time: u64, cluster_size: u32, virt_ip: String },
    /// A node's long-lived binding stream closed.
    BindNodeEnd { time: u64, virt_ip: String },
    /// A server started binding under this virtual IP.
    BindServerStart { virt_ip: String },
    /// The server binding was answered.
    BindServerResponse { virt_ip: String },
    /// A client of this node started binding towards a target.
    BindClientStart { src_virt_ip: String, tgt_virt_ip: String },
    /// That client binding completed.
    BindClientEnd { src_virt_ip: String, tgt_virt_ip: String },
}

/// The same event with its strings viewed as character sequences.
pub ghost enum MessageView {
    BindNodeStart { time: u64, cluster_size: u32, virt_ip: Seq<char> },
    BindNodeEnd { time: u64, virt_ip: Seq<char> },
    BindServerStart { virt_ip: Seq<char> },
    BindServerResponse { virt_ip: Seq<char> },
    BindClientStart { src_virt_ip: Seq<char>, tgt_virt_ip: Seq<char> },
    BindClientEnd { src_virt_ip: Seq<char>, tgt_virt_ip: Seq<char> },
}

impl View for Message {
    type V = MessageView;

    open spec fn view(&self) -> MessageView {
        match self {
            Message::BindNodeStart { time, cluster_size, virt_ip } => MessageView::BindNodeStart {
                time: *time,
                cluster_size: *cluster_size,
                virt_ip: virt_ip@,
            },
            Message::BindNodeEnd { time, virt_ip } => MessageView::BindNodeEnd {
                time: *time,
                virt_ip: virt_ip@,
            },
            Message::BindServerStart { virt_ip } => MessageView::BindServerStart {
                virt_ip: virt_ip@,
            },
            Message::BindServerResponse { virt_ip } => MessageView::BindServerResponse {
                virt_ip: virt_ip@,
            },
            Message::BindClientStart { src_virt_ip, tgt_virt_ip } => MessageView::BindClientStart {
                src_virt_ip: src_virt_ip@,
                tgt_virt_ip: tgt_virt_ip@,
            },
            Message::BindClientEnd { src_virt_ip, tgt_virt_ip } => MessageView::BindClientEnd {
                src_virt_ip: src_virt_ip@,
                tgt_virt_ip: tgt_virt_ip@,
            },
        }
    }
}

/// The state of one cluster, as specifications see it.
pub ghost struct ClusterModel {
    pub expected_size: u32,
    pub nodes: Map<Seq<char>, TracedNodeState>,
    pub finished_nodes: u32,
    pub span_open: bool,
}

/// A cluster that has just been created for `cluster_size` nodes.
pub open spec fn spec_new_cluster(cluster_size: u32) -> ClusterModel {
    ClusterModel {
        expected_size: cluster_size,
        nodes: Map::empty(),
        finished_nodes: 0,
        span_open: true,
    }
}

/// Whether the cluster has finished: as many nodes ended as expected.
pub open spec fn spec_finished(m: ClusterModel) -> bool {
    m.finished_nodes == m.expected_size
}

/// Close the cluster span once the cluster has finished.
pub open spec fn spec_close_if_finished(m: ClusterModel) -> ClusterModel {
    if spec_finished(m) {
        ClusterModel { span_open: false, ..m }
    } else {
        m
    }
}

/// The effect of one message on a cluster.
///
/// A node start records the node unless its IP is already bound (then the
/// event is only logged). A node end stamps the end time, closes the
/// node's span and counts the node as finished — even when the IP was
/// never recorded, as the running system does. The remaining events only
/// log inside the node's span and change nothing. Every message ends with
/// the finished check that closes the cluster span.
pub open spec fn spec_cluster_update(m: ClusterModel, msg: MessageView) -> ClusterModel {
    spec_close_if_finished(
        match msg {
            MessageView::BindNodeStart { time, cluster_size, virt_ip } => {
                if m.nodes.contains_key(virt_ip) {
                    m
                } else {
                    ClusterModel {
                        nodes: m.nodes.insert(
                            virt_ip,
                            TracedNodeState {
                                state: NodeState { start_time: time, end_time: None },
                                span_open: true,
                            },
                        ),
                        ..m
                    }
                }
            },
            MessageView::BindNodeEnd { time, virt_ip } => {
                let counted = ClusterModel {
                    finished_nodes: (m.finished_nodes + 1) as u32,
                    ..m
                };
                if m.nodes.contains_key(virt_ip) {
                    ClusterModel {
                        nodes: m.nodes.insert(
                            virt_ip,
                            TracedNodeState {
                                state: NodeState {
                                    start_time: m.nodes[virt_ip].state.start_time,
                                    end_time: Some(time),
                                },
                                span_open: false,
                            },
                        ),
                        ..counted
                    }
                } else {
                    counted
                }
            },
            _ => m,
        },
    )
}

/// Whether a message is worth an error log against this cluster: a node
/// start whose declared size disagrees with the recorded one or whose IP
/// is already bound, or any event for an IP that was never bound.
pub open spec fn spec_update_logs_error(m: ClusterModel, msg: MessageView) -> bool {
    match msg {
        MessageView::BindNodeStart { cluster_size, virt_ip, .. } => cluster_size
            != m.expected_size || m.nodes.contains_key(virt_ip),
        MessageView::BindNodeEnd { virt_ip, .. } => !m.nodes.contains_key(virt_ip),
        MessageView::BindServerStart { virt_ip } => !m.nodes.contains_key(virt_ip),
        MessageView::BindServerResponse { virt_ip } => !m.nodes.contains_key(virt_ip),
        MessageView::BindClientStart { src_virt_ip, .. } => !m.nodes.contains_key(src_virt_ip),
        MessageView::BindClientEnd { src_virt_ip, .. } => !m.nodes.contains_key(src_virt_ip),
    }
}

struct NodeEntry {
    ip: String,
    node: TracedNodeState,
}

/// The nodes of one cluster and how many of them have finished.
pub struct ClusterState {
    pub expected_size: u32,
    nodes: Vec<NodeEntry>,
    nodes_map: Ghost<Map<Seq<char>, TracedNodeState>>,
    pub finished_nodes: u32,
}

/// A cluster's state together with its tracing span, modelled by whether
/// the span is still open.
pub struct TracedClusterState {
    pub state: ClusterState,
    pub span_open: bool,
}

impl ClusterState {
    /// How many nodes the cluster declared itself to hold.
    pub closed spec fn spec_expected_size(&self) -> u32 {
        self.expected_size
    }

    /// How many nodes have ended.
    pub closed spec fn spec_finished_nodes(&self) -> u32 {
        self.finished_nodes
    }

    /// The recorded nodes, by virtual IP.
    pub closed spec fn nodes(&self) -> Map<Seq<char>, TracedNodeState> {
        self.nodes_map@
    }

    /// How many node entries are recorded.
    pub closed spec fn spec_node_count(&self) -> nat {
        self.nodes@.len()
    }

    /// The entries describe exactly the node map: each entry is bound,
    /// no two entries share an IP, every bound IP has an entry, and the
    /// entry count is the number of bound IPs.
    pub closed spec fn wf(&self) -> bool {
        &&& forall|i: int|
            0 <= i < self.nodes@.len() ==> self.nodes_map@.contains_key(
                (#[trigger] self.nodes@[i]).ip@,
            ) && self.nodes_map@[self.nodes@[i].ip@] == self.nodes@[i].node
        &&& forall|i: int, j: int|
            0 <= i < self.nodes@.len() && 0 <= j < self.nodes@.len() && i != j
                ==> (#[trigger] self.nodes@[i]).ip@ != (#[trigger] self.nodes@[j]).ip@
        &&& forall|k: Seq<char>|
            self.nodes_map@.contains_key(k) ==> exists|i: int|
                0 <= i < self.nodes@.len() && (#[trigger] self.nodes@[i]).ip@ == k
        &&& self.nodes_map@.dom().finite()
        &&& self.nodes_map@.dom().len() == self.nodes@.len()
    }

    /// The recorded-entry count that the summaries report is exactly the
    /// number of distinct virtual IPs bound in [`Self::nodes`].
    pub proof fn lemma_node_count_matches_nodes(&self)
        requires
            self.wf(),
        ensures
            self.spec_node_count() == self.nodes().dom().len(),
            self.nodes().dom().finite(),
    {
    }

    /// An empty cluster expecting `cluster_size` nodes.
    pub fn new(cluster_size: u32) -> (r: Self)
        ensures
            r.wf(),
            r.spec_expected_size() == cluster_size,
            r.nodes() == Map::<Seq<char>, TracedNodeState>::empty(),
            r.spec_finished_nodes() == 0,
            r.spec_node_count() == 0,
    {
        let r = ClusterState {
            expected_size: cluster_size,
            nodes: Vec::new(),
            nodes_map: Ghost(Map::empty()),
            finished_nodes: 0,
        };
        proof {
            assert(r.nodes_map@.dom() =~= Set::<Seq<char>>::empty());
        }
        r
    }

    /// Find the index of the entry for `ip`, if any.
    fn find(&self, ip: &String) -> (r: Option<usize>)
        requires
            self.wf(),
        ensures
            match r {
                Some(i) => 0 <= i < self.nodes@.len() && self.nodes@[i as int].ip@ == ip@
                    && self.nodes().contains_key(ip@),
                None => !self.nodes().contains_key(ip@),
            },
    {
        let mut i: usize = 0;
        while i < self.nodes.len()
            invariant
                self.wf(),
                0 <= i <= self.nodes@.len(),
                forall|j: int| 0 <= j < i ==> (#[trigger] self.nodes@[j]).ip@ != ip@,
            decreases self.nodes@.len() - i,
        {
            if self.nodes[i].ip == *ip {
                return Some(i);
            }
            i += 1;
        }
        proof {
            if self.nodes().contains_key(ip@) {
                let w = choose|w: int|
                    0 <= w < self.nodes@.len() && (#[trigger] self.nodes@[w]).ip@ == ip@;
                assert(false);
            }
        }
        None
    }

    /// Record a node under `virt_ip` with an open span, unless the IP is
    /// already bound — then nothing changes and the caller logs the
    /// double bind as an error.
    pub fn add_traced_node(&mut self, virt_ip: &String, state: NodeState) -> (already_bound: bool)
        requires
            old(self).wf(),
        ensures
            final(self).wf(),
            final(self).spec_expected_size() == old(self).spec_expected_size(),
            final(self).spec_finished_nodes() == old(self).spec_finished_nodes(),
            already_bound == old(self).nodes().contains_key(virt_ip@),
            if already_bound {
                final(self).nodes() == old(self).nodes()
            } else {
                final(self).nodes() == old(self).nodes().insert(
                    virt_ip@,
                    TracedNodeState { state, span_open: true },
                )
            },
    {
        match self.find(virt_ip) {
            Some(_) => true,
            None => {
                let ghost prior = *self;
                self.nodes.push(NodeEntry {
                    ip: virt_ip.clone(),
                    node: TracedNodeState { state, span_open: true },
                });
                proof {
                    self.nodes_map@ = self.nodes_map@.insert(
                        virt_ip@,
                        TracedNodeState { state, span_open: true },
                    );
                    self.lemma_wf_after_push(prior, virt_ip@);
                }
                false
            },
        }
    }

    /// Stamp the end time of the node bound to `virt_ip` and close its
    /// span; reports whether the node was known — an end for an unknown
    /// IP changes nothing and is logged as an error by the caller.
    pub fn end_node(&mut self, virt_ip: &String, time: u64) -> (found: bool)
        requires
            old(self).wf(),
        ensures
            final(self).wf(),
            final(self).spec_expected_size() == old(self).spec_expected_size(),
            final(self).spec_finished_nodes() == old(self).spec_finished_nodes(),
            found == old(self).nodes().contains_key(virt_ip@),
            if found {
                final(self).nodes() == old(self).nodes().insert(
                    virt_ip@,
                    TracedNodeState {
                        state: NodeState {
                            start_time: old(self).nodes()[virt_ip@].state.start_time,
                            end_time: Some(time),
                        },
                        span_open: false,
                    },
                )
            } else {
                final(self).nodes() == old(self).nodes()
            },
    {
        match self.find(virt_ip) {
            Some(i) => {
                let ghost prior = *self;
                let start_time = self.nodes[i].node.state.start_time;
                self.nodes[i].node = TracedNodeState {
                    state: NodeState { start_time, end_time: Some(time) },
                    span_open: false,
                };
                proof {
                    self.nodes_map@ = self.nodes_map@.insert(
                        virt_ip@,
                        TracedNodeState {
                            state: NodeState { start_time, end_time: Some(time) },
                            span_open: false,
                        },
                    );
                    self.lemma_wf_after_update(prior, i as int, virt_ip@);
                }
                true
            },
            None => false,
        }
    }

    /// Whether a node is bound to `virt_ip` (the events that only log do
    /// so inside that node's span).
    pub fn has_node(&self, virt_ip: &String) -> (r: bool)
        requires
            self.wf(),
        ensures
            r == self.nodes().contains_key(virt_ip@),
    {
        self.find(virt_ip).is_some()
    }

    /// Whether as many nodes have finished as were expected.
    pub fn finished(&self) -> (r: bool)
        ensures
            r == (self.spec_finished_nodes() == self.spec_expected_size()),
    {
        self.finished_nodes == self.expected_size
    }

    /// Updating the node at one entry, and the map at its key, keeps the
    /// state well formed.
    proof fn lemma_wf_after_update(&self, prior: Self, i: int, k: Seq<char>)
        requires
            prior.wf(),
            0 <= i < prior.nodes@.len(),
            prior.nodes@[i].ip@ == k,
            self.nodes@.len() == prior.nodes@.len(),
            self.nodes@[i].ip@ == k,
            self.nodes_map@ == prior.nodes_map@.insert(k, self.nodes@[i].node),
            forall|j: int|
                0 <= j < prior.nodes@.len() && j != i ==> self.nodes@[j] == prior.nodes@[j],
        ensures
            self.wf(),
    {
        assert(prior.nodes_map@.contains_key(k));
        assert(self.nodes_map@.dom() =~= prior.nodes_map@.dom());
        assert forall|m: int| 0 <= m < self.nodes@.len() implies self.nodes_map@.contains_key(
            (#[trigger] self.nodes@[m]).ip@,
        ) && self.nodes_map@[self.nodes@[m].ip@] == self.nodes@[m].node by {
            if m != i {
                assert(prior.nodes@[m].ip@ != k);
            }
        }
        assert forall|k2: Seq<char>| self.nodes_map@.contains_key(k2) implies exists|w: int|
            0 <= w < self.nodes@.len() && (#[trigger] self.nodes@[w]).ip@ == k2 by {
            if k2 == k {
                assert(self.nodes@[i].ip@ == k2);
            } else {
                let w = choose|w: int|
                    0 <= w < prior.nodes@.len() && (#[trigger] prior.nodes@[w]).ip@ == k2;
                assert(self.nodes@[w].ip@ == k2);
            }
        }
    }

    /// Appending an entry for an unbound IP, and binding it in the map,
    /// keeps the state well formed.
    proof fn lemma_wf_after_push(&self, prior: Self, k: Seq<char>)
        requires
            prior.wf(),
            !prior.nodes_map@.contains_key(k),
            self.nodes@.len() == prior.nodes@.len() + 1,
            self.nodes@[prior.nodes@.len() as int].ip@ == k,
            self.nodes_map@ == prior.nodes_map@.insert(
                k,
                self.nodes@[prior.nodes@.len() as int].node,
            ),
            forall|j: int| 0 <= j < prior.nodes@.len() ==> self.nodes@[j] == prior.nodes@[j],
        ensures
            self.wf(),
    {
        let n = prior.nodes@.len() as int;
        assert(self.nodes_map@.dom() =~= prior.nodes_map@.dom().insert(k));
        assert(self.nodes_map@.dom().len() == prior.nodes_map@.dom().len() + 1);
        assert forall|m: int| 0 <= m < self.nodes@.len() implies self.nodes_map@.contains_key(
            (#[trigger] self.nodes@[m]).ip@,
        ) && self.nodes_map@[self.nodes@[m].ip@] == self.nodes@[m].node by {
            if m != n {
                assert(prior.nodes_map@.contains_key(prior.nodes@[m].ip@));
                assert(prior.nodes@[m].ip@ != k);
            }
        }
        assert forall|a: int, b: int|
            0 <= a < self.nodes@.len() && 0 <= b < self.nodes@.len() && a != b implies (
        #[trigger] self.nodes@[a]).ip@ != (#[trigger] self.nodes@[b]).ip@ by {
            if a == n {
                assert(prior.nodes_map@.contains_key(prior.nodes@[b].ip@));
            } else if b == n {
                assert(prior.nodes_map@.contains_key(prior.nodes@[a].ip@));
            }
        }
        assert forall|k2: Seq<char>| self.nodes_map@.contains_key(k2) implies exists|w: int|
            0 <= w < self.nodes@.len() && (#[trigger] self.nodes@[w]).ip@ == k2 by {
            if k2 == k {
                assert(self.nodes@[n].ip@ == k2);
            } else {
                let w = choose|w: int|
                    0 <= w < prior.nodes@.len() && (#[trigger] prior.nodes@[w]).ip@ == k2;
                assert(self.nodes@[w].ip@ == k2);
            }
        }
    }
}

impl TracedClusterState {
    /// The cluster as specifications see it.
    pub open spec fn model(&self) -> ClusterModel {
        ClusterModel {
            expected_size: self.state.spec_expected_size(),
            nodes: self.state.nodes(),
            finished_nodes: self.state.spec_finished_nodes(),
            span_open: self.span_open,
        }
    }

    /// The entries behind the model are well formed.
    pub open spec fn wf(&self) -> bool {
        self.state.wf()
    }

    /// A cluster that has just been created for `cluster_size` nodes,
    /// with an open span.
    pub fn new(cluster_size: u32) -> (r: Self)
        ensures
            r.wf(),
            r.model() == spec_new_cluster(cluster_size),
    {
        let r = TracedClusterState { state: ClusterState::new(cluster_size), span_open: true };
        proof {
            assert(r.model().nodes =~= spec_new_cluster(cluster_size).nodes);
            assert(r.model() == spec_new_cluster(cluster_size));
        }
        r
    }

    /// Apply one message, exactly as [`spec_cluster_update`] describes.
    ///
    /// Returns whether something worth an error log happened: a node
    /// start whose declared cluster size disagrees with the recorded one
    /// or whose IP is already bound, or an event for an IP that was never
    /// bound.
    pub fn update(&mut self, message: Message) -> (log_error: bool)
        requires
            old(self).wf(),
            message is BindNodeEnd ==> old(self).state.spec_finished_nodes() < u32::MAX,
        ensures
            final(self).wf(),
            final(self).model() == spec_cluster_update(old(self).model(), message@),
            log_error == spec_update_logs_error(old(self).model(), message@),
    {
        let log_error = match &message {
            Message::BindNodeStart { time, cluster_size, virt_ip } => {
                let size_mismatch = *cluster_size != self.state.expected_size;
                let already = self.state.add_traced_node(
                    virt_ip,
                    NodeState { start_time: *time, end_time: None },
                );
                size_mismatch || already
            },
            Message::BindNodeEnd { time, virt_ip } => {
                let found = self.state.end_node(virt_ip, *time);
                self.state.finished_nodes = self.state.finished_nodes + 1;
                !found
            },
            Message::BindServerStart { virt_ip } => !self.state.has_node(virt_ip),
            Message::BindServerResponse { virt_ip } => !self.state.has_node(virt_ip),
            Message::BindClientStart { src_virt_ip, .. } => !self.state.has_node(src_virt_ip),
            Message::BindClientEnd { src_virt_ip, .. } => !self.state.has_node(src_virt_ip),
        };
        if self.state.finished() {
            self.span_open = false;
        }
        log_error
    }

    /// Whether the cluster has finished.
    pub fn finished(&self) -> (r: bool)
        ensures
            r == spec_finished(self.model()),
    {
        self.state.finished()
    }
}


/// How many nodes a cluster expected, has seen start, and has seen end.
#[derive(Clone, Copy, Debug, PartialEq, Eq, Structural)]
pub struct NodeSummary {
    pub expected_size: u32,
    pub nodes: u32,
    pub finished_nodes: u32,
}

/// The spread of node start and end times over one cluster.
#[derive(Clone, Copy, Debug, PartialEq, Eq, Structural)]
pub enum IntervalSummary {
    /// At least one node was seen: the earliest and latest start, and the
    /// earliest and latest end among the nodes that have ended (`None`
    /// while no node has).
    Observed {
        first_node_start: u64,
        last_node_start: u64,
        first_node_end: Option<u64>,
        last_node_end: Option<u64>,
    },
    /// No node was ever recorded.
    Empty,
}

/// Everything the seed reports about a cluster on demand.
#[derive(Clone, Copy, Debug, PartialEq, Eq, Structural)]
pub struct Summary {
    pub interval: IntervalSummary,
    pub node: NodeSummary,
}

/// Whether `r` correctly summarises the spread of start and end times
/// over the nodes `m` (with `count` of them recorded): the bounds are
/// attained and bounding, and an end is reported exactly when some node
/// has ended.
pub open spec fn spec_interval_summary_ok(
    m: Map<Seq<char>, TracedNodeState>,
    count: nat,
    r: IntervalSummary,
) -> bool {
    match r {
        IntervalSummary::Empty => count == 0,
        IntervalSummary::Observed {
            first_node_start,
            last_node_start,
            first_node_end,
            last_node_end,
        } => {
            &&& count > 0
            &&& exists|k: Seq<char>|
                #[trigger] m.contains_key(k) && m[k].state.start_time == first_node_start
            &&& exists|k: Seq<char>|
                #[trigger] m.contains_key(k) && m[k].state.start_time == last_node_start
            &&& forall|k: Seq<char>|
                #[trigger] m.contains_key(k) ==> first_node_start <= m[k].state.start_time
                    <= last_node_start
            &&& match first_node_end {
                None => forall|k: Seq<char>|
                    #[trigger] m.contains_key(k) ==> m[k].state.end_time is None,
                Some(fe) => (exists|k: Seq<char>|
                    #[trigger] m.contains_key(k) && m[k].state.end_time == Some(fe)) && forall|
                    k: Seq<char>,
                |
                    #[trigger] m.contains_key(k) && m[k].state.end_time is Some ==> fe <= m[
                        k
                    ].state.end_time->0,
            }
            &&& match last_node_end {
                None => forall|k: Seq<char>|
                    #[trigger] m.contains_key(k) ==> m[k].state.end_time is None,
                Some(le) => (exists|k: Seq<char>|
                    #[trigger] m.contains_key(k) && m[k].state.end_time == Some(le)) && forall|
                    k: Seq<char>,
                |
                    #[trigger] m.contains_key(k) && m[k].state.end_time is Some ==> m[
                        k
                    ].state.end_time->0 <= le,
            }
        },
    }
}

impl ClusterState {
    /// The earliest and latest node start and end times.
    pub fn interval_summary(&self) -> (r: IntervalSummary)
        requires
            self.wf(),
        ensures
            spec_interval_summary_ok(self.nodes(), self.nodes().dom().len(), r),
    {
        if self.nodes.len() == 0 {
            return IntervalSummary::Empty;
        }
        let first = &self.nodes[0];
        let mut first_start: u64 = first.node.state.start_time;
        let mut last_start: u64 = first.node.state.start_time;
        let mut first_end: Option<u64> = first.node.state.end_time;
        let mut last_end: Option<u64> = first.node.state.end_time;
        let mut i: usize = 1;
        while i < self.nodes.len()
            invariant
                self.wf(),
                1 <= i <= self.nodes@.len(),
                exists|j: int|
                    0 <= j < i && (#[trigger] self.nodes@[j]).node.state.start_time == first_start,
                exists|j: int|
                    0 <= j < i && (#[trigger] self.nodes@[j]).node.state.start_time == last_start,
                forall|j: int|
                    0 <= j < i ==> first_start <= (#[trigger] self.nodes@[j]).node.state.start_time
                        <= last_start,
                match first_end {
                    None => forall|j: int|
                        0 <= j < i ==> (#[trigger] self.nodes@[j]).node.state.end_time is None,
                    Some(fe) => (exists|j: int|
                        0 <= j < i && (#[trigger] self.nodes@[j]).node.state.end_time == Some(fe))
                        && forall|j: int|
                        0 <= j < i && (#[trigger] self.nodes@[j]).node.state.end_time is Some
                            ==> fe <= self.nodes@[j].node.state.end_time->0,
                },
                match last_end {
                    None => forall|j: int|
                        0 <= j < i ==> (#[trigger] self.nodes@[j]).node.state.end_time is None,
                    Some(le) => (exists|j: int|
                        0 <= j < i && (#[trigger] self.nodes@[j]).node.state.end_time == Some(le))
                        && forall|j: int|
                        0 <= j < i && (#[trigger] self.nodes@[j]).node.state.end_time is Some
                            ==> self.nodes@[j].node.state.end_time->0 <= le,
                },
            decreases self.nodes@.len() - i,
        {
            let node = &self.nodes[i].node;
            if node.state.start_time < first_start {
                first_start = node.state.start_time;
            }
            if node.state.start_time > last_start {
                last_start = node.state.start_time;
            }
            match node.state.end_time {
                Some(e) => {
                    first_end = match first_end {
                        Some(fe) => if e < fe {
                            Some(e)
                        } else {
                            Some(fe)
                        },
                        None => Some(e),
                    };
                    last_end = match last_end {
                        Some(le) => if e > le {
                            Some(e)
                        } else {
                            Some(le)
                        },
                        None => Some(e),
                    };
                },
                None => {},
            }
            i += 1;
        }
        proof {
            let m = self.nodes();
            assert forall|k: Seq<char>| #[trigger] m.contains_key(k) implies first_start <= m[
                k
            ].state.start_time <= last_start by {
                let w = choose|w: int|
                    0 <= w < self.nodes@.len() && (#[trigger] self.nodes@[w]).ip@ == k;
            }
            assert forall|k: Seq<char>|
                #[trigger] m.contains_key(k) && m[k].state.end_time is Some implies ({
                    &&& first_end is Some
                    &&& last_end is Some
                }) by {
                let w = choose|w: int|
                    0 <= w < self.nodes@.len() && (#[trigger] self.nodes@[w]).ip@ == k;
            }
            if first_end is None {
                assert forall|k: Seq<char>| #[trigger] m.contains_key(k) implies m[
                    k
                ].state.end_time is None by {
                    let w = choose|w: int|
                        0 <= w < self.nodes@.len() && (#[trigger] self.nodes@[w]).ip@ == k;
                }
            }
            if first_end is Some {
                assert forall|k: Seq<char>|
                    #[trigger] m.contains_key(k) && m[k].state.end_time is Some implies first_end->0
                    <= m[k].state.end_time->0 <= last_end->0 by {
                    let w = choose|w: int|
                        0 <= w < self.nodes@.len() && (#[trigger] self.nodes@[w]).ip@ == k;
                }
            }
            let w0 = choose|j: int|
                0 <= j < self.nodes@.len() && (#[trigger] self.nodes@[j]).node.state.start_time
                    == first_start;
            assert(m.contains_key(self.nodes@[w0].ip@));
            let w1 = choose|j: int|
                0 <= j < self.nodes@.len() && (#[trigger] self.nodes@[j]).node.state.start_time
                    == last_start;
            assert(m.contains_key(self.nodes@[w1].ip@));
            if first_end is Some {
                let w2 = choose|j: int|
                    0 <= j < self.nodes@.len() && (#[trigger] self.nodes@[j]).node.state.end_time
                        == Some(first_end->0);
                assert(m.contains_key(self.nodes@[w2].ip@));
                let w3 = choose|j: int|
                    0 <= j < self.nodes@.len() && (#[trigger] self.nodes@[j]).node.state.end_time
                        == Some(last_end->0);
                assert(m.contains_key(self.nodes@[w3].ip@));
            }
        }
        IntervalSummary::Observed {
            first_node_start: first_start,
            last_node_start: last_start,
            first_node_end: first_end,
            last_node_end: last_end,
        }
    }

    /// How many node entries are recorded.
    pub fn node_count(&self) -> (r: usize)
        ensures
            r == self.spec_node_count(),
    {
        self.nodes.len()
    }

    /// The node counts of this cluster.
    pub fn node_summary(&self) -> (r: NodeSummary)
        requires
            self.wf(),
            self.nodes().dom().len() <= u32::MAX,
        ensures
            r.expected_size == self.spec_expected_size(),
            r.nodes == self.nodes().dom().len(),
            r.finished_nodes == self.spec_finished_nodes(),
    {
        NodeSummary {
            expected_size: self.expected_size,
            nodes: self.nodes.len() as u32,
            finished_nodes: self.finished_nodes,
        }
    }

    /// Both summaries at once.
    pub fn summary(&self) -> (r: Summary)
        requires
            self.wf(),
            self.nodes().dom().len() <= u32::MAX,
        ensures
            r.node.expected_size == self.spec_expected_size(),
            r.node.nodes == self.nodes().dom().len(),
            r.node.finished_nodes == self.spec_finished_nodes(),
            spec_interval_summary_ok(self.nodes(), self.nodes().dom().len(), r.interval),
    {
        Summary { interval: self.interval_summary(), node: self.node_summary() }
    }
}


struct ClusterEntry {
    id: String,
    cluster: TracedClusterState,
}

/// All clusters the seed has heard of, by cluster id.
pub struct ClusterMap {
    entries: Vec<ClusterEntry>,
    contents: Ghost<Map<Seq<char>, TracedClusterState>>,
}

impl ClusterMap {
    /// The recorded clusters, by id.
    pub closed spec fn clusters(&self) -> Map<Seq<char>, TracedClusterState> {
        self.contents@
    }

    /// The entries describe exactly the cluster map, and every recorded
    /// cluster is well formed.
    pub closed spec fn wf(&self) -> bool {
        &&& forall|i: int|
            0 <= i < self.entries@.len() ==> self.contents@.contains_key(
                (#[trigger] self.entries@[i]).id@,
            ) && self.contents@[self.entries@[i].id@] == self.entries@[i].cluster
        &&& forall|i: int, j: int|
            0 <= i < self.entries@.len() && 0 <= j < self.entries@.len() && i != j
                ==> (#[trigger] self.entries@[i]).id@ != (#[trigger] self.entries@[j]).id@
        &&& forall|k: Seq<char>|
            self.contents@.contains_key(k) ==> exists|i: int|
                0 <= i < self.entries@.len() && (#[trigger] self.entries@[i]).id@ == k
        &&& forall|i: int| 0 <= i < self.entries@.len() ==> (#[trigger] self.entries@[i]).cluster.wf()
    }

    /// An empty cluster map.
    pub fn new() -> (r: Self)
        ensures
            r.wf(),
            r.clusters() == Map::<Seq<char>, TracedClusterState>::empty(),
    {
        ClusterMap { entries: Vec::new(), contents: Ghost(Map::empty()) }
    }

    /// Find the index of the entry for `id`, if any.
    fn find(&self, id: &String) -> (r: Option<usize>)
        requires
            self.wf(),
        ensures
            match r {
                Some(i) => 0 <= i < self.entries@.len() && self.entries@[i as int].id@ == id@
                    && self.clusters().contains_key(id@),
                None => !self.clusters().contains_key(id@),
            },
    {
        let mut i: usize = 0;
        while i < self.entries.len()
            invariant
                self.wf(),
                0 <= i <= self.entries@.len(),
                forall|j: int| 0 <= j < i ==> (#[trigger] self.entries@[j]).id@ != id@,
            decreases self.entries@.len() - i,
        {
            if self.entries[i].id == *id {
                return Some(i);
            }
            i += 1;
        }
        proof {
            if self.clusters().contains_key(id@) {
                let w = choose|w: int|
                    0 <= w < self.entries@.len() && (#[trigger] self.entries@[w]).id@ == id@;
                assert(false);
            }
        }
        None
    }

    /// Route one message to its cluster.
    ///
    /// A node start creates the cluster when it is unknown, and replaces
    /// it when the one recorded had already finished (a cluster id coming
    /// back to life); the message is then applied to that cluster. Any
    /// other message is applied to the recorded cluster, and dropped —
    /// logged as an error by the caller — when the id is unknown.
    pub fn forward(&mut self, cluster_id: &String, message: Message) -> (dropped: bool)
        requires
            old(self).wf(),
            message is BindNodeEnd && old(self).clusters().contains_key(cluster_id@)
                ==> old(self).clusters()[cluster_id@].state.spec_finished_nodes() < u32::MAX,
        ensures
            final(self).wf(),
            ({
                let old_m = old(self).clusters();
                let new_m = final(self).clusters();
                let k = cluster_id@;
                match message@ {
                    MessageView::BindNodeStart { cluster_size, .. } => {
                        let base = if old_m.contains_key(k) && !spec_finished(old_m[k].model()) {
                            old_m[k].model()
                        } else {
                            spec_new_cluster(cluster_size)
                        };
                        &&& !dropped
                        &&& new_m.contains_key(k)
                        &&& new_m[k].model() == spec_cluster_update(base, message@)
                        &&& forall|k2: Seq<char>|
                            k2 != k ==> (#[trigger] new_m.contains_key(k2)) == old_m.contains_key(
                                k2,
                            ) && (old_m.contains_key(k2) ==> new_m[k2] == old_m[k2])
                    },
                    _ => {
                        if old_m.contains_key(k) {
                            &&& !dropped
                            &&& new_m.contains_key(k)
                            &&& new_m[k].model() == spec_cluster_update(old_m[k].model(), message@)
                            &&& forall|k2: Seq<char>|
                                k2 != k ==> (#[trigger] new_m.contains_key(k2))
                                    == old_m.contains_key(k2) && (old_m.contains_key(k2)
                                    ==> new_m[k2] == old_m[k2])
                        } else {
                            dropped && new_m == old_m
                        }
                    },
                }
            }),
    {
        let found = self.find(cluster_id);
        let is_node_start = matches!(message, Message::BindNodeStart { .. });
        match found {
            Some(i) => {
                let ghost prior = *self;
                if is_node_start && self.entries[i].cluster.finished() {
                    let cluster_size = match &message {
                        Message::BindNodeStart { cluster_size, .. } => *cluster_size,
                        _ => 0,
                    };
                    self.entries[i].cluster = TracedClusterState::new(cluster_size);
                }
                self.entries[i].cluster.update(message);
                proof {
                    self.contents@ = self.contents@.insert(
                        cluster_id@,
                        self.entries@[i as int].cluster,
                    );
                    self.lemma_wf_after_update(prior, i as int, cluster_id@);
                }
                false
            },
            None => {
                if is_node_start {
                    let cluster_size = match &message {
                        Message::BindNodeStart { cluster_size, .. } => *cluster_size,
                        _ => 0,
                    };
                    let mut cluster = TracedClusterState::new(cluster_size);
                    cluster.update(message);
                    self.entries.push(ClusterEntry { id: cluster_id.clone(), cluster });
                    proof {
                        let ghost prior = *old(self);
                        self.contents@ = self.contents@.insert(
                            cluster_id@,
                            self.entries@[self.entries@.len() - 1].cluster,
                        );
                        self.lemma_wf_after_push(prior, cluster_id@);
                    }
                    false
                } else {
                    true
                }
            },
        }
    }

    /// The summary of one cluster, if it is known.
    pub fn get_summary(&self, cluster_id: &String) -> (r: Option<Summary>)
        requires
            self.wf(),
        ensures
            (r is Some) == (self.clusters().contains_key(cluster_id@) && self.clusters()[
                cluster_id@
            ].state.nodes().dom().len() <= u32::MAX),
            match r {
                Some(s) => {
                    let c = self.clusters()[cluster_id@];
                    &&& s.node.expected_size == c.state.spec_expected_size()
                    &&& s.node.nodes == c.state.nodes().dom().len()
                    &&& s.node.finished_nodes == c.state.spec_finished_nodes()
                    &&& spec_interval_summary_ok(
                        c.state.nodes(),
                        c.state.nodes().dom().len(),
                        s.interval,
                    )
                },
                None => true,
            },
    {
        match self.find(cluster_id) {
            Some(i) => {
                let cluster = &self.entries[i].cluster;
                if cluster.state.node_count() <= u32::MAX as usize {
                    Some(cluster.state.summary())
                } else {
                    None
                }
            },
            None => None,
        }
    }

    /// Updating the cluster at one entry, and the map at its key, keeps
    /// the map well formed.
    proof fn lemma_wf_after_update(&self, prior: Self, i: int, k: Seq<char>)
        requires
            prior.wf(),
            0 <= i < prior.entries@.len(),
            prior.entries@[i].id@ == k,
            self.entries@.len() == prior.entries@.len(),
            self.entries@[i].id@ == k,
            self.entries@[i].cluster.wf(),
            self.contents@ == prior.contents@.insert(k, self.entries@[i].cluster),
            forall|j: int|
                0 <= j < prior.entries@.len() && j != i ==> self.entries@[j] == prior.entries@[j],
        ensures
            self.wf(),
    {
        assert forall|m: int| 0 <= m < self.entries@.len() implies self.contents@.contains_key(
            (#[trigger] self.entries@[m]).id@,
        ) && self.contents@[self.entries@[m].id@] == self.entries@[m].cluster by {
            if m != i {
                assert(prior.entries@[m].id@ != k);
            }
        }
        assert forall|k2: Seq<char>| self.contents@.contains_key(k2) implies exists|w: int|
            0 <= w < self.entries@.len() && (#[trigger] self.entries@[w]).id@ == k2 by {
            if k2 == k {
                assert(self.entries@[i].id@ == k2);
            } else {
                let w = choose|w: int|
                    0 <= w < prior.entries@.len() && (#[trigger] prior.entries@[w]).id@ == k2;
                assert(self.entries@[w].id@ == k2);
            }
        }
    }

    /// Appending an entry for an unknown id, and binding it in the map,
    /// keeps the map well formed.
    proof fn lemma_wf_after_push(&self, prior: Self, k: Seq<char>)
        requires
            prior.wf(),
            !prior.contents@.contains_key(k),
            self.entries@.len() == prior.entries@.len() + 1,
            self.entries@[prior.entries@.len() as int].id@ == k,
            self.entries@[prior.entries@.len() as int].cluster.wf(),
            self.contents@ == prior.contents@.insert(
                k,
                self.entries@[prior.entries@.len() as int].cluster,
            ),
            forall|j: int| 0 <= j < prior.entries@.len() ==> self.entries@[j] == prior.entries@[j],
        ensures
            self.wf(),
    {
        let n = prior.entries@.len() as int;
        assert forall|m: int| 0 <= m < self.entries@.len() implies self.contents@.contains_key(
            (#[trigger] self.entries@[m]).id@,
        ) && self.contents@[self.entries@[m].id@] == self.entries@[m].cluster by {
            if m != n {
                assert(prior.contents@.contains_key(prior.entries@[m].id@));
                assert(prior.entries@[m].id@ != k);
            }
        }
        assert forall|a: int, b: int|
            0 <= a < self.entries@.len() && 0 <= b < self.entries@.len() && a != b implies (
        #[trigger] self.entries@[a]).id@ != (#[trigger] self.entries@[b]).id@ by {
            if a == n {
                assert(prior.contents@.contains_key(prior.entries@[b].id@));
            } else if b == n {
                assert(prior.contents@.contains_key(prior.entries@[a].id@));
            }
        }
        assert forall|k2: Seq<char>| self.contents@.contains_key(k2) implies exists|w: int|
            0 <= w < self.entries@.len() && (#[trigger] self.entries@[w]).id@ == k2 by {
            if k2 == k {
                assert(self.entries@[n].id@ == k2);
            } else {
                let w = choose|w: int|
                    0 <= w < prior.entries@.len() && (#[trigger] prior.entries@[w]).id@ == k2;
                assert(self.entries@[w].id@ == k2);
            }
        }
    }
}

} // verus!
