//! Node identifiers and the source-routing header.
use vstd::prelude::*;

verus! {

/// Identifier of a node of the mesh.
pub type NodeId = u8;

/// A source route: the whole list of hops and a cursor into it.
#[derive(Debug)]
pub struct SourceRoutingHeader {
    pub hop_index: usize,
    pub hops: Vec<NodeId>,
}

/// Mathematical model of a [`SourceRoutingHeader`].
pub struct RouteView {
    pub hop_index: int,
    pub hops: Seq<NodeId>,
}

impl View for SourceRoutingHeader {
    type V = RouteView;

    open spec fn view(&self) -> RouteView {
        RouteView { hop_index: self.hop_index as int, hops: self.hops@ }
    }
}

impl RouteView {
    /// An empty hop list is the "no route" sentinel.
    pub open spec fn is_empty(self) -> bool {
        self.hops.len() == 0
    }

    pub open spec fn current_hop(self) -> Option<NodeId> {
        if 0 <= self.hop_index < self.hops.len() {
            Some(self.hops[self.hop_index])
        } else {
            None
        }
    }

    pub open spec fn next_hop(self) -> Option<NodeId> {
        if 0 <= self.hop_index + 1 < self.hops.len() {
            Some(self.hops[self.hop_index + 1])
        } else {
            None
        }
    }

    pub open spec fn is_last_hop(self) -> bool {
        self.hop_index == self.hops.len() - 1
    }

    /// The route with its cursor moved one hop on.
    pub open spec fn advanced(self) -> RouteView {
        RouteView { hop_index: self.hop_index + 1, hops: self.hops }
    }

    /// The hops strictly before the cursor (all of them when the cursor is past the end).
    pub open spec fn visited(self) -> Seq<NodeId> {
        if self.hop_index <= self.hops.len() {
            self.hops.take(self.hop_index)
        } else {
            self.hops
        }
    }

    /// The route back from `here` to the first hop, along the hops already visited.
    pub open spec fn return_route(self, here: NodeId) -> RouteView {
        RouteView { hop_index: 0, hops: seq![here] + self.visited().reverse() }
    }
}

/// `path` with its loops cut out: whenever a node comes back, the path is
/// cut back to that node's earlier visit, so that each node stays once.
pub open spec fn without_loops(path: Seq<NodeId>) -> Seq<NodeId>
    decreases path.len(),
{
    if path.len() == 0 {
        path
    } else {
        let kept = without_loops(path.drop_last());
        let node = path.last();
        if kept.contains(node) {
            kept.take(kept.index_of(node) + 1)
        } else {
            kept.push(node)
        }
    }
}

proof fn lemma_take_no_duplicates(s: Seq<NodeId>, n: int)
    requires
        s.no_duplicates(),
        0 <= n <= s.len(),
    ensures
        s.take(n).no_duplicates(),
{
}

/// Cutting loops keeps the first and the last node, leaves no node twice,
/// and keeps only nodes of the path.
pub proof fn lemma_without_loops(path: Seq<NodeId>)
    ensures
        without_loops(path).no_duplicates(),
        path.len() > 0 ==> without_loops(path).len() > 0 && without_loops(path)[0] == path[0]
            && without_loops(path).last() == path.last(),
        without_loops(path).len() <= path.len(),
        forall|i: int| 0 <= i < without_loops(path).len() ==> path.contains(#[trigger] without_loops(path)[i]),
    decreases path.len(),
{
    if path.len() > 0 {
        let rest = path.drop_last();
        lemma_without_loops(rest);
        let kept = without_loops(rest);
        let node = path.last();
        if kept.contains(node) {
            let k = kept.index_of(node);
            assert(0 <= k < kept.len() && kept[k] == node);
            lemma_take_no_duplicates(kept, k + 1);
            assert forall|i: int| 0 <= i < without_loops(path).len() implies path.contains(
                #[trigger] without_loops(path)[i],
            ) by {
                assert(rest.contains(kept[i]));
                let j = choose|j: int| 0 <= j < rest.len() && rest[j] == kept[i];
                assert(path[j] == kept[i]);
            }
            if rest.len() == 0 {
                assert(kept.len() == 0);
            }
        } else {
            assert forall|i: int| 0 <= i < without_loops(path).len() implies path.contains(
                #[trigger] without_loops(path)[i],
            ) by {
                if i < kept.len() {
                    assert(rest.contains(kept[i]));
                    let j = choose|j: int| 0 <= j < rest.len() && rest[j] == kept[i];
                    assert(path[j] == kept[i]);
                } else {
                    assert(path[path.len() - 1] == node);
                }
            }
            if rest.len() == 0 {
                assert(kept.len() == 0);
                assert(without_loops(path) =~= seq![node]);
            }
        }
    }
}

impl SourceRoutingHeader {
    pub fn new(hops: Vec<NodeId>, hop_index: usize) -> (r: Self)
        ensures
            r@ == (RouteView { hop_index: hop_index as int, hops: hops@ }),
    {
        SourceRoutingHeader { hop_index, hops }
    }

    pub fn is_empty(&self) -> (r: bool)
        ensures
            r == self@.is_empty(),
    {
        self.hops.len() == 0
    }

    pub fn current_hop(&self) -> (r: Option<NodeId>)
        ensures
            r == self@.current_hop(),
    {
        if self.hop_index < self.hops.len() {
            Some(self.hops[self.hop_index])
        } else {
            None
        }
    }

    pub fn next_hop(&self) -> (r: Option<NodeId>)
        ensures
            r == self@.next_hop(),
    {
        if self.hop_index < self.hops.len() && self.hop_index + 1 < self.hops.len() {
            Some(self.hops[self.hop_index + 1])
        } else {
            None
        }
    }

    pub fn is_last_hop(&self) -> (r: bool)
        ensures
            r == self@.is_last_hop(),
    {
        self.hops.len() > 0 && self.hop_index == self.hops.len() - 1
    }

    pub fn increase_hop_index(&mut self)
        requires
            old(self).hop_index < usize::MAX,
        ensures
            final(self)@ == old(self)@.advanced(),
    {
        self.hop_index = self.hop_index + 1;
    }

    pub fn reset_hop_index(&mut self)
        ensures
            final(self)@ == (RouteView { hop_index: 0, hops: old(self)@.hops }),
    {
        self.hop_index = 0;
    }

    /// The route back from `here` to the first hop: `here`, then the hops
    /// already visited, latest first; the cursor stands on `here`.
    pub fn return_route(&self, here: NodeId) -> (r: SourceRoutingHeader)
        ensures
            r@ == self@.return_route(here),
    {
        let end: usize = if self.hop_index <= self.hops.len() {
            self.hop_index
        } else {
            self.hops.len()
        };
        let mut hops: Vec<NodeId> = Vec::new();
        hops.push(here);
        let mut i: usize = end;
        while i > 0
            invariant
                i <= end <= self.hops.len(),
                self@.visited() == self.hops@.take(end as int),
                hops@ == seq![here] + self.hops@.take(end as int).skip(i as int).reverse(),
            decreases i,
        {
            i = i - 1;
            let ghost before = hops@;
            hops.push(self.hops[i]);
            proof {
                let vis = self.hops@.take(end as int);
                assert(vis.skip(i as int) =~= seq![vis[i as int]] + vis.skip(i + 1));
                assert(vis.skip(i as int).reverse() =~= vis.skip(i + 1).reverse().push(vis[i as int]));
                assert(hops@ =~= before.push(vis[i as int]));
            }
        }
        proof {
            assert(self.hops@.take(end as int).skip(0) =~= self.hops@.take(end as int));
        }
        let mut r = SourceRoutingHeader { hop_index: 0, hops };
        r.reset_hop_index();
        r
    }

    /// The same route with its loops cut out (see [`without_loops`]); the
    /// cursor stands on the first hop.
    pub fn without_loops(&self) -> (r: SourceRoutingHeader)
        ensures
            r@ == (RouteView { hop_index: 0, hops: without_loops(self@.hops) }),
    {
        let mut kept: Vec<NodeId> = Vec::new();
        let mut i: usize = 0;
        while i < self.hops.len()
            invariant
                i <= self.hops.len(),
                kept@ == without_loops(self.hops@.take(i as int)),
            decreases self.hops.len() - i,
        {
            let node = self.hops[i];
            proof {
                assert(self.hops@.take(i + 1).drop_last() =~= self.hops@.take(i as int));
                lemma_without_loops(self.hops@.take(i as int));
            }
            let mut j: usize = 0;
            while j < kept.len() && kept[j] != node
                invariant
                    j <= kept.len(),
                    forall|k: int| 0 <= k < j ==> kept@[k] != node,
                decreases kept.len() - j,
            {
                j = j + 1;
            }
            if j < kept.len() {
                proof {
                    assert(kept@.contains(node));
                    let k = kept@.index_of(node);
                    assert(kept@.no_duplicates());
                    assert(k == j);
                }
                kept.truncate(j + 1);
            } else {
                kept.push(node);
            }
            i = i + 1;
        }
        proof {
            assert(self.hops@.take(self.hops.len() as int) =~= self.hops@);
        }
        SourceRoutingHeader { hop_index: 0, hops: kept }
    }
}

impl Clone for SourceRoutingHeader {
    fn clone(&self) -> (r: Self)
        ensures
            r@ == self@,
    {
        let mut hops: Vec<NodeId> = Vec::new();
        let mut i: usize = 0;
        while i < self.hops.len()
            invariant
                i <= self.hops.len(),
                hops@ == self.hops@.take(i as int),
            decreases self.hops.len() - i,
        {
            hops.push(self.hops[i]);
            i = i + 1;
            proof {
                assert(hops@ =~= self.hops@.take(i as int));
            }
        }
        proof {
            assert(self.hops@.take(self.hops.len() as int) =~= self.hops@);
        }
        SourceRoutingHeader { hop_index: self.hop_index, hops }
    }
}

} // verus!
