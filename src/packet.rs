//! Packets: the five kinds that travel the mesh, and their models.
use vstd::prelude::*;
use crate::network::{NodeId, RouteView, SourceRoutingHeader};

verus! {

/// Bytes of user data that one fragment carries.
pub const FRAGMENT_DSIZE: usize = 128;

/// The role of a node in the mesh.
#[derive(Clone, Copy, Debug, PartialEq, Eq, Structural)]
pub enum NodeType {
    Client,
    Drone,
    Server,
}

/// Why a packet could not be delivered.
#[derive(Clone, Copy, Debug, PartialEq, Eq, Structural)]
pub enum NackType {
    /// The next hop is not a neighbour of the node named here.
    ErrorInRouting(NodeId),
    /// The route ended at a drone.
    DestinationIsDrone,
    /// The fragment was dropped by the unreliable channel.
    Dropped,
    /// The packet reached the node named here, which the route did not expect.
    UnexpectedRecipient(NodeId),
}

/// A fixed-size chunk of a user message.
#[derive(Clone, Copy, Debug)]
pub struct Fragment {
    pub fragment_index: u64,
    pub total_n_fragments: u64,
    pub length: u8,
    pub data: [u8; FRAGMENT_DSIZE],
}

/// Positive acknowledgement of one fragment.
#[derive(Clone, Copy, Debug, PartialEq, Eq, Structural)]
pub struct Ack {
    pub fragment_index: u64,
}

/// Negative acknowledgement of one fragment.
#[derive(Clone, Copy, Debug, PartialEq, Eq, Structural)]
pub struct Nack {
    pub fragment_index: u64,
    pub nack_type: NackType,
}

/// A discovery probe, with the nodes it has crossed so far.
#[derive(Debug)]
pub struct FloodRequest {
    pub flood_id: u64,
    pub initiator_id: NodeId,
    pub path_trace: Vec<(NodeId, NodeType)>,
}

/// The answer to a discovery probe, carrying the probe's trace.
#[derive(Debug)]
pub struct FloodResponse {
    pub flood_id: u64,
    pub path_trace: Vec<(NodeId, NodeType)>,
}

#[derive(Debug)]
pub enum PacketType {
    MsgFragment(Fragment),
    Ack(Ack),
    Nack(Nack),
    FloodRequest(FloodRequest),
    FloodResponse(FloodResponse),
}

#[derive(Debug)]
pub struct Packet {
    pub pack_type: PacketType,
    pub routing_header: SourceRoutingHeader,
    pub session_id: u64,
}

/// Model of a [`FloodRequest`].
pub struct FloodRequestView {
    pub flood_id: u64,
    pub initiator_id: NodeId,
    pub path_trace: Seq<(NodeId, NodeType)>,
}

/// Model of a [`FloodResponse`].
pub struct FloodResponseView {
    pub flood_id: u64,
    pub path_trace: Seq<(NodeId, NodeType)>,
}

/// Model of a [`PacketType`].
pub enum PacketTypeView {
    MsgFragment(Fragment),
    Ack(Ack),
    Nack(Nack),
    FloodRequest(FloodRequestView),
    FloodResponse(FloodResponseView),
}

/// Model of a [`Packet`].
pub struct PacketView {
    pub pack_type: PacketTypeView,
    pub routing_header: RouteView,
    pub session_id: u64,
}

impl View for FloodRequest {
    type V = FloodRequestView;

    open spec fn view(&self) -> FloodRequestView {
        FloodRequestView {
            flood_id: self.flood_id,
            initiator_id: self.initiator_id,
            path_trace: self.path_trace@,
        }
    }
}

impl View for FloodResponse {
    type V = FloodResponseView;

    open spec fn view(&self) -> FloodResponseView {
        FloodResponseView { flood_id: self.flood_id, path_trace: self.path_trace@ }
    }
}

impl View for PacketType {
    type V = PacketTypeView;

    open spec fn view(&self) -> PacketTypeView {
        match self {
            PacketType::MsgFragment(f) => PacketTypeView::MsgFragment(*f),
            PacketType::Ack(a) => PacketTypeView::Ack(*a),
            PacketType::Nack(n) => PacketTypeView::Nack(*n),
            PacketType::FloodRequest(r) => PacketTypeView::FloodRequest(r@),
            PacketType::FloodResponse(r) => PacketTypeView::FloodResponse(r@),
        }
    }
}

impl View for Packet {
    type V = PacketView;

    open spec fn view(&self) -> PacketView {
        PacketView {
            pack_type: self.pack_type@,
            routing_header: self.routing_header@,
            session_id: self.session_id,
        }
    }
}

/// The node identifiers of a path trace, in order.
pub open spec fn trace_ids(trace: Seq<(NodeId, NodeType)>) -> Seq<NodeId> {
    trace.map_values(|e: (NodeId, NodeType)| e.0)
}

impl FloodRequestView {
    /// The node the request came from: the last one of its trace, or the
    /// initiator when the trace is empty.
    pub open spec fn arrived_from(self) -> NodeId {
        if self.path_trace.len() > 0 {
            self.path_trace.last().0
        } else {
            self.initiator_id
        }
    }

    /// The request once `node` has added itself to the trace.
    pub open spec fn incremented(self, node: NodeId, node_type: NodeType) -> FloodRequestView {
        FloodRequestView { path_trace: self.path_trace.push((node, node_type)), ..self }
    }

    /// The response that travels the trace backwards to the initiator.
    pub open spec fn response(self, session_id: u64) -> PacketView {
        PacketView {
            pack_type: PacketTypeView::FloodResponse(
                FloodResponseView { flood_id: self.flood_id, path_trace: self.path_trace },
            ),
            routing_header: RouteView { hop_index: 0, hops: trace_ids(self.path_trace).reverse() },
            session_id,
        }
    }
}

impl PacketView {
    /// The packet with its route's cursor moved one hop on.
    pub open spec fn advanced(self) -> PacketView {
        PacketView { routing_header: self.routing_header.advanced(), ..self }
    }
}

impl PacketTypeView {
    /// The fragment index the packet carries, 0 for kinds that carry none.
    pub open spec fn fragment_index(self) -> u64 {
        match self {
            PacketTypeView::MsgFragment(f) => f.fragment_index,
            PacketTypeView::Ack(a) => a.fragment_index,
            PacketTypeView::Nack(n) => n.fragment_index,
            _ => 0,
        }
    }

    /// Acknowledgements and flood responses: traffic that is rescued through
    /// the controller rather than nacked.
    pub open spec fn is_control(self) -> bool {
        self is Ack || self is Nack || self is FloodResponse
    }
}

fn copy_trace(trace: &Vec<(NodeId, NodeType)>) -> (r: Vec<(NodeId, NodeType)>)
    ensures
        r@ == trace@,
{
    let mut out: Vec<(NodeId, NodeType)> = Vec::new();
    let mut i: usize = 0;
    while i < trace.len()
        invariant
            i <= trace.len(),
            out@ == trace@.take(i as int),
        decreases trace.len() - i,
    {
        let (id, node_type) = trace[i];
        out.push((id, node_type));
        i = i + 1;
        proof {
            assert(out@ =~= trace@.take(i as int));
        }
    }
    proof {
        assert(trace@.take(trace.len() as int) =~= trace@);
    }
    out
}

impl FloodRequest {
    /// Adds `node` to the end of the trace.
    pub fn increment(&mut self, node: NodeId, node_type: NodeType)
        ensures
            final(self)@ == old(self)@.incremented(node, node_type),
    {
        self.path_trace.push((node, node_type));
    }

    /// A response packet whose route is the trace reversed, cursor on its first hop.
    pub fn generate_response(&self, session_id: u64) -> (r: Packet)
        ensures
            r@ == self@.response(session_id),
    {
        let n = self.path_trace.len();
        let mut hops: Vec<NodeId> = Vec::new();
        let mut i: usize = n;
        while i > 0
            invariant
                i <= n == self.path_trace.len(),
                hops@ == trace_ids(self.path_trace@).skip(i as int).reverse(),
            decreases i,
        {
            i = i - 1;
            let ghost before = hops@;
            hops.push(self.path_trace[i].0);
            proof {
                let ids = trace_ids(self.path_trace@);
                assert(ids.skip(i as int) =~= seq![ids[i as int]] + ids.skip(i + 1));
                assert(ids.skip(i as int).reverse() =~= ids.skip(i + 1).reverse().push(ids[i as int]));
                assert(hops@ =~= before.push(ids[i as int]));
            }
        }
        proof {
            assert(trace_ids(self.path_trace@).skip(0) =~= trace_ids(self.path_trace@));
        }
        Packet {
            pack_type: PacketType::FloodResponse(
                FloodResponse { flood_id: self.flood_id, path_trace: copy_trace(&self.path_trace) },
            ),
            routing_header: SourceRoutingHeader { hop_index: 0, hops },
            session_id,
        }
    }
}

impl Clone for FloodRequest {
    fn clone(&self) -> (r: Self)
        ensures
            r@ == self@,
    {
        FloodRequest {
            flood_id: self.flood_id,
            initiator_id: self.initiator_id,
            path_trace: copy_trace(&self.path_trace),
        }
    }
}

impl Clone for FloodResponse {
    fn clone(&self) -> (r: Self)
        ensures
            r@ == self@,
    {
        FloodResponse { flood_id: self.flood_id, path_trace: copy_trace(&self.path_trace) }
    }
}

impl Clone for PacketType {
    fn clone(&self) -> (r: Self)
        ensures
            r@ == self@,
    {
        match self {
            PacketType::MsgFragment(f) => PacketType::MsgFragment(*f),
            PacketType::Ack(a) => PacketType::Ack(*a),
            PacketType::Nack(n) => PacketType::Nack(*n),
            PacketType::FloodRequest(r) => PacketType::FloodRequest(r.clone()),
            PacketType::FloodResponse(r) => PacketType::FloodResponse(r.clone()),
        }
    }
}

impl Clone for Packet {
    fn clone(&self) -> (r: Self)
        ensures
            r@ == self@,
    {
        Packet {
            pack_type: self.pack_type.clone(),
            routing_header: self.routing_header.clone(),
            session_id: self.session_id,
        }
    }
}

impl Packet {
    /// The fragment index the packet carries, 0 for kinds that carry none.
    pub fn get_fragment_index(&self) -> (r: u64)
        ensures
            r == self@.pack_type.fragment_index(),
    {
        match &self.pack_type {
            PacketType::MsgFragment(f) => f.fragment_index,
            PacketType::Ack(a) => a.fragment_index,
            PacketType::Nack(n) => n.fragment_index,
            _ => 0,
        }
    }
}

} // verus!
