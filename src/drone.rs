//! The drone's packet-handling state machine.
//!
//! A [`DroneCore`] holds what a drone decides with: its identifier, the
//! identifiers of its neighbours, whether it is still flying, and the floods
//! it has already seen. For every packet and command it returns the
//! [`Action`]s to perform, in order: events for the controller, and packets
//! for neighbours.
use vstd::prelude::*;
use crate::network::{without_loops, NodeId, RouteView, SourceRoutingHeader};
use crate::packet::{
    FloodRequest, FloodRequestView, Nack, NackType, NodeType, Packet, PacketType, PacketTypeView,
    PacketView,
};

verus! {

/// What the drone does with a packet.
#[derive(Clone, Copy, Debug, PartialEq, Eq, Structural)]
pub enum Verdict {
    /// Send it on to this neighbour.
    Forward(NodeId),
    /// Send a negative acknowledgement of this kind back along the route.
    Nack(NackType),
    /// Run the flood protocol.
    FloodRequest,
    /// Nothing.
    Ignore,
    /// Hand it to the controller, as its next hop cannot be reached.
    SendToController,
}

/// An event reported to the controller.
#[derive(Debug)]
pub enum DroneEvent {
    /// The packet, as the drone received it, was sent on.
    PacketSent(Packet),
    /// The drone dropped a fragment; carries the nack it sends back for it.
    PacketDropped(Packet),
    /// A control packet whose next hop cannot be reached.
    ControllerShortcut(Packet),
}

/// One thing for the surroundings of the drone to do.
#[derive(Debug)]
pub enum Action {
    /// Report an event to the controller.
    Notify(DroneEvent),
    /// Put a packet on the channel to a neighbour.
    Send(NodeId, Packet),
}

/// A command from the controller.
#[derive(Clone, Copy, Debug, PartialEq, Eq, Structural)]
pub enum DroneCommand {
    /// A channel to this neighbour was installed or replaced.
    AddSender(NodeId),
    /// The channel to this neighbour was removed.
    RemoveSender(NodeId),
    /// Shut down.
    Crash,
}

/// Model of a [`DroneEvent`].
pub enum EventView {
    PacketSent(PacketView),
    PacketDropped(PacketView),
    ControllerShortcut(PacketView),
}

/// Model of an [`Action`].
pub enum ActionView {
    Notify(EventView),
    Send(NodeId, PacketView),
}

impl View for DroneEvent {
    type V = EventView;

    open spec fn view(&self) -> EventView {
        match self {
            DroneEvent::PacketSent(p) => EventView::PacketSent(p@),
            DroneEvent::PacketDropped(p) => EventView::PacketDropped(p@),
            DroneEvent::ControllerShortcut(p) => EventView::ControllerShortcut(p@),
        }
    }
}

impl View for Action {
    type V = ActionView;

    open spec fn view(&self) -> ActionView {
        match self {
            Action::Notify(e) => ActionView::Notify(e@),
            Action::Send(to, p) => ActionView::Send(*to, p@),
        }
    }
}

/// The models of a list of actions.
pub open spec fn actions_view(actions: Seq<Action>) -> Seq<ActionView> {
    actions.map_values(|a: Action| a@)
}

/// The drone's decision state.
pub struct DroneCore {
    id: NodeId,
    /// Kept in the order the channels were installed, which fixes the order
    /// in which a flood is handed on; a hash set would leave it open.
    neighbours: Vec<NodeId>,
    active: bool,
    crashed: bool,
    /// A list: vstd specifies hash-set lookups only for keys of one
    /// primitive type, and a flood is keyed by a pair.
    flood_history: Vec<(NodeId, u64)>,
}

/// Model of a [`DroneCore`].
pub struct DroneView {
    pub id: NodeId,
    /// Neighbours, in the order in which their channels were installed.
    pub neighbours: Seq<NodeId>,
    pub active: bool,
    /// Set by a crash, for good: a crashed drone never flies again.
    pub crashed: bool,
    /// The floods seen so far, as (initiator, flood id).
    pub flood_history: Set<(NodeId, u64)>,
}

impl View for DroneCore {
    type V = DroneView;

    closed spec fn view(&self) -> DroneView {
        DroneView {
            id: self.id,
            neighbours: self.neighbours@,
            active: self.active,
            crashed: self.crashed,
            flood_history: self.flood_history@.to_set(),
        }
    }
}

impl DroneView {
    /// Each neighbour is listed once.
    pub open spec fn wf(self) -> bool {
        self.neighbours.no_duplicates()
    }
}

/// The classifier: the first rule that matches decides. `dropped` is the
/// outcome of the drop coin, which only a fragment bound for a reachable
/// neighbour consults.
pub open spec fn verdict(s: DroneView, p: PacketView, dropped: bool) -> Verdict {
    let route = p.routing_header;
    if p.pack_type is FloodRequest {
        Verdict::FloodRequest
    } else if route.is_empty() {
        Verdict::Ignore
    } else if route.current_hop() != Some(s.id) {
        Verdict::Nack(NackType::UnexpectedRecipient(s.id))
    } else if route.is_last_hop() {
        if p.pack_type is Nack {
            Verdict::Ignore
        } else {
            Verdict::Nack(NackType::DestinationIsDrone)
        }
    } else {
        let next = route.hops[route.hop_index + 1];
        if s.neighbours.contains(next) {
            if p.pack_type is MsgFragment && dropped {
                Verdict::Nack(NackType::Dropped)
            } else {
                Verdict::Forward(next)
            }
        } else if p.pack_type.is_control() {
            Verdict::SendToController
        } else {
            Verdict::Nack(NackType::ErrorInRouting(next))
        }
    }
}

/// A fragment at this drone with a reachable next hop: the packets for
/// which the drop coin is tossed.
pub open spec fn coin_decides(s: DroneView, p: PacketView) -> bool {
    let route = p.routing_header;
    &&& p.pack_type is MsgFragment
    &&& route.current_hop() == Some(s.id)
    &&& !route.is_last_hop()
    &&& s.neighbours.contains(route.hops[route.hop_index + 1])
}

/// A packet handed on to `to`: announced to the controller as received, then
/// sent with its cursor moved on.
pub open spec fn forward_actions(p: PacketView, to: NodeId) -> Seq<ActionView> {
    seq![ActionView::Notify(EventView::PacketSent(p)), ActionView::Send(to, p.advanced())]
}

/// The negative acknowledgement of `p` that node `here` sends back.
pub open spec fn nack_packet(here: NodeId, p: PacketView, kind: NackType) -> PacketView {
    PacketView {
        pack_type: PacketTypeView::Nack(
            Nack { fragment_index: p.pack_type.fragment_index(), nack_type: kind },
        ),
        routing_header: p.routing_header.return_route(here),
        session_id: p.session_id,
    }
}

/// What becomes of a packet that the drone built itself and routes from its
/// own position: handed on, rescued through the controller, or dropped.
pub open spec fn reply_actions(s: DroneView, q: PacketView) -> Seq<ActionView> {
    match verdict(s, q, false) {
        Verdict::Forward(to) => forward_actions(q, to),
        Verdict::SendToController => seq![ActionView::Notify(EventView::ControllerShortcut(q))],
        _ => Seq::empty(),
    }
}

/// The report to the controller that goes with a nack of `kind` for `p`:
/// a dropped fragment is reported with the nack sent back for it.
pub open spec fn drop_notice(here: NodeId, p: PacketView, kind: NackType) -> Seq<ActionView> {
    if kind == NackType::Dropped {
        seq![ActionView::Notify(EventView::PacketDropped(nack_packet(here, p, kind)))]
    } else {
        Seq::empty()
    }
}

/// The actions for a packet that is not a flood request.
pub open spec fn unicast_actions(s: DroneView, p: PacketView, dropped: bool) -> Seq<ActionView> {
    match verdict(s, p, dropped) {
        Verdict::Forward(to) => forward_actions(p, to),
        Verdict::Nack(kind) => drop_notice(s.id, p, kind) + reply_actions(
            s,
            nack_packet(s.id, p, kind),
        ),
        Verdict::SendToController => seq![ActionView::Notify(EventView::ControllerShortcut(p))],
        _ => Seq::empty(),
    }
}

/// The identity of a flood: its initiator and its number.
pub open spec fn flood_key(r: FloodRequestView) -> (NodeId, u64) {
    (r.initiator_id, r.flood_id)
}

/// `p` handed on to each of `neighbours` in order, but for `from`.
pub open spec fn flood_forwards(neighbours: Seq<NodeId>, from: NodeId, p: PacketView) -> Seq<
    ActionView,
>
    decreases neighbours.len(),
{
    if neighbours.len() == 0 {
        Seq::empty()
    } else {
        let earlier = flood_forwards(neighbours.drop_last(), from, p);
        if neighbours.last() == from {
            earlier
        } else {
            earlier + forward_actions(p, neighbours.last())
        }
    }
}

/// The response of drone `s` to a flood request it has seen before: the
/// trace, this drone included, reversed and with its loops cut out.
pub open spec fn flood_response(s: DroneView, r: FloodRequestView, session_id: u64) -> PacketView {
    let response = r.incremented(s.id, NodeType::Drone).response(session_id);
    PacketView {
        routing_header: RouteView {
            hop_index: 0,
            hops: without_loops(response.routing_header.hops),
        },
        ..response
    }
}

/// The actions for a flood request: answer a flood seen before, else hand
/// the request, this drone added to its trace, to every neighbour but the one
/// it came from.
pub open spec fn flood_actions(
    s: DroneView,
    route: RouteView,
    session_id: u64,
    r: FloodRequestView,
) -> Seq<ActionView> {
    if s.flood_history.contains(flood_key(r)) {
        unicast_actions(s, flood_response(s, r, session_id), false)
    } else {
        let onward = PacketView {
            pack_type: PacketTypeView::FloodRequest(r.incremented(s.id, NodeType::Drone)),
            routing_header: route,
            session_id,
        };
        flood_forwards(s.neighbours, r.arrived_from(), onward)
    }
}

/// The actions for any packet; a crashed drone treats every packet as it
/// treats those still queued at the crash.
pub open spec fn packet_actions(s: DroneView, p: PacketView, dropped: bool) -> Seq<ActionView> {
    if s.crashed {
        drain_actions(s, p)
    } else {
        match p.pack_type {
            PacketTypeView::FloodRequest(r) => flood_actions(s, p.routing_header, p.session_id, r),
            _ => unicast_actions(s, p, dropped),
        }
    }
}

/// The state after a packet: only a flood request reaching a drone that has
/// not crashed changes it, by recording its flood.
pub open spec fn after_packet(s: DroneView, p: PacketView) -> DroneView {
    match p.pack_type {
        PacketTypeView::FloodRequest(r) if !s.crashed => DroneView {
            flood_history: s.flood_history.insert(flood_key(r)),
            ..s
        },
        _ => s,
    }
}

/// A packet the drone can handle without its cursor overflowing: a flood
/// request is handed on with its cursor moved, whatever the cursor is.
pub open spec fn routable(p: PacketView) -> bool {
    p.pack_type is FloodRequest ==> p.routing_header.hop_index < usize::MAX
}

/// The state after a command.
pub open spec fn after_command(s: DroneView, c: DroneCommand) -> DroneView {
    match c {
        DroneCommand::AddSender(id) => DroneView {
            neighbours: if s.neighbours.contains(id) {
                s.neighbours
            } else {
                s.neighbours.push(id)
            },
            ..s
        },
        DroneCommand::RemoveSender(id) => DroneView {
            neighbours: s.neighbours.filter(|n: NodeId| n != id),
            ..s
        },
        DroneCommand::Crash => DroneView { active: false, crashed: true, ..s },
    }
}

/// The actions for a packet still queued when the drone crashed: a fragment
/// is nacked as a routing error at this drone, a flood request is dropped,
/// and control traffic is handled as usual.
pub open spec fn drain_actions(s: DroneView, p: PacketView) -> Seq<ActionView> {
    match p.pack_type {
        PacketTypeView::MsgFragment(_) => reply_actions(
            s,
            nack_packet(s.id, p, NackType::ErrorInRouting(s.id)),
        ),
        PacketTypeView::FloodRequest(_) => Seq::empty(),
        _ => unicast_actions(s, p, false),
    }
}

fn append_actions(actions: &mut Vec<Action>, more: Vec<Action>)
    ensures
        actions_view(final(actions)@) == actions_view(old(actions)@) + actions_view(more@),
{
    let mut more = more;
    let ghost first = actions@;
    let ghost second = more@;
    actions.append(&mut more);
    proof {
        assert(actions_view(actions@) =~= actions_view(first) + actions_view(second));
    }
}

impl DroneCore {
    /// A drone that is not flying yet, with the given neighbours and no flood seen.
    pub fn new(id: NodeId, neighbours: Vec<NodeId>) -> (r: Self)
        requires
            neighbours@.no_duplicates(),
        ensures
            r@ == (DroneView {
                id,
                neighbours: neighbours@,
                active: false,
                crashed: false,
                flood_history: Set::empty(),
            }),
            r@.wf(),
    {
        let r = DroneCore {
            id,
            neighbours,
            active: false,
            crashed: false,
            flood_history: Vec::new(),
        };
        proof {
            assert(r.flood_history@.to_set() =~= Set::empty());
        }
        r
    }

    pub fn id(&self) -> (r: NodeId)
        ensures
            r == self@.id,
    {
        self.id
    }

    pub fn is_active(&self) -> (r: bool)
        ensures
            r == self@.active,
    {
        self.active
    }

    pub fn has_crashed(&self) -> (r: bool)
        ensures
            r == self@.crashed,
    {
        self.crashed
    }

    /// Whether a channel to `node` is installed.
    pub fn has_neighbour(&self, node: NodeId) -> (r: bool)
        ensures
            r == self@.neighbours.contains(node),
    {
        let mut i: usize = 0;
        while i < self.neighbours.len()
            invariant
                i <= self.neighbours.len(),
                forall|k: int| 0 <= k < i ==> self.neighbours@[k] != node,
            decreases self.neighbours.len() - i,
        {
            if self.neighbours[i] == node {
                return true;
            }
            i = i + 1;
        }
        false
    }

    /// Classifies a packet (see [`verdict`]); `dropped` is the drop coin.
    pub fn classify(&self, packet: &Packet, dropped: bool) -> (r: Verdict)
        ensures
            r == verdict(self@, packet@, dropped),
            r is Forward ==> packet.routing_header.hop_index + 1 < packet.routing_header.hops.len(),
    {
        let route = &packet.routing_header;
        if let PacketType::FloodRequest(_) = &packet.pack_type {
            Verdict::FloodRequest
        } else if route.is_empty() {
            Verdict::Ignore
        } else if route.hop_index >= route.hops.len() || route.hops[route.hop_index] != self.id {
            Verdict::Nack(NackType::UnexpectedRecipient(self.id))
        } else if route.is_last_hop() {
            if let PacketType::Nack(_) = &packet.pack_type {
                Verdict::Ignore
            } else {
                Verdict::Nack(NackType::DestinationIsDrone)
            }
        } else {
            let next = route.hops[route.hop_index + 1];
            if self.has_neighbour(next) {
                match &packet.pack_type {
                    PacketType::MsgFragment(_) => {
                        if dropped {
                            Verdict::Nack(NackType::Dropped)
                        } else {
                            Verdict::Forward(next)
                        }
                    },
                    _ => Verdict::Forward(next),
                }
            } else {
                match &packet.pack_type {
                    PacketType::Ack(_) | PacketType::Nack(_) | PacketType::FloodResponse(_) => {
                        Verdict::SendToController
                    },
                    _ => Verdict::Nack(NackType::ErrorInRouting(next)),
                }
            }
        }
    }

    /// Marks the drone as flying, unless it has crashed.
    pub fn start(&mut self)
        ensures
            final(self)@ == (DroneView { active: !old(self)@.crashed, ..old(self)@ }),
    {
        self.active = !self.crashed;
    }

    /// Marks the drone as crashed, for good.
    pub fn stop(&mut self)
        ensures
            final(self)@ == (DroneView { active: false, crashed: true, ..old(self)@ }),
    {
        self.active = false;
        self.crashed = true;
    }

    /// Whether the flood of `initiator_id` numbered `flood_id` was seen.
    pub fn has_seen(&self, initiator_id: NodeId, flood_id: u64) -> (r: bool)
        ensures
            r == self@.flood_history.contains((initiator_id, flood_id)),
    {
        let mut i: usize = 0;
        while i < self.flood_history.len()
            invariant
                i <= self.flood_history.len(),
                forall|k: int| 0 <= k < i ==> self.flood_history@[k] != (initiator_id, flood_id),
            decreases self.flood_history.len() - i,
        {
            let (a, b) = self.flood_history[i];
            if a == initiator_id && b == flood_id {
                proof {
                    assert(self.flood_history@[i as int] == (initiator_id, flood_id));
                }
                return true;
            }
            i = i + 1;
        }
        false
    }

    /// Announces `packet` to the controller, then sends it to `to` with its
    /// cursor moved on.
    fn forward(packet: Packet, to: NodeId) -> (r: Vec<Action>)
        requires
            packet.routing_header.hop_index < usize::MAX,
        ensures
            actions_view(r@) == forward_actions(packet@, to),
    {
        let ghost received = packet@;
        let sent = packet.clone();
        let mut packet = packet;
        packet.routing_header.increase_hop_index();
        let mut r: Vec<Action> = Vec::new();
        r.push(Action::Notify(DroneEvent::PacketSent(sent)));
        r.push(Action::Send(to, packet));
        proof {
            assert(actions_view(r@) =~= forward_actions(received, to));
        }
        r
    }

    /// Routes a packet that this drone built from its own position.
    fn route_reply(&self, packet: Packet) -> (r: Vec<Action>)
        ensures
            actions_view(r@) == reply_actions(self@, packet@),
    {
        match self.classify(&packet, false) {
            Verdict::Forward(to) => Self::forward(packet, to),
            Verdict::SendToController => {
                let mut r: Vec<Action> = Vec::new();
                r.push(Action::Notify(DroneEvent::ControllerShortcut(packet)));
                proof {
                    assert(actions_view(r@) =~= reply_actions(self@, packet@));
                }
                r
            },
            _ => {
                let r: Vec<Action> = Vec::new();
                proof {
                    assert(actions_view(r@) =~= Seq::empty());
                }
                r
            },
        }
    }

    /// Sends a packet of `packet_type` back from this drone along the hops
    /// that `current_route` has visited.
    fn send_back(
        &self,
        packet_type: PacketType,
        current_route: &SourceRoutingHeader,
        session_id: u64,
    ) -> (r: Vec<Action>)
        ensures
            actions_view(r@) == reply_actions(
                self@,
                PacketView {
                    pack_type: packet_type@,
                    routing_header: current_route@.return_route(self@.id),
                    session_id,
                },
            ),
    {
        let new_route = current_route.return_route(self.id);
        let new_packet = Packet { pack_type: packet_type, routing_header: new_route, session_id };
        self.route_reply(new_packet)
    }

    /// Handles a packet that is not a flood request.
    fn unicast(&self, packet: Packet, dropped: bool) -> (r: Vec<Action>)
        requires
            !(packet@.pack_type is FloodRequest),
        ensures
            actions_view(r@) == unicast_actions(self@, packet@, dropped),
    {
        match self.classify(&packet, dropped) {
            Verdict::Forward(to) => Self::forward(packet, to),
            Verdict::Nack(kind) => {
                let nack = Nack { fragment_index: packet.get_fragment_index(), nack_type: kind };
                let mut r: Vec<Action> = Vec::new();
                if let NackType::Dropped = kind {
                    let report = Packet {
                        pack_type: PacketType::Nack(nack),
                        routing_header: packet.routing_header.return_route(self.id),
                        session_id: packet.session_id,
                    };
                    r.push(Action::Notify(DroneEvent::PacketDropped(report)));
                }
                proof {
                    assert(actions_view(r@) =~= drop_notice(self@.id, packet@, kind));
                }
                let back = self.send_back(
                    PacketType::Nack(nack),
                    &packet.routing_header,
                    packet.session_id,
                );
                append_actions(&mut r, back);
                r
            },
            Verdict::SendToController => {
                let mut r: Vec<Action> = Vec::new();
                r.push(Action::Notify(DroneEvent::ControllerShortcut(packet)));
                proof {
                    assert(actions_view(r@) =~= unicast_actions(self@, packet@, dropped));
                }
                r
            },
            _ => {
                let r: Vec<Action> = Vec::new();
                proof {
                    assert(actions_view(r@) =~= Seq::empty());
                }
                r
            },
        }
    }

    /// Runs the flood protocol on a request that arrived with route `srh`.
    fn handle_flood_request(
        &mut self,
        srh: SourceRoutingHeader,
        session_id: u64,
        request: FloodRequest,
    ) -> (r: Vec<Action>)
        requires
            old(self)@.wf(),
            srh.hop_index < usize::MAX,
        ensures
            final(self)@ == (DroneView {
                flood_history: old(self)@.flood_history.insert(flood_key(request@)),
                ..old(self)@
            }),
            actions_view(r@) == flood_actions(old(self)@, srh@, session_id, request@),
    {
        let flood_id = request.flood_id;
        let initiator_id = request.initiator_id;
        let recipient = if request.path_trace.len() > 0 {
            request.path_trace[request.path_trace.len() - 1].0
        } else {
            initiator_id
        };
        let mut request = request;
        request.increment(self.id, NodeType::Drone);
        if self.has_seen(initiator_id, flood_id) {
            let mut response = request.generate_response(session_id);
            response.routing_header = response.routing_header.without_loops();
            proof {
                assert(self@.flood_history.insert((initiator_id, flood_id)) =~= self@.flood_history);
            }
            self.unicast(response, false)
        } else {
            let ghost before = self@;
            let ghost history = self.flood_history@;
            self.flood_history.push((initiator_id, flood_id));
            proof {
                Seq::lemma_to_set_insert_commutes(history, (initiator_id, flood_id));
                assert(self.flood_history@ =~= history + seq![(initiator_id, flood_id)]);
                assert(self.flood_history@.to_set() =~= before.flood_history.insert(
                    (initiator_id, flood_id),
                ));
            }
            let ghost onward = PacketView {
                pack_type: PacketTypeView::FloodRequest(request@),
                routing_header: srh@,
                session_id,
            };
            let mut r: Vec<Action> = Vec::new();
            let mut i: usize = 0;
            while i < self.neighbours.len()
                invariant
                    i <= self.neighbours.len(),
                    self.neighbours@ == before.neighbours,
                    srh.hop_index < usize::MAX,
                    onward == (PacketView {
                        pack_type: PacketTypeView::FloodRequest(request@),
                        routing_header: srh@,
                        session_id,
                    }),
                    actions_view(r@) == flood_forwards(
                        self.neighbours@.take(i as int),
                        recipient,
                        onward,
                    ),
                decreases self.neighbours.len() - i,
            {
                let id = self.neighbours[i];
                proof {
                    assert(self.neighbours@.take(i + 1).drop_last() =~= self.neighbours@.take(
                        i as int,
                    ));
                }
                if id != recipient {
                    let packet = Packet {
                        routing_header: srh.clone(),
                        session_id,
                        pack_type: PacketType::FloodRequest(request.clone()),
                    };
                    let more = Self::forward(packet, id);
                    append_actions(&mut r, more);
                }
                i = i + 1;
            }
            proof {
                assert(self.neighbours@.take(self.neighbours.len() as int) =~= self.neighbours@);
            }
            r
        }
    }

    /// Handles one packet from a neighbour; `dropped` is the drop coin, which
    /// matters only where [`Self::coin_decides`] says so. After a crash the
    /// packet is handled as one still queued at the crash.
    pub fn handle_packet(&mut self, packet: Packet, dropped: bool) -> (r: Vec<Action>)
        requires
            old(self)@.wf(),
            routable(packet@),
        ensures
            final(self)@ == after_packet(old(self)@, packet@),
            final(self)@.wf(),
            actions_view(r@) == packet_actions(old(self)@, packet@, dropped),
    {
        if self.crashed {
            return self.drain_packet(packet);
        }
        let Packet { pack_type, routing_header, session_id } = packet;
        match pack_type {
            PacketType::FloodRequest(request) => {
                self.handle_flood_request(routing_header, session_id, request)
            },
            other => self.unicast(Packet { pack_type: other, routing_header, session_id }, dropped),
        }
    }

    /// Applies a command from the controller.
    pub fn handle_command(&mut self, command: DroneCommand)
        requires
            old(self)@.wf(),
        ensures
            final(self)@ == after_command(old(self)@, command),
            final(self)@.wf(),
    {
        match command {
            DroneCommand::AddSender(id) => {
                if !self.has_neighbour(id) {
                    self.neighbours.push(id);
                }
            },
            DroneCommand::RemoveSender(id) => {
                self.remove_neighbour(id);
            },
            DroneCommand::Crash => {
                self.stop();
            },
        }
    }

    fn remove_neighbour(&mut self, node: NodeId)
        requires
            old(self)@.wf(),
        ensures
            final(self)@ == (DroneView {
                neighbours: old(self)@.neighbours.filter(|n: NodeId| n != node),
                ..old(self)@
            }),
            final(self)@.wf(),
    {
        reveal(Seq::filter);
        let ghost pred = |n: NodeId| n != node;
        let mut kept: Vec<NodeId> = Vec::new();
        let mut i: usize = 0;
        while i < self.neighbours.len()
            invariant
                i <= self.neighbours.len(),
                self.neighbours@.no_duplicates(),
                pred == (|n: NodeId| n != node),
                kept@ == self.neighbours@.take(i as int).filter(pred),
                kept@.no_duplicates(),
                forall|k: int, j: int|
                    0 <= k < kept@.len() && i <= j < self.neighbours@.len() ==> kept@[k]
                        != self.neighbours@[j],
            decreases self.neighbours.len() - i,
        {
            let n = self.neighbours[i];
            proof {
                assert(self.neighbours@.take(i + 1).drop_last() =~= self.neighbours@.take(
                    i as int,
                ));
            }
            let ghost earlier = kept@;
            if n != node {
                kept.push(n);
            }
            proof {
                reveal(Seq::filter);
                let seen = self.neighbours@.take(i + 1);
                assert(seen.drop_last() =~= self.neighbours@.take(i as int));
                assert(seen.last() == n);
                assert(pred(n) == (n != node));
                if n != node {
                    assert(seen.filter(pred) == earlier.push(n));
                } else {
                    assert(seen.filter(pred) == earlier);
                }
            }
            i = i + 1;
        }
        proof {
            assert(self.neighbours@.take(self.neighbours.len() as int) =~= self.neighbours@);
        }
        self.neighbours = kept;
    }

    /// Handles one packet found queued after the crash (see [`drain_actions`]).
    pub fn drain_packet(&self, incoming: Packet) -> (r: Vec<Action>)
        requires
            self@.wf(),
        ensures
            actions_view(r@) == drain_actions(self@, incoming@),
    {
        match &incoming.pack_type {
            PacketType::MsgFragment(fragment) => {
                let nack = PacketType::Nack(
                    Nack {
                        fragment_index: fragment.fragment_index,
                        nack_type: NackType::ErrorInRouting(self.id),
                    },
                );
                self.send_back(nack, &incoming.routing_header, incoming.session_id)
            },
            PacketType::FloodRequest(_) => {
                let r: Vec<Action> = Vec::new();
                proof {
                    assert(actions_view(r@) =~= Seq::empty());
                }
                r
            },
            _ => self.unicast(incoming, false),
        }
    }

    /// Whether the drop coin must be tossed before `packet` is handled.
    pub fn coin_decides(&self, packet: &Packet) -> (r: bool)
        ensures
            r == coin_decides(self@, packet@),
    {
        let route = &packet.routing_header;
        match &packet.pack_type {
            PacketType::MsgFragment(_) => {
                route.hop_index < route.hops.len() && route.hops[route.hop_index] == self.id
                    && !route.is_last_hop() && self.has_neighbour(
                    route.hops[route.hop_index + 1],
                )
            },
            _ => false,
        }
    }
}

} // verus!
