//! What holds of every packet the drone handles, proved over the models of
//! `drone`.
use vstd::prelude::*;
use crate::drone::{
    after_command, after_packet, coin_decides, drain_actions, drop_notice, flood_forwards, flood_key,
    flood_response, forward_actions, nack_packet, packet_actions, reply_actions,
    unicast_actions, verdict, ActionView, DroneCommand, DroneView, EventView, Verdict,
};
use crate::network::{lemma_without_loops, NodeId};
use crate::packet::{trace_ids, FloodRequestView, NackType, NodeType, PacketTypeView, PacketView};

verus! {

/// The action at `i`, if it sends a packet, comes right after the controller
/// was told of that packet as it was before its cursor moved.
pub open spec fn announced_at(acts: Seq<ActionView>, i: int) -> bool {
    acts[i] matches ActionView::Send(_, q) ==> {
        &&& 1 <= i
        &&& acts[i - 1] matches ActionView::Notify(EventView::PacketSent(pre))
        &&& q == pre.advanced()
    }
}

/// The action at `i`, if it tells the controller a packet was sent, is
/// followed by the send of that packet with its cursor moved on.
pub open spec fn followed_at(acts: Seq<ActionView>, i: int) -> bool {
    acts[i] matches ActionView::Notify(EventView::PacketSent(pre)) ==> {
        &&& i + 1 < acts.len()
        &&& acts[i + 1] matches ActionView::Send(_, q)
        &&& q == pre.advanced()
    }
}

/// Sends and their announcements come in pairs, announcement first.
pub open spec fn sends_announced(acts: Seq<ActionView>) -> bool {
    &&& forall|i: int| 0 <= i < acts.len() ==> #[trigger] announced_at(acts, i)
    &&& forall|i: int| 0 <= i < acts.len() ==> #[trigger] followed_at(acts, i)
}

/// A unicast packet is sent to the hop its cursor now stands on, and that
/// cursor is past the first hop and inside the route.
pub open spec fn on_route(a: ActionView) -> bool {
    match a {
        ActionView::Send(to, q) => !(q.pack_type is FloodRequest) ==> {
            &&& 1 <= q.routing_header.hop_index < q.routing_header.hops.len()
            &&& q.routing_header.hops[q.routing_header.hop_index] == to
        },
        _ => true,
    }
}

pub open spec fn sends_on_route(acts: Seq<ActionView>) -> bool {
    forall|i: int| 0 <= i < acts.len() ==> #[trigger] on_route(acts[i])
}

/// The action neither sends nor announces user data or a flood request.
pub open spec fn moves_no_data(a: ActionView) -> bool {
    match a {
        ActionView::Send(_, q) => !(q.pack_type is MsgFragment) && !(q.pack_type is FloodRequest),
        ActionView::Notify(EventView::PacketSent(q)) => !(q.pack_type is MsgFragment) && !(
        q.pack_type is FloodRequest),
        _ => true,
    }
}

/// The action hands a flood request on.
pub open spec fn sends_flood_request(a: ActionView) -> bool {
    a matches ActionView::Send(_, q) && q.pack_type is FloodRequest
}

/// The neighbours that the actions send to, in order.
pub open spec fn send_targets(acts: Seq<ActionView>) -> Seq<NodeId>
    decreases acts.len(),
{
    if acts.len() == 0 {
        Seq::empty()
    } else {
        let earlier = send_targets(acts.drop_last());
        match acts.last() {
            ActionView::Send(to, _) => earlier.push(to),
            _ => earlier,
        }
    }
}

proof fn lemma_announced_concat(a: Seq<ActionView>, b: Seq<ActionView>)
    requires
        sends_announced(a),
        sends_announced(b),
    ensures
        sends_announced(a + b),
{
    let c = a + b;
    assert forall|i: int| 0 <= i < c.len() implies #[trigger] announced_at(c, i) by {
        if i < a.len() {
            assert(announced_at(a, i));
        } else {
            assert(announced_at(b, i - a.len()));
        }
    }
    assert forall|i: int| 0 <= i < c.len() implies #[trigger] followed_at(c, i) by {
        if i < a.len() {
            assert(followed_at(a, i));
        } else {
            assert(followed_at(b, i - a.len()));
        }
    }
}

proof fn lemma_forward_announced(p: PacketView, to: NodeId)
    ensures
        sends_announced(forward_actions(p, to)),
{
    let acts = forward_actions(p, to);
    assert(announced_at(acts, 0) && announced_at(acts, 1));
    assert(followed_at(acts, 0) && followed_at(acts, 1));
}

proof fn lemma_reply_announced(s: DroneView, q: PacketView)
    ensures
        sends_announced(reply_actions(s, q)),
{
    match verdict(s, q, false) {
        Verdict::Forward(to) => lemma_forward_announced(q, to),
        Verdict::SendToController => {
            assert(announced_at(reply_actions(s, q), 0));
            assert(followed_at(reply_actions(s, q), 0));
        },
        _ => {},
    }
}

proof fn lemma_unicast_announced(s: DroneView, p: PacketView, dropped: bool)
    ensures
        sends_announced(unicast_actions(s, p, dropped)),
{
    match verdict(s, p, dropped) {
        Verdict::Forward(to) => lemma_forward_announced(p, to),
        Verdict::Nack(kind) => {
            let notice = drop_notice(s.id, p, kind);
            if kind == NackType::Dropped {
                assert(announced_at(notice, 0) && followed_at(notice, 0));
            }
            lemma_reply_announced(s, nack_packet(s.id, p, kind));
            lemma_announced_concat(notice, reply_actions(s, nack_packet(s.id, p, kind)));
        },
        Verdict::SendToController => {
            assert(announced_at(unicast_actions(s, p, dropped), 0));
            assert(followed_at(unicast_actions(s, p, dropped), 0));
        },
        _ => {},
    }
}

proof fn lemma_flood_forwards_announced(neighbours: Seq<NodeId>, from: NodeId, p: PacketView)
    ensures
        sends_announced(flood_forwards(neighbours, from, p)),
    decreases neighbours.len(),
{
    if neighbours.len() > 0 {
        lemma_flood_forwards_announced(neighbours.drop_last(), from, p);
        if neighbours.last() != from {
            lemma_forward_announced(p, neighbours.last());
            lemma_announced_concat(
                flood_forwards(neighbours.drop_last(), from, p),
                forward_actions(p, neighbours.last()),
            );
        }
    }
}

/// Every packet the drone sends is announced to the controller right before,
/// as the drone received it, and every such announcement is followed by its
/// send: one announcement per hop, ahead of the packet.
pub proof fn lemma_sends_announced(s: DroneView, p: PacketView, dropped: bool)
    ensures
        sends_announced(packet_actions(s, p, dropped)),
        sends_announced(drain_actions(s, p)),
{
    match p.pack_type {
        PacketTypeView::FloodRequest(r) => {
            if s.flood_history.contains(flood_key(r)) {
                lemma_unicast_announced(s, flood_response(s, r, p.session_id), false);
            } else {
                let onward = PacketView {
                    pack_type: PacketTypeView::FloodRequest(
                        r.incremented(s.id, NodeType::Drone),
                    ),
                    routing_header: p.routing_header,
                    session_id: p.session_id,
                };
                lemma_flood_forwards_announced(s.neighbours, r.arrived_from(), onward);
            }
        },
        PacketTypeView::MsgFragment(_) => {
            lemma_unicast_announced(s, p, dropped);
            lemma_reply_announced(s, nack_packet(s.id, p, NackType::ErrorInRouting(s.id)));
        },
        _ => {
            lemma_unicast_announced(s, p, dropped);
            lemma_unicast_announced(s, p, false);
        },
    }
}


proof fn lemma_on_route_concat(a: Seq<ActionView>, b: Seq<ActionView>)
    requires
        sends_on_route(a),
        sends_on_route(b),
    ensures
        sends_on_route(a + b),
{
    assert forall|i: int| 0 <= i < (a + b).len() implies #[trigger] on_route((a + b)[i]) by {
        if i < a.len() {
            assert(on_route(a[i]));
        } else {
            assert(on_route(b[i - a.len()]));
        }
    }
}

proof fn lemma_reply_on_route(s: DroneView, q: PacketView)
    ensures
        sends_on_route(reply_actions(s, q)),
{
    let acts = reply_actions(s, q);
    if let Verdict::Forward(to) = verdict(s, q, false) {
        assert(on_route(acts[0]) && on_route(acts[1]));
    } else if verdict(s, q, false) is SendToController {
        assert(on_route(acts[0]));
    }
}

proof fn lemma_unicast_on_route(s: DroneView, p: PacketView, dropped: bool)
    requires
        !(p.pack_type is FloodRequest),
    ensures
        sends_on_route(unicast_actions(s, p, dropped)),
{
    let acts = unicast_actions(s, p, dropped);
    match verdict(s, p, dropped) {
        Verdict::Forward(to) => {
            assert(on_route(acts[0]) && on_route(acts[1]));
        },
        Verdict::Nack(kind) => {
            let notice = drop_notice(s.id, p, kind);
            if kind == NackType::Dropped {
                assert(on_route(notice[0]));
            }
            lemma_reply_on_route(s, nack_packet(s.id, p, kind));
            lemma_on_route_concat(notice, reply_actions(s, nack_packet(s.id, p, kind)));
        },
        Verdict::SendToController => {
            assert(on_route(acts[0]));
        },
        _ => {},
    }
}

proof fn lemma_flood_forwards_carry_request(neighbours: Seq<NodeId>, from: NodeId, p: PacketView)
    requires
        p.pack_type is FloodRequest,
    ensures
        forall|i: int|
            0 <= i < flood_forwards(neighbours, from, p).len() ==> #[trigger] on_route(
                flood_forwards(neighbours, from, p)[i],
            ),
    decreases neighbours.len(),
{
    if neighbours.len() > 0 {
        lemma_flood_forwards_carry_request(neighbours.drop_last(), from, p);
        let earlier = flood_forwards(neighbours.drop_last(), from, p);
        let acts = flood_forwards(neighbours, from, p);
        assert forall|i: int| 0 <= i < acts.len() implies #[trigger] on_route(acts[i]) by {
            if i < earlier.len() {
                assert(on_route(earlier[i]));
                assert(acts[i] == earlier[i]);
            } else {
                assert(acts[i] == forward_actions(p, neighbours.last())[i - earlier.len()]);
            }
        }
    }
}

/// A unicast packet leaves the drone with its cursor moved onto the hop it is
/// sent to, which lies inside its route: the cursor never runs past the last
/// hop. Flood requests, whose route is a stub, are left out.
pub proof fn lemma_sends_on_route(s: DroneView, p: PacketView, dropped: bool)
    ensures
        sends_on_route(packet_actions(s, p, dropped)),
        sends_on_route(drain_actions(s, p)),
{
    match p.pack_type {
        PacketTypeView::FloodRequest(r) => {
            if s.flood_history.contains(flood_key(r)) {
                lemma_unicast_on_route(s, flood_response(s, r, p.session_id), false);
            } else {
                let onward = PacketView {
                    pack_type: PacketTypeView::FloodRequest(
                        r.incremented(s.id, NodeType::Drone),
                    ),
                    routing_header: p.routing_header,
                    session_id: p.session_id,
                };
                lemma_flood_forwards_carry_request(s.neighbours, r.arrived_from(), onward);
            }
        },
        PacketTypeView::MsgFragment(_) => {
            lemma_unicast_on_route(s, p, dropped);
            lemma_reply_on_route(s, nack_packet(s.id, p, NackType::ErrorInRouting(s.id)));
        },
        _ => {
            lemma_unicast_on_route(s, p, dropped);
            lemma_unicast_on_route(s, p, false);
        },
    }
}

/// The nack a drone builds starts at the drone itself and runs back over the
/// hops the packet had visited, latest first, to the route's first hop. Being
/// routed from the drone's own position, it is never nacked again: it is
/// handed on, rescued through the controller, or (at a one-hop route) dropped.
pub proof fn lemma_nack_route(s: DroneView, p: PacketView, dropped: bool, kind: NackType)
    requires
        verdict(s, p, dropped) == Verdict::Nack(kind),
        0 <= p.routing_header.hop_index <= p.routing_header.hops.len(),
    ensures
        ({
            let q = nack_packet(s.id, p, kind);
            let back = q.routing_header;
            let route = p.routing_header;
            &&& back.hop_index == 0
            &&& back.hops[0] == s.id
            &&& back.hops.len() == route.hop_index + 1
            &&& forall|j: int| 1 <= j < back.hops.len() ==> #[trigger] back.hops[j] == route.hops[route.hop_index - j]
            &&& (route.hop_index >= 1 || route.current_hop() == Some(s.id)) ==> back.hops.last() == route.hops[0]
            &&& verdict(s, q, false) is Forward || verdict(s, q, false) is SendToController
                || verdict(s, q, false) is Ignore
            &&& forall|d: bool| #[trigger] unicast_actions(s, q, d) == reply_actions(s, q)
        }),
{
    let q = nack_packet(s.id, p, kind);
    let back = q.routing_header;
    let route = p.routing_header;
    let visited = route.visited();
    assert(visited == route.hops.take(route.hop_index));
    assert(visited.len() == route.hop_index);
    assert forall|j: int| 1 <= j < back.hops.len() implies #[trigger] back.hops[j] == route.hops[route.hop_index - j] by {
        assert(back.hops[j] == visited.reverse()[j - 1]);
        assert(visited.reverse()[j - 1] == visited[visited.len() - 1 - (j - 1)]);
    }
    if back.hops.len() >= 2 {
        assert(back.hops[back.hops.len() - 1] == route.hops[route.hop_index - (back.hops.len() - 1)]);
    }
    assert(back.hops[0] == s.id);
    assert(q.routing_header.current_hop() == Some(s.id));
    assert forall|d: bool| #[trigger] unicast_actions(s, q, d) == reply_actions(s, q) by {
        assert(verdict(s, q, d) == verdict(s, q, false));
    }
}

/// When the drop coin does not decide, classifying the same packet in the same
/// state gives the same verdict; when it does, the packet is either handed on
/// to its next hop or nacked as dropped.
pub proof fn lemma_verdict_coin(s: DroneView, p: PacketView)
    ensures
        !coin_decides(s, p) ==> verdict(s, p, true) == verdict(s, p, false),
        coin_decides(s, p) ==> verdict(s, p, true) == Verdict::Nack(NackType::Dropped)
            && verdict(s, p, false) == Verdict::Forward(
            p.routing_header.hops[p.routing_header.hop_index + 1],
        ),
{
}

/// A crash is for good, and a drone that crashed hands on no user data and
/// no flood request: a fragment, queued at the crash or arriving later,
/// becomes a routing-error nack from this drone, a flood request is dropped,
/// and only control traffic moves on.
pub proof fn lemma_crash_moves_no_data(s: DroneView, p: PacketView, dropped: bool, c: DroneCommand)
    ensures
        forall|i: int| 0 <= i < drain_actions(s, p).len() ==> #[trigger] moves_no_data(
            drain_actions(s, p)[i],
        ),
        p.pack_type is MsgFragment ==> drain_actions(s, p) == reply_actions(
            s,
            nack_packet(s.id, p, NackType::ErrorInRouting(s.id)),
        ),
        after_command(s, DroneCommand::Crash) == (DroneView { active: false, crashed: true, ..s }),
        s.crashed ==> after_command(s, c).crashed && after_packet(s, p) == s,
        s.crashed ==> packet_actions(s, p, dropped) == drain_actions(s, p),
{
    let acts = drain_actions(s, p);
    match p.pack_type {
        PacketTypeView::MsgFragment(_) => {
            let q = nack_packet(s.id, p, NackType::ErrorInRouting(s.id));
            if verdict(s, q, false) is Forward {
                assert(moves_no_data(acts[0]) && moves_no_data(acts[1]));
            } else if verdict(s, q, false) is SendToController {
                assert(moves_no_data(acts[0]));
            }
        },
        PacketTypeView::FloodRequest(_) => {},
        _ => {
            match verdict(s, p, false) {
                Verdict::Forward(_) => {
                    assert(moves_no_data(acts[0]) && moves_no_data(acts[1]));
                },
                Verdict::Nack(kind) => {
                    let q = nack_packet(s.id, p, kind);
                    let notice = drop_notice(s.id, p, kind);
                    let reply = reply_actions(s, q);
                    assert forall|i: int| 0 <= i < acts.len() implies #[trigger] moves_no_data(acts[i]) by {
                        if i < notice.len() {
                            assert(acts[i] == notice[i]);
                        } else {
                            assert(acts[i] == reply[i - notice.len()]);
                        }
                    }
                },
                Verdict::SendToController => {
                    assert(moves_no_data(acts[0]));
                },
                _ => {},
            }
        },
    }
}


/// Keeps the nodes other than `from`.
pub open spec fn other_than(from: NodeId) -> spec_fn(NodeId) -> bool {
    |n: NodeId| n != from
}

proof fn lemma_send_targets_concat(a: Seq<ActionView>, b: Seq<ActionView>)
    ensures
        send_targets(a + b) == send_targets(a) + send_targets(b),
    decreases b.len(),
{
    if b.len() == 0 {
        assert(a + b =~= a);
        assert(send_targets(a) + send_targets(b) =~= send_targets(a));
    } else {
        lemma_send_targets_concat(a, b.drop_last());
        assert((a + b).drop_last() =~= a + b.drop_last());
        assert((a + b).last() == b.last());
        if let ActionView::Send(to, _) = b.last() {
            assert((send_targets(a) + send_targets(b.drop_last())).push(to) =~= send_targets(a)
                + send_targets(b.drop_last()).push(to));
        }
    }
}

proof fn lemma_forward_targets(p: PacketView, to: NodeId)
    ensures
        send_targets(forward_actions(p, to)) == seq![to],
{
    let acts = forward_actions(p, to);
    assert(acts.drop_last() =~= seq![ActionView::Notify(EventView::PacketSent(p))]);
    assert(acts.drop_last().drop_last() =~= Seq::<ActionView>::empty());
    assert(send_targets(Seq::<ActionView>::empty()) =~= Seq::<NodeId>::empty());
    assert(send_targets(acts.drop_last()) =~= Seq::<NodeId>::empty());
    assert(send_targets(acts) =~= seq![to]);
}

proof fn lemma_notice_targets(a: ActionView)
    requires
        a is Notify,
    ensures
        send_targets(seq![a]) == Seq::<NodeId>::empty(),
{
    assert(seq![a].drop_last() =~= Seq::<ActionView>::empty());
    assert(send_targets(Seq::<ActionView>::empty()) =~= Seq::<NodeId>::empty());
}

proof fn lemma_reply_single_send(s: DroneView, q: PacketView)
    requires
        !(q.pack_type is FloodRequest),
    ensures
        send_targets(reply_actions(s, q)).len() <= 1,
        forall|i: int| 0 <= i < reply_actions(s, q).len() ==> !sends_flood_request(
            #[trigger] reply_actions(s, q)[i],
        ),
{
    match verdict(s, q, false) {
        Verdict::Forward(to) => lemma_forward_targets(q, to),
        Verdict::SendToController => lemma_notice_targets(
            ActionView::Notify(EventView::ControllerShortcut(q)),
        ),
        _ => {},
    }
}

/// A packet other than a flood request makes the drone send at most one
/// packet, and never a flood request.
proof fn lemma_unicast_single_send(s: DroneView, p: PacketView, dropped: bool)
    requires
        !(p.pack_type is FloodRequest),
    ensures
        send_targets(unicast_actions(s, p, dropped)).len() <= 1,
        forall|i: int| 0 <= i < unicast_actions(s, p, dropped).len() ==> !sends_flood_request(
            #[trigger] unicast_actions(s, p, dropped)[i],
        ),
{
    let acts = unicast_actions(s, p, dropped);
    match verdict(s, p, dropped) {
        Verdict::Forward(to) => lemma_forward_targets(p, to),
        Verdict::Nack(kind) => {
            let q = nack_packet(s.id, p, kind);
            let notice = drop_notice(s.id, p, kind);
            if kind == NackType::Dropped {
                lemma_notice_targets(notice[0]);
            }
            lemma_reply_single_send(s, q);
            lemma_send_targets_concat(notice, reply_actions(s, q));
            assert forall|i: int| 0 <= i < acts.len() implies !sends_flood_request(
                #[trigger] acts[i],
            ) by {
                if i >= notice.len() {
                    assert(acts[i] == reply_actions(s, q)[i - notice.len()]);
                }
            }
        },
        Verdict::SendToController => lemma_notice_targets(
            ActionView::Notify(EventView::ControllerShortcut(p)),
        ),
        _ => {},
    }
}

proof fn lemma_flood_forwards_targets(neighbours: Seq<NodeId>, from: NodeId, p: PacketView)
    requires
        neighbours.no_duplicates(),
    ensures
        send_targets(flood_forwards(neighbours, from, p)) == neighbours.filter(other_than(from)),
        neighbours.filter(other_than(from)).no_duplicates(),
        !neighbours.filter(other_than(from)).contains(from),
        forall|n: NodeId| #[trigger]
            neighbours.filter(other_than(from)).contains(n) ==> neighbours.contains(n),
    decreases neighbours.len(),
{
    reveal(Seq::filter);
    if neighbours.len() > 0 {
        let earlier = neighbours.drop_last();
        let last = neighbours.last();
        assert(earlier.no_duplicates());
        lemma_flood_forwards_targets(earlier, from, p);
        let kept = earlier.filter(other_than(from));
        assert(!earlier.contains(last));
        assert forall|n: NodeId| #[trigger]
            neighbours.filter(other_than(from)).contains(n) implies neighbours.contains(n) by {
            if n != last {
                assert(kept.contains(n));
                let j = choose|j: int| 0 <= j < earlier.len() && earlier[j] == n;
                assert(neighbours[j] == n);
            } else {
                assert(neighbours[neighbours.len() - 1] == n);
            }
        }
        if last != from {
            lemma_forward_targets(p, last);
            lemma_send_targets_concat(
                flood_forwards(earlier, from, p),
                forward_actions(p, last),
            );
            assert(kept + seq![last] =~= kept.push(last));
            assert(!kept.contains(last));
            assert(kept.push(last).no_duplicates()) by {
                assert forall|i: int, j: int|
                    0 <= i < kept.push(last).len() && 0 <= j < kept.push(last).len() && i != j
                        implies kept.push(last)[i] != kept.push(last)[j] by {
                    if i < kept.len() && j < kept.len() {
                        assert(kept[i] != kept[j]);
                    } else if i < kept.len() {
                        assert(kept.contains(kept[i]));
                    } else {
                        assert(kept.contains(kept[j]));
                    }
                }
            }
        }
    }
}

/// A flood reaching the drone for the first time is recorded, and handed to
/// every neighbour but the one it came from, to each of them once.
pub proof fn lemma_flood_first_arrival(
    s: DroneView,
    p: PacketView,
    r: FloodRequestView,
    dropped: bool,
)
    requires
        s.wf(),
        !s.crashed,
        p.pack_type == PacketTypeView::FloodRequest(r),
        !s.flood_history.contains(flood_key(r)),
    ensures
        send_targets(packet_actions(s, p, dropped)) == s.neighbours.filter(
            other_than(r.arrived_from()),
        ),
        send_targets(packet_actions(s, p, dropped)).no_duplicates(),
        !send_targets(packet_actions(s, p, dropped)).contains(r.arrived_from()),
        after_packet(s, p).flood_history.contains(flood_key(r)),
{
    let onward = PacketView {
        pack_type: PacketTypeView::FloodRequest(
            r.incremented(s.id, NodeType::Drone),
        ),
        routing_header: p.routing_header,
        session_id: p.session_id,
    };
    assert(packet_actions(s, p, dropped) == flood_forwards(s.neighbours, r.arrived_from(), onward));
    lemma_flood_forwards_targets(s.neighbours, r.arrived_from(), onward);
}

/// A flood the drone has seen before is never handed on again: the drone
/// answers it with a single flood response, routed like any packet it
/// builds, and its state stays as it was. The response's route starts at
/// this drone and ends at the first node of the request's trace.
pub proof fn lemma_flood_seen(s: DroneView, p: PacketView, r: FloodRequestView, dropped: bool)
    requires
        !s.crashed,
        p.pack_type == PacketTypeView::FloodRequest(r),
        s.flood_history.contains(flood_key(r)),
    ensures
        after_packet(s, p) == s,
        packet_actions(s, p, dropped) == unicast_actions(
            s,
            flood_response(s, r, p.session_id),
            false,
        ),
        flood_response(s, r, p.session_id).pack_type is FloodResponse,
        flood_response(s, r, p.session_id).routing_header.hops.len() > 0,
        flood_response(s, r, p.session_id).routing_header.hops[0] == s.id,
        flood_response(s, r, p.session_id).routing_header.hops.last() == if r.path_trace.len() > 0 {
            r.path_trace[0].0
        } else {
            s.id
        },
        send_targets(packet_actions(s, p, dropped)).len() <= 1,
        forall|i: int| 0 <= i < packet_actions(s, p, dropped).len() ==> !sends_flood_request(
            #[trigger] packet_actions(s, p, dropped)[i],
        ),
{
    assert(s.flood_history.insert(flood_key(r)) =~= s.flood_history);
    lemma_unicast_single_send(s, flood_response(s, r, p.session_id), false);
    let ids = trace_ids(r.incremented(s.id, NodeType::Drone).path_trace);
    let back = ids.reverse();
    lemma_without_loops(back);
    assert(back[0] == ids[ids.len() - 1]);
    assert(back[back.len() - 1] == ids[0]);
    if r.path_trace.len() > 0 {
        assert(ids[0] == r.path_trace[0].0);
    }
}

/// The record of floods only grows: packets add to it and commands leave it.
pub proof fn lemma_history_grows(s: DroneView, p: PacketView, c: DroneCommand)
    ensures
        s.flood_history.subset_of(after_packet(s, p).flood_history),
        after_command(s, c).flood_history == s.flood_history,
        after_packet(s, p).neighbours == s.neighbours,
{
}

/// For a given flood, the drone propagates the request at most once in its
/// life: once a request of that flood has been handled, a later one leaves
/// the state as it is, hands no flood request on, and sends at most one packet,
/// the flood response or what becomes of it.
pub proof fn lemma_flood_once(
    s: DroneView,
    p1: PacketView,
    r1: FloodRequestView,
    d1: bool,
    p2: PacketView,
    r2: FloodRequestView,
    d2: bool,
)
    requires
        p1.pack_type == PacketTypeView::FloodRequest(r1),
        p2.pack_type == PacketTypeView::FloodRequest(r2),
        flood_key(r1) == flood_key(r2),
    ensures
        ({
            let s1 = after_packet(s, p1);
            &&& after_packet(s1, p2) == s1
            &&& send_targets(packet_actions(s1, p2, d2)).len() <= 1
            &&& forall|i: int| 0 <= i < packet_actions(s1, p2, d2).len() ==> !sends_flood_request(
                #[trigger] packet_actions(s1, p2, d2)[i],
            )
        }),
{
    if s.crashed {
        assert(packet_actions(s, p2, d2) =~= Seq::<ActionView>::empty());
        assert(send_targets(Seq::<ActionView>::empty()) =~= Seq::<NodeId>::empty());
    } else {
        lemma_flood_seen(after_packet(s, p1), p2, r2, d2);
    }
}

} // verus!
