use bagel_bomber::drone::{Action, DroneCommand, DroneCore, DroneEvent, Verdict};
use bagel_bomber::network::SourceRoutingHeader;
use bagel_bomber::packet::{
    Ack, FloodRequest, Fragment, Nack, NackType, NodeType, Packet, PacketType, FRAGMENT_DSIZE,
};
use std::collections::{HashMap, VecDeque};

fn flying(id: u8, neighbours: Vec<u8>) -> DroneCore {
    let mut drone = DroneCore::new(id, neighbours);
    drone.start();
    drone
}

fn fragment(hops: Vec<u8>, hop_index: usize, fragment_index: u64, byte: u8) -> Packet {
    Packet {
        pack_type: PacketType::MsgFragment(Fragment {
            fragment_index,
            total_n_fragments: 1,
            length: FRAGMENT_DSIZE as u8,
            data: [byte; FRAGMENT_DSIZE],
        }),
        routing_header: SourceRoutingHeader::new(hops, hop_index),
        session_id: 0,
    }
}

fn ack(hops: Vec<u8>, hop_index: usize) -> Packet {
    Packet {
        pack_type: PacketType::Ack(Ack { fragment_index: 2 }),
        routing_header: SourceRoutingHeader::new(hops, hop_index),
        session_id: 5,
    }
}

fn flood_request(initiator_id: u8, flood_id: u64, trace: Vec<(u8, NodeType)>) -> Packet {
    Packet {
        pack_type: PacketType::FloodRequest(FloodRequest { flood_id, initiator_id, path_trace: trace }),
        routing_header: SourceRoutingHeader::new(Vec::new(), 0),
        session_id: 9,
    }
}

fn announced(action: &Action) -> &Packet {
    match action {
        Action::Notify(DroneEvent::PacketSent(p)) => p,
        other => panic!("expected a sent announcement, got {:?}", other),
    }
}

fn sent(action: &Action) -> (u8, &Packet) {
    match action {
        Action::Send(to, p) => (*to, p),
        other => panic!("expected a send, got {:?}", other),
    }
}

fn nack_type(packet: &Packet) -> NackType {
    match &packet.pack_type {
        PacketType::Nack(n) => n.nack_type,
        other => panic!("expected a nack, got {:?}", other),
    }
}

/// Checks that `actions` is one announced forward of a nack of `kind` along
/// `hops`, and returns the nack as sent.
fn expect_nack(actions: &[Action], hops: Vec<u8>, kind: NackType) -> Packet {
    assert_eq!(actions.len(), 2, "{:?}", actions);
    let before = announced(&actions[0]);
    assert_eq!(before.routing_header.hops, hops);
    assert_eq!(before.routing_header.hop_index, 0);
    assert_eq!(nack_type(before), kind);
    let (to, after) = sent(&actions[1]);
    assert_eq!(to, hops[1]);
    assert_eq!(after.routing_header.hops, hops);
    assert_eq!(after.routing_header.hop_index, 1);
    assert_eq!(nack_type(after), kind);
    after.clone()
}

#[test]
fn unexpected_recipient_nacks_from_here() {
    let mut drone = flying(3, vec![40]);
    let actions = drone.handle_packet(fragment(vec![40, 2, 4, 6], 1, 0, 0), false);
    expect_nack(&actions, vec![3, 40], NackType::UnexpectedRecipient(3));
}

#[test]
fn terminal_drone_nacks_along_full_path() {
    let mut drone = flying(3, vec![2]);
    let actions = drone.handle_packet(fragment(vec![40, 1, 2, 3], 3, 4, 0), false);
    let nack = expect_nack(&actions, vec![3, 2, 1, 40], NackType::DestinationIsDrone);
    assert_eq!(nack.get_fragment_index(), 4);
}

#[test]
fn terminal_nack_is_ignored() {
    let mut drone = flying(3, vec![2]);
    let mut packet = fragment(vec![40, 2, 3], 2, 0, 0);
    packet.pack_type = PacketType::Nack(Nack { fragment_index: 0, nack_type: NackType::Dropped });
    assert_eq!(drone.classify(&packet, false), Verdict::Ignore);
    assert!(drone.handle_packet(packet, false).is_empty());
}

#[test]
fn missing_neighbour_user_data() {
    let mut drone = flying(3, vec![40]);
    let actions = drone.handle_packet(fragment(vec![40, 3, 4, 50], 1, 0, 0), false);
    expect_nack(&actions, vec![3, 40], NackType::ErrorInRouting(4));
}

#[test]
fn missing_neighbour_control_plane() {
    let mut drone = flying(3, vec![40]);
    let actions = drone.handle_packet(ack(vec![40, 3, 4, 50], 1), false);
    assert_eq!(actions.len(), 1);
    match &actions[0] {
        Action::Notify(DroneEvent::ControllerShortcut(p)) => {
            assert_eq!(p.routing_header.hops, vec![40, 3, 4, 50]);
            assert_eq!(p.routing_header.hop_index, 1);
            assert_eq!(p.session_id, 5);
            assert!(matches!(p.pack_type, PacketType::Ack(Ack { fragment_index: 2 })));
        }
        other => panic!("expected a controller shortcut, got {:?}", other),
    }
}

#[test]
fn empty_route_is_ignored() {
    let mut drone = flying(3, vec![40]);
    let packet = ack(Vec::new(), 0);
    assert_eq!(drone.classify(&packet, false), Verdict::Ignore);
    assert!(drone.handle_packet(packet, false).is_empty());
}

#[test]
fn forward_announces_then_sends_advanced() {
    let mut drone = flying(3, vec![40, 4]);
    let packet = fragment(vec![40, 3, 4, 50], 1, 0, 7);
    assert!(drone.coin_decides(&packet));
    let actions = drone.handle_packet(packet, false);
    assert_eq!(actions.len(), 2);
    let before = announced(&actions[0]);
    assert_eq!(before.routing_header.hop_index, 1);
    let (to, after) = sent(&actions[1]);
    assert_eq!(to, 4);
    assert_eq!(after.routing_header.hop_index, 2);
    assert_eq!(after.routing_header.hops[after.routing_header.hop_index], to);
    match &after.pack_type {
        PacketType::MsgFragment(f) => assert_eq!(f.data, [7; FRAGMENT_DSIZE]),
        other => panic!("expected the fragment, got {:?}", other),
    }
}

#[test]
fn dropped_fragment_is_reported_and_nacked_back() {
    let mut drone = flying(3, vec![40, 4]);
    let packet = fragment(vec![40, 3, 4, 50], 1, 6, 0);
    assert_eq!(drone.classify(&packet, true), Verdict::Nack(NackType::Dropped));
    let actions = drone.handle_packet(packet, true);
    assert_eq!(actions.len(), 3);
    match &actions[0] {
        Action::Notify(DroneEvent::PacketDropped(p)) => {
            assert_eq!(nack_type(p), NackType::Dropped);
            assert_eq!(p.routing_header.hops, vec![3, 40]);
            assert_eq!(p.routing_header.hop_index, 0);
            assert_eq!(p.get_fragment_index(), 6);
        }
        other => panic!("expected a drop report, got {:?}", other),
    }
    let nack = expect_nack(&actions[1..], vec![3, 40], NackType::Dropped);
    assert_eq!(nack.get_fragment_index(), 6);
}

#[test]
fn nacked_dropped_nack_is_not_a_new_drop() {
    let mut drone = flying(3, vec![40]);
    let mut packet = fragment(vec![50, 2, 40], 1, 1, 0);
    packet.pack_type = PacketType::Nack(Nack { fragment_index: 1, nack_type: NackType::Dropped });
    let actions = drone.handle_packet(packet, false);
    assert_eq!(actions.len(), 1);
    match &actions[0] {
        Action::Notify(DroneEvent::ControllerShortcut(p)) => {
            assert_eq!(p.routing_header.hops, vec![3, 50]);
            assert_eq!(nack_type(p), NackType::UnexpectedRecipient(3));
        }
        other => panic!("expected a controller shortcut, got {:?}", other),
    }
}

#[test]
fn coin_only_matters_for_reachable_fragments() {
    let drone = flying(3, vec![40, 4]);
    let control = ack(vec![40, 3, 4], 1);
    assert!(!drone.coin_decides(&control));
    assert_eq!(drone.classify(&control, true), drone.classify(&control, false));
    assert_eq!(drone.classify(&control, true), Verdict::Forward(4));
    let unreachable = fragment(vec![40, 3, 9], 1, 0, 0);
    assert!(!drone.coin_decides(&unreachable));
    assert_eq!(drone.classify(&unreachable, true), Verdict::Nack(NackType::ErrorInRouting(9)));
    assert_eq!(drone.classify(&unreachable, false), Verdict::Nack(NackType::ErrorInRouting(9)));
    let reachable = fragment(vec![40, 3, 4], 1, 0, 0);
    assert_eq!(drone.classify(&reachable, false), drone.classify(&reachable, false));
    assert_eq!(drone.classify(&reachable, false), Verdict::Forward(4));
}

#[test]
fn flood_request_verdict_ignores_route() {
    let drone = flying(3, vec![40]);
    let packet = flood_request(40, 0, vec![(40, NodeType::Client)]);
    assert_eq!(drone.classify(&packet, false), Verdict::FloodRequest);
}

#[test]
fn flood_first_arrival_goes_to_all_but_sender() {
    let mut drone = flying(1, vec![40, 2, 3]);
    let actions = drone.handle_packet(flood_request(40, 0, vec![(40, NodeType::Client)]), false);
    assert!(drone.has_seen(40, 0));
    assert_eq!(actions.len(), 4);
    let mut targets = Vec::new();
    for pair in actions.chunks(2) {
        let before = announced(&pair[0]);
        let (to, after) = sent(&pair[1]);
        assert_eq!(after.routing_header.hop_index, before.routing_header.hop_index + 1);
        match &after.pack_type {
            PacketType::FloodRequest(r) => {
                assert_eq!(r.path_trace, vec![(40, NodeType::Client), (1, NodeType::Drone)]);
            }
            other => panic!("expected the flood request, got {:?}", other),
        }
        targets.push(to);
    }
    assert_eq!(targets, vec![2, 3]);
}

#[test]
fn flood_seen_again_gets_one_response() {
    let mut drone = flying(4, vec![2, 3]);
    let first = drone.handle_packet(
        flood_request(40, 0, vec![(40, NodeType::Client), (1, NodeType::Drone), (2, NodeType::Drone)]),
        false,
    );
    assert_eq!(first.len(), 2);
    assert_eq!(sent(&first[1]).0, 3);
    let second = drone.handle_packet(
        flood_request(40, 0, vec![(40, NodeType::Client), (1, NodeType::Drone), (3, NodeType::Drone)]),
        false,
    );
    assert_eq!(second.len(), 2);
    let (to, response) = sent(&second[1]);
    assert_eq!(to, 3);
    assert_eq!(response.routing_header.hops, vec![4, 3, 1, 40]);
    assert_eq!(response.routing_header.hop_index, 1);
    assert_eq!(response.session_id, 9);
    match &response.pack_type {
        PacketType::FloodResponse(r) => {
            assert_eq!(r.flood_id, 0);
            assert_eq!(r.path_trace.last(), Some(&(4, NodeType::Drone)));
        }
        other => panic!("expected a flood response, got {:?}", other),
    }
}

#[test]
fn flood_response_route_loses_its_loops() {
    let mut drone = flying(1, vec![40, 3]);
    drone.handle_packet(flood_request(40, 2, vec![(40, NodeType::Client)]), false);
    let actions = drone.handle_packet(
        flood_request(
            40,
            2,
            vec![(40, NodeType::Client), (1, NodeType::Drone), (2, NodeType::Drone), (3, NodeType::Drone)],
        ),
        false,
    );
    assert_eq!(actions.len(), 2);
    let (to, response) = sent(&actions[1]);
    assert_eq!(to, 40);
    assert_eq!(response.routing_header.hops, vec![1, 40]);
}

#[test]
fn commands_update_neighbours_and_state() {
    let mut drone = DroneCore::new(3, vec![40]);
    assert!(!drone.is_active());
    drone.start();
    assert!(drone.is_active());
    assert_eq!(drone.id(), 3);
    drone.handle_command(DroneCommand::AddSender(4));
    assert!(drone.has_neighbour(4));
    drone.handle_command(DroneCommand::AddSender(4));
    drone.handle_command(DroneCommand::RemoveSender(4));
    assert!(!drone.has_neighbour(4));
    assert!(drone.has_neighbour(40));
    drone.handle_command(DroneCommand::RemoveSender(99));
    assert!(drone.has_neighbour(40));
    drone.handle_command(DroneCommand::Crash);
    assert!(!drone.is_active());
}

#[test]
fn removed_neighbour_turns_forward_into_nack() {
    let mut drone = flying(3, vec![40, 4]);
    drone.handle_command(DroneCommand::RemoveSender(4));
    let actions = drone.handle_packet(fragment(vec![40, 3, 4], 1, 0, 0), false);
    expect_nack(&actions, vec![3, 40], NackType::ErrorInRouting(4));
}

#[test]
fn crash_drain_nacks_fragments_and_drops_floods() {
    let mut drone = flying(3, vec![40, 4]);
    drone.handle_command(DroneCommand::Crash);
    let actions = drone.drain_packet(fragment(vec![40, 3, 4], 1, 3, 0));
    let nack = expect_nack(&actions, vec![3, 40], NackType::ErrorInRouting(3));
    assert_eq!(nack.get_fragment_index(), 3);
    assert!(drone.drain_packet(flood_request(40, 1, vec![(40, NodeType::Client)])).is_empty());
    let actions = drone.drain_packet(ack(vec![40, 3, 4], 1));
    assert_eq!(actions.len(), 2);
    let (to, p) = sent(&actions[1]);
    assert_eq!(to, 4);
    assert!(matches!(p.pack_type, PacketType::Ack(_)));
}

#[test]
fn crashed_drone_stays_down_and_forwards_no_data() {
    let mut drone = flying(3, vec![40, 4]);
    drone.handle_command(DroneCommand::Crash);
    assert!(drone.has_crashed());
    drone.start();
    assert!(!drone.is_active());
    let actions = drone.handle_packet(fragment(vec![40, 3, 4], 1, 2, 0), false);
    let nack = expect_nack(&actions, vec![3, 40], NackType::ErrorInRouting(3));
    assert_eq!(nack.get_fragment_index(), 2);
    let actions = drone.handle_packet(flood_request(40, 5, vec![(40, NodeType::Client)]), false);
    assert!(actions.is_empty());
    assert!(!drone.has_seen(40, 5));
}

#[test]
fn crash_drain_fragment_with_missing_previous_hop() {
    let drone = DroneCore::new(3, vec![4]);
    let actions = drone.drain_packet(fragment(vec![40, 3, 4], 1, 0, 0));
    assert_eq!(actions.len(), 1);
    match &actions[0] {
        Action::Notify(DroneEvent::ControllerShortcut(p)) => {
            assert_eq!(p.routing_header.hops, vec![3, 40]);
            assert_eq!(nack_type(p), NackType::ErrorInRouting(3));
        }
        other => panic!("expected a controller shortcut, got {:?}", other),
    }
}

/// Drones wired together; packets sent to a node without a drone are collected.
struct Mesh {
    drones: HashMap<u8, DroneCore>,
    delivered: Vec<(u8, Packet)>,
}

impl Mesh {
    fn new(links: &[(u8, Vec<u8>)]) -> Mesh {
        let mut drones = HashMap::new();
        for (id, neighbours) in links {
            drones.insert(*id, flying(*id, neighbours.clone()));
        }
        Mesh { drones, delivered: Vec::new() }
    }

    fn run(&mut self, to: u8, packet: Packet) {
        let mut queue = VecDeque::new();
        queue.push_back((to, packet));
        while let Some((to, packet)) = queue.pop_front() {
            match self.drones.get_mut(&to) {
                Some(drone) => {
                    for action in drone.handle_packet(packet, false) {
                        if let Action::Send(next, p) = action {
                            queue.push_back((next, p));
                        }
                    }
                }
                None => self.delivered.push((to, packet)),
            }
        }
    }
}

fn double_chain() -> Mesh {
    Mesh::new(&[
        (3, vec![40, 4, 5]),
        (4, vec![3, 6]),
        (6, vec![4, 8]),
        (8, vec![6, 7, 50]),
        (7, vec![8, 5]),
        (5, vec![7, 3]),
    ])
}

#[test]
fn ping_round_trip() {
    let mut mesh = double_chain();
    mesh.run(3, fragment(vec![40, 3, 4, 6, 8, 50], 1, 0, 0));
    assert_eq!(mesh.delivered.len(), 1);
    let (at, request) = mesh.delivered.pop().unwrap();
    assert_eq!(at, 50);
    match &request.pack_type {
        PacketType::MsgFragment(f) => {
            assert_eq!(f.fragment_index, 0);
            assert_eq!(f.total_n_fragments, 1);
            assert_eq!(f.data, [0; FRAGMENT_DSIZE]);
        }
        other => panic!("expected the fragment, got {:?}", other),
    }
    mesh.run(8, fragment(vec![50, 8, 7, 5, 3, 40], 1, 0, 1));
    assert_eq!(mesh.delivered.len(), 1);
    let (at, reply) = mesh.delivered.pop().unwrap();
    assert_eq!(at, 40);
    match &reply.pack_type {
        PacketType::MsgFragment(f) => assert_eq!(f.data, [1; FRAGMENT_DSIZE]),
        other => panic!("expected the fragment, got {:?}", other),
    }
}

#[test]
fn flood_discovery_reaches_client() {
    let mut mesh = Mesh::new(&[
        (1, vec![40, 2, 3]),
        (2, vec![1, 4]),
        (3, vec![1, 4]),
        (4, vec![2, 3]),
    ]);
    mesh.run(1, flood_request(40, 0, vec![(40, NodeType::Client)]));
    let responses: Vec<&Packet> = mesh
        .delivered
        .iter()
        .filter(|(at, p)| *at == 40 && matches!(p.pack_type, PacketType::FloodResponse(_)))
        .map(|(_, p)| p)
        .collect();
    assert!(!responses.is_empty());
    for p in responses {
        match &p.pack_type {
            PacketType::FloodResponse(r) => {
                assert_eq!(r.flood_id, 0);
                assert_eq!(r.path_trace.first(), Some(&(40, NodeType::Client)));
            }
            _ => unreachable!(),
        }
    }
}
