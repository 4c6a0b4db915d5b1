use kaspa_grpc_server::delivery::{Message, PushError, ResponsePayload, NOTIFICATION_ID};
use kaspa_grpc_server::notification::Notification;
use kaspa_grpc_server::notifier::NotifierError;
use kaspa_grpc_server::request::{Request, RequestKind, RequestPayload, Step};
use kaspa_grpc_server::scope::{Command, Scope, ScopeKind};
use kaspa_grpc_server::service::{GrpcService, ServiceError, DELIVERY_CAPACITY};

const GET_BLOCK_COUNT: u16 = 17;

fn started() -> GrpcService {
    let mut service = GrpcService::new(99);
    service.start();
    service
}

fn notify(id: u64, scope: Scope, command: Command) -> Request {
    Request { id, payload: Some(RequestPayload::Notify { scope, command }) }
}

fn event(kind: ScopeKind, addresses: Vec<u64>) -> Notification {
    Notification::new(kind, addresses, vec![1, 2, 3])
}

fn connect_and_subscribe(service: &mut GrpcService, connection: u64, scope: Scope) -> u64 {
    let listener = service.register_connection(connection).unwrap();
    assert!(matches!(service.handle_request(connection, notify(1, scope, Command::Start)), Step::Replied));
    let replies = service.take_outbound(connection).unwrap();
    assert_eq!(replies.len(), 1);
    listener
}

fn notification_of(m: &Message) -> &Notification {
    match &m.payload {
        ResponsePayload::Notification(n) => n,
        other => panic!("not a notification: {:?}", other),
    }
}

#[test]
fn utxos_changed_filters_by_address() {
    let mut service = started();
    let listener = connect_and_subscribe(&mut service, 10, Scope::UtxosChanged { addresses: vec![0xA] });
    let fan_out = service.publish(&event(ScopeKind::UtxosChanged, vec![0xB]));
    assert!(fan_out.delivered.is_empty());
    assert!(service.take_outbound(10).unwrap().is_empty());
    let fan_out = service.publish(&event(ScopeKind::UtxosChanged, vec![0xA]));
    assert_eq!(fan_out.delivered, vec![listener]);
    let out = service.take_outbound(10).unwrap();
    assert_eq!(out.len(), 1);
    assert_eq!(out[0].id, NOTIFICATION_ID);
    let n = notification_of(&out[0]);
    assert_eq!(n.kind, ScopeKind::UtxosChanged);
    assert_eq!(n.addresses, vec![0xA]);
    assert_eq!(n.payload, vec![1, 2, 3]);
}

#[test]
fn business_call_keeps_request_id() {
    let mut service = started();
    service.register_connection(10).unwrap();
    let request = Request { id: 7, payload: Some(RequestPayload::Call { method: GET_BLOCK_COUNT, body: vec![5] }) };
    let (id, method) = match service.handle_request(10, request) {
        Step::Delegate { id, method, body } => {
            assert_eq!(body, vec![5]);
            (id, method)
        },
        other => panic!("expected a delegation: {:?}", other),
    };
    assert_eq!((id, method), (7, GET_BLOCK_COUNT));
    assert!(service.take_outbound(10).unwrap().is_empty());
    assert!(matches!(service.complete_call(10, id, method, Ok(vec![42])), Step::Replied));
    let out = service.take_outbound(10).unwrap();
    assert_eq!(out.len(), 1);
    assert_eq!(out[0].id, 7);
    match &out[0].payload {
        ResponsePayload::Call { method, result } => {
            assert_eq!(*method, GET_BLOCK_COUNT);
            assert_eq!(result, &Ok(vec![42]));
        },
        other => panic!("expected a call response: {:?}", other),
    }
}

#[test]
fn disconnect_leaves_no_block_added_listener() {
    let mut service = started();
    let listener = connect_and_subscribe(&mut service, 10, Scope::BlockAdded);
    assert_eq!(service.notifier().subscriber_count(ScopeKind::BlockAdded), 1);
    assert!(service.unregister_connection(10));
    let fan_out = service.publish(&event(ScopeKind::BlockAdded, vec![]));
    assert!(fan_out.delivered.is_empty());
    assert_eq!(service.notifier().subscriber_count(ScopeKind::BlockAdded), 0);
    assert!(service.notifier().listener(listener).is_none());
    assert!(service.take_outbound(10).is_none());
}

#[test]
fn new_block_template_reaches_both_connections() {
    let mut service = started();
    let first = connect_and_subscribe(&mut service, 10, Scope::NewBlockTemplate);
    let second = connect_and_subscribe(&mut service, 11, Scope::NewBlockTemplate);
    let fan_out = service.publish(&event(ScopeKind::NewBlockTemplate, vec![]));
    assert_eq!(fan_out.delivered, vec![first, second]);
    assert!(fan_out.dropped.is_empty());
    for connection in [10, 11] {
        let out = service.take_outbound(connection).unwrap();
        assert_eq!(out.len(), 1);
        assert_eq!(notification_of(&out[0]).kind, ScopeKind::NewBlockTemplate);
    }
}

#[test]
fn notification_reaches_only_subscribers_of_its_scope() {
    let mut service = started();
    let first = connect_and_subscribe(&mut service, 10, Scope::BlockAdded);
    connect_and_subscribe(&mut service, 11, Scope::NewBlockTemplate);
    let fan_out = service.publish(&event(ScopeKind::BlockAdded, vec![]));
    assert_eq!(fan_out.delivered, vec![first]);
    assert_eq!(service.take_outbound(10).unwrap().len(), 1);
    assert!(service.take_outbound(11).unwrap().is_empty());
}

#[test]
fn subscribing_twice_equals_once() {
    let mut once = started();
    let mut twice = started();
    let a = connect_and_subscribe(&mut once, 10, Scope::UtxosChanged { addresses: vec![1, 2] });
    let b = connect_and_subscribe(&mut twice, 10, Scope::UtxosChanged { addresses: vec![1, 2] });
    assert!(matches!(
        twice.handle_request(10, notify(2, Scope::UtxosChanged { addresses: vec![1, 2] }, Command::Start)),
        Step::Replied
    ));
    let s1 = once.notifier().listener(a).unwrap().subscriptions();
    let s2 = twice.notifier().listener(b).unwrap().subscriptions();
    for kind in all_kinds() {
        assert_eq!(s1.holds(kind), s2.holds(kind));
    }
    assert_eq!(s1.addresses(), s2.addresses());
    assert_eq!(twice.notifier().subscriber_count(ScopeKind::UtxosChanged), 1);
}

#[test]
fn unsubscribing_an_unheld_scope_is_a_noop() {
    let mut service = started();
    let listener = connect_and_subscribe(&mut service, 10, Scope::BlockAdded);
    assert_eq!(service.subscribe(10, &Scope::SinkBlueScoreChanged, Command::Stop), Ok(()));
    let s = service.notifier().listener(listener).unwrap().subscriptions();
    for kind in all_kinds() {
        assert_eq!(s.holds(kind), kind == ScopeKind::BlockAdded);
    }
}

#[test]
fn no_delivery_after_unregister() {
    let mut service = started();
    connect_and_subscribe(&mut service, 10, Scope::VirtualDaaScoreChanged);
    let other = connect_and_subscribe(&mut service, 11, Scope::VirtualDaaScoreChanged);
    service.unregister_connection(10);
    for _ in 0..3 {
        let fan_out = service.publish(&event(ScopeKind::VirtualDaaScoreChanged, vec![]));
        assert_eq!(fan_out.delivered, vec![other]);
    }
    // A fresh registration of the same connection gets a new listener id.
    let again = service.register_connection(10).unwrap();
    assert!(again > other);
    assert!(service.publish(&event(ScopeKind::VirtualDaaScoreChanged, vec![])).delivered == vec![other]);
}

#[test]
fn responses_echo_ids_and_notifications_carry_zero() {
    let mut service = started();
    service.register_connection(10).unwrap();
    service.handle_request(10, notify(31, Scope::BlockAdded, Command::Start));
    service.handle_request(10, Request { id: 32, payload: None });
    service.publish(&event(ScopeKind::BlockAdded, vec![]));
    let out = service.take_outbound(10).unwrap();
    let ids: Vec<u64> = out.iter().map(|m| m.id).collect();
    assert_eq!(ids, vec![31, 32, 0]);
    assert!(matches!(out[1].payload, ResponsePayload::MissingPayload));
}

#[test]
fn finality_conflict_subscribes_both_scopes() {
    let mut service = started();
    let listener = connect_and_subscribe(&mut service, 10, Scope::FinalityConflict);
    let s = service.notifier().listener(listener).unwrap().subscriptions();
    assert!(s.holds(ScopeKind::FinalityConflict));
    assert!(s.holds(ScopeKind::FinalityConflictResolved));
    assert_eq!(service.publish(&event(ScopeKind::FinalityConflict, vec![])).delivered, vec![listener]);
    assert_eq!(service.publish(&event(ScopeKind::FinalityConflictResolved, vec![])).delivered, vec![listener]);
    assert!(matches!(service.handle_request(10, notify(3, Scope::FinalityConflict, Command::Stop)), Step::Replied));
    let s = service.notifier().listener(listener).unwrap().subscriptions();
    assert!(!s.holds(ScopeKind::FinalityConflict));
    assert!(!s.holds(ScopeKind::FinalityConflictResolved));
    assert!(service.publish(&event(ScopeKind::FinalityConflict, vec![])).delivered.is_empty());
    assert!(service.publish(&event(ScopeKind::FinalityConflictResolved, vec![])).delivered.is_empty());
}

#[test]
fn full_listener_does_not_block_others() {
    let mut service = started();
    let slow = connect_and_subscribe(&mut service, 10, Scope::BlockAdded);
    let fast = connect_and_subscribe(&mut service, 11, Scope::BlockAdded);
    for _ in 0..DELIVERY_CAPACITY {
        let fan_out = service.publish(&event(ScopeKind::BlockAdded, vec![]));
        assert_eq!(fan_out.delivered, vec![slow, fast]);
        service.take_outbound(11).unwrap();
    }
    let fan_out = service.publish(&event(ScopeKind::BlockAdded, vec![]));
    assert_eq!(fan_out.delivered, vec![fast]);
    assert_eq!(fan_out.dropped, vec![slow]);
    assert_eq!(service.take_outbound(11).unwrap().len(), 1);
    assert_eq!(service.notifier().listener(slow).unwrap().queued(), DELIVERY_CAPACITY);
}

#[test]
fn full_handle_hands_the_response_back() {
    let mut service = started();
    connect_and_subscribe(&mut service, 10, Scope::BlockAdded);
    for _ in 0..DELIVERY_CAPACITY {
        service.publish(&event(ScopeKind::BlockAdded, vec![]));
    }
    match service.complete_call(10, 8, GET_BLOCK_COUNT, Ok(vec![])) {
        Step::Backpressure(m) => assert_eq!(m.id, 8),
        other => panic!("expected backpressure: {:?}", other),
    }
    match service.respond(10, Message { id: 9, payload: ResponsePayload::MissingPayload }) {
        Err(PushError::Full(m)) => assert_eq!(m.id, 9),
        other => panic!("expected a full handle: {:?}", other),
    }
}

#[test]
fn stop_notifying_unsubscribes() {
    let mut service = started();
    let listener = connect_and_subscribe(&mut service, 10, Scope::UtxosChanged { addresses: vec![4] });
    let request = Request {
        id: 5,
        payload: Some(RequestPayload::StopNotifying { scope: Scope::UtxosChanged { addresses: vec![4] } }),
    };
    assert!(matches!(service.handle_request(10, request), Step::Replied));
    let out = service.take_outbound(10).unwrap();
    assert_eq!(out[0].id, 5);
    assert!(matches!(
        out[0].payload,
        ResponsePayload::StopNotifying { kind: ScopeKind::UtxosChanged, result: Ok(()) }
    ));
    let s = service.notifier().listener(listener).unwrap().subscriptions();
    assert!(!s.holds(ScopeKind::UtxosChanged));
    assert!(s.addresses().is_empty());
    assert!(service.publish(&event(ScopeKind::UtxosChanged, vec![4])).delivered.is_empty());
}

#[test]
fn invalid_request_gets_matching_error() {
    let mut service = started();
    let listener = service.register_connection(10).unwrap();
    let cases = [
        RequestKind::Call(GET_BLOCK_COUNT),
        RequestKind::Notify(ScopeKind::BlockAdded),
        RequestKind::StopNotifying(ScopeKind::UtxosChanged),
    ];
    for (i, kind) in cases.iter().enumerate() {
        let request = Request {
            id: 100 + i as u64,
            payload: Some(RequestPayload::Invalid { kind: *kind, reason: "bad field".to_string() }),
        };
        assert!(matches!(service.handle_request(10, request), Step::Replied));
    }
    let out = service.take_outbound(10).unwrap();
    assert_eq!(out.len(), 3);
    let bad = Err("bad field".to_string());
    match &out[0].payload {
        ResponsePayload::Call { method, result } => {
            assert_eq!(*method, GET_BLOCK_COUNT);
            assert_eq!(result, &Err("bad field".to_string()));
        },
        other => panic!("{:?}", other),
    }
    match &out[1].payload {
        ResponsePayload::Notify { kind, result } => assert_eq!((*kind, result.clone()), (ScopeKind::BlockAdded, bad.clone())),
        other => panic!("{:?}", other),
    }
    match &out[2].payload {
        ResponsePayload::StopNotifying { kind, result } => {
            assert_eq!((*kind, result.clone()), (ScopeKind::UtxosChanged, bad.clone()))
        },
        other => panic!("{:?}", other),
    }
    assert_eq!(out.iter().map(|m| m.id).collect::<Vec<_>>(), vec![100, 101, 102]);
    let s = service.notifier().listener(listener).unwrap().subscriptions();
    assert!(all_kinds().iter().all(|k| !s.holds(*k)));
}

#[test]
fn unknown_connection_is_closed() {
    let mut service = started();
    assert!(matches!(service.handle_request(3, notify(1, Scope::BlockAdded, Command::Start)), Step::Closed));
    assert!(matches!(service.complete_call(3, 1, GET_BLOCK_COUNT, Ok(vec![])), Step::Closed));
    assert_eq!(service.subscribe(3, &Scope::BlockAdded, Command::Start), Err(ServiceError::UnknownConnection(3)));
    assert!(matches!(
        service.respond(3, Message { id: 1, payload: ResponsePayload::MissingPayload }),
        Err(PushError::Closed(_))
    ));
    assert!(!service.unregister_connection(3));
    assert_eq!(service.listener_of(3), None);
}

#[test]
fn duplicate_connection_is_refused() {
    let mut service = started();
    let listener = service.register_connection(10).unwrap();
    assert_eq!(listener, 0);
    assert_eq!(service.register_connection(10), Err(ServiceError::AlreadyRegistered(10)));
    assert_eq!(service.register_connection(11), Ok(1));
    assert_eq!(service.listener_of(10), Some(0));
    assert_eq!(service.notifier().listener_count(), 2);
}

#[test]
fn lifecycle_errors() {
    let mut service = GrpcService::new(99);
    assert_eq!(service.core_listener_id(), 99);
    assert_eq!(service.stop(), Err(ServiceError::Notifier(NotifierError::AlreadyStopped)));
    service.start();
    assert!(service.notifier().is_running());
    assert_eq!(service.finalize(), Err(ServiceError::StillRunning));
    assert_eq!(service.stop(), Ok(()));
    assert_eq!(service.stop(), Err(ServiceError::Notifier(NotifierError::AlreadyStopped)));
    assert_eq!(service.finalize(), Ok(99));
    assert_eq!(service.finalize(), Err(ServiceError::AlreadyFinalized));
}

#[test]
fn stopped_notifier_delivers_nothing() {
    let mut service = GrpcService::new(1);
    connect_and_subscribe(&mut service, 10, Scope::BlockAdded);
    let fan_out = service.publish(&event(ScopeKind::BlockAdded, vec![]));
    assert!(fan_out.delivered.is_empty() && fan_out.dropped.is_empty());
    assert!(service.take_outbound(10).unwrap().is_empty());
}

#[test]
fn virtual_chain_filter_last_write_wins() {
    let mut service = started();
    let listener = connect_and_subscribe(
        &mut service,
        10,
        Scope::VirtualChainChanged { include_accepted_transaction_ids: true },
    );
    let s = service.notifier().listener(listener).unwrap().subscriptions();
    assert!(s.include_accepted_transaction_ids());
    service.subscribe(10, &Scope::VirtualChainChanged { include_accepted_transaction_ids: false }, Command::Start).unwrap();
    let s = service.notifier().listener(listener).unwrap().subscriptions();
    assert!(s.holds(ScopeKind::VirtualChainChanged));
    assert!(!s.include_accepted_transaction_ids());
}

#[test]
fn utxos_filter_is_replaced_not_merged() {
    let mut service = started();
    let listener = connect_and_subscribe(&mut service, 10, Scope::UtxosChanged { addresses: vec![1] });
    service.subscribe(10, &Scope::UtxosChanged { addresses: vec![2, 3] }, Command::Start).unwrap();
    assert_eq!(service.notifier().listener(listener).unwrap().subscriptions().addresses(), &vec![2, 3]);
    assert!(service.publish(&event(ScopeKind::UtxosChanged, vec![1])).delivered.is_empty());
    assert_eq!(service.publish(&event(ScopeKind::UtxosChanged, vec![9, 3])).delivered, vec![listener]);
}

#[test]
fn pruning_point_and_sink_scopes_are_independent() {
    let mut service = started();
    let listener = connect_and_subscribe(&mut service, 10, Scope::PruningPointUtxoSetOverride);
    assert!(service.publish(&event(ScopeKind::SinkBlueScoreChanged, vec![])).delivered.is_empty());
    assert_eq!(service.publish(&event(ScopeKind::PruningPointUtxoSetOverride, vec![])).delivered, vec![listener]);
}

fn all_kinds() -> [ScopeKind; 9] {
    [
        ScopeKind::BlockAdded,
        ScopeKind::VirtualChainChanged,
        ScopeKind::FinalityConflict,
        ScopeKind::FinalityConflictResolved,
        ScopeKind::UtxosChanged,
        ScopeKind::SinkBlueScoreChanged,
        ScopeKind::VirtualDaaScoreChanged,
        ScopeKind::PruningPointUtxoSetOverride,
        ScopeKind::NewBlockTemplate,
    ]
}

#[test]
fn scope_kind_indices_are_distinct() {
    let indices: Vec<usize> = all_kinds().iter().map(|k| k.index()).collect();
    assert_eq!(indices, (0..9).collect::<Vec<_>>());
    assert_eq!(Scope::UtxosChanged { addresses: vec![] }.kind(), ScopeKind::UtxosChanged);
}
