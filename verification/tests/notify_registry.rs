use correspondchess::api::actor::{DisconnectMessage, SubscribeMessage};
use correspondchess::api::PlayerSide;
use correspondchess::wsserver::{NotifyServer, SubscribeKey};

fn key(game_id: i32, side: PlayerSide) -> SubscribeKey {
    SubscribeKey { game_id, side }
}

fn sorted(mut v: Vec<usize>) -> Vec<usize> {
    v.sort();
    v
}

#[test]
fn subscribed_sessions_receive() {
    let mut s: NotifyServer<&'static str> = NotifyServer::new();
    let a = s.connect("a");
    let b = s.connect("b");
    s.subscribe(SubscribeMessage { id: a, game_id: 1, side: PlayerSide::White });
    s.subscribe(SubscribeMessage { id: b, game_id: 1, side: PlayerSide::White });
    assert_eq!(sorted(s.recipients(&key(1, PlayerSide::White))), sorted(vec![a, b]));
    assert!(s.recipients(&key(1, PlayerSide::Black)).is_empty());
    assert_eq!(s.session(a), Some(&"a"));
    assert_eq!(s.session(b), Some(&"b"));
}

#[test]
fn resubscribing_switches_side() {
    let mut s: NotifyServer<u8> = NotifyServer::default();
    let a = s.connect(1);
    s.subscribe(SubscribeMessage { id: a, game_id: 1, side: PlayerSide::White });
    s.subscribe(SubscribeMessage { id: a, game_id: 2, side: PlayerSide::Black });
    assert!(s.recipients(&key(1, PlayerSide::White)).is_empty());
    assert_eq!(s.recipients(&key(2, PlayerSide::Black)), vec![a]);
}

#[test]
fn disconnected_sessions_hear_nothing() {
    let mut s: NotifyServer<u8> = NotifyServer::new();
    let a = s.connect(1);
    let b = s.connect(2);
    s.subscribe(SubscribeMessage { id: a, game_id: 1, side: PlayerSide::White });
    s.subscribe(SubscribeMessage { id: b, game_id: 1, side: PlayerSide::White });
    s.disconnect(DisconnectMessage { id: a });
    assert_eq!(s.recipients(&key(1, PlayerSide::White)), vec![b]);
    assert_eq!(s.session(a), None);
    s.subscribe(SubscribeMessage { id: a, game_id: 1, side: PlayerSide::White });
    assert_eq!(s.recipients(&key(1, PlayerSide::White)), vec![b]);
}

#[test]
fn unregistered_subscriptions_reach_nobody() {
    let mut s: NotifyServer<u8> = NotifyServer::new();
    let a = s.connect(1);
    let ghost_id = a.wrapping_add(1);
    s.subscribe(SubscribeMessage { id: ghost_id, game_id: 4, side: PlayerSide::Black });
    assert!(s.recipients(&key(4, PlayerSide::Black)).is_empty());
    s.disconnect(DisconnectMessage { id: ghost_id });
    assert_eq!(s.session(a), Some(&1));
}

#[test]
fn subscribing_one_session_leaves_others() {
    let mut s: NotifyServer<u8> = NotifyServer::new();
    let a = s.connect(1);
    let b = s.connect(2);
    s.subscribe(SubscribeMessage { id: a, game_id: 1, side: PlayerSide::White });
    s.subscribe(SubscribeMessage { id: b, game_id: 1, side: PlayerSide::Black });
    s.subscribe(SubscribeMessage { id: b, game_id: 2, side: PlayerSide::Black });
    assert_eq!(s.recipients(&key(1, PlayerSide::White)), vec![a]);
    assert!(s.recipients(&key(1, PlayerSide::Black)).is_empty());
    s.disconnect(DisconnectMessage { id: b });
    assert_eq!(s.recipients(&key(1, PlayerSide::White)), vec![a]);
}

#[test]
fn connected_sessions_get_fresh_ids() {
    let mut s: NotifyServer<u8> = NotifyServer::new();
    let mut ids: Vec<usize> = Vec::new();
    for n in 0..50u8 {
        let id = s.connect(n);
        assert!(!ids.contains(&id));
        ids.push(id);
    }
    for (n, id) in ids.iter().enumerate() {
        assert_eq!(s.session(*id), Some(&(n as u8)));
    }
}
