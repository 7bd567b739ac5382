use correspondchess::api::ws::{Message, PlayerMoveMessage};
use correspondchess::api::PlayerSide;

#[test]
fn side_codes() {
    assert_eq!(PlayerSide::from(0u64), PlayerSide::White);
    assert_eq!(PlayerSide::from(1u64), PlayerSide::Black);
    assert_eq!(PlayerSide::from(2u64), PlayerSide::Neither);
    assert_eq!(PlayerSide::from(u64::MAX), PlayerSide::Neither);
}

#[test]
fn opponents() {
    assert_eq!(PlayerSide::White.opponent(), PlayerSide::Black);
    assert_eq!(PlayerSide::Black.opponent(), PlayerSide::White);
    assert_eq!(PlayerSide::Neither.opponent(), PlayerSide::Neither);
    for s in [PlayerSide::White, PlayerSide::Black, PlayerSide::Neither] {
        assert_eq!(s.opponent().opponent(), s);
    }
}

#[test]
fn move_messages() {
    let m = PlayerMoveMessage::from("e4".to_string());
    assert_eq!(m.san, "e4");
    match Message::from(m) {
        Message::OpponentMove(inner) => assert_eq!(inner.san, "e4"),
    }
}
