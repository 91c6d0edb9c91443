use rook_core::fixed::Fixed;
use rook_core::live_sync::signaling::{
    create_answer_message, create_ice_candidate_message, create_offer_message, SignalMessage,
};
use rook_core::live_sync::sync_message::{
    create_cursor_op, create_layer_update_op, stamp_sync_message, SyncOp,
};
use rook_core::models::LayerUpdates;

#[test]
fn signal_messages_carry_what_they_are_given() {
    match create_offer_message("a".to_string(), "b".to_string(), "sdp-o".to_string()) {
        SignalMessage::Offer { to, from, sdp } => {
            assert_eq!((to.as_str(), from.as_str(), sdp.as_str()), ("a", "b", "sdp-o"));
        }
        _ => panic!("expected an offer"),
    }
    match create_answer_message("c".to_string(), "d".to_string(), "sdp-a".to_string()) {
        SignalMessage::Answer { to, from, sdp } => {
            assert_eq!((to.as_str(), from.as_str(), sdp.as_str()), ("c", "d", "sdp-a"));
        }
        _ => panic!("expected an answer"),
    }
    match create_ice_candidate_message("e".to_string(), "f".to_string(), "cand".to_string()) {
        SignalMessage::IceCandidate { to, from, candidate } => {
            assert_eq!((to.as_str(), from.as_str(), candidate.as_str()), ("e", "f", "cand"));
        }
        _ => panic!("expected a candidate"),
    }
}

#[test]
fn sync_operations_carry_what_they_are_given() {
    match create_cursor_op("p".to_string(), 3, Fixed::from_micros(1_500_000), Fixed::from_micros(-2)) {
        SyncOp::CursorMove { peer_id, page_index, x, y } => {
            assert_eq!(peer_id, "p");
            assert_eq!(page_index, 3);
            assert_eq!(x.micros, 1_500_000);
            assert_eq!(y.micros, -2);
        }
        _ => panic!("expected a cursor move"),
    }
    let mut updates = LayerUpdates::default();
    updates.z_index = Some(4);
    match create_layer_update_op(2, "layer".to_string(), updates) {
        SyncOp::LayerUpdate { page_index, layer_id, updates } => {
            assert_eq!(page_index, 2);
            assert_eq!(layer_id, "layer");
            assert_eq!(updates.z_index, Some(4));
            assert_eq!(updates.content, None);
        }
        _ => panic!("expected a layer update"),
    }
    let op = create_cursor_op("p".to_string(), 0, Fixed::zero(), Fixed::zero());
    let msg = stamp_sync_message("sender".to_string(), 9, 1234, op);
    assert_eq!(msg.seq, 9);
    assert_eq!(msg.timestamp, 1234);
    assert_eq!(msg.sender_id, "sender");
    assert!(matches!(msg.op, SyncOp::CursorMove { page_index: 0, .. }));
}
