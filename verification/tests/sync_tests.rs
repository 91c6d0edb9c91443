use rook_core::live_sync::permission::{
    check_token, create_sync_session, decrypt_token, encrypt_token, encrypt_with_nonce,
    generate_id, generate_key, new_token, open_link, read_key, seal_link, split_link,
    validate_permission, SyncRole,
};
use rook_core::live_sync::signaling::{
    clear_signaling_state, create_join_message, generate_peer_id, get_signaling_state,
    set_signaling_state, RtcConfig, SignalMessage, SignalingState,
};
use rook_core::live_sync::sync_message::{create_presence_op, create_sync_message, SyncOp};

#[test]
fn test_role_permissions() {
    assert!(!SyncRole::Viewer.can_edit());
    assert!(!SyncRole::Viewer.can_comment());

    assert!(!SyncRole::Commenter.can_edit());
    assert!(SyncRole::Commenter.can_comment());

    assert!(SyncRole::Editor.can_edit());
    assert!(SyncRole::Editor.can_comment());
}

#[test]
fn test_rtc_config_default() {
    let config = RtcConfig::default();
    assert!(!config.ice_servers.is_empty());
    assert!(config.ice_servers[0].urls[0].contains("stun"));
}

#[test]
fn test_create_session() {
    let session = create_sync_session("Test Session".to_string()).unwrap();
    assert!(!session.id.is_empty());
    assert_eq!(session.name, "Test Session");
    assert!(!session.secret_key.is_empty());
}

#[test]
fn test_permission_link_roundtrip() {
    let session = create_sync_session("Test".to_string()).unwrap();
    let token = new_token(&session, SyncRole::Editor, 1_700_000_000, None);
    let json = format!("{{\"sessionId\":\"{}\",\"role\":\"editor\"}}", token.session_id);
    let link = seal_link(&session, json.as_bytes()).unwrap();

    assert!(link.starts_with("rook://sync/"));

    let (named, data) = open_link(&link, &session.secret_key).unwrap();
    assert_eq!(data, json.as_bytes());
    assert_eq!(named, session.id);
    assert_eq!(token.role, SyncRole::Editor);
    assert!(check_token(&token, &named, 1_700_000_001).is_ok());
}

#[test]
fn test_peer_id_generation() {
    let id1 = generate_peer_id();
    let id2 = generate_peer_id();
    assert!(id1.starts_with("peer-"));
    assert_ne!(id1, id2);
}

#[test]
fn actions_by_role() {
    for role in [SyncRole::Viewer, SyncRole::Commenter, SyncRole::Editor] {
        assert!(validate_permission(role, "view"));
        assert!(!validate_permission(role, "delete"));
        assert!(!validate_permission(role, ""));
        assert!(!validate_permission(role, "View"));
    }
    assert!(!validate_permission(SyncRole::Viewer, "comment"));
    assert!(validate_permission(SyncRole::Commenter, "comment"));
    assert!(!validate_permission(SyncRole::Commenter, "edit"));
    assert!(validate_permission(SyncRole::Editor, "edit"));
}

#[test]
fn sealing_with_a_known_nonce() {
    let mut key = [0u8; 32];
    for (i, b) in key.iter_mut().enumerate() {
        *b = i as u8;
    }
    let nonce = [0xF0u8; 12];
    let sealed = encrypt_with_nonce(&[0x00, 0xFF, 0x0F], &key, &nonce);
    assert_eq!(&sealed[..12], &nonce);
    assert_eq!(&sealed[12..], &[0xF0, 0x0E, 0xFD]);
    assert_eq!(decrypt_token(&sealed, &key), Some(vec![0x00, 0xFF, 0x0F]));
    let long: Vec<u8> = (0..100u8).collect();
    let round = decrypt_token(&encrypt_with_nonce(&long, &key, &nonce), &key);
    assert_eq!(round, Some(long.clone()));
    assert_eq!(decrypt_token(&encrypt_token(&long, &key), &key), Some(long));
    assert_eq!(decrypt_token(&[0u8; 11], &key), None);
    assert_eq!(decrypt_token(&[0u8; 12], &key), Some(vec![]));
}

#[test]
fn ids_and_keys() {
    let id = generate_id();
    assert_eq!(id.len(), 16);
    assert!(id.chars().all(|c| c.is_ascii_hexdigit() && !c.is_ascii_uppercase()));
    assert_ne!(generate_key(), generate_key());
    let peer = generate_peer_id();
    assert!(peer.len() >= 17);
}

#[test]
fn links_are_taken_apart() {
    assert_eq!(
        split_link("rook://sync/abc/def"),
        Some(("abc".to_string(), "def".to_string()))
    );
    assert_eq!(
        split_link("rook://sync/rook://sync/abc/def"),
        Some(("abc".to_string(), "def".to_string()))
    );
    assert_eq!(split_link("abc/def"), Some(("abc".to_string(), "def".to_string())));
    assert_eq!(split_link("rook://sync/abc"), None);
    assert_eq!(split_link("rook://sync/a/b/c"), None);
    assert_eq!(split_link("rook://sync//"), Some((String::new(), String::new())));
    assert_eq!(split_link(""), None);
}

#[test]
fn bad_links_and_keys_are_refused() {
    let session = create_sync_session("s".to_string()).unwrap();
    assert_eq!(
        open_link("rook://sync/only", &session.secret_key).err().as_deref(),
        Some("Invalid link format")
    );
    assert!(open_link("rook://sync/id/***", &session.secret_key)
        .err()
        .unwrap()
        .starts_with("Decode error: "));
    assert_eq!(
        open_link("rook://sync/id/AAAA", "AAAA").err().as_deref(),
        Some("Invalid key length")
    );
    assert_eq!(
        open_link("rook://sync/id/AAAA", &session.secret_key).err().as_deref(),
        Some("Decryption failed")
    );
    assert_eq!(read_key("AAAA").err().as_deref(), Some("Invalid key length"));
    assert!(read_key("not base64!").is_err());
    assert_eq!(read_key(&session.secret_key).map(|k| k.len()).ok(), Some(32));
    let mut broken = create_sync_session("t".to_string()).unwrap();
    broken.secret_key = "AAAA".to_string();
    assert!(seal_link(&broken, b"{}").is_err());
}

#[test]
fn tokens_run_out() {
    let session = create_sync_session("s".to_string()).unwrap();
    let token = new_token(&session, SyncRole::Viewer, 1000, Some(2));
    assert_eq!(token.expires_at, Some(8200));
    assert_eq!(token.created_at, 1000);
    assert_eq!(token.creator_id, session.host_id);
    assert!(check_token(&token, &session.id, 8200).is_ok());
    assert_eq!(check_token(&token, &session.id, 8201).err().as_deref(), Some("Token expired"));
    assert_eq!(
        check_token(&token, "someone else", 2000).err().as_deref(),
        Some("Session ID mismatch")
    );
    assert_eq!(
        check_token(&token, "someone else", 9000).err().as_deref(),
        Some("Token expired")
    );
    let forever = new_token(&session, SyncRole::Viewer, 1000, None);
    assert_eq!(forever.expires_at, None);
    assert!(check_token(&forever, &session.id, u64::MAX).is_ok());
    let far = new_token(&session, SyncRole::Viewer, 1000, Some(u64::MAX));
    assert_eq!(far.expires_at, Some(u64::MAX));
}

#[test]
fn signaling_state_is_set_and_cleared() {
    let mut state = SignalingState::new();
    assert_eq!(get_signaling_state(&state), (None, None));
    set_signaling_state(&mut state, "p".to_string(), "s".to_string());
    assert_eq!(get_signaling_state(&state), (Some("p".to_string()), Some("s".to_string())));
    clear_signaling_state(&mut state);
    assert_eq!(get_signaling_state(&state), (None, None));
    assert!(state.connected_peers.is_empty());
    match create_join_message("test-session".to_string(), "peer-123".to_string()) {
        SignalMessage::Join { session_id, peer_id } => {
            assert_eq!(session_id, "test-session");
            assert_eq!(peer_id, "peer-123");
        }
        _ => panic!("Wrong message type"),
    }
}

#[test]
fn sync_messages_carry_their_number() {
    let op = create_presence_op("p".to_string(), "n".to_string(), "#fff".to_string(), true);
    let msg = create_sync_message("peer-123".to_string(), 7, op);
    assert_eq!(msg.seq, 7);
    assert_eq!(msg.sender_id, "peer-123");
    assert!(msg.timestamp > 1_600_000_000_000);
    assert!(matches!(msg.op, SyncOp::Presence { active: true, .. }));
}

#[test]
fn keys_are_made_of_four_numbers() {
    let key = rook_core::live_sync::permission::key_from(
        0x0807_0605_0403_0201,
        0,
        u64::MAX,
        0x8000_0000_0000_00ff,
    );
    let mut expected = vec![1u8, 2, 3, 4, 5, 6, 7, 8];
    expected.extend_from_slice(&[0; 8]);
    expected.extend_from_slice(&[255; 8]);
    expected.extend_from_slice(&[255, 0, 0, 0, 0, 0, 0, 0x80]);
    assert_eq!(key.to_vec(), expected);
    assert_eq!(rook_core::live_sync::permission::key_from(0, 0, 0, 0), [0u8; 32]);
}
