//! Signaling for peer connections: messages, server configuration and the
//! local peer state.

use crate::clock::random_u64;
use crate::text::{hex, left_padded, push_hex_padded};
use vstd::hash_map::StringHashMap;
use vstd::prelude::*;

verus! {

broadcast use vstd::string::group_string_axioms;

/// What is known of a peer.
#[derive(Debug, Clone)]
pub struct PeerInfo {
    pub id: String,
    pub role: String,
    pub joined_at: u64,
}

/// The messages of the signaling channel.
#[derive(Debug, Clone)]
pub enum SignalMessage {
    /// A peer joins a session.
    Join { session_id: String, peer_id: String },
    /// A peer leaves a session.
    Leave { session_id: String, peer_id: String },
    /// A connection offer.
    Offer { to: String, from: String, sdp: String },
    /// The answer to an offer.
    Answer { to: String, from: String, sdp: String },
    /// A candidate address.
    IceCandidate { to: String, from: String, candidate: String },
    /// The peers of a session.
    PeerList { peers: Vec<PeerInfo> },
    /// Something went wrong.
    Error { message: String },
}

/// A server that helps peers to find each other.
#[derive(Debug, Clone)]
pub struct IceServer {
    pub urls: Vec<String>,
    pub username: Option<String>,
    pub credential: Option<String>,
}

/// The servers that a connection uses.
#[derive(Debug, Clone)]
pub struct RtcConfig {
    pub ice_servers: Vec<IceServer>,
}

/// The address of the first public STUN server.
pub open spec fn first_stun() -> Seq<char> {
    "stun:stun.l.google.com:19302"@
}

/// The address of the second public STUN server.
pub open spec fn second_stun() -> Seq<char> {
    "stun:stun1.l.google.com:19302"@
}

impl RtcConfig {
    /// One server without credentials that offers the two public STUN
    /// addresses.
    pub open spec fn is_default(self) -> bool {
        &&& self.ice_servers@.len() == 1
        &&& self.ice_servers@[0].urls@.len() == 2
        &&& self.ice_servers@[0].urls@[0]@ == first_stun()
        &&& self.ice_servers@[0].urls@[1]@ == second_stun()
        &&& self.ice_servers@[0].username is None
        &&& self.ice_servers@[0].credential is None
    }
}

impl Default for RtcConfig {
    fn default() -> (c: Self)
        ensures
            c.is_default(),
    {
        let mut urls: Vec<String> = Vec::new();
        urls.push("stun:stun.l.google.com:19302".to_string());
        urls.push("stun:stun1.l.google.com:19302".to_string());
        let mut ice_servers: Vec<IceServer> = Vec::new();
        ice_servers.push(IceServer { urls, username: None, credential: None });
        RtcConfig { ice_servers }
    }
}

/// The configuration with the public STUN servers.
pub fn get_rtc_config() -> (c: RtcConfig)
    ensures
        c.is_default(),
{
    RtcConfig::default()
}

/// What the local peer knows of itself and of the others.
pub struct SignalingState {
    pub peer_id: Option<String>,
    pub session_id: Option<String>,
    pub connected_peers: StringHashMap<PeerInfo>,
}

impl SignalingState {
    /// The state of a peer that has joined nothing.
    pub fn new() -> (s: SignalingState)
        ensures
            s.peer_id is None,
            s.session_id is None,
            s.connected_peers@ == Map::<Seq<char>, PeerInfo>::empty(),
    {
        SignalingState { peer_id: None, session_id: None, connected_peers: StringHashMap::new() }
    }
}

impl Default for SignalingState {
    fn default() -> (s: Self)
        ensures
            s.peer_id is None,
            s.session_id is None,
            s.connected_peers@ == Map::<Seq<char>, PeerInfo>::empty(),
    {
        SignalingState::new()
    }
}

/// Draws a peer identifier: `peer-` and a random 64-bit number as at least
/// twelve hexadecimal digits.
pub fn generate_peer_id() -> (id: String)
    ensures
        exists|v: u64| id@ == "peer-"@ + left_padded(hex(v as nat), 12),
{
    let v = random_u64();
    let mut id = "peer-".to_string();
    push_hex_padded(&mut id, v, 12);
    assert(id@ =~= "peer-"@ + left_padded(hex(v as nat), 12));
    id
}

/// The message with which `peer_id` joins `session_id`.
pub fn create_join_message(session_id: String, peer_id: String) -> (m: SignalMessage)
    ensures
        m == (SignalMessage::Join { session_id, peer_id }),
{
    SignalMessage::Join { session_id, peer_id }
}

/// The offer of `from` to `to`.
pub fn create_offer_message(to: String, from: String, sdp: String) -> (m: SignalMessage)
    ensures
        m == (SignalMessage::Offer { to, from, sdp }),
{
    SignalMessage::Offer { to, from, sdp }
}

/// The answer of `from` to `to`.
pub fn create_answer_message(to: String, from: String, sdp: String) -> (m: SignalMessage)
    ensures
        m == (SignalMessage::Answer { to, from, sdp }),
{
    SignalMessage::Answer { to, from, sdp }
}

/// The candidate that `from` tells `to`.
pub fn create_ice_candidate_message(to: String, from: String, candidate: String) -> (m:
    SignalMessage)
    ensures
        m == (SignalMessage::IceCandidate { to, from, candidate }),
{
    SignalMessage::IceCandidate { to, from, candidate }
}

/// Records which peer this is and which session it is in; the known peers
/// stay.
pub fn set_signaling_state(state: &mut SignalingState, peer_id: String, session_id: String)
    ensures
        final(state).peer_id == Some(peer_id),
        final(state).session_id == Some(session_id),
        final(state).connected_peers == old(state).connected_peers,
{
    state.peer_id = Some(peer_id);
    state.session_id = Some(session_id);
}

/// Which peer this is and which session it is in.
pub fn get_signaling_state(state: &SignalingState) -> (r: (Option<String>, Option<String>))
    ensures
        r.0 == state.peer_id,
        r.1 == state.session_id,
{
    (state.peer_id.clone(), state.session_id.clone())
}

/// Forgets peer, session and all known peers.
pub fn clear_signaling_state(state: &mut SignalingState)
    ensures
        final(state).peer_id is None,
        final(state).session_id is None,
        final(state).connected_peers@ == Map::<Seq<char>, PeerInfo>::empty(),
{
    state.peer_id = None;
    state.session_id = None;
    state.connected_peers.clear();
}

} // verus!
