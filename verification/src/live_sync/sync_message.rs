//! The messages that peers exchange to keep a document in step.

use crate::clock::unix_millis;
use crate::fixed::Fixed;
use crate::models::{Bounds, LayerObject, LayerUpdates};
use vstd::prelude::*;

verus! {

/// A page in the first, full exchange.
#[derive(Debug, Clone)]
pub struct PageSync {
    pub page_index: usize,
    pub width: Fixed,
    pub height: Fixed,
    pub layer_count: usize,
}

/// One change to the shared document or to what peers see of each other.
#[derive(Debug, Clone)]
pub enum SyncOp {
    /// The whole document, at the start.
    FullSync { pages: Vec<PageSync> },
    /// A layer was made.
    LayerCreate { page_index: usize, layer: LayerObject },
    /// A layer was changed.
    LayerUpdate { page_index: usize, layer_id: String, updates: LayerUpdates },
    /// A layer was removed.
    LayerDelete { page_index: usize, layer_id: String },
    /// The layers of a page were put in another order.
    LayerReorder { page_index: usize, layer_ids: Vec<String> },
    /// A peer moved its cursor.
    CursorMove { peer_id: String, page_index: usize, x: Fixed, y: Fixed },
    /// A peer selected other layers.
    SelectionChange { peer_id: String, layer_ids: Vec<String> },
    /// A comment was added.
    CommentAdd { id: String, page_index: usize, bounds: Bounds, text: String, author: String },
    /// A comment was resolved.
    CommentResolve { id: String },
    /// A peer tells of itself.
    Presence { peer_id: String, name: String, color: String, active: bool },
    /// A message was received.
    Ack { seq: u64 },
}

/// A change with its number, its time and its sender.
#[derive(Debug, Clone)]
pub struct SyncMessage {
    pub seq: u64,
    pub timestamp: u64,
    pub sender_id: String,
    pub op: SyncOp,
}

/// What is seen of a peer.
#[derive(Debug, Clone)]
pub struct PeerPresence {
    pub peer_id: String,
    pub name: String,
    pub color: String,
    pub cursor_page: Option<usize>,
    pub cursor_x: Option<Fixed>,
    pub cursor_y: Option<Fixed>,
    pub selection: Vec<String>,
    pub last_seen: u64,
}

/// Wraps a change with the given time.
pub fn stamp_sync_message(sender_id: String, seq: u64, timestamp: u64, op: SyncOp) -> (m:
    SyncMessage)
    ensures
        m == (SyncMessage { seq, timestamp, sender_id, op }),
{
    SyncMessage { seq, timestamp, sender_id, op }
}

/// Wraps a change with the current time in milliseconds.
pub fn create_sync_message(sender_id: String, seq: u64, op: SyncOp) -> (m: SyncMessage)
    ensures
        m.seq == seq,
        m.sender_id == sender_id,
        m.op == op,
{
    stamp_sync_message(sender_id, seq, unix_millis(), op)
}

/// The change that updates a layer.
pub fn create_layer_update_op(page_index: usize, layer_id: String, updates: LayerUpdates) -> (op:
    SyncOp)
    ensures
        op == (SyncOp::LayerUpdate { page_index, layer_id, updates }),
{
    SyncOp::LayerUpdate { page_index, layer_id, updates }
}

/// The change that moves a cursor.
pub fn create_cursor_op(peer_id: String, page_index: usize, x: Fixed, y: Fixed) -> (op: SyncOp)
    ensures
        op == (SyncOp::CursorMove { peer_id, page_index, x, y }),
{
    SyncOp::CursorMove { peer_id, page_index, x, y }
}

/// The change that tells of a peer.
pub fn create_presence_op(peer_id: String, name: String, color: String, active: bool) -> (op:
    SyncOp)
    ensures
        op == (SyncOp::Presence { peer_id, name, color, active }),
{
    SyncOp::Presence { peer_id, name, color, active }
}

} // verus!
