use vstd::prelude::*;

verus! {

/// Fixed port of the sync HTTP service.
pub const SYNC_PORT: u16 = 55555;

/// Fixed port on which the discovery responder listens.
pub const DISCOVERY_PORT: u16 = 55556;

/// Application identifier carried in discovery replies.
pub const APP_IDENTIFIER: &'static str = "aventuras";

/// What a server hands back when a session starts.
#[derive(Debug, Clone, PartialEq, Eq)]
pub struct SyncServerInfo {
    pub ip: String,
    pub port: u16,
    pub token: String,
    pub qr_code_base64: String,
    /// Six-digit code for manual entry, derived from the token.
    pub connect_code: String,
}

/// Preview of a story offered for pulling.
#[derive(Debug, Clone, PartialEq, Eq)]
pub struct SyncStoryPreview {
    pub id: String,
    pub title: String,
    pub genre: Option<String>,
    pub updated_at: i64,
    pub entry_count: usize,
}

/// A request to the sync endpoint.
#[derive(Debug, Clone, PartialEq, Eq)]
pub struct SyncRequest {
    pub token: String,
    pub action: SyncAction,
}

/// What a request asks the server to do.
#[derive(Debug, Clone, PartialEq, Eq)]
pub enum SyncAction {
    /// List the previews of all offered stories.
    ListStories,
    /// Fetch the full payload of one offered story.
    PullStory { story_id: String },
    /// Hand a story to the server.
    PushStory { story_data: String },
}

/// The four shapes a sync response takes.
#[derive(Debug, Clone, PartialEq, Eq)]
pub enum SyncResponse {
    StoriesList { stories: Vec<SyncStoryPreview> },
    StoryData { data: String },
    Success { message: String },
    Error { message: String },
}

/// What the pairing QR code encodes.
#[derive(Debug, Clone, PartialEq, Eq)]
pub struct QrCodeData {
    pub ip: String,
    pub port: u16,
    pub token: String,
    pub version: String,
}

/// The discovery responder's reply; it never carries the session token.
#[derive(Debug, Clone, PartialEq, Eq)]
pub struct DiscoveryBroadcast {
    pub app: String,
    pub ip: String,
    pub port: u16,
    pub version: String,
    pub device_name: String,
}

/// An entry of the server's activity log.
#[derive(Debug, Clone, PartialEq, Eq)]
pub struct SyncEvent {
    /// One of `connected`, `pulled`, `pushed`.
    pub event_type: String,
    pub message: String,
}

/// A server found by discovery, at most one per IP.
#[derive(Debug, Clone, PartialEq, Eq)]
pub struct DiscoveredDevice {
    pub ip: String,
    pub port: u16,
    pub version: String,
    pub device_name: String,
}

/// A copy of a preview, field for field.
pub fn copy_preview(p: &SyncStoryPreview) -> (r: SyncStoryPreview)
    ensures
        r == *p,
{
    let genre = match &p.genre {
        Some(g) => Some(g.clone()),
        None => None,
    };
    SyncStoryPreview {
        id: p.id.clone(),
        title: p.title.clone(),
        genre,
        updated_at: p.updated_at,
        entry_count: p.entry_count,
    }
}

} // verus!
