use vstd::prelude::*;
use vstd::string::StringExecFns;

use crate::protocol::{SyncAction, SyncRequest, SyncResponse, SyncStoryPreview};
use crate::text::{decimal, push_char, push_decimal, push_str};

verus! {

/// Seconds a client waits for a list or pull answer.
pub const LIST_TIMEOUT_SECS: u64 = 10;

/// Seconds a client waits for a push answer; pushes may carry large payloads.
pub const PUSH_TIMEOUT_SECS: u64 = 30;

/// `http://ip:port/sync`.
pub open spec fn sync_url_text(ip: Seq<char>, port: u16) -> Seq<char> {
    "http://"@ + ip + seq![':'] + decimal(port as nat) + "/sync"@
}

pub open spec fn unexpected_message() -> Seq<char> {
    "Unexpected response type"@
}

/// The address of a server's sync endpoint.
pub fn sync_url(ip: &str, port: u16) -> (r: String)
    ensures
        r@ == sync_url_text(ip@, port),
{
    let mut out = String::from_str("http://");
    push_str(&mut out, ip);
    push_char(&mut out, ':');
    push_decimal(&mut out, port as u64);
    push_str(&mut out, "/sync");
    out
}

/// How long a client waits for the answer to an action.
pub fn request_timeout_secs(action: &SyncAction) -> (r: u64)
    ensures
        r == if action is PushStory { PUSH_TIMEOUT_SECS } else { LIST_TIMEOUT_SECS },
{
    match action {
        SyncAction::PushStory { .. } => PUSH_TIMEOUT_SECS,
        _ => LIST_TIMEOUT_SECS,
    }
}

/// A request that lists the server's stories.
pub fn list_request(token: String) -> (r: SyncRequest)
    ensures
        r.token == token,
        r.action is ListStories,
{
    SyncRequest { token, action: SyncAction::ListStories }
}

/// A request that pulls one story.
pub fn pull_request(token: String, story_id: String) -> (r: SyncRequest)
    ensures
        r.token == token,
        r.action == (SyncAction::PullStory { story_id }),
{
    SyncRequest { token, action: SyncAction::PullStory { story_id } }
}

/// A request that pushes one story.
pub fn push_request(token: String, story_json: String) -> (r: SyncRequest)
    ensures
        r.token == token,
        r.action == (SyncAction::PushStory { story_data: story_json }),
{
    SyncRequest { token, action: SyncAction::PushStory { story_data: story_json } }
}

fn unexpected() -> (r: String)
    ensures
        r@ == unexpected_message(),
{
    String::from_str("Unexpected response type")
}

/// The previews of a list answer; a server error's message; any other
/// answer is unexpected.
pub fn stories_from_response(response: SyncResponse) -> (r: Result<Vec<SyncStoryPreview>, String>)
    ensures
        response matches SyncResponse::StoriesList { stories } ==> r == Ok::<Vec<SyncStoryPreview>, String>(stories),
        response matches SyncResponse::Error { message } ==> r == Err::<Vec<SyncStoryPreview>, String>(message),
        !(response is StoriesList) && !(response is Error) ==> (r matches Err(m) && m@ == unexpected_message()),
{
    match response {
        SyncResponse::StoriesList { stories } => Ok(stories),
        SyncResponse::Error { message } => Err(message),
        _ => Err(unexpected()),
    }
}

/// The payload of a pull answer; a server error's message; any other
/// answer is unexpected.
pub fn story_from_response(response: SyncResponse) -> (r: Result<String, String>)
    ensures
        response matches SyncResponse::StoryData { data } ==> r == Ok::<String, String>(data),
        response matches SyncResponse::Error { message } ==> r == Err::<String, String>(message),
        !(response is StoryData) && !(response is Error) ==> (r matches Err(m) && m@ == unexpected_message()),
{
    match response {
        SyncResponse::StoryData { data } => Ok(data),
        SyncResponse::Error { message } => Err(message),
        _ => Err(unexpected()),
    }
}

/// Success for a push acknowledgment; a server error's message; any other
/// answer is unexpected.
pub fn push_outcome(response: SyncResponse) -> (r: Result<(), String>)
    ensures
        response is Success ==> r is Ok,
        response matches SyncResponse::Error { message } ==> r == Err::<(), String>(message),
        !(response is Success) && !(response is Error) ==> (r matches Err(m) && m@ == unexpected_message()),
{
    match response {
        SyncResponse::Success { .. } => Ok(()),
        SyncResponse::Error { message } => Err(message),
        _ => Err(unexpected()),
    }
}

} // verus!
