use aventuras_sync::offers::{load_offers, parse_story_preview, preview_from_fields, start_session};
use aventuras_sync::protocol::{SyncAction, SyncRequest, SyncResponse, SyncStoryPreview};
use aventuras_sync::session::{ServerState, StoriesData};

const TOKEN: &str = "12345678-1234-4abc-8def-0123456789ab";
const CODE: &str = "419896";

fn offer(id: &str, title: &str) -> StoriesData {
    StoriesData {
        preview: SyncStoryPreview {
            id: id.to_string(),
            title: title.to_string(),
            genre: None,
            updated_at: 0,
            entry_count: 0,
        },
        full_data: format!("{{\"story\":{{\"id\":\"{}\"}}}}", id),
    }
}

fn store_with_two_offers() -> ServerState {
    let mut state = ServerState::new(TOKEN.to_string());
    state.add_offer(offer("a", "Alpha"));
    state.add_offer(offer("b", "Beta"));
    state
}

fn request(token: &str, action: SyncAction) -> SyncRequest {
    SyncRequest { token: token.to_string(), action }
}

fn error_message(r: SyncResponse) -> String {
    match r {
        SyncResponse::Error { message } => message,
        other => panic!("expected an error, got {:?}", other),
    }
}

#[test]
fn new_store_is_empty() {
    let mut state = ServerState::new(TOKEN.to_string());
    assert_eq!(state.token, TOKEN);
    assert!(state.stories.is_empty());
    assert!(state.received().is_empty());
    assert!(state.drain_events().is_empty());
}

#[test]
fn list_returns_previews_in_load_order_and_one_connected_event() {
    let mut state = store_with_two_offers();
    let r = state.handle_sync("10.0.0.2", 100, request(TOKEN, SyncAction::ListStories));
    match r {
        SyncResponse::StoriesList { stories } => {
            assert_eq!(stories.len(), 2);
            assert_eq!(stories[0].id, "a");
            assert_eq!(stories[0].title, "Alpha");
            assert_eq!(stories[1].id, "b");
            assert_eq!(stories[1].title, "Beta");
        }
        other => panic!("unexpected {:?}", other),
    }
    let events = state.drain_events();
    assert_eq!(events.len(), 1);
    assert_eq!(events[0].event_type, "connected");
    assert_eq!(events[0].message, "Device connected — 2 stories available");
}

#[test]
fn connect_code_authenticates_like_the_token() {
    let mut state = store_with_two_offers();
    let r = state.handle_sync("10.0.0.2", 100, request(CODE, SyncAction::ListStories));
    assert!(matches!(r, SyncResponse::StoriesList { .. }));
}

#[test]
fn pull_returns_payload_and_logs_title() {
    let mut state = store_with_two_offers();
    let action = SyncAction::PullStory { story_id: "a".to_string() };
    let r = state.handle_sync("10.0.0.2", 100, request(TOKEN, action));
    assert_eq!(r, SyncResponse::StoryData { data: "{\"story\":{\"id\":\"a\"}}".to_string() });
    let events = state.drain_events();
    assert_eq!(events.len(), 1);
    assert_eq!(events[0].event_type, "pulled");
    assert!(events[0].message.contains("Alpha"));
    assert_eq!(events[0].message, "Sent \"Alpha\" to other device");
}

#[test]
fn pull_of_unknown_id_names_it_and_logs_nothing() {
    let mut state = store_with_two_offers();
    let action = SyncAction::PullStory { story_id: "missing".to_string() };
    let r = state.handle_sync("10.0.0.2", 100, request(TOKEN, action));
    let message = error_message(r);
    assert!(message.contains("missing"));
    assert_eq!(message, "Story not found: missing");
    assert!(state.drain_events().is_empty());
}

#[test]
fn pull_takes_the_first_offer_with_the_id() {
    let mut state = ServerState::new(TOKEN.to_string());
    let mut first = offer("dup", "First");
    first.full_data = "one".to_string();
    let mut second = offer("dup", "Second");
    second.full_data = "two".to_string();
    state.add_offer(first);
    state.add_offer(second);
    let r = state.pull_story("dup");
    assert_eq!(r, SyncResponse::StoryData { data: "one".to_string() });
}

#[test]
fn push_appends_and_is_never_deduplicated() {
    let mut state = store_with_two_offers();
    for _ in 0..2 {
        let action = SyncAction::PushStory { story_data: "X".to_string() };
        let r = state.handle_sync("10.0.0.2", 100, request(TOKEN, action));
        assert_eq!(r, SyncResponse::Success { message: "Story received successfully".to_string() });
    }
    assert_eq!(state.received(), vec!["X".to_string(), "X".to_string()]);
    let events = state.drain_events();
    assert_eq!(events.len(), 2);
    assert!(events.iter().all(|e| e.event_type == "pushed"));
    assert_eq!(events[0].message, "Receiving story from other device...");
    state.clear_received();
    assert!(state.received().is_empty());
}

#[test]
fn drain_returns_each_event_once() {
    let mut state = store_with_two_offers();
    state.list_stories();
    state.pull_story("b");
    state.push_story("P".to_string());
    let first = state.drain_events();
    let kinds: Vec<&str> = first.iter().map(|e| e.event_type.as_str()).collect();
    assert_eq!(kinds, vec!["connected", "pulled", "pushed"]);
    assert!(state.drain_events().is_empty());
}

#[test]
fn wrong_token_is_an_auth_error() {
    let mut state = store_with_two_offers();
    let r = state.handle_sync("10.0.0.2", 100, request("nope", SyncAction::ListStories));
    assert_eq!(error_message(r), "Invalid authentication token");
    assert!(state.drain_events().is_empty());
}

#[test]
fn five_failures_block_even_the_right_token_until_the_block_ends() {
    let mut state = store_with_two_offers();
    for t in 0..5u64 {
        let r = state.handle_sync("10.0.0.9", 1000 + t, request("000000", SyncAction::ListStories));
        assert_eq!(error_message(r), "Invalid authentication token");
    }
    let r = state.handle_sync("10.0.0.9", 1004, request(TOKEN, SyncAction::ListStories));
    assert_eq!(error_message(r), "Too many failed attempts. Try again in 60 seconds.");
    let r = state.handle_sync("10.0.0.9", 1063, request(TOKEN, SyncAction::ListStories));
    assert_eq!(error_message(r), "Too many failed attempts. Try again in 1 seconds.");
    // Another address is not affected.
    let r = state.handle_sync("10.0.0.10", 1010, request(TOKEN, SyncAction::ListStories));
    assert!(matches!(r, SyncResponse::StoriesList { .. }));
    // Blocked attempts did not change the record; the block ends 60 s after the last failure.
    let r = state.handle_sync("10.0.0.9", 1064, request(TOKEN, SyncAction::ListStories));
    assert!(matches!(r, SyncResponse::StoriesList { .. }));
    assert_eq!(state.auth_failures.get("10.0.0.9"), None);
}

#[test]
fn four_failures_do_not_block() {
    let mut state = store_with_two_offers();
    for t in 0..4u64 {
        state.handle_sync("10.0.0.9", 1000 + t, request("bad", SyncAction::ListStories));
    }
    assert_eq!(state.auth_failures.get("10.0.0.9"), Some((4, 1003)));
    let r = state.handle_sync("10.0.0.9", 1004, request(TOKEN, SyncAction::ListStories));
    assert!(matches!(r, SyncResponse::StoriesList { .. }));
}

#[test]
fn success_clears_the_failure_record() {
    let mut state = store_with_two_offers();
    for t in 0..4u64 {
        state.handle_sync("10.0.0.9", 1000 + t, request("bad", SyncAction::ListStories));
    }
    state.handle_sync("10.0.0.9", 1004, request(TOKEN, SyncAction::ListStories));
    assert_eq!(state.auth_failures.get("10.0.0.9"), None);
    for t in 0..4u64 {
        state.handle_sync("10.0.0.9", 1005 + t, request("bad", SyncAction::ListStories));
    }
    let r = state.handle_sync("10.0.0.9", 1009, request(TOKEN, SyncAction::ListStories));
    assert!(matches!(r, SyncResponse::StoriesList { .. }));
}

#[test]
fn failures_after_the_block_window_start_a_new_count() {
    let mut state = store_with_two_offers();
    for t in 0..4u64 {
        state.handle_sync("10.0.0.9", 1000 + t, request("bad", SyncAction::ListStories));
    }
    state.handle_sync("10.0.0.9", 1063, request("bad", SyncAction::ListStories));
    assert_eq!(state.auth_failures.get("10.0.0.9"), Some((1, 1063)));
    let r = state.handle_sync("10.0.0.9", 1064, request(TOKEN, SyncAction::ListStories));
    assert!(matches!(r, SyncResponse::StoriesList { .. }));
}

#[test]
fn blocked_address_after_window_gets_a_fresh_count_on_failure() {
    let mut state = store_with_two_offers();
    for t in 0..5u64 {
        state.handle_sync("10.0.0.9", 1000 + t, request("bad", SyncAction::ListStories));
    }
    let r = state.handle_sync("10.0.0.9", 2000, request("bad", SyncAction::ListStories));
    assert_eq!(error_message(r), "Invalid authentication token");
    assert_eq!(state.auth_failures.get("10.0.0.9"), Some((1, 2000)));
}

#[test]
fn preview_is_read_from_export() {
    let json = r#"{"story":{"id":"s1","title":"My Tale","genre":"Fantasy","updatedAt":1700000000000},"entries":[{},{},{}]}"#;
    let p = parse_story_preview(json).unwrap();
    assert_eq!(p.id, "s1");
    assert_eq!(p.title, "My Tale");
    assert_eq!(p.genre, Some("Fantasy".to_string()));
    assert_eq!(p.updated_at, 1700000000000);
    assert_eq!(p.entry_count, 3);
}

#[test]
fn preview_defaults_apply() {
    let p = parse_story_preview(r#"{"story":{"title":7}}"#).unwrap();
    assert_eq!(p.id, "");
    assert_eq!(p.title, "Untitled");
    assert_eq!(p.genre, None);
    assert_eq!(p.updated_at, 0);
    assert_eq!(p.entry_count, 0);
}

#[test]
fn preview_errors() {
    assert_eq!(
        parse_story_preview(r#"{"entries":[]}"#).unwrap_err(),
        "Missing 'story' field in export"
    );
    assert!(parse_story_preview("not json").unwrap_err().starts_with("Invalid JSON: "));
}

#[test]
fn preview_from_fields_fills_defaults() {
    let p = preview_from_fields(true, None, None, None, None, None).unwrap();
    assert_eq!(p.title, "Untitled");
    assert_eq!(p.id, "");
    let p = preview_from_fields(true, Some("x".into()), Some("T".into()), Some("g".into()), Some(-5), Some(2)).unwrap();
    assert_eq!(p, SyncStoryPreview { id: "x".into(), title: "T".into(), genre: Some("g".into()), updated_at: -5, entry_count: 2 });
    assert_eq!(preview_from_fields(false, None, None, None, None, Some(1)).unwrap_err(), "Missing 'story' field in export");
}

#[test]
fn unreadable_exports_are_left_out_of_offers() {
    let good = r#"{"story":{"id":"g","title":"Good"}}"#.to_string();
    let (offers, errors) = load_offers(vec!["bad".to_string(), good.clone(), r#"{}"#.to_string()]);
    assert_eq!(offers.len(), 1);
    assert_eq!(offers[0].full_data, good);
    assert_eq!(offers[0].preview.title, "Good");
    assert_eq!(errors, vec![
        parse_story_preview("bad").unwrap_err(),
        "Missing 'story' field in export".to_string(),
    ]);
}

#[test]
fn preview_of_worked_examples() {
    let json = r#"{"story":{"id":"a","title":"Alpha","genre":"Fantasy","updatedAt":1700000000},"entries":[1,2]}"#;
    assert_eq!(
        parse_story_preview(json).unwrap(),
        SyncStoryPreview { id: "a".into(), title: "Alpha".into(), genre: Some("Fantasy".into()), updated_at: 1700000000, entry_count: 2 }
    );
    assert_eq!(
        parse_story_preview(r#"{"story":{}}"#).unwrap(),
        SyncStoryPreview { id: "".into(), title: "Untitled".into(), genre: None, updated_at: 0, entry_count: 0 }
    );
    let p = parse_story_preview(r#"{"story":{"genre":3,"updatedAt":1.5},"entries":{"a":1}}"#).unwrap();
    assert_eq!(p.genre, None);
    assert_eq!(p.updated_at, 0);
    assert_eq!(p.entry_count, 0);
}

#[test]
fn events_are_delivered_once_across_interleaved_drains() {
    let mut state = store_with_two_offers();
    let mut delivered = Vec::new();
    state.list_stories();
    delivered.extend(state.drain_events());
    state.push_story("a".into());
    state.pull_story("a");
    delivered.extend(state.drain_events());
    delivered.extend(state.drain_events());
    state.push_story("b".into());
    delivered.extend(state.drain_events());
    let kinds: Vec<&str> = delivered.iter().map(|e| e.event_type.as_str()).collect();
    assert_eq!(kinds, vec!["connected", "pushed", "pulled", "pushed"]);
}

#[test]
fn start_session_loads_offers_with_a_fresh_token() {
    let good = r#"{"story":{"id":"g","title":"Good"}}"#.to_string();
    let (mut state, errors) = start_session(vec![good.clone(), "nope".to_string()]).unwrap();
    assert_eq!(errors.len(), 1);
    assert!(errors[0].starts_with("Invalid JSON: "));
    assert_eq!(state.token.len(), 36);
    assert_eq!(state.stories.len(), 1);
    assert_eq!(state.stories[0].full_data, good);
    assert_eq!(state.stories[0].preview.id, "g");
    assert_eq!(state.stories[0].preview.title, "Good");
    assert!(state.received().is_empty());
    assert!(state.drain_events().is_empty());
}
