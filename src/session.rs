use vstd::prelude::*;

use crate::pairing::{token_accepted, validate_token};
use crate::protocol::{copy_preview, SyncAction, SyncEvent, SyncRequest, SyncResponse, SyncStoryPreview};
use crate::rate_limit::{
    block_remaining, failure_recorded, AuthFailures, FailureMap, AUTH_BLOCK_DURATION_SECS,
};
use crate::text::{decimal, push_decimal, push_str};

verus! {

/// A story offered for pulling: its preview and its full exported payload.
#[derive(Debug, Clone)]
pub struct StoriesData {
    pub preview: SyncStoryPreview,
    pub full_data: String,
}

/// The in-memory state of one server session.
#[derive(Debug, Clone)]
pub struct ServerState {
    /// The session token.
    pub token: String,
    /// Stories offered for pulling, in the order they were loaded.
    pub stories: Vec<StoriesData>,
    /// Payloads pushed by peers, in the order they arrived.
    pub received_stories: Vec<String>,
    /// Activity events not yet drained.
    pub sync_events: Vec<SyncEvent>,
    /// Failed validations per client address.
    pub auth_failures: AuthFailures,
}

pub open spec fn connected_message(count: nat) -> Seq<char> {
    "Device connected — "@ + decimal(count) + " stories available"@
}

pub open spec fn pulled_message(title: Seq<char>) -> Seq<char> {
    "Sent \""@ + title + "\" to other device"@
}

pub open spec fn pushed_message() -> Seq<char> {
    "Receiving story from other device..."@
}

pub open spec fn received_message() -> Seq<char> {
    "Story received successfully"@
}

pub open spec fn not_found_message(id: Seq<char>) -> Seq<char> {
    "Story not found: "@ + id
}

pub open spec fn invalid_token_message() -> Seq<char> {
    "Invalid authentication token"@
}

pub open spec fn rate_limited_message(remaining: nat) -> Seq<char> {
    "Too many failed attempts. Try again in "@ + decimal(remaining) + " seconds."@
}

/// `post` is `pre` with one event of the given kind and message appended.
pub open spec fn event_appended(pre: Seq<SyncEvent>, post: Seq<SyncEvent>, kind: Seq<char>, message: Seq<char>) -> bool {
    &&& post.len() == pre.len() + 1
    &&& post.subrange(0, pre.len() as int) == pre
    &&& post.last().event_type@ == kind
    &&& post.last().message@ == message
}

/// The previews of the offers, in order.
pub open spec fn previews_of(stories: Seq<StoriesData>) -> Seq<SyncStoryPreview> {
    stories.map_values(|s: StoriesData| s.preview)
}

/// `i` is the first offer whose id is `id`.
pub open spec fn first_with_id(stories: Seq<StoriesData>, id: Seq<char>, i: int) -> bool {
    &&& 0 <= i < stories.len()
    &&& stories[i].preview.id@ == id
    &&& forall|j: int| 0 <= j < i ==> stories[j].preview.id@ != id
}

pub open spec fn has_id(stories: Seq<StoriesData>, id: Seq<char>) -> bool {
    exists|i: int| 0 <= i < stories.len() && stories[i].preview.id@ == id
}

/// What listing does: the previews of all offers, in order, and one
/// `connected` event that gives their number.
pub open spec fn listed(pre: ServerState, post: ServerState, r: SyncResponse) -> bool {
    &&& r matches SyncResponse::StoriesList { stories } && stories@ == previews_of(pre.stories@)
    &&& post.received_stories@ == pre.received_stories@
    &&& event_appended(pre.sync_events@, post.sync_events@, "connected"@, connected_message(pre.stories@.len()))
}

/// What pulling `id` does: the payload of the first offer with that id and
/// one `pulled` event that names its title; where no offer has that id, an
/// error that names it and no event.
pub open spec fn pulled(pre: ServerState, post: ServerState, id: Seq<char>, r: SyncResponse) -> bool {
    &&& post.received_stories@ == pre.received_stories@
    &&& if has_id(pre.stories@, id) {
        exists|i: int| {
            &&& first_with_id(pre.stories@, id, i)
            &&& r == SyncResponse::StoryData { data: pre.stories@[i].full_data }
            &&& event_appended(pre.sync_events@, post.sync_events@, "pulled"@, pulled_message(pre.stories@[i].preview.title@))
        }
    } else {
        &&& r matches SyncResponse::Error { message } && message@ == not_found_message(id)
        &&& post.sync_events@ == pre.sync_events@
    }
}

/// What pushing `data` does: it is appended to the received stories, one
/// `pushed` event is appended, and the answer is a success.
pub open spec fn pushed(pre: ServerState, post: ServerState, data: String, r: SyncResponse) -> bool {
    &&& post.received_stories@ == pre.received_stories@.push(data)
    &&& event_appended(pre.sync_events@, post.sync_events@, "pushed"@, pushed_message())
    &&& r matches SyncResponse::Success { message } && message@ == received_message()
}

/// What an authenticated action does.
pub open spec fn action_done(pre: ServerState, post: ServerState, action: SyncAction, r: SyncResponse) -> bool {
    match action {
        SyncAction::ListStories => listed(pre, post, r),
        SyncAction::PullStory { story_id } => pulled(pre, post, story_id@, r),
        SyncAction::PushStory { story_data } => pushed(pre, post, story_data, r),
    }
}

/// The parts of a session that no request changes.
pub open spec fn fixed_parts_kept(pre: ServerState, post: ServerState) -> bool {
    post.token == pre.token && post.stories == pre.stories
}

fn new_event(kind: &str, message: String) -> (e: SyncEvent)
    ensures
        e.event_type@ == kind@,
        e.message@ == message@,
{
    SyncEvent { event_type: kind.to_owned(), message }
}

fn error_response(message: String) -> (r: SyncResponse)
    ensures
        r matches SyncResponse::Error { message: m } && m@ == message@,
{
    SyncResponse::Error { message }
}

impl ServerState {
    /// A fresh session for `token`: no offers, no received stories, no
    /// events, no recorded failures.
    pub fn new(token: String) -> (r: Self)
        ensures
            r.token == token,
            r.stories@.len() == 0,
            r.received_stories@.len() == 0,
            r.sync_events@.len() == 0,
            r.auth_failures@ == FailureMap::empty(),
    {
        ServerState {
            token,
            stories: Vec::new(),
            received_stories: Vec::new(),
            sync_events: Vec::new(),
            auth_failures: AuthFailures::new(),
        }
    }

    /// Adds an offer after those already loaded.
    pub fn add_offer(&mut self, offer: StoriesData)
        ensures
            final(self).stories@ == old(self).stories@.push(offer),
            final(self).token == old(self).token,
            final(self).received_stories == old(self).received_stories,
            final(self).sync_events == old(self).sync_events,
            final(self).auth_failures == old(self).auth_failures,
    {
        self.stories.push(offer);
    }

    fn append_event(&mut self, kind: &str, message: String)
        ensures
            event_appended(old(self).sync_events@, final(self).sync_events@, kind@, message@),
            final(self).token == old(self).token,
            final(self).stories == old(self).stories,
            final(self).received_stories == old(self).received_stories,
            final(self).auth_failures == old(self).auth_failures,
    {
        let e = new_event(kind, message);
        self.sync_events.push(e);
        assert(self.sync_events@.subrange(0, old(self).sync_events@.len() as int) =~= old(self).sync_events@);
    }

    /// Lists the previews of all offers and logs a `connected` event.
    pub fn list_stories(&mut self) -> (r: SyncResponse)
        ensures
            listed(*old(self), *final(self), r),
            fixed_parts_kept(*old(self), *final(self)),
            final(self).auth_failures == old(self).auth_failures,
    {
        let mut previews: Vec<SyncStoryPreview> = Vec::new();
        let mut i: usize = 0;
        while i < self.stories.len()
            invariant
                i <= self.stories.len(),
                previews@ == previews_of(self.stories@.subrange(0, i as int)),
            decreases self.stories.len() - i,
        {
            previews.push(copy_preview(&self.stories[i].preview));
            assert(previews_of(self.stories@.subrange(0, i + 1)) =~= previews_of(self.stories@.subrange(0, i as int)).push(self.stories@[i as int].preview));
            i += 1;
        }
        assert(self.stories@.subrange(0, i as int) == self.stories@);
        let mut message = String::new();
        push_str(&mut message, "Device connected — ");
        push_decimal(&mut message, previews.len() as u64);
        push_str(&mut message, " stories available");
        assert(message@ == connected_message(self.stories@.len()));
        self.append_event("connected", message);
        SyncResponse::StoriesList { stories: previews }
    }

    /// Returns the full payload of the first offer whose id is `story_id` and
    /// logs a `pulled` event naming its title; an error naming the id where
    /// no offer has it.
    pub fn pull_story(&mut self, story_id: &str) -> (r: SyncResponse)
        ensures
            pulled(*old(self), *final(self), story_id@, r),
            fixed_parts_kept(*old(self), *final(self)),
            final(self).auth_failures == old(self).auth_failures,
    {
        let key = story_id.to_owned();
        let mut i: usize = 0;
        while i < self.stories.len()
            invariant
                i <= self.stories.len(),
                key@ == story_id@,
                *self == *old(self),
                forall|j: int| 0 <= j < i ==> self.stories@[j].preview.id@ != story_id@,
            decreases self.stories.len() - i,
        {
            if self.stories[i].preview.id == key {
                let data = self.stories[i].full_data.clone();
                let mut message = String::new();
                push_str(&mut message, "Sent \"");
                push_str(&mut message, self.stories[i].preview.title.as_str());
                push_str(&mut message, "\" to other device");
                let ghost pre = *self;
                let ghost idx = i as int;
                self.append_event("pulled", message);
                assert(first_with_id(pre.stories@, story_id@, idx));
                return SyncResponse::StoryData { data };
            }
            i += 1;
        }
        let mut message = String::new();
        push_str(&mut message, "Story not found: ");
        push_str(&mut message, story_id);
        error_response(message)
    }

    /// Appends a pushed payload to the received stories, logs a `pushed`
    /// event, and acknowledges it.
    pub fn push_story(&mut self, story_data: String) -> (r: SyncResponse)
        ensures
            pushed(*old(self), *final(self), story_data, r),
            fixed_parts_kept(*old(self), *final(self)),
            final(self).auth_failures == old(self).auth_failures,
    {
        let mut message = String::new();
        push_str(&mut message, "Receiving story from other device...");
        self.append_event("pushed", message);
        self.received_stories.push(story_data);
        let mut ack = String::new();
        push_str(&mut ack, "Story received successfully");
        SyncResponse::Success { message: ack }
    }

    /// Answers one request from `client_ip` at `now` (seconds). An address
    /// that is blocked gets an error giving the seconds left and nothing
    /// changes; a credential that is neither the token nor its connect code
    /// gets an error and counts as a failure of that address; otherwise the
    /// address's failures are cleared and the action is carried out.
    pub fn handle_sync(&mut self, client_ip: &str, now: u64, request: SyncRequest) -> (r: SyncResponse)
        ensures
            fixed_parts_kept(*old(self), *final(self)),
            block_remaining(old(self).auth_failures@, client_ip@, now) matches Some(secs) ==> {
                &&& r matches SyncResponse::Error { message } && message@ == rate_limited_message(secs)
                &&& *final(self) == *old(self)
            },
            block_remaining(old(self).auth_failures@, client_ip@, now) is None && !token_accepted(request.token@, old(self).token@) ==> {
                &&& r matches SyncResponse::Error { message } && message@ == invalid_token_message()
                &&& final(self).auth_failures@ == failure_recorded(old(self).auth_failures@, client_ip@, now)
                &&& final(self).received_stories == old(self).received_stories
                &&& final(self).sync_events == old(self).sync_events
            },
            block_remaining(old(self).auth_failures@, client_ip@, now) is None && token_accepted(request.token@, old(self).token@) ==> {
                &&& final(self).auth_failures@ == old(self).auth_failures@.remove(client_ip@)
                &&& action_done(*old(self), *final(self), request.action, r)
            },
    {
        if let Some(secs) = self.auth_failures.blocked_for(client_ip, now) {
            let mut message = String::new();
            push_str(&mut message, "Too many failed attempts. Try again in ");
            push_decimal(&mut message, secs);
            push_str(&mut message, " seconds.");
            return error_response(message);
        }
        if !validate_token(request.token.as_str(), self.token.as_str()) {
            self.auth_failures.record_failure(client_ip, now);
            let mut message = String::new();
            push_str(&mut message, "Invalid authentication token");
            return error_response(message);
        }
        self.auth_failures.clear(client_ip);
        let r = match request.action {
            SyncAction::ListStories => self.list_stories(),
            SyncAction::PullStory { story_id } => self.pull_story(story_id.as_str()),
            SyncAction::PushStory { story_data } => self.push_story(story_data),
        };
        r
    }

    /// Takes every pending event, oldest first, leaving none behind.
    pub fn drain_events(&mut self) -> (r: Vec<SyncEvent>)
        ensures
            drained(*old(self), *final(self), r@),
    {
        let mut out: Vec<SyncEvent> = Vec::new();
        core::mem::swap(&mut out, &mut self.sync_events);
        out
    }

    /// A copy of the stories pushed so far, in arrival order.
    pub fn received(&self) -> (r: Vec<String>)
        ensures
            r@ == self.received_stories@,
    {
        let mut out: Vec<String> = Vec::new();
        let mut i: usize = 0;
        while i < self.received_stories.len()
            invariant
                i <= self.received_stories.len(),
                out@ == self.received_stories@.subrange(0, i as int),
            decreases self.received_stories.len() - i,
        {
            out.push(self.received_stories[i].clone());
            assert(out@ =~= self.received_stories@.subrange(0, i + 1));
            i += 1;
        }
        out
    }

    /// Forgets the stories pushed so far.
    pub fn clear_received(&mut self)
        ensures
            final(self).received_stories@.len() == 0,
            fixed_parts_kept(*old(self), *final(self)),
            final(self).sync_events == old(self).sync_events,
            final(self).auth_failures == old(self).auth_failures,
    {
        self.received_stories.clear();
    }
}

/// What draining does: it hands out exactly the pending events, in order,
/// and leaves the log empty; nothing else changes.
pub open spec fn drained(pre: ServerState, post: ServerState, out: Seq<SyncEvent>) -> bool {
    &&& out == pre.sync_events@
    &&& post.sync_events@.len() == 0
    &&& fixed_parts_kept(pre, post)
    &&& post.received_stories == pre.received_stories
    &&& post.auth_failures == pre.auth_failures
}

/// Draining twice in a row: the first drain hands out every pending event
/// once, and the second hands out nothing.
pub proof fn lemma_drain_twice(a: ServerState, b: ServerState, c: ServerState, first: Seq<SyncEvent>, second: Seq<SyncEvent>)
    requires
        drained(a, b, first),
        drained(b, c, second),
    ensures
        first == a.sync_events@,
        second.len() == 0,
        c.sync_events@.len() == 0,
{
}

/// Pushes are never merged: pushing the same payload twice leaves it twice
/// more among the received stories, after those already there, with one
/// `pushed` event for each.
pub proof fn lemma_push_twice(a: ServerState, b: ServerState, c: ServerState, data: String, r1: SyncResponse, r2: SyncResponse)
    requires
        pushed(a, b, data, r1),
        pushed(b, c, data, r2),
    ensures
        c.received_stories@ == a.received_stories@.push(data).push(data),
        c.received_stories@.len() == a.received_stories@.len() + 2,
        c.sync_events@.len() == a.sync_events@.len() + 2,
        c.sync_events@[a.sync_events@.len() as int].event_type@ == "pushed"@,
        c.sync_events@.last().event_type@ == "pushed"@,
{
    assert(c.sync_events@.subrange(0, b.sync_events@.len() as int)[a.sync_events@.len() as int] == b.sync_events@.last());
}

/// What has been drained so far, followed by what is still pending, is
/// every event logged, in the order logged.
pub open spec fn log_accounted(delivered: Seq<SyncEvent>, pending: Seq<SyncEvent>, logged: Seq<SyncEvent>) -> bool {
    delivered + pending == logged
}

/// Appending an event keeps the account: it is pending, after all others.
pub proof fn lemma_append_accounted(
    delivered: Seq<SyncEvent>,
    pre: ServerState,
    post: ServerState,
    logged: Seq<SyncEvent>,
    kind: Seq<char>,
    message: Seq<char>,
)
    requires
        log_accounted(delivered, pre.sync_events@, logged),
        event_appended(pre.sync_events@, post.sync_events@, kind, message),
    ensures
        log_accounted(delivered, post.sync_events@, logged.push(post.sync_events@.last())),
{
    assert(post.sync_events@ =~= pre.sync_events@.push(post.sync_events@.last()));
    assert(delivered + post.sync_events@ =~= (delivered + pre.sync_events@).push(post.sync_events@.last()));
}

/// Draining keeps the account: each pending event is delivered once, in
/// order, and nothing stays pending. Across any interleaving of appends and
/// drains, the drained lists joined with what is pending are exactly the
/// events logged.
pub proof fn lemma_drain_accounted(
    delivered: Seq<SyncEvent>,
    pre: ServerState,
    post: ServerState,
    out: Seq<SyncEvent>,
    logged: Seq<SyncEvent>,
)
    requires
        log_accounted(delivered, pre.sync_events@, logged),
        drained(pre, post, out),
    ensures
        log_accounted(delivered + out, post.sync_events@, logged),
        post.sync_events@.len() == 0,
{
    assert(post.sync_events@ =~= Seq::<SyncEvent>::empty());
    assert(delivered + out + post.sync_events@ =~= delivered + out);
}

/// A listing's `connected` event gives the number of stories offered, in
/// decimal, right after its fixed opening words.
pub proof fn lemma_connected_message_gives_count(count: nat)
    ensures
        connected_message(count).subrange(
            "Device connected — "@.len() as int,
            "Device connected — "@.len() + decimal(count).len() as int,
        ) == decimal(count),
{
    let head = "Device connected — "@;
    let tail = " stories available"@;
    assert((head + decimal(count) + tail).subrange(head.len() as int, head.len() + decimal(count).len() as int) =~= decimal(count));
}

} // verus!
