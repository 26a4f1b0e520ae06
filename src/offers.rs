use vstd::prelude::*;
use vstd::string::StringExecFns;

use crate::protocol::SyncStoryPreview;
use crate::json::{
    json_array_len, json_error, json_i64, json_i64_at, json_member, json_member_present, json_root,
    json_string_at, json_array_len_at, json_text, parse_json,
};
use crate::pairing::{new_session_token, token_error, uuid_v4_text};
use crate::rate_limit::FailureMap;
use crate::session::{ServerState, StoriesData};
use crate::text::push_str;

verus! {

pub open spec fn missing_story_message() -> Seq<char> {
    "Missing 'story' field in export"@
}

pub open spec fn invalid_json_message(detail: Seq<char>) -> Seq<char> {
    "Invalid JSON: "@ + detail
}

pub open spec fn text_or(v: Option<String>, default: Seq<char>) -> Seq<char> {
    match v {
        Some(s) => s@,
        None => default,
    }
}

/// The preview an export describes, from what was read out of it: the
/// story object's id (default empty), title (default `Untitled`), genre,
/// and update time (default 0), and the number of entries (default 0). An
/// export without a story object has no preview.
pub fn preview_from_fields(
    has_story: bool,
    id: Option<String>,
    title: Option<String>,
    genre: Option<String>,
    updated_at: Option<i64>,
    entry_count: Option<usize>,
) -> (r: Result<SyncStoryPreview, String>)
    ensures
        !has_story ==> (r matches Err(m) && m@ == missing_story_message()),
        has_story ==> (r matches Ok(p) && {
            &&& p.id@ == text_or(id, Seq::empty())
            &&& p.title@ == text_or(title, "Untitled"@)
            &&& p.genre == genre
            &&& p.updated_at == updated_at.unwrap_or(0)
            &&& p.entry_count == entry_count.unwrap_or(0)
        }),
{
    if !has_story {
        return Err(String::from_str("Missing 'story' field in export"));
    }
    let id = match id {
        Some(s) => s,
        None => String::new(),
    };
    let title = match title {
        Some(s) => s,
        None => String::from_str("Untitled"),
    };
    let updated_at: i64 = match updated_at {
        Some(t) => t,
        None => 0,
    };
    let entry_count: usize = match entry_count {
        Some(n) => n,
        None => 0,
    };
    Ok(SyncStoryPreview { id, title, genre, updated_at, entry_count })
}

/// The keys that lead to the member `key` of the document's `story` object.
pub open spec fn story_member(key: Seq<char>) -> Seq<Seq<char>> {
    seq!["story"@, key]
}

pub open spec fn entries_path() -> Seq<Seq<char>> {
    seq!["entries"@]
}

/// The text is JSON and has a `story` member.
pub open spec fn story_readable(text: Seq<char>) -> bool {
    json_error(text) is None && json_member_present(text, seq!["story"@])
}

/// The string at `path`, where that member is there and is a string.
pub open spec fn member_text(text: Seq<char>, path: Seq<Seq<char>>) -> Option<Seq<char>> {
    if json_member_present(text, path) { json_string_at(text, path) } else { None }
}

/// The `i64` at `path`, where that member is there and is such a number.
pub open spec fn member_i64(text: Seq<char>, path: Seq<Seq<char>>) -> Option<i64> {
    if json_member_present(text, path) { json_i64_at(text, path) } else { None }
}

/// The length of the document's `entries` array, where there is one.
pub open spec fn entries_len(text: Seq<char>) -> Option<nat> {
    if json_member_present(text, entries_path()) { json_array_len_at(text, entries_path()) } else { None }
}

/// The error a text whose preview cannot be read gives.
pub open spec fn preview_error(text: Seq<char>) -> Seq<char> {
    match json_error(text) {
        Some(detail) => invalid_json_message(detail),
        None => missing_story_message(),
    }
}

/// `p` is the preview that the text describes.
pub open spec fn preview_read(text: Seq<char>, p: SyncStoryPreview) -> bool {
    &&& p.id@ == member_text(text, story_member("id"@)).unwrap_or(Seq::empty())
    &&& p.title@ == member_text(text, story_member("title"@)).unwrap_or("Untitled"@)
    &&& (p.genre is None <==> member_text(text, story_member("genre"@)) is None)
    &&& (p.genre matches Some(g) ==> member_text(text, story_member("genre"@)) == Some(g@))
    &&& p.updated_at == member_i64(text, story_member("updatedAt"@)).unwrap_or(0)
    &&& p.entry_count as nat == entries_len(text).unwrap_or(0)
}

/// Reads the preview of an exported story: the members `id`, `title`,
/// `genre` and `updatedAt` of its `story` object and the length of its
/// `entries` array, with the defaults of `preview_from_fields`. Text that is
/// not JSON gives the parser's message; JSON without a `story` member gives
/// the missing-story error.
pub fn parse_story_preview(json: &str) -> (r: Result<SyncStoryPreview, String>)
    ensures
        r is Ok <==> story_readable(json@),
        r matches Ok(p) ==> preview_read(json@, p),
        r matches Err(m) ==> m@ == preview_error(json@),
{
    let doc = match parse_json(json) {
        Ok(d) => d,
        Err(detail) => {
            let mut m = String::from_str("Invalid JSON: ");
            push_str(&mut m, detail.as_str());
            return Err(m);
        },
    };
    let root = json_root(&doc);
    assert(Seq::<Seq<char>>::empty().push("story"@) =~= seq!["story"@]);
    assert(Seq::<Seq<char>>::empty().push("entries"@) =~= entries_path());
    assert(seq!["story"@].push("id"@) =~= story_member("id"@));
    assert(seq!["story"@].push("title"@) =~= story_member("title"@));
    assert(seq!["story"@].push("genre"@) =~= story_member("genre"@));
    assert(seq!["story"@].push("updatedAt"@) =~= story_member("updatedAt"@));
    let entries = match json_member(&root, "entries") {
        Some(e) => json_array_len(&e),
        None => None,
    };
    match json_member(&root, "story") {
        None => preview_from_fields(false, None, None, None, None, entries),
        Some(story) => {
            let id = match json_member(&story, "id") {
                Some(v) => json_text(&v),
                None => None,
            };
            let title = match json_member(&story, "title") {
                Some(v) => json_text(&v),
                None => None,
            };
            let genre = match json_member(&story, "genre") {
                Some(v) => json_text(&v),
                None => None,
            };
            let updated_at = match json_member(&story, "updatedAt") {
                Some(v) => json_i64(&v),
                None => None,
            };
            preview_from_fields(true, id, title, genre, updated_at, entries)
        },
    }
}

/// The positions of the inputs whose preview can be read, in order.
pub open spec fn readable_positions(inputs: Seq<String>) -> Seq<int>
    decreases inputs.len(),
{
    if inputs.len() == 0 {
        Seq::empty()
    } else {
        let rest = readable_positions(inputs.drop_last());
        if story_readable(inputs.last()@) { rest.push(inputs.len() - 1) } else { rest }
    }
}

/// The positions of the inputs whose preview cannot be read, in order.
pub open spec fn unreadable_positions(inputs: Seq<String>) -> Seq<int>
    decreases inputs.len(),
{
    if inputs.len() == 0 {
        Seq::empty()
    } else {
        let rest = unreadable_positions(inputs.drop_last());
        if story_readable(inputs.last()@) { rest } else { rest.push(inputs.len() - 1) }
    }
}

/// The offers are the readable inputs, in order, each with its preview.
pub open spec fn offers_loaded(inputs: Seq<String>, offers: Seq<StoriesData>) -> bool {
    let pos = readable_positions(inputs);
    &&& offers.len() == pos.len()
    &&& forall|k: int| 0 <= k < pos.len() ==> {
        &&& offers[k].full_data == inputs[#[trigger] pos[k]]
        &&& preview_read(inputs[pos[k]]@, offers[k].preview)
    }
}

/// The errors are those of the unreadable inputs, in order.
pub open spec fn errors_loaded(inputs: Seq<String>, errors: Seq<String>) -> bool {
    let pos = unreadable_positions(inputs);
    &&& errors.len() == pos.len()
    &&& forall|k: int| 0 <= k < pos.len() ==> errors[k]@ == preview_error(inputs[#[trigger] pos[k]]@)
}

proof fn lemma_positions_bounded(inputs: Seq<String>)
    ensures
        forall|k: int| 0 <= k < readable_positions(inputs).len() ==> 0 <= #[trigger] readable_positions(inputs)[k] < inputs.len(),
        forall|k: int| 0 <= k < unreadable_positions(inputs).len() ==> 0 <= #[trigger] unreadable_positions(inputs)[k] < inputs.len(),
    decreases inputs.len(),
{
    if inputs.len() > 0 {
        let init = inputs.drop_last();
        lemma_positions_bounded(init);
        let r = readable_positions(init);
        let u = unreadable_positions(init);
        assert forall|k: int| 0 <= k < readable_positions(inputs).len() implies 0 <= #[trigger] readable_positions(inputs)[k] < inputs.len() by {
            if k < r.len() {
                assert(readable_positions(inputs)[k] == r[k]);
            }
        }
        assert forall|k: int| 0 <= k < unreadable_positions(inputs).len() implies 0 <= #[trigger] unreadable_positions(inputs)[k] < inputs.len() by {
            if k < u.len() {
                assert(unreadable_positions(inputs)[k] == u[k]);
            }
        }
    }
}

/// Loads exported stories as offers: every input whose preview can be read
/// becomes an offer with that preview and the input as its payload, in
/// input order; the others are left out, and their errors come back
/// beside the offers, in input order.
pub fn load_offers(stories_json: Vec<String>) -> (r: (Vec<StoriesData>, Vec<String>))
    ensures
        offers_loaded(stories_json@, r.0@),
        errors_loaded(stories_json@, r.1@),
{
    let mut offers: Vec<StoriesData> = Vec::new();
    let mut errors: Vec<String> = Vec::new();
    let mut i: usize = 0;
    while i < stories_json.len()
        invariant
            i <= stories_json.len(),
            offers_loaded(stories_json@.subrange(0, i as int), offers@),
            errors_loaded(stories_json@.subrange(0, i as int), errors@),
        decreases stories_json.len() - i,
    {
        let ghost pre = stories_json@.subrange(0, i as int);
        let ghost next = stories_json@.subrange(0, i + 1);
        assert(next.drop_last() == pre);
        assert(next.last() == stories_json@[i as int]);
        proof {
            lemma_positions_bounded(pre);
        }
        let text = stories_json[i].clone();
        match parse_story_preview(text.as_str()) {
            Ok(preview) => {
                offers.push(StoriesData { preview, full_data: text });
                assert(readable_positions(next) == readable_positions(pre).push(i as int));
                assert forall|k: int| 0 <= k < readable_positions(next).len() implies {
                    &&& offers@[k].full_data == next[#[trigger] readable_positions(next)[k]]
                    &&& preview_read(next[readable_positions(next)[k]]@, offers@[k].preview)
                } by {
                    if k < readable_positions(pre).len() {
                        assert(readable_positions(next)[k] == readable_positions(pre)[k]);
                        assert(next[readable_positions(pre)[k]] == pre[readable_positions(pre)[k]]);
                    }
                }
                assert(unreadable_positions(next) == unreadable_positions(pre));
                assert forall|k: int| 0 <= k < unreadable_positions(next).len() implies errors@[k]@
                    == preview_error(next[#[trigger] unreadable_positions(next)[k]]@) by {
                    assert(next[unreadable_positions(pre)[k]] == pre[unreadable_positions(pre)[k]]);
                }
            },
            Err(e) => {
                errors.push(e);
                assert(unreadable_positions(next) == unreadable_positions(pre).push(i as int));
                assert forall|k: int| 0 <= k < unreadable_positions(next).len() implies errors@[k]@
                    == preview_error(next[#[trigger] unreadable_positions(next)[k]]@) by {
                    if k < unreadable_positions(pre).len() {
                        assert(unreadable_positions(next)[k] == unreadable_positions(pre)[k]);
                        assert(next[unreadable_positions(pre)[k]] == pre[unreadable_positions(pre)[k]]);
                    }
                }
                assert(readable_positions(next) == readable_positions(pre));
                assert forall|k: int| 0 <= k < readable_positions(next).len() implies {
                    &&& offers@[k].full_data == next[#[trigger] readable_positions(next)[k]]
                    &&& preview_read(next[readable_positions(next)[k]]@, offers@[k].preview)
                } by {
                    assert(next[readable_positions(pre)[k]] == pre[readable_positions(pre)[k]]);
                }
            },
        }
        i += 1;
    }
    assert(stories_json@.subrange(0, i as int) == stories_json@);
    (offers, errors)
}

/// Starts a session: a fresh random token, the readable stories as its
/// offers (see `load_offers`), and nothing received, logged or failed yet.
/// The errors of the stories that could not be read come back beside it.
/// Fails only where no random token can be had.
pub fn start_session(stories_json: Vec<String>) -> (r: Result<(ServerState, Vec<String>), String>)
    ensures
        r matches Ok((state, errors)) ==> {
            &&& exists|b: Seq<u8>| b.len() == 16 && state.token@ == #[trigger] uuid_v4_text(b)
            &&& state.received_stories@.len() == 0
            &&& state.sync_events@.len() == 0
            &&& state.auth_failures@ == FailureMap::empty()
            &&& offers_loaded(stories_json@, state.stories@)
            &&& errors_loaded(stories_json@, errors@)
        },
        r matches Err(m) ==> exists|d: Seq<char>| m@ == #[trigger] token_error(d),
{
    let token = new_session_token()?;
    let mut state = ServerState::new(token);
    let (offers, errors) = load_offers(stories_json);
    state.stories = offers;
    Ok((state, errors))
}

} // verus!
