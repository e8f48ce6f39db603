//! `/vid`: the first YouTube video found for a query.
use crate::json::{
    array_items, get_index, get_index_spec, get_key, get_key_spec, parse_json, parsed_json, Json,
};
use crate::text::{
    can_strip, chars_of, concat, opt_view, string_of, strip_ends, strip_ends_chars, strippable,
};
use crate::web::{parse_with_params, url_with_params};
use vstd::prelude::*;

verus! {

/// The search endpoint.
pub open spec fn search_base() -> Seq<char> {
    "https://youtube.googleapis.com/youtube/v3/search?"@
}

/// The query parameters of a video search for `query`.
pub open spec fn search_params(query: Seq<char>, key: Seq<char>) -> Seq<(Seq<char>, Seq<char>)> {
    seq![
        ("q"@, query),
        ("safeSearch"@, "safeSearchSettingUnspecified"@),
        ("videoEmbeddable"@, "videoEmbeddableUnspecified"@),
        ("key"@, key),
    ]
}

/// A (key, value) pair of owned strings.
fn pair(k: &str, v: &str) -> (r: (String, String))
    ensures
        r.0@ == k@,
        r.1@ == v@,
{
    (k.to_string(), v.to_string())
}

/// The address of a video search for `query` with the API key, or none
/// when it cannot be built.
pub fn build_url(query: &str, key: &str) -> (r: Option<String>)
    ensures
        match r {
            Some(u) => url_with_params(search_base(), search_params(query@, key@)) == Some(u@),
            None => url_with_params(search_base(), search_params(query@, key@)) is None,
        },
{
    let mut params: Vec<(String, String)> = Vec::new();
    params.push(pair("q", query));
    params.push(pair("safeSearch", "safeSearchSettingUnspecified"));
    params.push(pair("videoEmbeddable", "videoEmbeddableUnspecified"));
    params.push(pair("key", key));
    assert(params.deep_view() =~= search_params(query@, key@));
    parse_with_params("https://youtube.googleapis.com/youtube/v3/search?", &params)
}

/// The node `items[0].id.videoId` of the answer.
pub open spec fn first_video_id(body: Json) -> Option<Json> {
    match get_key_spec(body, "items"@) {
        Some(items) => match get_index_spec(items, 0) {
            Some(first) => match get_key_spec(first, "id"@) {
                Some(id) => get_key_spec(id, "videoId"@),
                None => None,
            },
            None => None,
        },
        None => None,
    }
}

/// The first video id can be unquoted.
pub open spec fn usable_answer(body: Json) -> bool {
    match first_video_id(body) {
        Some(v) => strippable(v.text@),
        None => false,
    }
}

/// What `/vid` posts for YouTube's answer: the watch address of the first
/// video, on a line of its own.
pub fn run(body: &Json) -> (r: String)
    requires
        usable_answer(*body),
    ensures
        r@ == "\nhttps://www.youtube.com/watch?v="@ + strip_ends(
            first_video_id(*body).unwrap().text@,
        ),
{
    let id = match get_key(body, "items") {
        Some(items) => match get_index(items, 0) {
            Some(first) => match get_key(first, "id") {
                Some(id) => get_key(id, "videoId"),
                None => None,
            },
            None => None,
        },
        None => None,
    };
    match id {
        Some(v) => {
            let vc = chars_of(v.text.as_str());
            let inner = strip_ends_chars(&vc);
            let prefix = chars_of("\nhttps://www.youtube.com/watch?v=");
            let all = concat(&prefix, &inner);
            string_of(&all)
        },
        None => {
            proof {
                assert(false);
            }
            String::new()
        },
    }
}

/// The first video id, looked up.
fn find_video_id(body: &Json) -> (r: Option<&Json>)
    ensures
        match r {
            Some(v) => first_video_id(*body) == Some(*v),
            None => first_video_id(*body) is None,
        },
{
    let items = get_key(body, "items")?;
    let first = get_index(items, 0)?;
    let id = get_key(first, "id")?;
    get_key(id, "videoId")
}

/// Whether `usable_answer` holds: the test to make before calling `run`.
pub fn answer_usable(body: &Json) -> (r: bool)
    ensures
        r == usable_answer(*body),
{
    match find_video_id(body) {
        Some(v) => can_strip(v.text.as_str()),
        None => false,
    }
}

/// What `/vid` posts for an answer `body`.
pub open spec fn vid_reply(body: Json) -> Seq<char> {
    "\nhttps://www.youtube.com/watch?v="@ + strip_ends(first_video_id(body).unwrap().text@)
}

/// What `/vid` makes of the raw text of YouTube's answer: the reply of
/// `run`, or none when the text is not JSON or has no usable first video
/// (the command panics there).
pub fn reply_for_text(response: &str) -> (r: Option<String>)
    ensures
        match parsed_json(response@) {
            Some(b) => if usable_answer(b) {
                opt_view(r) == Some(vid_reply(b))
            } else {
                r is None
            },
            None => r is None,
        },
{
    match parse_json(response) {
        Some(b) => {
            if answer_usable(&b) {
                Some(run(&b))
            } else {
                None
            }
        },
        None => None,
    }
}

/// `/vid` posts the video of the first element of `items`, whatever
/// follows it: when that element holds an id `v` under `id.videoId`, the
/// reply is the watch address of `v` without its quotes.
pub proof fn vid_posts_the_first_item(body: Json, items: Json, elems: Seq<Json>, id: Json, v: Json)
    requires
        get_key_spec(body, "items"@) == Some(items),
        array_items(items) == Some(elems),
        elems.len() > 0,
        get_key_spec(elems[0], "id"@) == Some(id),
        get_key_spec(id, "videoId"@) == Some(v),
    ensures
        first_video_id(body) == Some(v),
        vid_reply(body) == "\nhttps://www.youtube.com/watch?v="@ + strip_ends(v.text@),
{
}

} // verus!
