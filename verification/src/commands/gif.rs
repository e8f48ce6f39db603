//! `/gif`: the first GIF that Tenor finds for a query.
use crate::json::{
    array_items, get_index, get_index_spec, get_key, get_key_spec, parse_json, parsed_json, Json,
};
use crate::reply::{says, says_and_fails, Reply};
use crate::text::{
    can_strip, chars_of, concat, concat3, string_of, strip_ends, strip_ends_chars, strippable,
};
use vstd::prelude::*;

verus! {

/// The Tenor search address for `query`, with the API key and a limit of one result.
pub fn search_url(query: &str, key: &str) -> (r: String)
    ensures
        r@ == "https://g.tenor.com/v1/search?q="@ + query@ + "&key="@ + key@ + "&limit=1"@,
{
    let a = concat3("https://g.tenor.com/v1/search?q=", query, "&key=");
    let b = concat3(a.as_str(), key, "&limit=1");
    b
}

/// The node `results[0].url` of Tenor's answer.
pub open spec fn first_url(body: Json) -> Option<Json> {
    match get_key_spec(body, "results"@) {
        Some(results) => match get_index_spec(results, 0) {
            Some(first) => get_key_spec(first, "url"@),
            None => None,
        },
        None => None,
    }
}

/// The answer holds a first result whose address can be unquoted.
pub open spec fn usable_answer(body: Option<&Json>) -> bool {
    match body {
        Some(b) => match first_url(*b) {
            Some(u) => strippable(u.text@),
            None => false,
        },
        None => false,
    }
}

/// The first result's address node, looked up.
fn find_url(body: &Json) -> (r: Option<&Json>)
    ensures
        match r {
            Some(u) => first_url(*body) == Some(*u),
            None => first_url(*body) is None,
        },
{
    let results = get_key(body, "results")?;
    let first = get_index(results, 0)?;
    get_key(first, "url")
}

/// What `/gif` does with Tenor's answer: on status 200 it posts the first
/// result's address on a line of its own; on 401 it reports the
/// authorization error and fails. (Any other status is a panic of the
/// command, which `requires` leaves to the caller.)
pub fn run(status: u16, body: Option<&Json>) -> (r: Reply)
    requires
        status == 200 || status == 401,
        status == 200 ==> usable_answer(body),
    ensures
        status == 200 ==> says(r, "\n"@ + strip_ends(first_url(*body.unwrap()).unwrap().text@)),
        status == 401 ==> says_and_fails(r, "Error authorizing request"@),
{
    if status == 200 {
        match body {
            Some(b) => match find_url(b) {
                Some(u) => {
                    let t = chars_of(u.text.as_str());
                    let inner = strip_ends_chars(&t);
                    let nl = chars_of("\n");
                    let all = concat(&nl, &inner);
                    Reply::Say(string_of(&all))
                },
                None => {
                    proof {
                        assert(false);
                    }
                    Reply::Fail(String::new())
                },
            },
            None => {
                proof {
                    assert(false);
                }
                Reply::Fail(String::new())
            },
        }
    } else {
        let m = chars_of("Error authorizing request");
        Reply::SayAndFail(string_of(&m))
    }
}

/// Whether `usable_answer` holds: the test to make before calling `run`
/// on status 200.
pub fn answer_usable(body: Option<&Json>) -> (r: bool)
    ensures
        r == usable_answer(body),
{
    match body {
        Some(b) => match find_url(b) {
            Some(u) => can_strip(u.text.as_str()),
            None => false,
        },
        None => false,
    }
}

/// What `/gif` does with Tenor's status and the raw text of its answer:
/// the outcome of `run`, or none where the command panics (a status other
/// than 200 or 401, or on 200 a body that is missing, not JSON, or without
/// a usable first result).
pub fn run_text(status: u16, body: Option<&str>) -> (r: Option<Reply>)
    ensures
        status == 401 ==> (r matches Some(x) && says_and_fails(x, "Error authorizing request"@)),
        status != 200 && status != 401 ==> r is None,
        status == 200 ==> match body {
            Some(t) => match parsed_json(t@) {
                Some(b) => if usable_answer(Some(&b)) {
                    r matches Some(x) && says(x, "\n"@ + strip_ends(first_url(b).unwrap().text@))
                } else {
                    r is None
                },
                None => r is None,
            },
            None => r is None,
        },
{
    if status == 401 {
        Some(run(401, None))
    } else if status == 200 {
        match body {
            Some(t) => match parse_json(t) {
                Some(b) => {
                    if answer_usable(Some(&b)) {
                        Some(run(200, Some(&b)))
                    } else {
                        None
                    }
                },
                None => None,
            },
            None => None,
        }
    } else {
        None
    }
}

/// `/gif` posts the address of the first element of `results`, whatever
/// follows it.
pub proof fn gif_posts_the_first_result(body: Json, results: Json, elems: Seq<Json>, u: Json)
    requires
        get_key_spec(body, "results"@) == Some(results),
        array_items(results) == Some(elems),
        elems.len() > 0,
        get_key_spec(elems[0], "url"@) == Some(u),
    ensures
        first_url(body) == Some(u),
{
}

} // verus!
