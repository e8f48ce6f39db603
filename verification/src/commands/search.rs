//! `/search`: the first image that a custom Google search finds.
use crate::json::{
    array_items, get_index, get_index_spec, get_key, get_key_spec, parse_json, parsed_json, Json,
};
use crate::text::{
    chars_eq, chars_of, concat, opt_view, string_of, strip_ends, strip_ends_chars, strippable,
};
use crate::web::{parse_with_params, url_with_params};
use vstd::prelude::*;

verus! {

/// The search endpoint.
pub open spec fn search_base() -> Seq<char> {
    "https://www.googleapis.com/customsearch/v1?"@
}

/// The query parameters of an image search for `query`.
pub open spec fn search_params(query: Seq<char>, key: Seq<char>, cx: Seq<char>) -> Seq<
    (Seq<char>, Seq<char>),
> {
    seq![
        ("key"@, key),
        ("cx"@, cx),
        ("q"@, query),
        ("searchType"@, "image"@),
        ("fileType"@, "jpg"@),
        ("alt"@, "json"@),
        ("num"@, "1"@),
    ]
}

/// A (key, value) pair of owned strings.
fn pair(k: &str, v: &str) -> (r: (String, String))
    ensures
        r.0@ == k@,
        r.1@ == v@,
{
    (k.to_string(), v.to_string())
}

/// The address of an image search for `query` with the API key and the
/// engine id `cx`, or none when it cannot be built.
pub fn build_url(query: &str, key: &str, cx: &str) -> (r: Option<String>)
    ensures
        match r {
            Some(u) => url_with_params(search_base(), search_params(query@, key@, cx@)) == Some(
                u@,
            ),
            None => url_with_params(search_base(), search_params(query@, key@, cx@)) is None,
        },
{
    let mut params: Vec<(String, String)> = Vec::new();
    params.push(pair("key", key));
    params.push(pair("cx", cx));
    params.push(pair("q", query));
    params.push(pair("searchType", "image"));
    params.push(pair("fileType", "jpg"));
    params.push(pair("alt", "json"));
    params.push(pair("num", "1"));
    assert(params.deep_view() =~= search_params(query@, key@, cx@));
    parse_with_params("https://www.googleapis.com/customsearch/v1?", &params)
}

/// The node `queries.nextPage[0].totalResults` of the answer.
pub open spec fn total_results(body: Json) -> Option<Json> {
    match get_key_spec(body, "queries"@) {
        Some(q) => match get_key_spec(q, "nextPage"@) {
            Some(next) => match get_index_spec(next, 0) {
                Some(first) => get_key_spec(first, "totalResults"@),
                None => None,
            },
            None => None,
        },
        None => None,
    }
}

/// The node `items[0].link` of the answer.
pub open spec fn first_link(body: Json) -> Option<Json> {
    match get_key_spec(body, "items"@) {
        Some(items) => match get_index_spec(items, 0) {
            Some(first) => get_key_spec(first, "link"@),
            None => None,
        },
        None => None,
    }
}

/// The answer announces results: a total that is not the string `"0"`.
pub open spec fn has_results(body: Json) -> bool {
    match total_results(body) {
        Some(t) => t.text@ != seq!['"', '0', '"'],
        None => false,
    }
}

/// The first link can be unquoted.
pub open spec fn usable_link(body: Json) -> bool {
    match first_link(body) {
        Some(l) => strippable(l.text@),
        None => false,
    }
}

/// What `/search` posts for Google's answer: the first link on a line of
/// its own, or nothing when there are no results (the command then posts an
/// image and fails with "No results found").
pub fn run(body: &Json) -> (r: Option<String>)
    requires
        has_results(*body) ==> usable_link(*body),
    ensures
        !has_results(*body) ==> r is None,
        has_results(*body) ==> (r matches Some(t) && t@ == "\n"@ + strip_ends(
            first_link(*body).unwrap().text@,
        )),
{
    let total = match get_key(body, "queries") {
        Some(q) => match get_key(q, "nextPage") {
            Some(next) => match get_index(next, 0) {
                Some(first) => get_key(first, "totalResults"),
                None => None,
            },
            None => None,
        },
        None => None,
    };
    match total {
        None => {
            return None;
        },
        Some(t) => {
            let tc = chars_of(t.text.as_str());
            let zero = vec!['"', '0', '"'];
            if chars_eq(&tc, &zero) {
                return None;
            }
        },
    }
    let link = match get_key(body, "items") {
        Some(items) => match get_index(items, 0) {
            Some(first) => get_key(first, "link"),
            None => None,
        },
        None => None,
    };
    match link {
        Some(l) => {
            let lc = chars_of(l.text.as_str());
            let inner = strip_ends_chars(&lc);
            let nl = chars_of("\n");
            let all = concat(&nl, &inner);
            Some(string_of(&all))
        },
        None => {
            proof {
                assert(false);
            }
            None
        },
    }
}

/// What `/search` posts for an answer `body`: the first link on a line of
/// its own, or nothing when there are no results.
pub open spec fn search_reply(body: Json) -> Option<Seq<char>> {
    if has_results(body) {
        Some("\n"@ + strip_ends(first_link(body).unwrap().text@))
    } else {
        None
    }
}

/// The answer can be handed to `run`: when it announces results, its first
/// link can be unquoted.
pub open spec fn answer_ok(body: Json) -> bool {
    has_results(body) ==> usable_link(body)
}

/// The answer's total of results, looked up.
fn find_total(body: &Json) -> (r: Option<&Json>)
    ensures
        match r {
            Some(t) => total_results(*body) == Some(*t),
            None => total_results(*body) is None,
        },
{
    let q = get_key(body, "queries")?;
    let next = get_key(q, "nextPage")?;
    let first = get_index(next, 0)?;
    get_key(first, "totalResults")
}

/// The answer's first link, looked up.
fn find_link(body: &Json) -> (r: Option<&Json>)
    ensures
        match r {
            Some(l) => first_link(*body) == Some(*l),
            None => first_link(*body) is None,
        },
{
    let items = get_key(body, "items")?;
    let first = get_index(items, 0)?;
    get_key(first, "link")
}

/// Whether `answer_ok` holds: the test to make before calling `run`.
pub fn has_usable_link(body: &Json) -> (r: bool)
    ensures
        r == answer_ok(*body),
{
    let announced = match find_total(body) {
        None => false,
        Some(t) => {
            let tc = chars_of(t.text.as_str());
            let zero = vec!['"', '0', '"'];
            !chars_eq(&tc, &zero)
        },
    };
    if !announced {
        return true;
    }
    match find_link(body) {
        Some(l) => {
            let lc = chars_of(l.text.as_str());
            lc.len() >= 2 && (lc[0] as u32) < 0x80 && (lc[lc.len() - 1] as u32) < 0x80
        },
        None => false,
    }
}

/// What `/search` makes of the raw text of Google's answer: none when the
/// text is not JSON or announces results without a usable first link (the
/// command panics there); else the reply of `run`, itself none when there
/// are no results.
pub fn reply_for_text(response: &str) -> (r: Option<Option<String>>)
    ensures
        match parsed_json(response@) {
            Some(b) => if answer_ok(b) {
                r matches Some(o) && opt_view(o) == search_reply(b)
            } else {
                r is None
            },
            None => r is None,
        },
{
    match parse_json(response) {
        Some(b) => {
            if has_usable_link(&b) {
                let o = run(&b);
                Some(o)
            } else {
                None
            }
        },
        None => None,
    }
}

/// `/search` reads the total of the first element of `queries.nextPage`
/// and posts the link of the first element of `items`, whatever follows
/// them; a total of `"0"` means no results.
pub proof fn search_reads_the_first_elements(
    body: Json,
    items: Json,
    elems: Seq<Json>,
    link: Json,
    next: Json,
    pages: Seq<Json>,
    total: Json,
)
    requires
        get_key_spec(body, "items"@) == Some(items),
        array_items(items) == Some(elems),
        elems.len() > 0,
        get_key_spec(elems[0], "link"@) == Some(link),
        get_key_spec(body, "queries"@) matches Some(q) && get_key_spec(q, "nextPage"@) == Some(next),
        array_items(next) == Some(pages),
        pages.len() > 0,
        get_key_spec(pages[0], "totalResults"@) == Some(total),
    ensures
        first_link(body) == Some(link),
        total_results(body) == Some(total),
        has_results(body) <==> total.text@ != "\"0\""@,
        total.text@ != "\"0\""@ ==> search_reply(body) == Some("\n"@ + strip_ends(link.text@)),
        total.text@ == "\"0\""@ ==> search_reply(body) is None,
{
    assert("\"0\""@ =~= seq!['"', '0', '"']) by {
        reveal_strlit("\"0\"");
    }
}

} // verus!
