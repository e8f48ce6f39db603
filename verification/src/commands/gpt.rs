//! `/gpt`: a prompt passed to OpenAI's chat completions API.
use crate::json::{get_index, get_index_spec, get_key, get_key_spec, Json};
use crate::text::{chars_of, concat, string_of};
use vstd::prelude::*;

verus! {

/// What came back for a `/gpt` request.
pub enum GptAnswer {
    /// The command's option was not a string.
    NotAString,
    /// The API answered with success, with this body.
    Success(Json),
    /// The API answered with an error, with this body text.
    Failure(String),
}

/// The `Authorization` header value for `api_key`.
pub fn authorization(api_key: &str) -> (r: String)
    ensures
        r@ == "Bearer "@ + api_key@,
{
    let a = chars_of("Bearer ");
    let k = chars_of(api_key);
    let all = concat(&a, &k);
    string_of(&all)
}

/// The text of `body["choices"][0]`: the first choice's JSON, or `null`
/// when there is none (what indexing a JSON value gives).
pub open spec fn first_choice_text(body: Json) -> Seq<char> {
    match get_index_spec(get_key_spec(body, "choices"@).unwrap(), 0) {
        Some(c) => c.text@,
        None => "null"@,
    }
}

/// The text `/gpt` replies with.
pub fn run(answer: &GptAnswer) -> (r: String)
    requires
        answer matches GptAnswer::Success(b) ==> get_key_spec(*b, "choices"@) is Some,
    ensures
        match answer {
            GptAnswer::NotAString => r@ == "how did this happen"@,
            GptAnswer::Failure(t) => r@ == t@,
            GptAnswer::Success(b) => r@ == (if first_choice_text(*b).len() == 0 {
                "No response: try a longer or more detailed prompt"@
            } else {
                first_choice_text(*b)
            }),
        },
{
    match answer {
        GptAnswer::NotAString => {
            let m = chars_of("how did this happen");
            string_of(&m)
        },
        GptAnswer::Failure(t) => t.clone(),
        GptAnswer::Success(b) => {
            let choices = match get_key(b, "choices") {
                Some(c) => c,
                None => {
                    proof {
                        assert(false);
                    }
                    return String::new();
                },
            };
            let text = match get_index(choices, 0) {
                Some(c) => c.text.clone(),
                None => {
                    let n = chars_of("null");
                    string_of(&n)
                },
            };
            if text.as_str().unicode_len() == 0 {
                let m = chars_of("No response: try a longer or more detailed prompt");
                string_of(&m)
            } else {
                text
            }
        },
    }
}

} // verus!
