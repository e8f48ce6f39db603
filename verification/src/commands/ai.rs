//! `/send_prompt`: a prompt passed to a language model, and its answer
//! cleaned up for Discord.
use crate::json::{
    array_items, get_index_spec, get_key, get_index, get_key_spec, parse_json, parsed_json, Json,
};
use crate::text::{
    can_strip, chars_of, concat, lemma_replace_absent, replace_all, replace_chars, string_of,
    strip_ends, strip_ends_chars, strippable,
};
use vstd::prelude::*;

verus! {

/// The two characters `\n` as the model writes them inside a JSON string.
pub open spec fn escaped_newline() -> Seq<char> {
    seq!['\\', 'n']
}

/// A line break followed by the indentation of the source line it sits in.
pub open spec fn newline_indent() -> Seq<char> {
    seq!['\n', ' ', ' ', ' ', ' ']
}

/// An escaped quote `\"`.
pub open spec fn escaped_quote() -> Seq<char> {
    seq!['\\', '"']
}

/// An escaped tab `\t`.
pub open spec fn escaped_tab() -> Seq<char> {
    seq!['\\', 't']
}

/// The text `\t+`.
pub open spec fn escaped_tab_plus() -> Seq<char> {
    seq!['\\', 't', '+']
}

/// What `format_string` makes of the model's output: quotes cut off, `\n`
/// turned into a line break, `\"` into `"`, and `\t`, then `\t+`, removed.
pub open spec fn format_string_spec(output: Seq<char>) -> Seq<char> {
    let s = strip_ends(output);
    let s = replace_all(s, escaped_newline(), newline_indent());
    let s = replace_all(s, escaped_quote(), seq!['"']);
    let s = replace_all(s, escaped_tab(), Seq::empty());
    replace_all(s, escaped_tab_plus(), Seq::empty())
}

/// Trims the JSON quoting and the escapes that Discord does not render from
/// the model's answer.
pub fn format_string(output: String) -> (r: String)
    requires
        strippable(output@),
    ensures
        r@ == format_string_spec(output@),
{
    let o = chars_of(output.as_str());
    let s = strip_ends_chars(&o);
    let bs_n = vec!['\\', 'n'];
    let nl = vec!['\n', ' ', ' ', ' ', ' '];
    let bs_q = vec!['\\', '"'];
    let q = vec!['"'];
    let bs_t = vec!['\\', 't'];
    let bs_tp = vec!['\\', 't', '+'];
    let none: Vec<char> = Vec::new();
    assert(bs_n@ =~= escaped_newline());
    assert(nl@ =~= newline_indent());
    assert(bs_q@ =~= escaped_quote());
    assert(q@ =~= seq!['"']);
    assert(bs_t@ =~= escaped_tab());
    assert(bs_tp@ =~= escaped_tab_plus());
    assert(none@ =~= Seq::<char>::empty());
    let s = replace_chars(&s, &bs_n, &nl);
    let s = replace_chars(&s, &bs_q, &q);
    let s = replace_chars(&s, &bs_t, &none);
    let s = replace_chars(&s, &bs_tp, &none);
    string_of(&s)
}

/// A quoted text without backslashes comes out of `format_string` as it
/// went in, without its quotes.
pub proof fn format_string_unquotes(body: Seq<char>)
    requires
        !body.contains('\\'),
    ensures
        format_string_spec(seq!['"'] + body + seq!['"']) == body,
{
    let q = seq!['"'] + body + seq!['"'];
    assert(strip_ends(q) == body);
    lemma_replace_absent(body, escaped_newline(), newline_indent());
    lemma_replace_absent(body, escaped_quote(), seq!['"']);
    lemma_replace_absent(body, escaped_tab(), Seq::empty());
    lemma_replace_absent(body, escaped_tab_plus(), Seq::empty());
}

/// How `serde_json` writes the inside of a string that holds no backslash
/// and no control character: each `"` escaped as `\"`, every other
/// character as it is.
pub open spec fn json_escape(s: Seq<char>) -> Seq<char>
    decreases s.len(),
{
    if s.len() == 0 {
        Seq::empty()
    } else {
        (if s[0] == '"' {
            seq!['\\', '"']
        } else {
            seq![s[0]]
        }) + json_escape(s.drop_first())
    }
}

/// A text that starts with a character other than the pattern's first one
/// keeps that character in front of the replaced rest.
proof fn lemma_replace_mismatch(c: char, e: Seq<char>, pat: Seq<char>, rep: Seq<char>)
    requires
        pat.len() > 0,
        c != pat[0],
    ensures
        replace_all(seq![c] + e, pat, rep) == seq![c] + replace_all(e, pat, rep),
{
    let t = seq![c] + e;
    assert(t[0] == c);
    assert(t.drop_first() == e);
    if t.len() < pat.len() {
        assert(replace_all(e, pat, rep) == e);
        assert(t == seq![c] + e);
    } else {
        assert(t.take(pat.len() as int)[0] == c);
        assert(t.take(pat.len() as int) != pat);
    }
}

/// A text without backslashes has none after its first character either.
proof fn lemma_no_backslash_rest(s: Seq<char>)
    requires
        s.len() > 0,
        !s.contains('\\'),
    ensures
        !s.drop_first().contains('\\'),
        s[0] != '\\',
{
    if s.drop_first().contains('\\') {
        let i = choose|i: int| 0 <= i < s.drop_first().len() && s.drop_first()[i] == '\\';
        assert(s[i + 1] == '\\');
    }
    assert(s[0] != '\\') by {
        if s[0] == '\\' {
            assert(s.contains(s[0]));
        }
    }
}

/// Escaped quotes never form `\n`, so that replacement leaves the text alone.
proof fn lemma_escape_keeps_escaped_newlines(s: Seq<char>)
    requires
        !s.contains('\\'),
    ensures
        replace_all(json_escape(s), escaped_newline(), newline_indent()) == json_escape(s),
    decreases s.len(),
{
    if s.len() == 0 {
        assert(json_escape(s).len() == 0);
    } else {
        lemma_no_backslash_rest(s);
        let e = json_escape(s.drop_first());
        lemma_escape_keeps_escaped_newlines(s.drop_first());
        if s[0] == '"' {
            let t = seq!['\\', '"'] + e;
            assert(json_escape(s) == t);
            assert(t.take(2) == seq!['\\', '"']);
            assert(t.take(2)[1] != escaped_newline()[1]);
            assert(t.drop_first() == seq!['"'] + e);
            lemma_replace_mismatch('"', e, escaped_newline(), newline_indent());
            assert(t == seq![t[0]] + (seq!['"'] + e));
        } else {
            lemma_replace_mismatch(s[0], e, escaped_newline(), newline_indent());
        }
    }
}

/// Replacing `\"` by `"` undoes the escaping of a text without backslashes.
proof fn lemma_unescape_quotes(s: Seq<char>)
    requires
        !s.contains('\\'),
    ensures
        replace_all(json_escape(s), escaped_quote(), seq!['"']) == s,
    decreases s.len(),
{
    if s.len() == 0 {
        assert(json_escape(s).len() == 0);
    } else {
        lemma_no_backslash_rest(s);
        let e = json_escape(s.drop_first());
        lemma_unescape_quotes(s.drop_first());
        if s[0] == '"' {
            let t = seq!['\\', '"'] + e;
            assert(json_escape(s) == t);
            assert(t.take(2) == escaped_quote());
            assert(t.skip(2) == e);
            assert(s == seq!['"'] + s.drop_first());
        } else {
            lemma_replace_mismatch(s[0], e, escaped_quote(), seq!['"']);
            assert(s == seq![s[0]] + s.drop_first());
        }
    }
}

/// `format_string` undoes `serde_json`'s writing of a string without
/// backslashes or control characters: quotes and escaped quotes come back
/// as the text that was written.
pub proof fn format_string_undoes_json_quoting(s: Seq<char>)
    requires
        !s.contains('\\'),
    ensures
        format_string_spec(seq!['"'] + json_escape(s) + seq!['"']) == s,
{
    let q = seq!['"'] + json_escape(s) + seq!['"'];
    assert(strip_ends(q) == json_escape(s));
    lemma_escape_keeps_escaped_newlines(s);
    lemma_unescape_quotes(s);
    lemma_replace_absent(s, escaped_tab(), Seq::empty());
    lemma_replace_absent(s, escaped_tab_plus(), Seq::empty());
}

/// The answer's content node: `choices[0].message.content`.
pub open spec fn answer_content(body: Json) -> Option<Json> {
    match get_key_spec(body, "choices"@) {
        Some(choices) => match get_index_spec(choices, 0) {
            Some(choice) => match get_key_spec(choice, "message"@) {
                Some(message) => get_key_spec(message, "content"@),
                None => None,
            },
            None => None,
        },
        None => None,
    }
}

/// The body holds an answer whose content `format_string` can take.
pub open spec fn usable_answer(body: Option<&Json>) -> bool {
    match body {
        Some(b) => match answer_content(*b) {
            Some(c) => strippable(c.text@),
            None => false,
        },
        None => false,
    }
}

/// `http://{server_ip}:{server_port}/v1/chat/completions`.
pub fn completions_url(server_ip: &str, server_port: &str) -> (r: String)
    ensures
        r@ == "http://"@ + server_ip@ + ":"@ + server_port@ + "/v1/chat/completions"@,
{
    let a = chars_of("http://");
    let ip = chars_of(server_ip);
    let colon = chars_of(":");
    let port = chars_of(server_port);
    let path = chars_of("/v1/chat/completions");
    let s = concat(&a, &ip);
    let s = concat(&s, &colon);
    let s = concat(&s, &port);
    let s = concat(&s, &path);
    string_of(&s)
}

/// The answer's content node, looked up.
fn find_answer(body: &Json) -> (r: Option<&Json>)
    ensures
        match r {
            Some(c) => answer_content(*body) == Some(*c),
            None => answer_content(*body) is None,
        },
{
    let choices = get_key(body, "choices")?;
    let choice = get_index(choices, 0)?;
    let message = get_key(choice, "message")?;
    get_key(message, "content")
}

/// The message `/send_prompt` posts: the model's cleaned answer when the
/// server answered 200, an authorization error on 401, the status for any
/// other answer, and a notice when the server could not be reached.
pub fn send_prompt(connected: bool, status: u16, status_text: &str, body: Option<&Json>) -> (r:
    String)
    requires
        connected && status == 200 ==> usable_answer(body),
    ensures
        !connected ==> r@
            == "Unable to connect to LLM server, Connor's desktop probably isn't running"@,
        connected && status == 200 ==> r@ == format_string_spec(
            answer_content(*body.unwrap()).unwrap().text@,
        ),
        connected && status == 401 ==> r@ == "Error authorizing request"@,
        connected && status != 200 && status != 401 ==> r@ == "error: got result "@
            + status_text@ + " from api"@,
{
    if !connected {
        let m = chars_of("Unable to connect to LLM server, Connor's desktop probably isn't running");
        return string_of(&m);
    }
    if status == 200 {
        match body {
            Some(b) => match find_answer(b) {
                Some(c) => {
                    let t = c.text.clone();
                    format_string(t)
                },
                None => {
                    proof {
                        assert(false);
                    }
                    String::new()
                },
            },
            None => {
                proof {
                    assert(false);
                }
                String::new()
            },
        }
    } else if status == 401 {
        let m = chars_of("Error authorizing request");
        string_of(&m)
    } else {
        let a = chars_of("error: got result ");
        let t = chars_of(status_text);
        let b = chars_of(" from api");
        let s = concat(&a, &t);
        let s = concat(&s, &b);
        string_of(&s)
    }
}

/// Whether `usable_answer` holds: the test to make before calling
/// `send_prompt` on status 200.
pub fn answer_usable(body: Option<&Json>) -> (r: bool)
    ensures
        r == usable_answer(body),
{
    match body {
        Some(b) => match find_answer(b) {
            Some(c) => can_strip(c.text.as_str()),
            None => false,
        },
        None => false,
    }
}

/// What `/send_prompt` posts for the server's reply with the raw text of its
/// body: the message of `send_prompt`, or none where the command panics (on
/// status 200, a body that is missing, not JSON, or without a usable answer).
pub fn send_prompt_text(connected: bool, status: u16, status_text: &str, body: Option<&str>) -> (r:
    Option<String>)
    ensures
        !connected ==> (r matches Some(t) && t@
            == "Unable to connect to LLM server, Connor's desktop probably isn't running"@),
        connected && status == 401 ==> (r matches Some(t) && t@ == "Error authorizing request"@),
        connected && status != 200 && status != 401 ==> (r matches Some(t) && t@
            == "error: got result "@ + status_text@ + " from api"@),
        connected && status == 200 ==> match body {
            Some(text) => match parsed_json(text@) {
                Some(b) => if usable_answer(Some(&b)) {
                    r matches Some(t) && t@ == format_string_spec(answer_content(b).unwrap().text@)
                } else {
                    r is None
                },
                None => r is None,
            },
            None => r is None,
        },
{
    if connected && status == 200 {
        match body {
            Some(text) => match parse_json(text) {
                Some(b) => {
                    if answer_usable(Some(&b)) {
                        Some(send_prompt(true, 200, status_text, Some(&b)))
                    } else {
                        None
                    }
                },
                None => None,
            },
            None => None,
        }
    } else {
        Some(send_prompt(connected, status, status_text, None))
    }
}

/// `/send_prompt` answers with the content of the first element of
/// `choices`, whatever follows it.
pub proof fn send_prompt_reads_the_first_choice(
    body: Json,
    choices: Json,
    elems: Seq<Json>,
    message: Json,
    content: Json,
)
    requires
        get_key_spec(body, "choices"@) == Some(choices),
        array_items(choices) == Some(elems),
        elems.len() > 0,
        get_key_spec(elems[0], "message"@) == Some(message),
        get_key_spec(message, "content"@) == Some(content),
    ensures
        answer_content(body) == Some(content),
{
}

} // verus!
