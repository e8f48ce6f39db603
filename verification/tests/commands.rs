use rusty_blitzcrank::commands::ai::{
    answer_usable as ai_answer_usable, completions_url, format_string, send_prompt, send_prompt_text,
};
use rusty_blitzcrank::commands::freaky::{freaktionary, run as freaky_run};
use rusty_blitzcrank::commands::gif::{
    answer_usable as gif_answer_usable, run as gif_run, run_text as gif_run_text, search_url,
};
use rusty_blitzcrank::commands::gpt::{authorization, run as gpt_run, GptAnswer};
use rusty_blitzcrank::commands::ping_voice::run as ping_run;
use rusty_blitzcrank::commands::roll::{roll, run as roll_run};
use rusty_blitzcrank::commands::search::{
    build_url as search_build_url, has_usable_link, reply_for_text as search_reply_for_text,
    run as search_run,
};
use rusty_blitzcrank::commands::song::{run as song_run, SongSearch};
use rusty_blitzcrank::commands::vid::{
    answer_usable as vid_answer_usable, build_url as vid_build_url,
    reply_for_text as vid_reply_for_text, run as vid_run,
};
use rusty_blitzcrank::common::helpers::coinflip;
use rusty_blitzcrank::json::{get_index, get_key, parse_json, Json, JsonShape};
use rusty_blitzcrank::reply::Reply;

fn parse(text: &str) -> Json {
    parse_json(text).unwrap()
}

#[test]
fn format_string_turns_escaped_newlines_into_breaks() {
    assert_eq!(format_string(String::from("\"HELLO\\nWORLD\"")), "HELLO\n    WORLD");
}

#[test]
fn format_string_unescapes_quotes_and_drops_tabs() {
    assert_eq!(format_string(String::from("\"SAY \\\"HI\\\"\\tNOW\"")), "SAY \"HI\"NOW");
}

#[test]
fn format_string_plain_text_only_loses_quotes() {
    assert_eq!(format_string(String::from("\"BEEP BOOP\"")), "BEEP BOOP");
    assert_eq!(format_string(String::from("\"\"")), "");
}

#[test]
fn format_string_on_model_output_json() {
    let v = serde_json::Value::String(String::from("LINE ONE\nLINE \"TWO\"\t"));
    assert_eq!(format_string(v.to_string()), "LINE ONE\n    LINE \"TWO\"");
}

#[test]
fn format_string_undoes_json_quoting_of_quotes() {
    for text in ["SAY \"HI\" TO \"ME\"", "\"", "A \"\"QUOTED\"\" WORD", "PLAIN ÉTÉ"] {
        let v = serde_json::Value::String(String::from(text));
        assert_eq!(format_string(v.to_string()), text);
    }
}

#[test]
fn completions_url_joins_server_and_port() {
    assert_eq!(
        completions_url("10.0.0.2", "8080"),
        "http://10.0.0.2:8080/v1/chat/completions"
    );
}

#[test]
fn send_prompt_replies() {
    let body = parse(r#"{"choices":[{"message":{"content":"HI\nTHERE","role":"assistant"}}]}"#);
    assert_eq!(send_prompt(true, 200, "200 OK", Some(&body)), "HI\n    THERE");
    assert_eq!(send_prompt(true, 401, "401 Unauthorized", None), "Error authorizing request");
    assert_eq!(
        send_prompt(true, 500, "500 Internal Server Error", None),
        "error: got result 500 Internal Server Error from api"
    );
    assert_eq!(
        send_prompt(false, 0, "", None),
        "Unable to connect to LLM server, Connor's desktop probably isn't running"
    );
}

#[test]
fn freaktionary_maps_letters() {
    assert_eq!(freaktionary('a'), '𝓪');
    assert_eq!(freaktionary('z'), '𝔃');
    assert_eq!(freaktionary('A'), '𝓐');
    assert_eq!(freaktionary('Z'), '𝓩');
    assert_eq!(freaktionary(' '), ' ');
    assert_eq!(freaktionary('7'), '7');
    assert_eq!(freaktionary('é'), 'é');
}

#[test]
fn freaky_run_styles_text_once() {
    let once = freaky_run("Hi there!");
    assert_eq!(once, "𝓗𝓲 𝓽𝓱𝓮𝓻𝓮!");
    assert_eq!(freaky_run(&once), once);
    assert_eq!(freaky_run(""), "");
}

#[test]
fn gif_search_url_and_replies() {
    assert_eq!(
        search_url("cat", "KEY"),
        "https://g.tenor.com/v1/search?q=cat&key=KEY&limit=1"
    );
    let body = parse(r#"{"results":[{"url":"https://tenor.com/x.gif"}]}"#);
    match gif_run(200, Some(&body)) {
        Reply::Say(t) => assert_eq!(t, "\nhttps://tenor.com/x.gif"),
        _ => panic!("expected a reply"),
    }
    match gif_run(401, None) {
        Reply::SayAndFail(t) => assert_eq!(t, "Error authorizing request"),
        _ => panic!("expected an authorization error"),
    }
}

#[test]
fn gpt_replies() {
    assert_eq!(authorization("sk-1"), "Bearer sk-1");
    assert_eq!(gpt_run(&GptAnswer::NotAString), "how did this happen");
    assert_eq!(gpt_run(&GptAnswer::Failure(String::from("bad key"))), "bad key");
    let body = parse(r#"{"choices":[{"text":"hello"}]}"#);
    assert_eq!(gpt_run(&GptAnswer::Success(body)), r#"{"text":"hello"}"#);
    let empty = parse(r#"{"choices":[]}"#);
    assert_eq!(gpt_run(&GptAnswer::Success(empty)), "null");
}

#[test]
fn ping_voice_mentions_members() {
    assert_eq!(ping_run(Some(vec![12, 345]), Some(String::from(" hop on"))), "<@12><@345> hop on");
    assert_eq!(ping_run(Some(vec![]), None), "");
    assert_eq!(ping_run(None, Some(String::from("x"))), "No one detected in the voice channel");
}

#[test]
fn roll_stays_in_range() {
    let mut seen_ceiling = false;
    for _ in 0..500 {
        let r = roll(6);
        assert!((1..=6).contains(&r));
        seen_ceiling |= r == 6;
    }
    assert!(seen_ceiling);
    assert_eq!(roll(1), 1);
    assert_eq!(roll_run(1), "1");
    let text = roll_run(100);
    let v: i64 = text.parse().unwrap();
    assert!((1..=100).contains(&v));
    assert!((1..=i64::MAX).contains(&roll(i64::MAX)));
}

#[test]
fn coinflip_gives_both_sides() {
    let flips: Vec<bool> = (0..200).map(|_| coinflip()).collect();
    assert!(flips.iter().any(|b| *b));
    assert!(flips.iter().any(|b| !*b));
}

#[test]
fn search_url_lists_parameters_in_order() {
    assert_eq!(
        search_build_url("cute cats", "K", "C").unwrap(),
        "https://www.googleapis.com/customsearch/v1?key=K&cx=C&q=cute+cats&searchType=image&fileType=jpg&alt=json&num=1"
    );
}

#[test]
fn search_replies() {
    let found = parse(
        r#"{"queries":{"nextPage":[{"totalResults":"12"}]},"items":[{"link":"https://img/x.jpg"}]}"#,
    );
    assert_eq!(search_run(&found), Some(String::from("\nhttps://img/x.jpg")));
    let none = parse(r#"{"queries":{"nextPage":[{"totalResults":"0"}]}}"#);
    assert_eq!(search_run(&none), None);
    let missing = parse(r#"{"queries":{}}"#);
    assert_eq!(search_run(&missing), None);
}

#[test]
fn vid_url_and_reply() {
    assert_eq!(
        vid_build_url("lofi beats", "K").unwrap(),
        "https://youtube.googleapis.com/youtube/v3/search?q=lofi+beats&safeSearch=safeSearchSettingUnspecified&videoEmbeddable=videoEmbeddableUnspecified&key=K"
    );
    let body = parse(r#"{"items":[{"id":{"kind":"youtube#video","videoId":"abc123"}}]}"#);
    assert_eq!(vid_run(&body), "\nhttps://www.youtube.com/watch?v=abc123");
}

#[test]
fn song_replies() {
    let found = SongSearch::Tracks(vec![vec![(
        String::from("spotify"),
        String::from("https://open.spotify.com/track/1"),
    )]]);
    match song_run(&found) {
        Reply::Say(t) => assert_eq!(t, "https://open.spotify.com/track/1"),
        _ => panic!("expected the link"),
    }
    let no_link = SongSearch::Tracks(vec![vec![]]);
    match song_run(&no_link) {
        Reply::Fail(t) => assert_eq!(t, "Unable to find track, try including the artist's name"),
        _ => panic!("expected a failure"),
    }
    match song_run(&SongSearch::Other) {
        Reply::SayAndFail(t) => assert_eq!(t, "Unable to find track for unknown reasons"),
        _ => panic!("expected a failure"),
    }
}

#[test]
fn parse_json_keeps_each_node_with_its_text() {
    let j = parse(r#"{ "b": null, "a": [1, "x"] }"#);
    assert_eq!(j.text, r#"{"a":[1,"x"],"b":null}"#);
    match &j.shape {
        JsonShape::Object(members) => {
            assert_eq!(members.len(), 2);
            assert_eq!(members[0].0, "a");
            assert_eq!(members[1].0, "b");
        }
        _ => panic!("expected an object"),
    }
    let a = get_key(&j, "a").unwrap();
    assert_eq!(a.text, r#"[1,"x"]"#);
    assert!(matches!(a.shape, JsonShape::Array(_)));
    let x = get_index(a, 1).unwrap();
    assert_eq!(x.text, "\"x\"");
    assert!(matches!(x.shape, JsonShape::Scalar));
    assert_eq!(get_key(&j, "b").unwrap().text, "null");
    assert!(get_key(&j, "c").is_none());
    assert!(get_index(a, 2).is_none());
}

#[test]
fn parse_json_rejects_text_that_is_not_json() {
    assert!(parse_json("not json").is_none());
    assert!(parse_json("{\"a\": 1").is_none());
    assert!(parse_json("").is_none());
}

const SEARCH_HIT: &str = r#"{"queries":{"nextPage":[{"totalResults":"12"}]},"items":[{"link":"https://example.com/a"}]}"#;

#[test]
fn search_reply_for_text_posts_the_first_link() {
    assert_eq!(search_reply_for_text(SEARCH_HIT), Some(Some(String::from("\nhttps://example.com/a"))));
}

#[test]
fn search_reply_for_text_without_results() {
    let none = r#"{"queries":{"nextPage":[{"totalResults":"0"}]}}"#;
    assert_eq!(search_reply_for_text(none), Some(None));
    assert_eq!(search_reply_for_text(r#"{"items":[]}"#), Some(None));
}

#[test]
fn search_reply_for_text_refuses_what_the_command_cannot_read() {
    assert_eq!(search_reply_for_text("<html>"), None);
    let no_items = r#"{"queries":{"nextPage":[{"totalResults":"3"}]}}"#;
    assert_eq!(search_reply_for_text(no_items), None);
}

#[test]
fn has_usable_link_cases() {
    assert!(has_usable_link(&parse(SEARCH_HIT)));
    assert!(has_usable_link(&parse(r#"{"queries":{"nextPage":[{"totalResults":"0"}]}}"#)));
    assert!(!has_usable_link(&parse(r#"{"queries":{"nextPage":[{"totalResults":"3"}]}}"#)));
    assert!(!has_usable_link(&parse(
        r#"{"queries":{"nextPage":[{"totalResults":"3"}]},"items":[{"link":7}]}"#
    )));
}

const VID_HIT: &str = r#"{"items":[{"id":{"kind":"youtube#video","videoId":"dQw4w9WgXcQ"}}]}"#;

#[test]
fn vid_reply_for_text_links_the_first_video() {
    assert_eq!(
        vid_reply_for_text(VID_HIT),
        Some(String::from("\nhttps://www.youtube.com/watch?v=dQw4w9WgXcQ"))
    );
}

#[test]
fn vid_reply_for_text_refuses_what_the_command_cannot_read() {
    assert_eq!(vid_reply_for_text("oops"), None);
    assert_eq!(vid_reply_for_text(r#"{"items":[]}"#), None);
    assert_eq!(vid_reply_for_text(r#"{"items":[{"id":{"kind":"youtube#channel"}}]}"#), None);
}

#[test]
fn vid_answer_usable_cases() {
    assert!(vid_answer_usable(&parse(VID_HIT)));
    assert!(!vid_answer_usable(&parse(r#"{"items":[{"id":{"videoId":7}}]}"#)));
    assert!(!vid_answer_usable(&parse("[]")));
}

const GIF_HIT: &str = r#"{"results":[{"url":"https://tenor.com/y.gif"}]}"#;

#[test]
fn gif_run_text_posts_the_first_result() {
    match gif_run_text(200, Some(GIF_HIT)) {
        Some(Reply::Say(t)) => assert_eq!(t, "\nhttps://tenor.com/y.gif"),
        _ => panic!("expected a reply"),
    }
}

#[test]
fn gif_run_text_reports_authorization_errors() {
    match gif_run_text(401, None) {
        Some(Reply::SayAndFail(t)) => assert_eq!(t, "Error authorizing request"),
        _ => panic!("expected a failing reply"),
    }
}

#[test]
fn gif_run_text_refuses_what_the_command_cannot_read() {
    assert!(gif_run_text(500, Some(GIF_HIT)).is_none());
    assert!(gif_run_text(200, None).is_none());
    assert!(gif_run_text(200, Some("nope")).is_none());
    assert!(gif_run_text(200, Some(r#"{"results":[]}"#)).is_none());
}

#[test]
fn gif_answer_usable_cases() {
    assert!(gif_answer_usable(Some(&parse(GIF_HIT))));
    assert!(!gif_answer_usable(None));
    assert!(!gif_answer_usable(Some(&parse(r#"{"results":[{"id":"1"}]}"#))));
}

const AI_HIT: &str = r#"{"choices":[{"message":{"role":"assistant","content":"BEEP\nBOOP \"HI\""}}]}"#;

#[test]
fn send_prompt_text_cleans_the_answer() {
    assert_eq!(
        send_prompt_text(true, 200, "200 OK", Some(AI_HIT)),
        Some(String::from("BEEP\n    BOOP \"HI\""))
    );
}

#[test]
fn send_prompt_text_other_outcomes() {
    assert_eq!(
        send_prompt_text(false, 0, "", None),
        Some(String::from("Unable to connect to LLM server, Connor's desktop probably isn't running"))
    );
    assert_eq!(
        send_prompt_text(true, 401, "401 Unauthorized", None),
        Some(String::from("Error authorizing request"))
    );
    assert_eq!(
        send_prompt_text(true, 503, "503 Service Unavailable", None),
        Some(String::from("error: got result 503 Service Unavailable from api"))
    );
}

#[test]
fn send_prompt_text_refuses_what_the_command_cannot_read() {
    assert_eq!(send_prompt_text(true, 200, "200 OK", None), None);
    assert_eq!(send_prompt_text(true, 200, "200 OK", Some("{")), None);
    assert_eq!(send_prompt_text(true, 200, "200 OK", Some(r#"{"choices":[]}"#)), None);
}

#[test]
fn ai_answer_usable_cases() {
    assert!(ai_answer_usable(Some(&parse(AI_HIT))));
    assert!(!ai_answer_usable(None));
    assert!(!ai_answer_usable(Some(&parse(r#"{"choices":[{"message":{}}]}"#))));
}
