use rusty_blitzcrank::commands::name::{
    generate_format_one as name_format_one, generate_format_two as name_format_two,
    generate_name, run as name_run, send_as_file,
};
use rusty_blitzcrank::commands::password::{
    apply_case, dm_reply, finalize, generate_format_one, generate_format_two, generate_password,
    padding_step, random_word, randomize_case, spoiler, truncate_chars,
};
use rusty_blitzcrank::json::{parse_json, Json};
use rusty_blitzcrank::reply::Reply;
use rusty_blitzcrank::words::{join_agent_noun, pick_word, word_list_usable, words_from_text};

fn parse(text: &str) -> Json {
    parse_json(text).unwrap()
}

fn bank() -> Json {
    parse(r#"{"nouns":["cat","dog"],"verbs":["bake","run","erase"],"adjectives":["big","red"]}"#)
}

fn agent(noun: &str, verb: &str) -> String {
    let n: Vec<char> = noun.chars().collect();
    let v: Vec<char> = verb.chars().collect();
    join_agent_noun(&n, &v).into_iter().collect()
}

#[test]
fn agent_noun_rules() {
    assert_eq!(agent("cat", "bake"), "catbaker");
    assert_eq!(agent("cat", "run"), "catruner");
    assert_eq!(agent("cat", "erase"), "caterase");
    assert_eq!(agent("cat", "eraser"), "cateraserer");
}

#[test]
fn random_word_draws_from_list() {
    let j = bank();
    for _ in 0..50 {
        let w = random_word(&j, "nouns");
        assert!(w == "cat" || w == "dog");
    }
    assert_eq!(random_word(&j, "names"), "Unable to parse \"names\" from json");
    assert_eq!(pick_word(&j, "verbs", 2), "erase");
}

#[test]
fn word_list_checks() {
    let j = bank();
    assert!(word_list_usable(&j, "nouns", 0));
    assert!(word_list_usable(&j, "verbs", 3));
    assert!(!word_list_usable(&j, "verbs", 4));
    assert!(word_list_usable(&j, "missing", 3));
    assert!(!word_list_usable(&parse(r#"{"nouns":[]}"#), "nouns", 0));
    assert!(!word_list_usable(&parse(r#"{"nouns":"cat"}"#), "nouns", 0));
    assert!(!word_list_usable(&parse(r#"{"nouns":[5]}"#), "nouns", 0));
}

#[test]
fn apply_case_uppercases_flagged_letters() {
    assert_eq!(apply_case(&String::from("abc1"), &vec![true, false, true, true]), "AbC1");
}

#[test]
fn randomize_case_only_changes_case() {
    let w = String::from("hello, world");
    for _ in 0..20 {
        let r = randomize_case(&w);
        assert_eq!(r.to_lowercase(), w);
    }
}

#[test]
fn padding_steps() {
    assert_eq!(padding_step(12, true), vec!['1', '2']);
    assert_eq!(padding_step(3, true), vec!['3']);
    assert_eq!(padding_step(0, false), vec!['!']);
    assert_eq!(padding_step(12, false), vec![']']);
}

#[test]
fn truncate_keeps_first_characters() {
    let s: Vec<char> = "héllo".chars().collect();
    assert_eq!(truncate_chars(&s, 2), vec!['h', 'é']);
    assert_eq!(truncate_chars(&s, 9), s);
}

#[test]
fn finalize_pads_and_cuts_to_size() {
    for _ in 0..20 {
        let r = finalize(String::from("ab"), 10);
        assert_eq!(r.chars().count(), 10);
        assert!(r.starts_with("ab"));
        assert!(r[2..].chars().all(|c| c.is_ascii_digit() || "!@#$%^&*()?[]".contains(c)));
    }
    assert_eq!(finalize(String::from("abcdefgh"), 3), "abc");
    assert_eq!(finalize(String::from("abc"), 0), "");
}

#[test]
fn finalize_counts_bytes_when_padding() {
    assert_eq!(finalize(String::from("ééé"), 4), "ééé");
}

#[test]
fn password_formats() {
    let j = parse(r#"{"nouns":["cat"],"verbs":["bake"],"adjectives":["big"]}"#);
    let one = generate_format_one(&j, String::from("Cat"), 12);
    assert_eq!(one.len(), 12);
    let lower = one.to_lowercase();
    assert!(lower.starts_with("catbaker") || lower.starts_with("catbakeer"));
    assert!(one.chars().skip(9).all(|c| c.is_ascii_digit()));
    let two = generate_format_two(&j, String::from("Cat"), 4);
    assert_eq!(two, "bigCat");
}

#[test]
fn password_has_requested_length() {
    let j = bank();
    for size in [0i64, 1, 5, 12, 30] {
        let p = generate_password(&j, size);
        assert_eq!(p.chars().count() as i64, size);
    }
    assert_eq!(spoiler("pw"), "||pw||");
}

#[test]
fn names_are_padded_to_sixteen_bytes() {
    let j = parse(r#"{"nouns":["cat"],"verbs":["bake"],"adjectives":["big"]}"#);
    let one = name_format_one(&j, String::from("cat"));
    assert_eq!(one.len(), 16);
    assert!(one.starts_with("catbaker"));
    let two = name_format_two(&j, String::from("cat"));
    assert!(two.starts_with("bigcat"));
    assert_eq!(two.len(), 16);
    for _ in 0..20 {
        let n = generate_name(&bank());
        assert!(n.len() >= 16);
    }
    let long = parse(r#"{"nouns":["abcdefghijklmnopq"],"verbs":["bake"],"adjectives":["big"]}"#);
    let n = name_format_two(&long, String::from("abcdefghijklmnopq"));
    assert_eq!(n, "bigabcdefghijklmnopq");
}

#[test]
fn name_run_lists_names() {
    let j = bank();
    let out = name_run(&j, Some(3));
    assert_eq!(out.matches('\n').count(), 3);
    assert!(out.ends_with('\n'));
    assert_eq!(name_run(&j, Some(0)), "");
    assert_eq!(name_run(&j, Some(-4)), "");
    assert!(!name_run(&j, None).contains('\n'));
}

#[test]
fn long_replies_go_to_a_file() {
    assert!(!send_as_file(&"a".repeat(1999)));
    assert!(send_as_file(&"a".repeat(2000)));
    assert!(send_as_file(&"é".repeat(2000)));
}

#[test]
fn password_padding_brings_special_characters() {
    let j = bank();
    let specials = "!@#$%^&*()?[]";
    let mut seen_special = false;
    for _ in 0..50 {
        let p = generate_password(&j, 30);
        assert_eq!(p.chars().count(), 30);
        assert!(p.chars().any(|c| c.is_ascii_alphabetic()));
        assert!(p.chars().all(|c| c.is_ascii_alphanumeric() || specials.contains(c)));
        seen_special |= p.chars().any(|c| specials.contains(c));
    }
    assert!(seen_special);
}

#[test]
fn password_dm_replies() {
    match dm_reply(true) {
        Reply::Say(t) => assert_eq!(t, "Sent, check your direct messages"),
        _ => panic!("expected a reply"),
    }
    match dm_reply(false) {
        Reply::SayAndFail(t) => assert_eq!(t, "Unable to send DM"),
        _ => panic!("expected a failure"),
    }
}

#[test]
fn words_from_text_reads_the_word_lists() {
    let j = words_from_text(r#"{"nouns":["cat"],"verbs":["bake"],"adjectives":["big"]}"#).unwrap();
    assert!(word_list_usable(&j, "nouns", 0));
    assert!(word_list_usable(&j, "verbs", 3));
    assert_eq!(pick_word(&j, "nouns", 0), "cat");
}

#[test]
fn words_from_text_refuses_text_that_is_not_json() {
    assert!(words_from_text("nouns: cat").is_none());
}
