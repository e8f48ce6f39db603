use rusty_blitzcrank::websites::{fix_links, links, links_to_fix, Website};

#[test]
fn links_table_has_five_rewrites() {
    let l = links();
    assert_eq!(l.len(), 5);
    assert_eq!(l[0].website, Website::Twitter);
    assert_eq!(l[0].old_link, "https://twitter.com");
    assert_eq!(l[0].new_link, "https://vxtwitter.com");
    assert_eq!(l[1].old_link, "https://x.com");
    assert_eq!(l[1].new_link, "https://c.vxtwitter.com");
    assert_eq!(l[4].website, Website::Reddit);
    assert_eq!(l[4].new_link, "https://vxreddit.com");
}

#[test]
fn links_to_fix_finds_present_links_in_order() {
    let found = links_to_fix("see https://www.reddit.com/r/x and https://twitter.com/a");
    let sites: Vec<Website> = found.iter().map(|l| l.website).collect();
    assert_eq!(sites, vec![Website::Twitter, Website::Reddit]);
}

#[test]
fn links_to_fix_ignores_plain_text() {
    assert!(links_to_fix("nothing to see here").is_empty());
    assert!(links_to_fix("").is_empty());
}

#[test]
fn fix_links_reposts_with_author_and_rewrite() {
    let text = fix_links(
        "look https://x.com/post/1 and https://x.com/post/2",
        "alice",
        "https://x.com",
        "https://c.vxtwitter.com",
    );
    assert_eq!(
        text,
        "Posted by alice\nlook https://c.vxtwitter.com/post/1 and https://c.vxtwitter.com/post/2"
    );
}

#[test]
fn fix_links_without_occurrence_keeps_content() {
    assert_eq!(fix_links("hello", "bob", "https://x.com", "y"), "Posted by bob\nhello");
}

#[test]
fn fix_links_empty_pattern_interleaves_like_std() {
    assert_eq!(fix_links("ab", "c", "", "-"), "Posted by c\n-a-b-");
    assert_eq!(fix_links("ab", "c", "", "-"), format!("Posted by c\n{}", "ab".replace("", "-")));
}

#[test]
fn fix_links_matches_std_replace() {
    let content = "aaa https://www.tiktok.com/@u https://www.tiktok.comhttps://www.tiktok.com";
    let expected = format!(
        "Posted by d\n{}",
        content.replace("https://www.tiktok.com", "https://vxtiktok.com")
    );
    assert_eq!(fix_links(content, "d", "https://www.tiktok.com", "https://vxtiktok.com"), expected);
}
