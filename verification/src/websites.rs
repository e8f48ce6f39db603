//! Links to sites whose embeds Discord renders poorly, and their rewrites.
use crate::text::{chars_of, concat, contains_chars, contains_seq, replace_all, replace_chars, string_of};
use vstd::prelude::*;

verus! {

/// A site whose links the bot rewrites.
#[derive(Clone, Copy, Debug, PartialEq, Eq, Structural)]
pub enum Website {
    Twitter,
    X,
    Tiktok,
    Instagram,
    Reddit,
}

/// A link prefix and the prefix it is rewritten to.
pub struct LinkFix<'a> {
    pub website: Website,
    pub old_link: &'a str,
    pub new_link: &'a str,
}

/// A rewrite as plain values.
pub open spec fn link_view(l: LinkFix) -> (Website, Seq<char>, Seq<char>) {
    (l.website, l.old_link@, l.new_link@)
}

/// The rewrites, in the order they are tried.
pub open spec fn link_table() -> Seq<(Website, Seq<char>, Seq<char>)> {
    seq![
        (Website::Twitter, "https://twitter.com"@, "https://vxtwitter.com"@),
        (Website::X, "https://x.com"@, "https://c.vxtwitter.com"@),
        (Website::Tiktok, "https://www.tiktok.com"@, "https://vxtiktok.com"@),
        (Website::Instagram, "https://www.instagram.com"@, "https://instagramez.com"@),
        (Website::Reddit, "https://www.reddit.com"@, "https://vxreddit.com"@),
    ]
}

/// The rewrites of `table` whose old prefix occurs in `content`, in order.
pub open spec fn matching_links(table: Seq<(Website, Seq<char>, Seq<char>)>, content: Seq<char>) -> Seq<
    (Website, Seq<char>, Seq<char>),
>
    decreases table.len(),
{
    if table.len() == 0 {
        Seq::empty()
    } else if contains_seq(content, table.last().1) {
        matching_links(table.drop_last(), content).push(table.last())
    } else {
        matching_links(table.drop_last(), content)
    }
}

/// The rewrites the bot applies (`LINKS`).
pub fn links() -> (r: Vec<LinkFix<'static>>)
    ensures
        r@.map_values(|l: LinkFix| link_view(l)) == link_table(),
{
    let mut r: Vec<LinkFix<'static>> = Vec::new();
    r.push(
        LinkFix {
            website: Website::Twitter,
            old_link: "https://twitter.com",
            new_link: "https://vxtwitter.com",
        },
    );
    r.push(
        LinkFix { website: Website::X, old_link: "https://x.com", new_link: "https://c.vxtwitter.com" },
    );
    r.push(
        LinkFix {
            website: Website::Tiktok,
            old_link: "https://www.tiktok.com",
            new_link: "https://vxtiktok.com",
        },
    );
    r.push(
        LinkFix {
            website: Website::Instagram,
            old_link: "https://www.instagram.com",
            new_link: "https://instagramez.com",
        },
    );
    r.push(
        LinkFix {
            website: Website::Reddit,
            old_link: "https://www.reddit.com",
            new_link: "https://vxreddit.com",
        },
    );
    assert(r@.map_values(|l: LinkFix| link_view(l)) =~= link_table());
    r
}

/// The rewrites whose old prefix occurs in a message's `content`, in the
/// order of `links()`: those that a posted message triggers.
pub fn links_to_fix(content: &str) -> (r: Vec<LinkFix<'static>>)
    ensures
        r@.map_values(|l: LinkFix| link_view(l)) == matching_links(link_table(), content@),
{
    let table = links();
    let c = chars_of(content);
    let mut r: Vec<LinkFix<'static>> = Vec::new();
    let mut i: usize = 0;
    while i < table.len()
        invariant
            i <= table.len(),
            c@ == content@,
            table@.map_values(|l: LinkFix| link_view(l)) == link_table(),
            r@.map_values(|l: LinkFix| link_view(l)) == matching_links(
                link_table().take(i as int),
                content@,
            ),
        decreases table.len() - i,
    {
        let l = &table[i];
        let old = chars_of(l.old_link);
        let ghost prefix = link_table().take(i + 1);
        assert(prefix.drop_last() == link_table().take(i as int));
        assert(prefix.last() == link_view(table@[i as int]));
        if contains_chars(&c, &old) {
            r.push(LinkFix { website: l.website, old_link: l.old_link, new_link: l.new_link });
            assert(r@.map_values(|l: LinkFix| link_view(l)) =~= matching_links(
                link_table().take(i as int),
                content@,
            ).push(prefix.last()));
        }
        i = i + 1;
    }
    assert(link_table().take(table.len() as int) == link_table());
    r
}

/// The text the bot reposts for a message of `author` that holds
/// `old_link`: `Posted by {author}` on a line of its own, then the message
/// with every occurrence of `old_link` replaced by `new_link`.
pub fn fix_links(content: &str, author: &str, old_link: &str, new_link: &str) -> (r: String)
    ensures
        r@ == "Posted by "@ + author@ + "\n"@ + replace_all(content@, old_link@, new_link@),
{
    let c = chars_of(content);
    let o = chars_of(old_link);
    let n = chars_of(new_link);
    let replaced = replace_chars(&c, &o, &n);
    let head = chars_of("Posted by ");
    let a = chars_of(author);
    let nl = chars_of("\n");
    let s = concat(&head, &a);
    let s = concat(&s, &nl);
    let s = concat(&s, &replaced);
    string_of(&s)
}

/// A rewrite is triggered exactly when it is in the table and its old
/// prefix occurs in the content.
proof fn lemma_matching_links_contains(
    table: Seq<(Website, Seq<char>, Seq<char>)>,
    content: Seq<char>,
    e: (Website, Seq<char>, Seq<char>),
)
    ensures
        matching_links(table, content).contains(e) <==> (table.contains(e) && contains_seq(
            content,
            e.1,
        )),
    decreases table.len(),
{
    if table.len() > 0 {
        let rest = table.drop_last();
        lemma_matching_links_contains(rest, content, e);
        let m = matching_links(rest, content);
        if contains_seq(content, table.last().1) {
            assert(m.push(table.last()).contains(e) <==> (m.contains(e) || e == table.last())) by {
                if m.push(table.last()).contains(e) {
                    let i = choose|i: int| 0 <= i < m.len() + 1 && m.push(table.last())[i] == e;
                    if i < m.len() {
                        assert(m[i] == e);
                    }
                }
                if m.contains(e) {
                    let i = choose|i: int| 0 <= i < m.len() && m[i] == e;
                    assert(m.push(table.last())[i] == e);
                }
                if e == table.last() {
                    assert(m.push(table.last())[m.len() as int] == e);
                }
            }
        }
        assert(table.contains(e) <==> (rest.contains(e) || e == table.last())) by {
            assert(table == rest.push(table.last()));
            if table.contains(e) {
                let i = choose|i: int| 0 <= i < table.len() && table[i] == e;
                if i < rest.len() {
                    assert(rest[i] == e);
                }
            }
            if rest.contains(e) {
                let i = choose|i: int| 0 <= i < rest.len() && rest[i] == e;
                assert(table[i] == e);
            }
            if e == table.last() {
                assert(table[table.len() - 1] == e);
            }
        }
    }
}

/// The bot's rewrites, site by site: a message triggers the rewrite of a
/// site exactly when it holds that site's link prefix; twitter.com goes to
/// vxtwitter.com, x.com to c.vxtwitter.com, www.tiktok.com to
/// vxtiktok.com, www.instagram.com to instagramez.com and www.reddit.com to
/// vxreddit.com.
pub proof fn links_rewrite_each_site(content: Seq<char>)
    ensures
        matching_links(link_table(), content).contains(
            (Website::Twitter, "https://twitter.com"@, "https://vxtwitter.com"@),
        ) <==> contains_seq(content, "https://twitter.com"@),
        matching_links(link_table(), content).contains(
            (Website::X, "https://x.com"@, "https://c.vxtwitter.com"@),
        ) <==> contains_seq(content, "https://x.com"@),
        matching_links(link_table(), content).contains(
            (Website::Tiktok, "https://www.tiktok.com"@, "https://vxtiktok.com"@),
        ) <==> contains_seq(content, "https://www.tiktok.com"@),
        matching_links(link_table(), content).contains(
            (Website::Instagram, "https://www.instagram.com"@, "https://instagramez.com"@),
        ) <==> contains_seq(content, "https://www.instagram.com"@),
        matching_links(link_table(), content).contains(
            (Website::Reddit, "https://www.reddit.com"@, "https://vxreddit.com"@),
        ) <==> contains_seq(content, "https://www.reddit.com"@),
        matching_links(link_table(), content).len() <= 5,
{
    let t = link_table();
    let e0 = (Website::Twitter, "https://twitter.com"@, "https://vxtwitter.com"@);
    let e1 = (Website::X, "https://x.com"@, "https://c.vxtwitter.com"@);
    let e2 = (Website::Tiktok, "https://www.tiktok.com"@, "https://vxtiktok.com"@);
    let e3 = (Website::Instagram, "https://www.instagram.com"@, "https://instagramez.com"@);
    let e4 = (Website::Reddit, "https://www.reddit.com"@, "https://vxreddit.com"@);
    assert(t[0] == e0);
    assert(t[1] == e1);
    assert(t[2] == e2);
    assert(t[3] == e3);
    assert(t[4] == e4);
    lemma_matching_links_contains(t, content, e0);
    lemma_matching_links_contains(t, content, e1);
    lemma_matching_links_contains(t, content, e2);
    lemma_matching_links_contains(t, content, e3);
    lemma_matching_links_contains(t, content, e4);
    lemma_matching_links_len(t, content);
}

/// A message triggers at most one rewrite per table entry.
proof fn lemma_matching_links_len(table: Seq<(Website, Seq<char>, Seq<char>)>, content: Seq<char>)
    ensures
        matching_links(table, content).len() <= table.len(),
    decreases table.len(),
{
    if table.len() > 0 {
        lemma_matching_links_len(table.drop_last(), content);
    }
}

} // verus!
