//! `/name`: random names made of two words, padded with digits to 16 bytes.
use crate::common::helpers::coinflip;
use crate::json::Json;
use crate::text::{
    all_ascii, chars_of, concat, extend_chars, is_ascii_char, lemma_utf8_len_ascii, string_of,
    utf8_len,
};
pub use crate::words::random_word;
use crate::words::{
    adjective_name, agent_noun, join_agent_noun, lemma_agent_noun_ascii, lemma_padded_ascii,
    lemma_possible_word_len, pad_with_digits, padded_with_digits, possible_word, texts_ascii,
    verb_name, word_list_ok,
};
use vstd::prelude::*;

verus! {

/// The byte length a name is padded to.
pub const NAME_SIZE: usize = 16;

/// The names can be drawn from `json` without a panic.
pub open spec fn name_lists_ok(json: Json) -> bool {
    &&& word_list_ok(json, "nouns"@, 0)
    &&& word_list_ok(json, "verbs"@, 3)
    &&& word_list_ok(json, "adjectives"@, 0)
}

/// `r` is a name that `generate_name` can give: two drawn words in one of
/// the two formats, at least 16 bytes long.
pub open spec fn is_name(json: Json, r: Seq<char>) -> bool {
    &&& exists|noun: Seq<char>|
        #[trigger] possible_word(json, "nouns"@, noun) && (verb_name(json, noun, NAME_SIZE as nat, r)
            || adjective_name(json, noun, NAME_SIZE as nat, r))
    &&& utf8_len(r) >= NAME_SIZE
}

/// `names`, each followed by a line break.
pub open spec fn lines(names: Seq<Seq<char>>) -> Seq<char>
    decreases names.len(),
{
    if names.len() == 0 {
        Seq::empty()
    } else {
        lines(names.drop_last()) + names.last() + seq!['\n']
    }
}

/// Format one: noun, a verb from `verbs` as agent noun, digits up to 16 bytes.
pub fn generate_format_one(json: &Json, noun: String) -> (r: String)
    requires
        word_list_ok(*json, "verbs"@, 3),
    ensures
        verb_name(*json, noun@, NAME_SIZE as nat, r@),
        utf8_len(r@) >= NAME_SIZE,
        all_ascii(noun@) && texts_ascii(*json, "verbs"@) ==> all_ascii(r@),
{
    let verb = random_word(json, "verbs");
    proof {
        reveal_strlit("verbs");
        lemma_possible_word_len(*json, "verbs"@, verb@, 3);
    }
    let n = chars_of(noun.as_str());
    let v = chars_of(verb.as_str());
    let base = join_agent_noun(&n, &v);
    let padded = pad_with_digits(base, NAME_SIZE);
    let r = string_of(&padded);
    assert(possible_word(*json, "verbs"@, verb@) && padded_with_digits(
        agent_noun(noun@, verb@),
        NAME_SIZE as nat,
        r@,
    ));
    proof {
        if all_ascii(noun@) && texts_ascii(*json, "verbs"@) {
            assert(all_ascii("verbs"@));
            lemma_agent_noun_ascii(noun@, verb@);
            lemma_padded_ascii(agent_noun(noun@, verb@), NAME_SIZE as nat, r@);
        }
    }
    r
}

/// Format two: an adjective from `adjectives`, the noun, digits up to 16 bytes.
pub fn generate_format_two(json: &Json, noun: String) -> (r: String)
    requires
        word_list_ok(*json, "adjectives"@, 0),
    ensures
        adjective_name(*json, noun@, NAME_SIZE as nat, r@),
        utf8_len(r@) >= NAME_SIZE,
        all_ascii(noun@) && texts_ascii(*json, "adjectives"@) ==> all_ascii(r@),
{
    let adjective = random_word(json, "adjectives");
    let a = chars_of(adjective.as_str());
    let n = chars_of(noun.as_str());
    let base = concat(&a, &n);
    let padded = pad_with_digits(base, NAME_SIZE);
    let r = string_of(&padded);
    assert(possible_word(*json, "adjectives"@, adjective@) && padded_with_digits(
        adjective@ + noun@,
        NAME_SIZE as nat,
        r@,
    ));
    proof {
        if all_ascii(noun@) && texts_ascii(*json, "adjectives"@) {
            reveal_strlit("adjectives");
            assert(all_ascii("adjectives"@));
            let b = adjective@ + noun@;
            assert forall|i: int| 0 <= i < b.len() implies is_ascii_char(#[trigger] b[i]) by {
                if i < adjective@.len() {
                    assert(b[i] == adjective@[i]);
                } else {
                    assert(b[i] == noun@[i - adjective@.len()]);
                }
            }
            lemma_padded_ascii(b, NAME_SIZE as nat, r@);
        }
    }
    r
}

/// A random name: a noun from `nouns`, then one of the two formats, chosen
/// by a coin. It is at least 16 bytes long, and at least 16 characters when
/// the word lists are ASCII.
pub fn generate_name(json: &Json) -> (r: String)
    requires
        name_lists_ok(*json),
    ensures
        is_name(*json, r@),
        utf8_len(r@) >= NAME_SIZE,
        texts_ascii(*json, "nouns"@) && texts_ascii(*json, "verbs"@) && texts_ascii(
            *json,
            "adjectives"@,
        ) ==> r@.len() >= NAME_SIZE,
{
    let noun = random_word(json, "nouns");
    let ghost noun_view = noun@;
    proof {
        reveal_strlit("nouns");
        reveal_strlit("verbs");
        assert(all_ascii("nouns"@));
    }
    let r = if coinflip() {
        generate_format_one(json, noun)
    } else {
        generate_format_two(json, noun)
    };
    assert(possible_word(*json, "nouns"@, noun_view));
    proof {
        if texts_ascii(*json, "nouns"@) && texts_ascii(*json, "verbs"@) && texts_ascii(
            *json,
            "adjectives"@,
        ) {
            lemma_utf8_len_ascii(r@);
        }
    }
    r
}

/// The text `/name` replies with: `num` names, one per line (none when
/// `num` is not positive), or a single name without line break when no
/// number is given.
pub fn run(json: &Json, num: Option<i64>) -> (r: String)
    requires
        name_lists_ok(*json),
    ensures
        match num {
            None => is_name(*json, r@),
            Some(n) => exists|names: Seq<Seq<char>>|
                {
                    &&& names.len() == (if n > 0 { n as nat } else { 0 })
                    &&& forall|i: int| 0 <= i < names.len() ==> is_name(*json, #[trigger] names[i])
                    &&& r@ == #[trigger] lines(names)
                },
        },
{
    match num {
        None => generate_name(json),
        Some(n) => {
            let mut out: Vec<char> = Vec::new();
            let ghost mut names: Seq<Seq<char>> = Seq::empty();
            let mut i: i64 = 0;
            assert(lines(names) == out@);
            while i < n
                invariant
                    0 <= i,
                    n > 0 ==> i <= n,
                    n <= 0 ==> i == 0,
                    names.len() == i,
                    name_lists_ok(*json),
                    forall|k: int| 0 <= k < names.len() ==> is_name(*json, #[trigger] names[k]),
                    out@ == lines(names),
                decreases n - i,
            {
                let name = generate_name(json);
                let c = chars_of(name.as_str());
                extend_chars(&mut out, &c);
                out.push('\n');
                proof {
                    let old_names = names;
                    names = names.push(name@);
                    assert(names.drop_last() == old_names);
                }
                i = i + 1;
            }
            string_of(&out)
        },
    }
}

/// Whether the reply is sent as a text file rather than a message: it has
/// 2000 characters or more.
pub fn send_as_file(text: &str) -> (r: bool)
    ensures
        r == (text@.len() >= 2000),
{
    text.unicode_len() >= 2000
}

} // verus!
