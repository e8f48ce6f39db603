//! `/password`: a random password of the requested length, made of words
//! with random casing, digits and special characters.
use crate::common::helpers::{coinflip, random_range};
use crate::json::Json;
use crate::reply::{says, says_and_fails, Reply};
use crate::text::{
    all_ascii, chars_of, concat, decimal, decimal_chars, extend_chars, is_ascii_char,
    lemma_nat_digits_are_digits, lemma_nat_digits_ascii, lemma_utf8_len_ascii, lemma_utf8_len_concat, nat_digits,
    push_char, string_of, utf8_len, utf8_len_capped,
};
pub use crate::words::random_word;
use crate::words::{
    adjective_name, agent_noun, ascii_upper, case_variant, cased_verb_name,
    join_agent_noun, lemma_agent_noun_ascii, lemma_case_variant_ascii, lemma_padded_ascii,
    lemma_possible_word_len, pad_with_digits, padded_with_digits, possible_word, texts_ascii,
    to_ascii_upper, word_list_ok,
};
use vstd::prelude::*;

verus! {

/// `word` with the characters at the positions where `flips` is true turned
/// to upper case (ASCII letters only).
pub open spec fn apply_case_spec(word: Seq<char>, flips: Seq<bool>) -> Seq<char> {
    Seq::new(word.len(), |i: int| if flips[i] { ascii_upper(word[i]) } else { word[i] })
}

/// The special characters a password may be padded with.
pub open spec fn special_chars() -> Seq<char> {
    seq!['!', '@', '#', '$', '%', '^', '&', '*', '(', ')', '?', '[', ']']
}

/// The special character at `i`.
pub open spec fn special_char(i: nat) -> char {
    special_chars()[i as int]
}

/// A character that padding can add: an ASCII digit or a special character.
pub open spec fn is_padding_char(c: char) -> bool {
    ('0' <= c && c <= '9') || special_chars().contains(c)
}

/// One padding step: the index written in decimal, or the special
/// character at the index.
pub open spec fn padding_token(index: nat, digits: bool) -> Seq<char> {
    if digits {
        nat_digits(index)
    } else {
        seq![special_char(index)]
    }
}

/// The padding written by a run of steps.
pub open spec fn padding_text(indices: Seq<nat>, digits: Seq<bool>) -> Seq<char>
    decreases indices.len(),
{
    if indices.len() == 0 || digits.len() == 0 {
        Seq::empty()
    } else {
        padding_text(indices.drop_last(), digits.drop_last()) + padding_token(
            indices.last(),
            digits.last(),
        )
    }
}

/// The first `n` characters of `s`, or all of `s` when it is shorter.
pub open spec fn take_chars(s: Seq<char>, n: nat) -> Seq<char> {
    if s.len() > n {
        s.take(n as int)
    } else {
        s
    }
}

/// `r` is what `finalize` can make of `word`: padding steps are appended
/// while the text is shorter than `size` bytes, then the text is cut to its
/// first `size` characters.
pub open spec fn finalize_result(word: Seq<char>, size: nat, r: Seq<char>) -> bool {
    exists|indices: Seq<nat>, digits: Seq<bool>|
        {
            &&& indices.len() == digits.len()
            &&& forall|i: int| 0 <= i < indices.len() ==> #[trigger] indices[i] < 13
            &&& indices.len() > 0 ==> utf8_len(
                word + padding_text(indices.drop_last(), digits.drop_last()),
            ) < size
            &&& utf8_len(word + #[trigger] padding_text(indices, digits)) >= size
            &&& r == take_chars(word + padding_text(indices, digits), size)
        }
}

/// `word` with the letters at the positions where `flips` is true in upper case.
pub fn apply_case(word: &String, flips: &Vec<bool>) -> (r: String)
    requires
        flips@.len() == word@.len(),
    ensures
        r@ == apply_case_spec(word@, flips@),
{
    let w = chars_of(word.as_str());
    let mut r = String::new();
    let mut i: usize = 0;
    while i < w.len()
        invariant
            i <= w.len(),
            w@ == word@,
            flips@.len() == w@.len(),
            r@ == apply_case_spec(word@, flips@).take(i as int),
        decreases w.len() - i,
    {
        let c = if flips[i] {
            to_ascii_upper(w[i])
        } else {
            w[i]
        };
        push_char(&mut r, c);
        i = i + 1;
        assert(r@ == apply_case_spec(word@, flips@).take(i as int));
    }
    assert(apply_case_spec(word@, flips@).take(w@.len() as int) == apply_case_spec(word@, flips@));
    r
}

/// `word` with each letter turned to upper case on the toss of a coin.
pub fn randomize_case(word: &String) -> (r: String)
    ensures
        case_variant(r@, word@),
        all_ascii(word@) ==> all_ascii(r@),
{
    let n = word.as_str().unicode_len();
    let mut flips: Vec<bool> = Vec::new();
    let mut i: usize = 0;
    while i < n
        invariant
            i <= n,
            flips@.len() == i,
        decreases n - i,
    {
        flips.push(coinflip());
        i = i + 1;
    }
    let r = apply_case(word, &flips);
    proof {
        assert(case_variant(r@, word@));
        if all_ascii(word@) {
            lemma_case_variant_ascii(r@, word@);
        }
    }
    r
}

/// The special character at `i`.
fn special_char_at(i: u64) -> (c: char)
    requires
        i < 13,
    ensures
        c == special_char(i as nat),
{
    if i == 0 {
        '!'
    } else if i == 1 {
        '@'
    } else if i == 2 {
        '#'
    } else if i == 3 {
        '$'
    } else if i == 4 {
        '%'
    } else if i == 5 {
        '^'
    } else if i == 6 {
        '&'
    } else if i == 7 {
        '*'
    } else if i == 8 {
        '('
    } else if i == 9 {
        ')'
    } else if i == 10 {
        '?'
    } else if i == 11 {
        '['
    } else {
        ']'
    }
}

/// One padding step: `index` in decimal when `digits` holds, else the
/// special character at `index`.
pub fn padding_step(index: u64, digits: bool) -> (r: Vec<char>)
    requires
        index < 13,
    ensures
        r@ == padding_token(index as nat, digits),
        all_ascii(r@),
{
    if digits {
        let r = decimal_chars(index as i64);
        proof {
            lemma_nat_digits_ascii(index as nat);
        }
        r
    } else {
        let c = special_char_at(index);
        vec![c]
    }
}

/// `take_chars`: the first `n` characters of `s` (`char_indices().nth(n)`
/// and a cut there), or all of it.
pub fn truncate_chars(s: &Vec<char>, n: usize) -> (r: Vec<char>)
    ensures
        r@ == take_chars(s@, n as nat),
{
    if s.len() > n {
        let mut r: Vec<char> = Vec::new();
        let mut i: usize = 0;
        while i < n
            invariant
                i <= n < s.len(),
                r@ == s@.take(i as int),
            decreases n - i,
        {
            r.push(s[i]);
            i = i + 1;
            assert(r@ == s@.take(i as int));
        }
        r
    } else {
        let mut r: Vec<char> = Vec::new();
        extend_chars(&mut r, s);
        assert(r@ == s@);
        r
    }
}

/// Padding made of ASCII steps is ASCII.
proof fn lemma_padding_text_ascii(indices: Seq<nat>, digits: Seq<bool>)
    requires
        forall|i: int| 0 <= i < indices.len() ==> #[trigger] indices[i] < 13,
    ensures
        all_ascii(padding_text(indices, digits)),
    decreases indices.len(),
{
    if indices.len() > 0 && digits.len() > 0 {
        let p = padding_text(indices.drop_last(), digits.drop_last());
        let t = padding_token(indices.last(), digits.last());
        lemma_padding_text_ascii(indices.drop_last(), digits.drop_last());
        lemma_nat_digits_ascii(indices.last());
        assert(all_ascii(t));
        assert forall|i: int| 0 <= i < (p + t).len() implies is_ascii_char(#[trigger] (p + t)[i]) by {
            if i < p.len() {
                assert((p + t)[i] == p[i]);
            } else {
                assert((p + t)[i] == t[i - p.len()]);
            }
        }
    }
}

/// Padding consists of digits and special characters only.
proof fn lemma_padding_text_chars(indices: Seq<nat>, digits: Seq<bool>)
    requires
        forall|i: int| 0 <= i < indices.len() ==> #[trigger] indices[i] < 13,
    ensures
        forall|i: int|
            0 <= i < padding_text(indices, digits).len() ==> is_padding_char(
                #[trigger] padding_text(indices, digits)[i],
            ),
    decreases indices.len(),
{
    if indices.len() > 0 && digits.len() > 0 {
        let p = padding_text(indices.drop_last(), digits.drop_last());
        let k = indices.last();
        let t = padding_token(k, digits.last());
        lemma_padding_text_chars(indices.drop_last(), digits.drop_last());
        lemma_nat_digits_are_digits(k);
        assert(special_chars()[k as int] == special_char(k));
        assert forall|i: int| 0 <= i < t.len() implies is_padding_char(#[trigger] t[i]) by {
            if !digits.last() {
                assert(t[i] == special_char(k));
                assert(special_chars().contains(t[i]));
            }
        }
        assert forall|i: int| 0 <= i < (p + t).len() implies is_padding_char(#[trigger] (p + t)[i]) by {
            if i < p.len() {
                assert((p + t)[i] == p[i]);
            } else {
                assert((p + t)[i] == t[i - p.len()]);
            }
        }
    }
}

/// Pads `word` with random digits and special characters until it is at
/// least `size` bytes long, then keeps its first `size` characters. On an
/// ASCII word the password is exactly `size` characters long.
pub fn finalize(word: String, size: i64) -> (r: String)
    requires
        0 <= size <= usize::MAX,
    ensures
        finalize_result(word@, size as nat, r@),
        forall|i: int| word@.len() <= i < r@.len() ==> is_padding_char(#[trigger] r@[i]),
        all_ascii(word@) ==> r@.len() == size && all_ascii(r@),
{
    let sz = size as usize;
    let mut w = chars_of(word.as_str());
    let ghost mut indices: Seq<nat> = Seq::empty();
    let ghost mut digits: Seq<bool> = Seq::empty();
    assert(word@ + padding_text(indices, digits) == word@);
    let mut n = utf8_len_capped(&w, sz);
    while n < sz
        invariant
            indices.len() == digits.len(),
            forall|i: int| 0 <= i < indices.len() ==> #[trigger] indices[i] < 13,
            w@ == word@ + padding_text(indices, digits),
            indices.len() > 0 ==> utf8_len(
                word@ + padding_text(indices.drop_last(), digits.drop_last()),
            ) < sz,
            n == (if utf8_len(w@) < sz { utf8_len(w@) } else { sz as nat }),
        decreases sz - n,
    {
        let index = random_range(0, 13);
        let flip = coinflip();
        let token = padding_step(index, flip);
        let ghost before = w@;
        extend_chars(&mut w, &token);
        proof {
            let old_indices = indices;
            let old_digits = digits;
            indices = indices.push(index as nat);
            digits = digits.push(flip);
            assert(indices.drop_last() == old_indices);
            assert(digits.drop_last() == old_digits);
            assert(padding_text(indices, digits) == padding_text(old_indices, old_digits)
                + token@);
            assert(w@ == word@ + padding_text(indices, digits));
            lemma_utf8_len_concat(before, token@);
            lemma_utf8_len_ascii(token@);
        }
        n = utf8_len_capped(&w, sz);
    }
    let t = truncate_chars(&w, sz);
    proof {
        assert(finalize_result(word@, size as nat, t@));
        lemma_padding_text_chars(indices, digits);
        assert forall|i: int| word@.len() <= i < t@.len() implies is_padding_char(#[trigger] t@[i]) by {
            assert(t@[i] == w@[i]);
            assert(w@[i] == padding_text(indices, digits)[i - word@.len()]);
        }
        if all_ascii(word@) {
            lemma_padding_text_ascii(indices, digits);
            let p = padding_text(indices, digits);
            assert forall|i: int| 0 <= i < w@.len() implies is_ascii_char(#[trigger] w@[i]) by {
                if i < word@.len() {
                    assert(w@[i] == word@[i]);
                } else {
                    assert(w@[i] == p[i - word@.len()]);
                }
            }
            lemma_utf8_len_ascii(w@);
        }
    }
    string_of(&t)
}

/// Format one: the noun, a verb from `verbs` with random casing turned into
/// an agent noun, and random digits up to `size` bytes.
pub fn generate_format_one(json: &Json, noun: String, size: i64) -> (r: String)
    requires
        word_list_ok(*json, "verbs"@, 3),
        0 <= size <= usize::MAX,
    ensures
        cased_verb_name(*json, noun@, size as nat, r@),
        all_ascii(noun@) && texts_ascii(*json, "verbs"@) ==> all_ascii(r@),
{
    let word = random_word(json, "verbs");
    let verb = randomize_case(&word);
    proof {
        reveal_strlit("verbs");
        assert(all_ascii("verbs"@));
        lemma_possible_word_len(*json, "verbs"@, word@, 3);
    }
    let n = chars_of(noun.as_str());
    let v = chars_of(verb.as_str());
    let base = join_agent_noun(&n, &v);
    let padded = pad_with_digits(base, size as usize);
    let r = string_of(&padded);
    proof {
        assert(possible_word(*json, "verbs"@, word@) && case_variant(verb@, word@)
            && padded_with_digits(agent_noun(noun@, verb@), size as nat, r@));
        if all_ascii(noun@) && texts_ascii(*json, "verbs"@) {
            lemma_agent_noun_ascii(noun@, verb@);
            lemma_padded_ascii(agent_noun(noun@, verb@), size as nat, r@);
        }
    }
    r
}

/// Format two: an adjective from `adjectives`, the noun, and random digits
/// up to `size` bytes.
pub fn generate_format_two(json: &Json, noun: String, size: i64) -> (r: String)
    requires
        word_list_ok(*json, "adjectives"@, 0),
        0 <= size <= usize::MAX,
    ensures
        adjective_name(*json, noun@, size as nat, r@),
        all_ascii(noun@) && texts_ascii(*json, "adjectives"@) ==> all_ascii(r@),
{
    let adjective = random_word(json, "adjectives");
    let a = chars_of(adjective.as_str());
    let n = chars_of(noun.as_str());
    let base = concat(&a, &n);
    let padded = pad_with_digits(base, size as usize);
    let r = string_of(&padded);
    proof {
        assert(possible_word(*json, "adjectives"@, adjective@) && padded_with_digits(
            adjective@ + noun@,
            size as nat,
            r@,
        ));
        if all_ascii(noun@) && texts_ascii(*json, "adjectives"@) {
            reveal_strlit("adjectives");
            assert(all_ascii("adjectives"@));
            assert(all_ascii(adjective@ + noun@)) by {
                let s = adjective@ + noun@;
                assert forall|i: int| 0 <= i < s.len() implies is_ascii_char(#[trigger] s[i]) by {
                    if i < adjective@.len() {
                        assert(s[i] == adjective@[i]);
                    } else {
                        assert(s[i] == noun@[i - adjective@.len()]);
                    }
                }
            }
            lemma_padded_ascii(adjective@ + noun@, size as nat, r@);
        }
    }
    r
}

/// The password `/password` sends: a noun from `nouns` with random casing,
/// joined by one of the two formats (chosen by a coin) without any padding
/// (the formats are asked for zero bytes), then `finalize`, which pads the
/// words with random digits and special characters up to `size` bytes and
/// cuts them to `size` characters. Every character after the words is a
/// digit or one of the 13 special characters. When every word of the three
/// lists is ASCII, the password has exactly `size` characters.
pub fn generate_password(json: &Json, size: i64) -> (r: String)
    requires
        word_list_ok(*json, "nouns"@, 0),
        word_list_ok(*json, "verbs"@, 3),
        word_list_ok(*json, "adjectives"@, 0),
        0 <= size <= usize::MAX,
    ensures
        exists|noun_word: Seq<char>, noun: Seq<char>, words: Seq<char>|
            {
                &&& #[trigger] possible_word(*json, "nouns"@, noun_word)
                &&& #[trigger] case_variant(noun, noun_word)
                &&& cased_verb_name(*json, noun, 0, words) || adjective_name(
                    *json,
                    noun,
                    0,
                    words,
                )
                &&& #[trigger] finalize_result(words, size as nat, r@)
                &&& forall|i: int|
                    words.len() <= i < r@.len() ==> is_padding_char(#[trigger] r@[i])
            },
        texts_ascii(*json, "nouns"@) && texts_ascii(*json, "verbs"@) && texts_ascii(
            *json,
            "adjectives"@,
        ) ==> r@.len() == size,
{
    let noun_word = random_word(json, "nouns");
    let noun = randomize_case(&noun_word);
    let ghost noun_view = noun@;
    proof {
        reveal_strlit("nouns");
        assert(all_ascii("nouns"@));
    }
    let words = if coinflip() {
        generate_format_one(json, noun, 0)
    } else {
        generate_format_two(json, noun, 0)
    };
    let ghost words_view = words@;
    let r = finalize(words, size);
    proof {
        assert(possible_word(*json, "nouns"@, noun_word@) && case_variant(noun_view, noun_word@)
            && (cased_verb_name(*json, noun_view, 0, words_view) || adjective_name(
            *json,
            noun_view,
            0,
            words_view,
        )) && finalize_result(words_view, size as nat, r@) && (forall|i: int|
            words_view.len() <= i < r@.len() ==> is_padding_char(#[trigger] r@[i])));
    }
    r
}

/// `k` padding steps of the first special character.
proof fn lemma_padding_of_bangs(k: nat)
    ensures
        padding_text(Seq::new(k, |i: int| 0nat), Seq::new(k, |i: int| false)) == Seq::new(
            k,
            |i: int| '!',
        ),
    decreases k,
{
    let indices = Seq::new(k, |i: int| 0nat);
    let digits = Seq::new(k, |i: int| false);
    if k > 0 {
        lemma_padding_of_bangs((k - 1) as nat);
        assert(indices.drop_last() == Seq::new((k - 1) as nat, |i: int| 0nat));
        assert(digits.drop_last() == Seq::new((k - 1) as nat, |i: int| false));
        assert(special_char(0) == '!');
        assert(padding_text(indices, digits) =~= Seq::new(k, |i: int| '!'));
    } else {
        assert(padding_text(indices, digits) =~= Seq::new(k, |i: int| '!'));
    }
}

/// Special characters can appear in a password: whenever an ASCII word is
/// shorter than `size`, one possible outcome of `finalize` pads it with `!`
/// only, so the password holds a special character.
pub proof fn special_characters_can_appear(word: Seq<char>, size: nat)
    requires
        all_ascii(word),
        word.len() < size,
    ensures
        exists|r: Seq<char>| #[trigger] finalize_result(word, size, r) && r.contains('!'),
{
    let k = (size - word.len()) as nat;
    let indices = Seq::new(k, |i: int| 0nat);
    let digits = Seq::new(k, |i: int| false);
    lemma_padding_of_bangs(k);
    lemma_padding_of_bangs((k - 1) as nat);
    assert(indices.drop_last() == Seq::new((k - 1) as nat, |i: int| 0nat));
    assert(digits.drop_last() == Seq::new((k - 1) as nat, |i: int| false));
    let full = word + Seq::new(k, |i: int| '!');
    let short = word + Seq::new((k - 1) as nat, |i: int| '!');
    assert(all_ascii(full)) by {
        assert forall|i: int| 0 <= i < full.len() implies is_ascii_char(#[trigger] full[i]) by {
            if i < word.len() {
                assert(full[i] == word[i]);
            }
        }
    }
    assert(all_ascii(short)) by {
        assert forall|i: int| 0 <= i < short.len() implies is_ascii_char(#[trigger] short[i]) by {
            if i < word.len() {
                assert(short[i] == word[i]);
            }
        }
    }
    lemma_utf8_len_ascii(full);
    lemma_utf8_len_ascii(short);
    assert(take_chars(full, size) == full);
    assert(full[word.len() as int] == '!');
    assert(full.contains('!'));
    assert(finalize_result(word, size, full));
}

/// The direct message carrying the password, hidden behind a spoiler: `||password||`.
pub fn spoiler(password: &str) -> (r: String)
    ensures
        r@ == seq!['|', '|'] + password@ + seq!['|', '|'],
{
    let bars = vec!['|', '|'];
    let p = chars_of(password);
    let a = concat(&bars, &p);
    let all = concat(&a, &bars);
    string_of(&all)
}

/// What `/password` posts in the channel once the direct message went out
/// (`sent`) or could not be sent; the command fails in the second case.
pub fn dm_reply(sent: bool) -> (r: Reply)
    ensures
        sent ==> says(r, "Sent, check your direct messages"@),
        !sent ==> says_and_fails(r, "Unable to send DM"@),
{
    if sent {
        Reply::Say(string_of(&chars_of("Sent, check your direct messages")))
    } else {
        Reply::SayAndFail(string_of(&chars_of("Unable to send DM")))
    }
}

} // verus!
