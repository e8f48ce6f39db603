//! Drawing words from the word lists (`nouns`, `verbs`, `adjectives`) of a
//! JSON document and the pieces that names and passwords are built from.
use crate::common::helpers::random_range;
use crate::json::{array_items, get_key, get_key_spec, parse_json, parsed_json, Json, JsonShape};
use crate::text::{
    all_ascii, char_of_digit, chars_of, concat, is_ascii_char, lemma_utf8_len_concat, strip_ends,
    strip_ends_chars, strippable, string_of, utf8_len, utf8_len_capped,
};
use vstd::prelude::*;

verus! {

/// The reply given for a word type that the document does not have.
pub open spec fn missing_key_message(key: Seq<char>) -> Seq<char> {
    "Unable to parse \""@ + key + "\" from json"@
}

/// The word list under `key` can be drawn from without a panic: when the key
/// is present, its value is a non-empty array, and the text of every element
/// can be cut by `&t[1..t.len() - 1]`, leaving at least `min_chars` characters.
pub open spec fn word_list_ok(json: Json, key: Seq<char>, min_chars: nat) -> bool {
    match get_key_spec(json, key) {
        None => true,
        Some(v) => match array_items(v) {
            Some(items) => {
                &&& items.len() > 0
                &&& forall|i: int|
                    0 <= i < items.len() ==> {
                        &&& strippable(#[trigger] items[i].text@)
                        &&& strip_ends(items[i].text@).len() >= min_chars
                    }
            },
            None => false,
        },
    }
}

/// The number of words under `key` (zero when the key is absent or holds no array).
pub open spec fn word_count(json: Json, key: Seq<char>) -> nat {
    match get_key_spec(json, key) {
        Some(v) => match array_items(v) {
            Some(items) => items.len(),
            None => 0,
        },
        None => 0,
    }
}

/// The word at `index` under `key`: the element's text without its quotes,
/// or the missing-key message when the document has no such key.
pub open spec fn word_at(json: Json, key: Seq<char>, index: int) -> Seq<char> {
    match get_key_spec(json, key) {
        None => missing_key_message(key),
        Some(v) => strip_ends(array_items(v).unwrap()[index].text@),
    }
}

/// `w` is one of the words that drawing from `key` can give.
pub open spec fn possible_word(json: Json, key: Seq<char>, w: Seq<char>) -> bool {
    match get_key_spec(json, key) {
        None => w == missing_key_message(key),
        Some(v) => exists|i: int| 0 <= i < word_count(json, key) && w == #[trigger] word_at(json, key, i),
    }
}

/// Every element of the list under `key` has plain ASCII text.
pub open spec fn texts_ascii(json: Json, key: Seq<char>) -> bool {
    match get_key_spec(json, key) {
        Some(v) => match array_items(v) {
            Some(items) => forall|i: int| 0 <= i < items.len() ==> all_ascii(#[trigger] items[i].text@),
            None => true,
        },
        None => true,
    }
}

/// `c.to_ascii_uppercase()`.
pub open spec fn ascii_upper(c: char) -> char {
    if 'a' <= c && c <= 'z' {
        ((c as u32) - 32) as char
    } else {
        c
    }
}

/// `a` is `b` with some of its ASCII letters turned to upper case.
pub open spec fn case_variant(a: Seq<char>, b: Seq<char>) -> bool {
    &&& a.len() == b.len()
    &&& forall|i: int| 0 <= i < a.len() ==> #[trigger] a[i] == b[i] || a[i] == ascii_upper(b[i])
}

/// The agent noun that a name or password starts with: `noun` and `verb`
/// joined, then `er` added, only `r` when the verb ends with `e`, and
/// nothing when the verb without its last three characters is `er`.
pub open spec fn agent_noun(noun: Seq<char>, verb: Seq<char>) -> Seq<char> {
    if verb.take(verb.len() - 3) == seq!['e', 'r'] {
        noun + verb
    } else if verb.last() == 'e' {
        noun + verb + seq!['r']
    } else {
        noun + verb + seq!['e', 'r']
    }
}

/// Every character is an ASCII digit.
pub open spec fn all_digits(s: Seq<char>) -> bool {
    forall|i: int| 0 <= i < s.len() ==> '0' <= #[trigger] s[i] && s[i] <= '9'
}

/// How many one-byte digits it takes to bring `base` to `size` bytes.
pub open spec fn digits_needed(base: Seq<char>, size: nat) -> nat {
    if utf8_len(base) < size {
        (size - utf8_len(base)) as nat
    } else {
        0
    }
}

/// `r` is `base` followed by just enough random digits to be `size` bytes long.
pub open spec fn padded_with_digits(base: Seq<char>, size: nat, r: Seq<char>) -> bool {
    &&& r.len() == base.len() + digits_needed(base, size)
    &&& r.take(base.len() as int) == base
    &&& all_digits(r.skip(base.len() as int))
}

/// `r` is a name of the form noun, verb and `er`, padded with digits to
/// `size` bytes, the verb drawn from `verbs`.
pub open spec fn verb_name(json: Json, noun: Seq<char>, size: nat, r: Seq<char>) -> bool {
    exists|verb: Seq<char>|
        #[trigger] possible_word(json, "verbs"@, verb) && padded_with_digits(
            agent_noun(noun, verb),
            size,
            r,
        )
}

/// As `verb_name`, with the verb's letters randomly turned to upper case.
pub open spec fn cased_verb_name(json: Json, noun: Seq<char>, size: nat, r: Seq<char>) -> bool {
    exists|word: Seq<char>, verb: Seq<char>|
        #[trigger] possible_word(json, "verbs"@, word) && #[trigger] case_variant(verb, word)
            && padded_with_digits(agent_noun(noun, verb), size, r)
}

/// `r` is an adjective drawn from `adjectives` followed by `noun`, padded
/// with digits to `size` bytes.
pub open spec fn adjective_name(json: Json, noun: Seq<char>, size: nat, r: Seq<char>) -> bool {
    exists|adjective: Seq<char>|
        #[trigger] possible_word(json, "adjectives"@, adjective) && padded_with_digits(
            adjective + noun,
            size,
            r,
        )
}

/// A word drawn from a list that holds words of at least `min_chars`
/// characters (`min_chars <= 3`) has at least `min_chars` characters.
pub proof fn lemma_possible_word_len(json: Json, key: Seq<char>, w: Seq<char>, min_chars: nat)
    requires
        word_list_ok(json, key, min_chars),
        possible_word(json, key, w),
        min_chars <= 3,
        all_ascii(key),
    ensures
        w.len() >= min_chars,
{
    match get_key_spec(json, key) {
        None => {
            lemma_missing_key_message(key);
        },
        Some(v) => {
            let i = choose|i: int| 0 <= i < word_count(json, key) && w == #[trigger] word_at(json, key, i);
            let items = array_items(v).unwrap();
            assert(strippable(items[i].text@));
        },
    }
}

/// Digits padding keeps a text ASCII.
pub proof fn lemma_padded_ascii(base: Seq<char>, size: nat, r: Seq<char>)
    requires
        padded_with_digits(base, size, r),
        all_ascii(base),
    ensures
        all_ascii(r),
{
    assert forall|i: int| 0 <= i < r.len() implies is_ascii_char(#[trigger] r[i]) by {
        if i < base.len() {
            assert(r[i] == r.take(base.len() as int)[i]);
        } else {
            assert(r[i] == r.skip(base.len() as int)[i - base.len()]);
        }
    }
}

/// A case variant of an ASCII text is ASCII.
pub proof fn lemma_case_variant_ascii(a: Seq<char>, b: Seq<char>)
    requires
        case_variant(a, b),
        all_ascii(b),
    ensures
        all_ascii(a),
{
    assert forall|i: int| 0 <= i < a.len() implies is_ascii_char(#[trigger] a[i]) by {
        assert(a[i] == b[i] || a[i] == ascii_upper(b[i]));
    }
}

/// The agent noun of ASCII texts is ASCII.
pub proof fn lemma_agent_noun_ascii(noun: Seq<char>, verb: Seq<char>)
    requires
        all_ascii(noun),
        all_ascii(verb),
        verb.len() >= 3,
    ensures
        all_ascii(agent_noun(noun, verb)),
{
    let a = agent_noun(noun, verb);
    assert forall|i: int| 0 <= i < a.len() implies is_ascii_char(#[trigger] a[i]) by {
        if i < noun.len() {
            assert(a[i] == noun[i]);
        } else if i < noun.len() + verb.len() {
            assert(a[i] == verb[i - noun.len()]);
        } else {
        }
    }
}

/// The missing-key message, built.
fn missing_key_text(key: &str) -> (r: String)
    ensures
        r@ == missing_key_message(key@),
{
    let a = chars_of("Unable to parse \"");
    let k = chars_of(key);
    let b = chars_of("\" from json");
    let ak = concat(&a, &k);
    let all = concat(&ak, &b);
    string_of(&all)
}

/// Whether `word_list_ok` holds: the test to make before drawing from `key`.
pub fn word_list_usable(json: &Json, key: &str, min_chars: usize) -> (r: bool)
    ensures
        r == word_list_ok(*json, key@, min_chars as nat),
{
    match get_key(json, key) {
        None => true,
        Some(v) => match &v.shape {
            JsonShape::Array(items) => {
                if items.len() == 0 {
                    return false;
                }
                let mut i: usize = 0;
                while i < items.len()
                    invariant
                        i <= items.len(),
                        get_key_spec(*json, key@) == Some(*v),
                        array_items(*v) == Some(items@),
                        forall|j: int|
                            0 <= j < i ==> {
                                &&& strippable(#[trigger] items@[j].text@)
                                &&& strip_ends(items@[j].text@).len() >= min_chars
                            },
                    decreases items.len() - i,
                {
                    let t = chars_of(items[i].text.as_str());
                    let n = t.len();
                    if n < 2 || (t[0] as u32) >= 0x80 || (t[n - 1] as u32) >= 0x80 || n - 2
                        < min_chars {
                        assert(!(strippable(items@[i as int].text@) && strip_ends(
                            items@[i as int].text@,
                        ).len() >= min_chars));
                        return false;
                    }
                    i = i + 1;
                }
                true
            },
            _ => false,
        },
    }
}

/// The word at `index` under `key` (`Value::get(key)`, `as_array`, `get(index)`,
/// `to_string`, then `&t[1..t.len() - 1]`), or the missing-key message.
pub fn pick_word(json: &Json, key: &str, index: usize) -> (r: String)
    requires
        word_list_ok(*json, key@, 0),
        get_key_spec(*json, key@) is Some ==> index < word_count(*json, key@),
    ensures
        r@ == word_at(*json, key@, index as int),
{
    match get_key(json, key) {
        None => missing_key_text(key),
        Some(v) => match &v.shape {
            JsonShape::Array(items) => {
                let t = chars_of(items[index].text.as_str());
                let s = strip_ends_chars(&t);
                string_of(&s)
            },
            _ => {
                proof {
                    assert(false);
                }
                String::new()
            },
        },
    }
}

/// A word drawn at random from the list under `word_type`, or the
/// missing-key message when the document has no such list.
pub fn random_word(json: &Json, word_type: &str) -> (r: String)
    requires
        word_list_ok(*json, word_type@, 0),
    ensures
        possible_word(*json, word_type@, r@),
        texts_ascii(*json, word_type@) && all_ascii(word_type@) ==> all_ascii(r@),
{
    match get_key(json, word_type) {
        None => {
            let r = missing_key_text(word_type);
            proof {
                if all_ascii(word_type@) {
                    lemma_missing_key_message(word_type@);
                }
            }
            r
        },
        Some(v) => match &v.shape {
            JsonShape::Array(items) => {
                let n = items.len();
                let i = random_range(0, n as u64) as usize;
                let r = pick_word(json, word_type, i);
                assert(word_at(*json, word_type@, i as int) == r@);
                proof {
                    if texts_ascii(*json, word_type@) {
                        let t = items@[i as int].text@;
                        assert(all_ascii(t));
                        assert forall|j: int| 0 <= j < r@.len() implies is_ascii_char(
                            #[trigger] r@[j],
                        ) by {
                            assert(r@[j] == t[j + 1]);
                        }
                    }
                }
                r
            },
            _ => {
                proof {
                    assert(false);
                }
                String::new()
            },
        },
    }
}

/// `c.to_ascii_uppercase()`.
pub fn to_ascii_upper(c: char) -> (r: char)
    ensures
        r == ascii_upper(c),
{
    if 'a' <= c && c <= 'z' {
        let u = (c as u32) - 32;
        assert(0x41 <= u <= 0x5a);
        char_from_ascii_upper(u)
    } else {
        c
    }
}

/// The upper-case ASCII letter with code `u`.
fn char_from_ascii_upper(u: u32) -> (c: char)
    requires
        0x41 <= u <= 0x5a,
    ensures
        c as u32 == u,
{
    let b = u as u8;
    b as char
}

/// `noun` and `verb` joined into an agent noun (see `agent_noun`).
pub fn join_agent_noun(noun: &Vec<char>, verb: &Vec<char>) -> (r: Vec<char>)
    requires
        verb@.len() >= 3,
    ensures
        r@ == agent_noun(noun@, verb@),
{
    let n = verb.len();
    let mut r = concat(noun, verb);
    if n == 5 && verb[0] == 'e' && verb[1] == 'r' {
        assert(verb@.take(n - 3) == seq!['e', 'r']);
        r
    } else {
        proof {
            let p = verb@.take(verb@.len() - 3);
            if p == seq!['e', 'r'] {
                assert(p.len() == 2);
                assert(p[0] == verb@[0]);
                assert(p[1] == verb@[1]);
                assert(seq!['e', 'r'][0] == 'e');
                assert(seq!['e', 'r'][1] == 'r');
            }
        }
        if verb[n - 1] == 'e' {
            r.push('r');
            r
        } else {
            let er = vec!['e', 'r'];
            concat(&r, &er)
        }
    }
}

/// A digit drawn at random (`random_range(0..10)`, written in decimal).
fn random_digit() -> (c: char)
    ensures
        '0' <= c && c <= '9',
{
    let d = random_range(0, 10);
    char_of_digit(d)
}

/// `base` with random digits appended while its UTF-8 length is below `size`.
pub fn pad_with_digits(base: Vec<char>, size: usize) -> (r: Vec<char>)
    ensures
        padded_with_digits(base@, size as nat, r@),
        utf8_len(r@) == (if utf8_len(base@) < size { size as nat } else { utf8_len(base@) }),
{
    let mut n = utf8_len_capped(&base, size);
    let ghost b = base@;
    let mut r = base;
    while n < size
        invariant
            n <= size,
            r@.take(b.len() as int) == b,
            r@.len() >= b.len(),
            all_digits(r@.skip(b.len() as int)),
            utf8_len(r@) == utf8_len(b) + (r@.len() - b.len()),
            n == (if utf8_len(b) < size { utf8_len(b) } else { size as nat }) + (r@.len() - b.len()),
            r@.len() > b.len() ==> utf8_len(b) < size,
        decreases size - n,
    {
        let c = random_digit();
        let ghost before = r@;
        r.push(c);
        proof {
            assert(r@.take(b.len() as int) == before.take(b.len() as int));
            assert(r@.skip(b.len() as int) == before.skip(b.len() as int).push(c));
            assert(r@ == before + seq![c]);
            lemma_utf8_len_concat(before, seq![c]);
            assert(seq![c].drop_last() =~= Seq::<char>::empty());
            assert(utf8_len(Seq::<char>::empty()) == 0);
            assert(utf8_len(seq![c]) == 1);
        }
        n = n + 1;
    }
    proof {
        assert(r@.len() == b.len() + digits_needed(b, size as nat));
    }
    r
}

/// The missing-key message is plain ASCII and longer than three characters.
pub proof fn lemma_missing_key_message(key: Seq<char>)
    requires
        all_ascii(key),
    ensures
        all_ascii(missing_key_message(key)),
        missing_key_message(key).len() >= 3,
{
    reveal_strlit("Unable to parse \"");
    reveal_strlit("\" from json");
    let m = missing_key_message(key);
    assert forall|i: int| 0 <= i < m.len() implies is_ascii_char(#[trigger] m[i]) by {
        let a = "Unable to parse \""@;
        if i < a.len() {
        } else if i < a.len() + key.len() {
            assert(m[i] == key[i - a.len()]);
        } else {
        }
    }
}

/// The word lists read from the text of the words file: the document that
/// the text holds, or none when it is not JSON (the commands then panic with
/// "unable to convert file to json").
pub fn words_from_text(text: &str) -> (r: Option<Json>)
    ensures
        r == parsed_json(text@),
        r matches Some(j) ==> j.wf(),
{
    parse_json(text)
}

} // verus!
