//! `/ping_voice`: a message that mentions everyone in a voice channel.
use crate::text::{
    chars_of, concat, digits_value, extend_chars, lemma_nat_digits_are_digits,
    lemma_nat_digits_read_back, nat_digits, nat_to_chars, string_of,
};
use vstd::prelude::*;

verus! {

/// How Discord mentions the user `id`: `<@id>`.
pub open spec fn mention(id: u64) -> Seq<char> {
    seq!['<', '@'] + nat_digits(id as nat) + seq!['>']
}

/// The mentions of all `ids`, one after the other.
pub open spec fn mentions(ids: Seq<u64>) -> Seq<char>
    decreases ids.len(),
{
    if ids.len() == 0 {
        Seq::empty()
    } else {
        mentions(ids.drop_last()) + mention(ids.last())
    }
}

/// `Mention::from(UserId)` written out.
pub fn mention_user(id: u64) -> (r: Vec<char>)
    ensures
        r@ == mention(id),
{
    let open = vec!['<', '@'];
    let digits = nat_to_chars(id);
    let close = vec!['>'];
    let a = concat(&open, &digits);
    concat(&a, &close)
}

/// The text `/ping_voice` posts: a mention of every member of the channel
/// followed by the optional message, or a notice when the channel's members
/// could not be listed.
pub fn run(members: Option<Vec<u64>>, message: Option<String>) -> (r: String)
    ensures
        match members {
            None => r@ == "No one detected in the voice channel"@,
            Some(ids) => r@ == mentions(ids@) + match message {
                Some(m) => m@,
                None => Seq::empty(),
            },
        },
{
    match members {
        None => {
            let m = chars_of("No one detected in the voice channel");
            string_of(&m)
        },
        Some(ids) => {
            let mut out: Vec<char> = Vec::new();
            let mut i: usize = 0;
            while i < ids.len()
                invariant
                    i <= ids.len(),
                    out@ == mentions(ids@.take(i as int)),
                decreases ids.len() - i,
            {
                let m = mention_user(ids[i]);
                extend_chars(&mut out, &m);
                assert(ids@.take(i + 1).drop_last() == ids@.take(i as int));
                i = i + 1;
            }
            assert(ids@.take(ids.len() as int) == ids@);
            match message {
                Some(m) => {
                    let mc = chars_of(m.as_str());
                    extend_chars(&mut out, &mc);
                },
                None => {},
            }
            string_of(&out)
        },
    }
}

/// A mention is `<@`, the decimal digits of the whole 64-bit id, and `>`:
/// the digits read back as the id itself, for every id, and have no
/// leading zero.
pub proof fn mention_writes_the_whole_id(id: u64)
    ensures
        ({
            let m = mention(id);
            let digits = m.subrange(2, m.len() - 1);
            &&& m.len() >= 4
            &&& m[0] == '<'
            &&& m[1] == '@'
            &&& m.last() == '>'
            &&& forall|i: int| 0 <= i < digits.len() ==> '0' <= #[trigger] digits[i] <= '9'
            &&& digits_value(digits) == id as int
            &&& digits.len() > 1 ==> digits[0] != '0'
        }),
{
    let m = mention(id);
    lemma_nat_digits_read_back(id as nat);
    lemma_nat_digits_are_digits(id as nat);
    assert(m.subrange(2, m.len() - 1) =~= nat_digits(id as nat));
}

} // verus!
