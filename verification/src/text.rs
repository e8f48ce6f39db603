//! Character-level string operations used by the bot's commands: UTF-8
//! byte lengths, substring search, `replace`, quote stripping and decimal
//! rendering of integers, each with the mathematical definition it meets.
use vstd::arithmetic::div_mod::lemma_fundamental_div_mod;
use vstd::prelude::*;

verus! {

/// Number of bytes that the UTF-8 encoding of `c` takes.
pub open spec fn utf8_width(c: char) -> nat {
    if (c as u32) < 0x80 {
        1
    } else if (c as u32) < 0x800 {
        2
    } else if (c as u32) < 0x10000 {
        3
    } else {
        4
    }
}

/// Number of bytes of the UTF-8 encoding of `s` (what `str::len` returns).
pub open spec fn utf8_len(s: Seq<char>) -> nat
    decreases s.len(),
{
    if s.len() == 0 {
        0
    } else {
        utf8_len(s.drop_last()) + utf8_width(s.last())
    }
}

/// A character whose UTF-8 encoding is a single byte.
pub open spec fn is_ascii_char(c: char) -> bool {
    (c as u32) < 0x80
}

/// Every character of `s` is ASCII.
pub open spec fn all_ascii(s: Seq<char>) -> bool {
    forall|i: int| 0 <= i < s.len() ==> is_ascii_char(#[trigger] s[i])
}

/// `pat` occurs in `s` at position `i`.
pub open spec fn occurs_at(s: Seq<char>, pat: Seq<char>, i: int) -> bool {
    0 <= i && i + pat.len() <= s.len() && s.subrange(i, i + pat.len()) == pat
}

/// `pat` occurs somewhere in `s` (what `str::find(..).is_some()` tests).
pub open spec fn contains_seq(s: Seq<char>, pat: Seq<char>) -> bool {
    exists|i: int| occurs_at(s, pat, i)
}

/// `rep` inserted before every character of `s` and once more at its end:
/// what `str::replace` does with an empty pattern.
pub open spec fn interleave(s: Seq<char>, rep: Seq<char>) -> Seq<char>
    decreases s.len(),
{
    if s.len() == 0 {
        rep
    } else {
        rep + seq![s[0]] + interleave(s.drop_first(), rep)
    }
}

/// `str::replace`: every non-overlapping occurrence of `pat`, scanning from
/// the left, replaced by `rep`.
pub open spec fn replace_all(s: Seq<char>, pat: Seq<char>, rep: Seq<char>) -> Seq<char>
    decreases s.len(),
{
    if pat.len() == 0 {
        interleave(s, rep)
    } else if s.len() < pat.len() {
        s
    } else if s.take(pat.len() as int) == pat {
        rep + replace_all(s.skip(pat.len() as int), pat, rep)
    } else {
        seq![s[0]] + replace_all(s.drop_first(), pat, rep)
    }
}

/// `s` without its first and last character.
pub open spec fn strip_ends(s: Seq<char>) -> Seq<char> {
    s.subrange(1, s.len() - 1)
}

/// Byte slicing `&s[1..s.len() - 1]` is defined exactly when `s` has at
/// least two characters and both its first and last character are one byte
/// long.
pub open spec fn strippable(s: Seq<char>) -> bool {
    &&& s.len() >= 2
    &&& is_ascii_char(s[0])
    &&& is_ascii_char(s.last())
}

/// The ASCII digit for `d < 10`.
pub open spec fn digit_char(d: nat) -> char {
    (('0' as u32) + d) as char
}

/// Decimal digits of a natural number, most significant first, no leading zeros.
pub open spec fn nat_digits(n: nat) -> Seq<char>
    decreases n,
{
    if n < 10 {
        seq![digit_char(n)]
    } else {
        nat_digits(n / 10).push(digit_char(n % 10))
    }
}

/// Decimal rendering of an integer, as `Display` writes it: a leading `-`
/// for negative numbers.
pub open spec fn decimal(n: int) -> Seq<char> {
    if n < 0 {
        seq!['-'] + nat_digits((-n) as nat)
    } else {
        nat_digits(n as nat)
    }
}

/// An optional text by its characters.
pub open spec fn opt_view(o: Option<String>) -> Option<Seq<char>> {
    match o {
        Some(s) => Some(s@),
        None => None,
    }
}

/// `String::push` (std): appends `c` to `s`, as its documentation states.
#[verifier::external_body]
pub(crate) fn push_char(s: &mut String, c: char)
    ensures
        final(s)@ == old(s)@.push(c),
{
    s.push(c);
}

/// The characters of `s`, in order.
pub fn chars_of(s: &str) -> (v: Vec<char>)
    ensures
        v@ == s@,
{
    let n = s.unicode_len();
    let mut v: Vec<char> = Vec::new();
    let mut i: usize = 0;
    while i < n
        invariant
            n == s@.len(),
            i <= n,
            v@ == s@.take(i as int),
        decreases n - i,
    {
        let c = s.get_char(i);
        v.push(c);
        i = i + 1;
        assert(v@ == s@.take(i as int));
    }
    assert(s@.take(n as int) == s@);
    v
}

/// A `String` holding the characters `v`.
pub fn string_of(v: &Vec<char>) -> (s: String)
    ensures
        s@ == v@,
{
    let mut s = String::new();
    let mut i: usize = 0;
    while i < v.len()
        invariant
            i <= v.len(),
            s@ == v@.take(i as int),
        decreases v.len() - i,
    {
        push_char(&mut s, v[i]);
        i = i + 1;
        assert(s@ == v@.take(i as int));
    }
    assert(v@.take(v.len() as int) == v@);
    s
}

/// Appends all of `src` to `dst`.
pub fn extend_chars(dst: &mut Vec<char>, src: &Vec<char>)
    ensures
        final(dst)@ == old(dst)@ + src@,
{
    let ghost start = dst@;
    let mut i: usize = 0;
    while i < src.len()
        invariant
            i <= src.len(),
            dst@ == start + src@.take(i as int),
        decreases src.len() - i,
    {
        dst.push(src[i]);
        i = i + 1;
        assert(dst@ == start + src@.take(i as int));
    }
    assert(src@.take(src.len() as int) == src@);
}

/// Concatenation of two character sequences.
pub fn concat(a: &Vec<char>, b: &Vec<char>) -> (r: Vec<char>)
    ensures
        r@ == a@ + b@,
{
    let mut r: Vec<char> = Vec::new();
    extend_chars(&mut r, a);
    assert(r@ == a@);
    extend_chars(&mut r, b);
    r
}

/// Whether two character sequences are equal.
pub fn chars_eq(a: &Vec<char>, b: &Vec<char>) -> (r: bool)
    ensures
        r == (a@ == b@),
{
    if a.len() != b.len() {
        return false;
    }
    let mut i: usize = 0;
    while i < a.len()
        invariant
            a@.len() == b@.len(),
            i <= a.len(),
            forall|j: int| 0 <= j < i ==> a@[j] == b@[j],
        decreases a.len() - i,
    {
        if a[i] != b[i] {
            return false;
        }
        i = i + 1;
    }
    assert(a@ =~= b@);
    true
}

/// The three texts joined.
pub fn concat3(a: &str, b: &str, c: &str) -> (r: String)
    ensures
        r@ == a@ + b@ + c@,
{
    let va = chars_of(a);
    let vb = chars_of(b);
    let vc = chars_of(c);
    let ab = concat(&va, &vb);
    let abc = concat(&ab, &vc);
    string_of(&abc)
}

/// UTF-8 length of a sequence extended at its end.
pub proof fn lemma_utf8_len_concat(a: Seq<char>, b: Seq<char>)
    ensures
        utf8_len(a + b) == utf8_len(a) + utf8_len(b),
    decreases b.len(),
{
    if b.len() == 0 {
        assert(a + b == a);
    } else {
        lemma_utf8_len_concat(a, b.drop_last());
        assert((a + b).drop_last() == a + b.drop_last());
    }
}

/// An ASCII sequence takes one byte per character.
pub proof fn lemma_utf8_len_ascii(s: Seq<char>)
    requires
        all_ascii(s),
    ensures
        utf8_len(s) == s.len(),
    decreases s.len(),
{
    if s.len() > 0 {
        lemma_utf8_len_ascii(s.drop_last());
    }
}

/// The byte length of a prefix is at most that of the whole sequence.
pub proof fn lemma_utf8_len_take(s: Seq<char>, i: int)
    requires
        0 <= i <= s.len(),
    ensures
        utf8_len(s.take(i)) <= utf8_len(s),
{
    assert(s == s.take(i) + s.skip(i));
    lemma_utf8_len_concat(s.take(i), s.skip(i));
}

/// The UTF-8 byte length of `v`, or `cap` when it is at least `cap`.
pub fn utf8_len_capped(v: &Vec<char>, cap: usize) -> (n: usize)
    ensures
        n == (if utf8_len(v@) < cap { utf8_len(v@) } else { cap as nat }),
{
    if cap == 0 {
        return 0;
    }
    let mut n: usize = 0;
    let mut i: usize = 0;
    assert(v@.take(0) =~= Seq::<char>::empty());
    while i < v.len()
        invariant
            i <= v.len(),
            n == utf8_len(v@.take(i as int)),
            n < cap,
        decreases v.len() - i,
    {
        let c = v[i];
        let u = c as u32;
        let w: usize = if u < 0x80 {
            1
        } else if u < 0x800 {
            2
        } else if u < 0x10000 {
            3
        } else {
            4
        };
        assert(v@.take(i + 1).drop_last() == v@.take(i as int));
        if w >= cap - n {
            proof {
                lemma_utf8_len_take(v@, i + 1);
            }
            return cap;
        }
        n = n + w;
        i = i + 1;
    }
    assert(v@.take(v.len() as int) == v@);
    n
}

/// Whether `pat` occurs in `s` at position `i`.
pub fn matches_at(s: &Vec<char>, pat: &Vec<char>, i: usize) -> (r: bool)
    ensures
        r == occurs_at(s@, pat@, i as int),
{
    if i > s.len() || pat.len() > s.len() - i {
        return false;
    }
    let mut k: usize = 0;
    while k < pat.len()
        invariant
            i + pat.len() <= s.len(),
            k <= pat.len(),
            forall|j: int| 0 <= j < k ==> s@[i + j] == pat@[j],
        decreases pat.len() - k,
    {
        if s[i + k] != pat[k] {
            assert(s@.subrange(i as int, i + pat.len())[k as int] != pat@[k as int]);
            return false;
        }
        k = k + 1;
    }
    assert(s@.subrange(i as int, i + pat.len()) == pat@);
    true
}

/// Whether `pat` occurs anywhere in `s`.
pub fn contains_chars(s: &Vec<char>, pat: &Vec<char>) -> (r: bool)
    ensures
        r == contains_seq(s@, pat@),
{
    let mut i: usize = 0;
    while i < s.len()
        invariant
            i <= s.len(),
            forall|j: int| 0 <= j < i ==> !occurs_at(s@, pat@, j),
        decreases s.len() - i,
    {
        if matches_at(s, pat, i) {
            return true;
        }
        i = i + 1;
    }
    if matches_at(s, pat, i) {
        return true;
    }
    assert forall|j: int| !occurs_at(s@, pat@, j) by {
        if 0 <= j <= i {
        }
    }
    false
}

/// `str::replace` with an empty pattern.
fn replace_empty(s: &Vec<char>, rep: &Vec<char>) -> (r: Vec<char>)
    ensures
        r@ == interleave(s@, rep@),
{
    let mut out: Vec<char> = Vec::new();
    let mut i: usize = 0;
    assert(s@.skip(0) == s@);
    while i < s.len()
        invariant
            i <= s.len(),
            interleave(s@, rep@) == out@ + interleave(s@.skip(i as int), rep@),
        decreases s.len() - i,
    {
        let ghost before = out@;
        extend_chars(&mut out, rep);
        out.push(s[i]);
        assert(s@.skip(i as int).drop_first() == s@.skip(i + 1));
        assert(out@ == before + rep@ + seq![s@[i as int]]);
        i = i + 1;
    }
    assert(s@.skip(i as int).len() == 0);
    extend_chars(&mut out, rep);
    out
}

/// `str::replace` on character sequences.
pub fn replace_chars(s: &Vec<char>, pat: &Vec<char>, rep: &Vec<char>) -> (r: Vec<char>)
    ensures
        r@ == replace_all(s@, pat@, rep@),
{
    if pat.len() == 0 {
        return replace_empty(s, rep);
    }
    let mut out: Vec<char> = Vec::new();
    let mut i: usize = 0;
    assert(s@.skip(0) == s@);
    while i < s.len()
        invariant
            pat@.len() > 0,
            i <= s.len(),
            replace_all(s@, pat@, rep@) == out@ + replace_all(s@.skip(i as int), pat@, rep@),
        decreases s.len() - i,
    {
        let ghost rest = s@.skip(i as int);
        let ghost before = out@;
        if matches_at(s, pat, i) {
            assert(rest.take(pat@.len() as int) == pat@);
            assert(rest.skip(pat@.len() as int) == s@.skip(i + pat@.len()));
            extend_chars(&mut out, rep);
            i = i + pat.len();
        } else {
            proof {
                if rest.len() >= pat@.len() {
                    if rest.take(pat@.len() as int) == pat@ {
                        assert(s@.subrange(i as int, i + pat@.len()) == rest.take(
                            pat@.len() as int,
                        ));
                    }
                } else {
                    assert(rest.drop_first().len() < pat@.len());
                    assert(rest == seq![rest[0]] + rest.drop_first());
                }
            }
            assert(rest.drop_first() == s@.skip(i + 1));
            out.push(s[i]);
            assert(out@ == before + seq![rest[0]]);
            i = i + 1;
        }
    }
    assert(s@.skip(i as int).len() == 0);
    out
}

/// `&s[1..s.len() - 1]`: the text without its first and last character
/// (both one byte long, so the byte range falls on character boundaries).
pub fn strip_ends_chars(s: &Vec<char>) -> (r: Vec<char>)
    requires
        strippable(s@),
    ensures
        r@ == strip_ends(s@),
{
    let mut r: Vec<char> = Vec::new();
    let mut i: usize = 1;
    while i < s.len() - 1
        invariant
            s@.len() >= 2,
            1 <= i <= s.len() - 1,
            r@ == s@.subrange(1, i as int),
        decreases s.len() - 1 - i,
    {
        r.push(s[i]);
        i = i + 1;
        assert(r@ == s@.subrange(1, i as int));
    }
    r
}

/// Whether `strippable` holds: `&t[1..t.len() - 1]` can be taken.
pub fn can_strip(t: &str) -> (r: bool)
    ensures
        r == strippable(t@),
{
    let c = chars_of(t);
    c.len() >= 2 && (c[0] as u32) < 0x80 && (c[c.len() - 1] as u32) < 0x80
}

/// Decimal digits of `n`.
pub fn nat_to_chars(n: u64) -> (r: Vec<char>)
    ensures
        r@ == nat_digits(n as nat),
    decreases n,
{
    if n < 10 {
        let c = char_of_digit(n);
        vec![c]
    } else {
        let mut r = nat_to_chars(n / 10);
        let c = char_of_digit(n % 10);
        r.push(c);
        r
    }
}

/// The ASCII digit for `d`.
pub fn char_of_digit(d: u64) -> (c: char)
    requires
        d < 10,
    ensures
        c == digit_char(d as nat),
{
    if d == 0 {
        '0'
    } else if d == 1 {
        '1'
    } else if d == 2 {
        '2'
    } else if d == 3 {
        '3'
    } else if d == 4 {
        '4'
    } else if d == 5 {
        '5'
    } else if d == 6 {
        '6'
    } else if d == 7 {
        '7'
    } else if d == 8 {
        '8'
    } else {
        '9'
    }
}

/// Decimal rendering of `n` (what `format!("{}", n)` writes).
pub fn decimal_chars(n: i64) -> (r: Vec<char>)
    ensures
        r@ == decimal(n as int),
{
    if n < 0 {
        let m: u64 = if n == i64::MIN {
            9223372036854775808u64
        } else {
            (-n) as u64
        };
        let digits = nat_to_chars(m);
        let sign = vec!['-'];
        concat(&sign, &digits)
    } else {
        nat_to_chars(n as u64)
    }
}

/// Decimal rendering of `n` as a `String`.
pub fn decimal_string(n: i64) -> (s: String)
    ensures
        s@ == decimal(n as int),
{
    let v = decimal_chars(n);
    string_of(&v)
}

/// The decimal digits of a natural number are all ASCII digits.
pub proof fn lemma_nat_digits_are_digits(n: nat)
    ensures
        forall|i: int|
            0 <= i < nat_digits(n).len() ==> '0' <= #[trigger] nat_digits(n)[i] && nat_digits(n)[i]
                <= '9',
    decreases n,
{
    if n >= 10 {
        lemma_nat_digits_are_digits(n / 10);
        assert forall|i: int| 0 <= i < nat_digits(n).len() implies '0' <= #[trigger] nat_digits(
            n,
        )[i] && nat_digits(n)[i] <= '9' by {
            if i < nat_digits(n / 10).len() {
                assert(nat_digits(n)[i] == nat_digits(n / 10)[i]);
            }
        }
    }
}

/// The number that a text of decimal digits reads as, most significant
/// digit first (each character counted by its distance from `'0'`).
pub open spec fn digits_value(s: Seq<char>) -> int
    decreases s.len(),
{
    if s.len() == 0 {
        0
    } else {
        digits_value(s.drop_last()) * 10 + (s.last() as int - '0' as int)
    }
}

/// Reading back the decimal digits of `n` gives `n`, and they have no
/// leading zero.
pub proof fn lemma_nat_digits_read_back(n: nat)
    ensures
        digits_value(nat_digits(n)) == n,
        nat_digits(n).len() >= 1,
        nat_digits(n).len() > 1 <==> n >= 10,
        nat_digits(n).len() > 1 ==> nat_digits(n)[0] != '0',
    decreases n,
{
    if n < 10 {
        let d = nat_digits(n);
        assert(d == seq![digit_char(n)]);
        assert(d.len() == 1);
        assert(digit_char(n) as int == '0' as int + n);
        assert(d.drop_last() =~= Seq::<char>::empty());
        assert(digits_value(d.drop_last()) == 0);
        assert(digits_value(d) == digits_value(d.drop_last()) * 10 + (d.last() as int - '0' as int));
    } else {
        let m = n / 10;
        lemma_nat_digits_read_back(m);
        lemma_fundamental_div_mod(n as int, 10);
        let d = nat_digits(n);
        assert(d.drop_last() == nat_digits(m));
        assert(d.last() == digit_char(n % 10));
        assert(digit_char(n % 10) as int == '0' as int + n % 10);
        assert(digits_value(d) == digits_value(d.drop_last()) * 10 + (d.last() as int - '0' as int));
        assert(digits_value(d) == m * 10 + n % 10);
        assert(d[0] == nat_digits(m)[0]);
        if m < 10 {
            assert(m >= 1);
            assert(nat_digits(m)[0] == digit_char(m));
            assert(digit_char(m) as int == '0' as int + m);
        }
    }
}

/// A decimal rendering consists only of digits, after an optional sign.
pub proof fn lemma_nat_digits_ascii(n: nat)
    ensures
        all_ascii(nat_digits(n)),
        nat_digits(n).len() >= 1,
    decreases n,
{
    if n >= 10 {
        lemma_nat_digits_ascii(n / 10);
    }
}

/// Replacing a pattern whose first character does not occur in `s` leaves
/// `s` as it is.
pub proof fn lemma_replace_absent(s: Seq<char>, pat: Seq<char>, rep: Seq<char>)
    requires
        pat.len() > 0,
        !s.contains(pat[0]),
    ensures
        replace_all(s, pat, rep) == s,
    decreases s.len(),
{
    if s.len() >= pat.len() {
        assert(s.take(pat.len() as int)[0] == s[0]);
        assert(s.take(pat.len() as int) != pat) by {
            assert(s.contains(s[0]));
        }
        assert forall|c: char| s.drop_first().contains(c) implies s.contains(c) by {
            let i = choose|i: int| 0 <= i < s.drop_first().len() && s.drop_first()[i] == c;
            assert(s[i + 1] == c);
        }
        lemma_replace_absent(s.drop_first(), pat, rep);
        assert(s == seq![s[0]] + s.drop_first());
    }
}

} // verus!
