//! Text as sequences of characters.

use vstd::prelude::*;

verus! {

/// Whether `part` occurs somewhere in `text`.
pub open spec fn occurs_in(part: Seq<char>, text: Seq<char>) -> bool {
    exists|at: int| #[trigger] occurs_at(part, text, at)
}

/// Whether `part` occurs in `text` from the position `at` on.
pub open spec fn occurs_at(part: Seq<char>, text: Seq<char>, at: int) -> bool {
    &&& 0 <= at <= text.len() - part.len()
    &&& text.subrange(at, at + part.len()) == part
}

/// A character with an ASCII letter in lower case raised to upper case.
pub open spec fn raised(c: char) -> char {
    if 'a' <= c && c <= 'z' {
        (c as u8 - 32) as char
    } else {
        c
    }
}

/// A text with its ASCII letters raised to upper case.
pub open spec fn upper(text: Seq<char>) -> Seq<char> {
    text.map_values(|c: char| raised(c))
}

/// Whether a character is one of the ASCII letters and digits.
pub open spec fn is_alphanumeric(c: char) -> bool {
    ('a' <= c && c <= 'z') || ('A' <= c && c <= 'Z') || ('0' <= c && c <= '9')
}

/// The character of a decimal digit.
pub open spec fn digit(d: int) -> char {
    (d as u8 + '0' as u8) as char
}

/// The decimal digits of a number, without leading zeros.
pub open spec fn digits(n: nat) -> Seq<char>
    decreases n,
{
    if n < 10 {
        seq![digit(n as int)]
    } else {
        digits(n / 10).push(digit((n % 10) as int))
    }
}

/// An integer in decimal, with a sign where it is negative.
pub open spec fn decimal(n: int) -> Seq<char> {
    if n < 0 {
        seq!['-'] + digits((-n) as nat)
    } else {
        digits(n as nat)
    }
}

/// Whether a character is one of those that Unicode calls `White_Space`.
pub open spec fn is_white(c: char) -> bool {
    ||| '\u{9}' <= c && c <= '\u{d}'
    ||| c == '\u{20}' || c == '\u{85}' || c == '\u{a0}' || c == '\u{1680}'
    ||| '\u{2000}' <= c && c <= '\u{200a}'
    ||| c == '\u{2028}' || c == '\u{2029}' || c == '\u{202f}' || c == '\u{205f}'
    ||| c == '\u{3000}'
}

/// Whether a text is made of whitespace alone.
pub open spec fn is_blank(text: Seq<char>) -> bool {
    forall|i: int| 0 <= i < text.len() ==> is_white(#[trigger] text[i])
}

/// `String::push` puts a character behind a text.
pub assume_specification[ String::push ](s: &mut String, c: char)
    ensures
        final(s)@ == old(s)@.push(c),
;

/// `char::is_whitespace` tells whether a character has the Unicode property `White_Space`.
pub assume_specification[ char::is_whitespace ](c: char) -> (r: bool)
    ensures
        r == is_white(c),
;

/// The characters of a text.
pub fn to_chars(text: &str) -> (chars: Vec<char>)
    ensures
        chars@ == text@,
{
    let mut chars: Vec<char> = Vec::new();
    for c in iter: text.chars()
        invariant
            iter.seq() == text@,
            chars@ == text@.take(iter.index() as int),
    {
        chars.push(c);
        assert(text@.take(iter.index() + 1) == text@.take(iter.index() as int).push(c));
    }
    assert(text@.take(text@.len() as int) == text@);
    chars
}

/// Whether `part` stands in `chars` from the position `at` on.
fn stands_at(part: &Vec<char>, chars: &Vec<char>, at: usize) -> (r: bool)
    requires
        at + part.len() <= chars.len(),
    ensures
        r == occurs_at(part@, chars@, at as int),
{
    for i in 0..part.len()
        invariant
            at + part.len() <= chars.len(),
            forall|j: int| 0 <= j < i ==> chars[at + j] == part[j],
    {
        if chars[at + i] != part[i] {
            assert(chars@.subrange(at as int, at + part.len())[i as int] != part@[i as int]);
            return false;
        }
    }
    assert(chars@.subrange(at as int, at + part.len()) =~= part@);
    true
}

/// Whether `text` begins with `prefix`.
pub fn starts_with(text: &str, prefix: &str) -> (r: bool)
    ensures
        r == prefix@.is_prefix_of(text@),
{
    let chars: Vec<char> = to_chars(text);
    let part: Vec<char> = to_chars(prefix);
    if part.len() <= chars.len() {
        stands_at(&part, &chars, 0)
    } else {
        false
    }
}

/// Whether `part` occurs in `text`.
pub fn contains(text: &str, part: &str) -> (r: bool)
    ensures
        r == occurs_in(part@, text@),
{
    let chars: Vec<char> = to_chars(text);
    let wanted: Vec<char> = to_chars(part);
    if wanted.len() > chars.len() {
        return false;
    }
    let last: usize = chars.len() - wanted.len();
    for at in 0..last
        invariant
            chars@ == text@,
            wanted@ == part@,
            last == chars.len() - wanted.len(),
            forall|i: int| 0 <= i < at ==> !occurs_at(part@, text@, i),
    {
        if stands_at(&wanted, &chars, at) {
            assert(occurs_at(part@, text@, at as int));
            return true;
        }
    }
    let r: bool = stands_at(&wanted, &chars, last);
    assert(r == occurs_at(part@, text@, last as int));
    r
}

/// A text with its ASCII letters raised to upper case.
pub fn to_upper(text: &str) -> (r: String)
    ensures
        r@ == upper(text@),
        r@.len() == text@.len(),
        forall|i: int|
            0 <= i < text@.len() ==> if 'a' <= text@[i] && text@[i] <= 'z' {
                (#[trigger] r@[i]) as int == text@[i] as int - 32
            } else {
                r@[i] == text@[i]
            },
{
    let mut r: String = String::new();
    for c in iter: text.chars()
        invariant
            iter.seq() == text@,
            r@ == upper(text@.take(iter.index() as int)),
    {
        let up: char = if 'a' <= c && c <= 'z' {
            (c as u8 - 32) as char
        } else {
            c
        };
        r.push(up);
        assert(text@.take(iter.index() + 1) == text@.take(iter.index() as int).push(c));
        assert(upper(text@.take(iter.index() + 1)) =~= upper(
            text@.take(iter.index() as int),
        ).push(up));
    }
    assert(text@.take(text@.len() as int) == text@);
    r
}

/// Whether a text is made of whitespace alone.
pub fn blank(text: &str) -> (r: bool)
    ensures
        r == is_blank(text@),
        r == (forall|i: int| 0 <= i < text@.len() ==> is_white(#[trigger] text@[i])),
{
    for c in iter: text.chars()
        invariant
            iter.seq() == text@,
            forall|i: int| 0 <= i < iter.index() ==> is_white(#[trigger] text@[i]),
    {
        if !c.is_whitespace() {
            assert(text@[iter.index() as int] == c);
            return false;
        }
    }
    true
}

/// A number in decimal.
pub fn unsigned(n: u128) -> (r: String)
    ensures
        r@ == digits(n as nat),
    decreases n,
{
    let mut r: String = if n < 10 {
        String::new()
    } else {
        unsigned(n / 10)
    };
    r.push(((n % 10) as u8 + '0' as u8) as char);
    r
}

/// An integer in decimal.
pub fn signed(n: i64) -> (r: String)
    ensures
        r@ == decimal(n as int),
{
    if n < 0 {
        let mut r: String = String::new();
        r.push('-');
        r.append(unsigned((-(n as i128)) as u128).as_str());
        r
    } else {
        unsigned(n as u128)
    }
}

/// A part occurs in a text exactly where the text holds it from some position on.
pub proof fn law_parts_stand_in_the_text(part: Seq<char>, text: Seq<char>)
    ensures
        occurs_in(part, text) <==> exists|at: int|
            0 <= at && at + part.len() <= text.len() && #[trigger] text.subrange(
                at,
                at + part.len(),
            ) == part,
{
    if occurs_in(part, text) {
        let at = choose|at: int| #[trigger] occurs_at(part, text, at);
        assert(text.subrange(at, at + part.len()) == part);
    }
    if exists|at: int|
        0 <= at && at + part.len() <= text.len() && #[trigger] text.subrange(at, at + part.len())
            == part {
        let at = choose|at: int|
            0 <= at && at + part.len() <= text.len() && #[trigger] text.subrange(
                at,
                at + part.len(),
            ) == part;
        assert(occurs_at(part, text, at));
    }
}

/// Raising a text to upper case keeps its length, lowers the code of each ASCII letter in lower
/// case by 32, and changes nothing else.
pub proof fn law_upper_changes_letters_alone(text: Seq<char>, i: int)
    requires
        0 <= i < text.len(),
    ensures
        upper(text).len() == text.len(),
        if 'a' <= text[i] && text[i] <= 'z' {
            upper(text)[i] as int == text[i] as int - 32
        } else {
            upper(text)[i] == text[i]
        },
{
}

/// The last digit of a number is what is left of it on division by ten, and the digits before are
/// those of the quotient; a number below ten has one digit, so that no number has leading zeros.
pub proof fn law_digits_tell_the_number(n: nat)
    ensures
        digits(n).len() > 0,
        digits(n).last() as int == '0' as int + n % 10,
        n < 10 ==> digits(n).len() == 1,
        n >= 10 ==> digits(n).drop_last() == digits(n / 10),
{
    if n >= 10 {
        assert(digits(n).drop_last() =~= digits(n / 10));
    }
}

/// A negative integer is told by a sign and the digits of its amount, any other by its digits.
pub proof fn law_sign_comes_first(n: nat)
    ensures
        decimal(n as int) == digits(n),
        n > 0 ==> decimal(-(n as int)).len() == digits(n).len() + 1,
        n > 0 ==> decimal(-(n as int))[0] == '-',
        n > 0 ==> decimal(-(n as int)).skip(1) == digits(n),
{
    if n > 0 {
        assert(decimal(-(n as int)).skip(1) =~= digits(n));
    }
}

/// A text is blank exactly where the number of each of its characters is one of those that Unicode
/// lists as whitespace.
pub proof fn law_blank_texts(text: Seq<char>)
    ensures
        is_blank(text) <==> forall|i: int|
            0 <= i < text.len() ==> {
                let n = (#[trigger] text[i]) as int;
                9 <= n <= 13 || n == 32 || n == 133 || n == 160 || n == 5760 || 8192 <= n <= 8202
                    || n == 8232 || n == 8233 || n == 8239 || n == 8287 || n == 12288
            },
{
    assert forall|i: int| 0 <= i < text.len() implies is_white(#[trigger] text[i]) == {
        let n = text[i] as int;
        9 <= n <= 13 || n == 32 || n == 133 || n == 160 || n == 5760 || 8192 <= n <= 8202 || n
            == 8232 || n == 8233 || n == 8239 || n == 8287 || n == 12288
    } by {}
    if !is_blank(text) {
        let i = choose|i: int| 0 <= i < text.len() && !is_white(#[trigger] text[i]);
        assert(!is_white(text[i]));
    }
}

} // verus!
