//! Laws on text: numbers are read back from their text, and what trimming, padding,
//! stripping and ordering leave of a string.

use vstd::prelude::*;

use crate::text;

verus! {

/// The value of a digit of a number system with a base of at most sixteen.
pub open spec fn digit_value(c: char) -> int {
    if '0' <= c <= '9' {
        c as int - '0' as int
    } else {
        c as int - 'a' as int + 10
    }
}

/// The number that digits stand for, read from the left.
pub open spec fn number_value(s: Seq<char>, base: int) -> int
    decreases s.len(),
{
    if s.len() == 0 {
        0
    } else {
        number_value(s.drop_last(), base) * base + digit_value(s.last())
    }
}

/// Whether every character is a digit from 0 to 9 or from a to f.
pub open spec fn all_digits(s: Seq<char>) -> bool {
    forall|i: int| 0 <= i < s.len() ==> {
        let c = #[trigger] s[i];
        '0' <= c <= '9' || 'a' <= c <= 'f'
    }
}

/// Whether every character is a digit from 0 to 9.
pub open spec fn all_decimal(s: Seq<char>) -> bool {
    forall|i: int| 0 <= i < s.len() ==> '0' <= #[trigger] s[i] <= '9'
}

proof fn lemma_digit(d: nat)
    requires
        d < 16,
    ensures
        digit_value(text::digit_char(d)) == d,
        '0' <= text::digit_char(d) <= '9' || 'a' <= text::digit_char(d) <= 'f',
        d < 10 ==> '0' <= text::digit_char(d) <= '9',
{
}

/// A number is read back from its digits: they are digits, they stand for the number,
/// and the first is no zero unless it is the only one.
pub proof fn law_number_is_read_back(n: nat, base: nat)
    requires
        2 <= base <= 16,
    ensures
        text::radix_text(n, base).len() > 0,
        all_digits(text::radix_text(n, base)),
        base <= 10 ==> all_decimal(text::radix_text(n, base)),
        number_value(text::radix_text(n, base), base as int) == n,
        n > 0 ==> text::radix_text(n, base)[0] != '0',
        n == 0 ==> text::radix_text(n, base) == seq!['0'],
    decreases n,
{
    let t = text::radix_text(n, base);
    if n < base {
        lemma_digit(n);
        assert(t.drop_last() =~= seq![]);
        assert(number_value(t.drop_last(), base as int) == 0);
    } else {
        assert(n / base < n && n / base > 0 && n % base < base && n == n / base * base + n % base)
            by (nonlinear_arith)
            requires
                n >= base,
                base >= 2,
        ;
        law_number_is_read_back(n / base, base);
        lemma_digit(n % base);
        assert(t.drop_last() =~= text::radix_text(n / base, base));
    }
}

/// A number is read back from its decimal text.
pub proof fn law_decimal_is_read_back(n: nat)
    ensures
        text::decimal_text(n).len() > 0,
        all_decimal(text::decimal_text(n)),
        number_value(text::decimal_text(n), 10) == n,
        n > 0 ==> text::decimal_text(n)[0] != '0',
        n == 0 ==> text::decimal_text(n) == seq!['0'],
{
    law_number_is_read_back(n, 10);
}

/// Different numbers have different texts.
pub proof fn law_decimal_tells_numbers_apart(a: nat, b: nat)
    requires
        text::decimal_text(a) == text::decimal_text(b),
    ensures
        a == b,
{
    law_decimal_is_read_back(a);
    law_decimal_is_read_back(b);
}

/// Every byte is read back from its two hexadecimal digits.
pub proof fn law_hex_is_read_back(bytes: Seq<u8>)
    ensures
        text::hex_text(bytes).len() == 2 * bytes.len(),
        all_digits(text::hex_text(bytes)),
        forall|i: int|
            0 <= i < bytes.len() ==> #[trigger] bytes[i] == digit_value(
                text::hex_text(bytes)[2 * i],
            ) * 16 + digit_value(text::hex_text(bytes)[2 * i + 1]),
{
    let t = text::hex_text(bytes);
    assert forall|i: int| 0 <= i < bytes.len() implies #[trigger] bytes[i] == digit_value(
        t[2 * i],
    ) * 16 + digit_value(t[2 * i + 1]) by {
        lemma_digit((bytes[i] / 16) as nat);
        lemma_digit((bytes[i] % 16) as nat);
        assert(t[2 * i] == text::digit_char((bytes[i] / 16) as nat));
        assert(t[2 * i + 1] == text::digit_char((bytes[i] % 16) as nat));
    }
    assert forall|i: int| 0 <= i < t.len() implies {
        let c = #[trigger] t[i];
        '0' <= c <= '9' || 'a' <= c <= 'f'
    } by {
        lemma_digit((bytes[i / 2] / 16) as nat);
        lemma_digit((bytes[i / 2] % 16) as nat);
    }
}

/// Different byte strings have different hexadecimal texts.
pub proof fn law_hex_tells_bytes_apart(a: Seq<u8>, b: Seq<u8>)
    requires
        text::hex_text(a) == text::hex_text(b),
    ensures
        a == b,
{
    law_hex_is_read_back(a);
    law_hex_is_read_back(b);
    assert(a =~= b);
}

// --- Parts ------------------------------------------------------------------

/// Whether a character occurs in a string.
pub open spec fn occurs(c: char, s: Seq<char>) -> bool {
    exists|i: int| 0 <= i < s.len() && #[trigger] s[i] == c
}

/// What follows the last occurrence of a character, or all where it does not occur.
pub open spec fn behind_last(s: Seq<char>, c: char) -> Seq<char>
    decreases s.len(),
{
    if s.len() == 0 || s.last() == c {
        seq![]
    } else {
        behind_last(s.drop_last(), c).push(s.last())
    }
}

/// What stands before the last occurrence of a character.
pub open spec fn before_last(s: Seq<char>, c: char) -> Seq<char> {
    s.take(s.len() - behind_last(s, c).len() - 1)
}

/// What follows a separator that does not occur again is what follows the last one.
pub proof fn lemma_behind_last(a: Seq<char>, c: char, b: Seq<char>)
    requires
        !occurs(c, b),
    ensures
        behind_last(a + seq![c] + b, c) == b,
        before_last(a + seq![c] + b, c) == a,
    decreases b.len(),
{
    let s = a + seq![c] + b;
    if b.len() == 0 {
        assert(s.last() == c);
        assert(b =~= seq![]);
    } else {
        assert(s.drop_last() =~= a + seq![c] + b.drop_last());
        assert(b[b.len() - 1] != c);
        assert(!occurs(c, b.drop_last())) by {
            if occurs(c, b.drop_last()) {
                let i = choose|i: int| 0 <= i < b.drop_last().len() && b.drop_last()[i] == c;
                assert(b[i] == c);
            }
        }
        lemma_behind_last(a, c, b.drop_last());
        assert(b.drop_last().push(b.last()) =~= b);
    }
    assert(behind_last(s, c) == b);
    assert(s.take(s.len() - b.len() - 1) =~= a);
}

proof fn lemma_behind_last_none(s: Seq<char>, c: char)
    requires
        !occurs(c, s),
    ensures
        behind_last(s, c) == s,
    decreases s.len(),
{
    if s.len() > 0 {
        assert(s[s.len() - 1] != c);
        assert(!occurs(c, s.drop_last())) by {
            if occurs(c, s.drop_last()) {
                let i = choose|i: int| 0 <= i < s.drop_last().len() && s.drop_last()[i] == c;
                assert(s[i] == c);
            }
        }
        lemma_behind_last_none(s.drop_last(), c);
        assert(s.drop_last().push(s.last()) =~= s);
    } else {
        assert(s =~= seq![]);
    }
}

/// The numbers that stand between separators.
pub open spec fn numbers_between(s: Seq<char>, c: char, base: int) -> Seq<int>
    decreases s.len(),
{
    if occurs(c, s) && before_last(s, c).len() < s.len() {
        numbers_between(before_last(s, c), c, base).push(number_value(behind_last(s, c), base))
    } else {
        seq![number_value(s, base)]
    }
}

/// A number without separators is the only one.
pub proof fn lemma_one_number(s: Seq<char>, c: char, base: int)
    requires
        !occurs(c, s),
    ensures
        numbers_between(s, c, base) == seq![number_value(s, base)],
{
}

/// The number behind the last separator comes last.
pub proof fn lemma_last_number(a: Seq<char>, c: char, b: Seq<char>, base: int)
    requires
        !occurs(c, b),
    ensures
        numbers_between(a + seq![c] + b, c, base) == numbers_between(a, c, base).push(
            number_value(b, base),
        ),
{
    let s = a + seq![c] + b;
    lemma_behind_last(a, c, b);
    assert(s[a.len() as int] == c);
    assert(occurs(c, s));
}

/// No digit is a separator.
pub proof fn lemma_digits_hold_no(c: char, s: Seq<char>)
    requires
        all_digits(s),
        c == '.' || c == ':' || c == 'x' || c == ' ',
    ensures
        !occurs(c, s),
{
    if occurs(c, s) {
        let i = choose|i: int| 0 <= i < s.len() && s[i] == c;
        assert(s[i] == c);
    }
}

// --- Trimming, padding, stripping -------------------------------------------

/// The spaces among the characters of ASCII are the blank and those from tab to
/// carriage return.
pub proof fn law_spaces_of_ascii(c: char)
    requires
        c as u32 <= 0x7f,
    ensures
        text::is_space(c) <==> c == ' ' || c == '\t' || c == '\n' || c as u32 == 0x0b || c as u32
            == 0x0c || c == '\r',
{
}

/// Beyond ASCII the spaces are the next line, the no-break space, the Ogham space, the
/// spaces of typography, the two separators and the ideographic space.
pub proof fn law_spaces_beyond_ascii(c: char)
    requires
        c as u32 > 0x7f,
    ensures
        text::is_space(c) <==> c == '\u{85}' || c == '\u{a0}' || c == '\u{1680}' || '\u{2000}' <= c
            <= '\u{200a}' || c == '\u{2028}' || c == '\u{2029}' || c == '\u{202f}' || c
            == '\u{205f}' || c == '\u{3000}',
{
}

/// No letter, digit or sign that stands in a key is a space.
pub proof fn law_keys_hold_no_spaces(c: char)
    requires
        '!' <= c <= '~',
    ensures
        !text::is_space(c),
{
}

/// Whether all characters are spaces.
pub open spec fn all_spaces(s: Seq<char>) -> bool {
    forall|i: int| 0 <= i < s.len() ==> text::is_space(#[trigger] s[i])
}

proof fn lemma_trim_end(s: Seq<char>)
    ensures
        exists|b: Seq<char>| all_spaces(b) && s == #[trigger] (text::trim_end(s) + b),
        text::trim_end(s).len() > 0 ==> !text::is_space(text::trim_end(s).last()),
    decreases s.len(),
{
    let t = text::trim_end(s);
    if s.len() > 0 && text::is_space(s.last()) {
        let d = s.drop_last();
        lemma_trim_end(d);
        let b = choose|b: Seq<char>| all_spaces(b) && d == #[trigger] (text::trim_end(d) + b);
        assert(d == t + b);
        assert(s =~= d.push(s.last()));
        let c = b.push(s.last());
        assert(all_spaces(c));
        assert(s =~= t + c);
    } else {
        let b = Seq::<char>::empty();
        assert(all_spaces(b));
        assert(s =~= t + b);
    }
}

proof fn lemma_trim_start(s: Seq<char>)
    ensures
        exists|a: Seq<char>| all_spaces(a) && s == #[trigger] (a + text::trim_start(s)),
        text::trim_start(s).len() > 0 ==> !text::is_space(text::trim_start(s)[0]),
        text::trim_start(s).len() > 0 ==> text::trim_start(s).last() == s.last(),
    decreases s.len(),
{
    let t = text::trim_start(s);
    if s.len() > 0 && text::is_space(s[0]) {
        let d = s.drop_first();
        lemma_trim_start(d);
        let a = choose|a: Seq<char>| all_spaces(a) && d == #[trigger] (a + text::trim_start(d));
        assert(d == a + t);
        assert(s =~= seq![s[0]] + d);
        let c = seq![s[0]] + a;
        assert(all_spaces(c));
        assert(s =~= c + t);
    } else {
        let a = Seq::<char>::empty();
        assert(all_spaces(a));
        assert(s =~= a + t);
    }
}

/// Trimming takes spaces from both ends, all of them, and nothing else.
pub proof fn law_trimming_takes_spaces_only(s: Seq<char>)
    ensures
        exists|a: Seq<char>, b: Seq<char>|
            all_spaces(a) && all_spaces(b) && s == #[trigger] (a + text::trimmed(s) + b),
        text::trimmed(s).len() > 0 ==> !text::is_space(text::trimmed(s)[0]) && !text::is_space(
            text::trimmed(s).last(),
        ),
{
    let e = text::trim_end(s);
    let t = text::trimmed(s);
    lemma_trim_end(s);
    lemma_trim_start(e);
    let b = choose|b: Seq<char>| all_spaces(b) && s == #[trigger] (e + b);
    let a = choose|a: Seq<char>| all_spaces(a) && e == #[trigger] (a + t);
    assert(s =~= a + t + b);
}

/// A text without spaces at its ends is not changed by trimming.
pub proof fn law_trimmed_text_stays(s: Seq<char>)
    requires
        s.len() > 0 ==> !text::is_space(s[0]) && !text::is_space(s.last()),
    ensures
        text::trimmed(s) == s,
{
}

/// However many slashes stand behind a text, they are taken away, and the text is left.
pub proof fn law_slashes_do_not_matter(base: Seq<char>, slashes: Seq<char>)
    requires
        base.len() > 0 ==> base.last() != '/',
        forall|i: int| 0 <= i < slashes.len() ==> slashes[i] == '/',
    ensures
        text::no_trailing_slash(base + slashes) == base,
    decreases slashes.len(),
{
    let s = base + slashes;
    if slashes.len() == 0 {
        assert(s =~= base);
    } else {
        assert(s.last() == slashes[slashes.len() - 1]);
        assert(s.drop_last() =~= base + slashes.drop_last());
        law_slashes_do_not_matter(base, slashes.drop_last());
    }
}

/// Slashes are taken from the end, all of them, and nothing else.
pub proof fn law_trailing_slashes_are_taken(s: Seq<char>)
    ensures
        exists|b: Seq<char>|
            (forall|i: int| 0 <= i < b.len() ==> b[i] == '/') && s == #[trigger] (
            text::no_trailing_slash(s) + b),
        text::no_trailing_slash(s).len() > 0 ==> text::no_trailing_slash(s).last() != '/',
    decreases s.len(),
{
    let t = text::no_trailing_slash(s);
    if s.len() > 0 && s.last() == '/' {
        let d = s.drop_last();
        law_trailing_slashes_are_taken(d);
        let b = choose|b: Seq<char>|
            (forall|i: int| 0 <= i < b.len() ==> b[i] == '/') && d == #[trigger] (
            text::no_trailing_slash(d) + b);
        assert(d == t + b);
        assert(s =~= d.push('/'));
        let c = b.push('/');
        assert(s =~= t + c);
    } else {
        let b = Seq::<char>::empty();
        assert(s =~= t + b);
    }
}

/// Padding keeps a text and adds blanks behind it, up to the width and no further.
pub proof fn law_padding_adds_blanks(s: Seq<char>, width: nat)
    ensures
        text::padded(s, width).take(s.len() as int) == s,
        text::padded(s, width).len() == if s.len() < width {
            width
        } else {
            s.len()
        },
        forall|i: int|
            s.len() <= i < text::padded(s, width).len() ==> #[trigger] text::padded(s, width)[i]
                == ' ',
{
    assert(text::padded(s, width).take(s.len() as int) =~= s);
}

/// What follows a prefix is what is left of a text that starts with it, and only such
/// a text has it.
pub proof fn law_stripping_gives_the_rest(prefix: Seq<char>, rest: Seq<char>, other: Seq<char>)
    ensures
        text::stripped(prefix + rest, prefix) == Some(rest),
        text::stripped(other, prefix) matches Some(t) ==> other == prefix + t,
        text::stripped(other, prefix) is None ==> other != prefix + rest,
{
    assert((prefix + rest).skip(prefix.len() as int) =~= rest);
    if let Some(t) = text::stripped(other, prefix) {
        assert(other =~= prefix + t);
    }
}

proof fn lemma_after_break(s: Seq<char>)
    ensures
        text::after_last_break(s) == behind_last(s, '\n'),
    decreases s.len(),
{
    if s.len() > 0 && s.last() != '\n' {
        lemma_after_break(s.drop_last());
    }
}

/// The last line is what stands behind the last line break, whether or not a line
/// break ends it.
pub proof fn law_last_line_is_the_last(before: Seq<char>, line: Seq<char>)
    requires
        !occurs('\n', line),
    ensures
        line.len() > 0 ==> text::last_line(before + seq!['\n'] + line) == line,
        text::last_line(before + seq!['\n'] + line + seq!['\n']) == line,
        text::last_line(line) == line,
        text::last_line(line + seq!['\n']) == line,
{
    let s = before + seq!['\n'] + line;
    lemma_behind_last(before, '\n', line);
    lemma_behind_last_none(line, '\n');
    lemma_after_break(s);
    lemma_after_break(line);
    assert((s + seq!['\n']).drop_last() =~= s);
    assert((line + seq!['\n']).drop_last() =~= line);
    if line.len() > 0 {
        assert(s.last() == line.last());
        assert(line[line.len() - 1] != '\n');
    }
}

/// Strings are ordered at the first character in which they differ, and a string comes
/// before what it is the start of.
pub proof fn law_first_difference_orders(
    same: Seq<char>,
    x: char,
    a: Seq<char>,
    y: char,
    b: Seq<char>,
)
    ensures
        x != y ==> text::precedes(same + seq![x] + a, same + seq![y] + b) == (x < y),
        text::precedes(same, same + seq![x] + a),
        !text::precedes(same + seq![x] + a, same),
    decreases same.len(),
{
    let p = same + seq![x] + a;
    let q = same + seq![y] + b;
    if same.len() == 0 {
        assert(p[0] == x && q[0] == y);
    } else {
        let rest = same.skip(1);
        law_first_difference_orders(rest, x, a, y, b);
        assert(p.skip(1) =~= rest + seq![x] + a);
        assert(q.skip(1) =~= rest + seq![y] + b);
        assert(p[0] == same[0] && q[0] == same[0]);
    }
}

} // verus!
