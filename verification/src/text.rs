//! Text operations: numbers as text, concatenation, trimming, comparison.

use vstd::prelude::*;
use vstd::utf8::*;

verus! {

/// `String::push` appends one character.
pub assume_specification[ String::push ](s: &mut String, c: char)
    ensures
        final(s)@ == old(s)@.push(c),
;

/// The digit `d` of a positional number system with a base of at most sixteen.
pub open spec fn digit_char(d: nat) -> char {
    if d < 10 {
        (48 + d) as char
    } else {
        (87 + d) as char
    }
}

/// `n` in positional notation to `base`, without leading zeros.
pub open spec fn radix_text(n: nat, base: nat) -> Seq<char>
    decreases n,
{
    if n < base || base < 2 {
        seq![digit_char(n)]
    } else {
        proof {
            assert(n / base < n) by (nonlinear_arith)
                requires
                    n >= base,
                    base >= 2,
            ;
        }
        radix_text(n / base, base).push(digit_char(n % base))
    }
}

/// `n` in decimal.
pub open spec fn decimal_text(n: nat) -> Seq<char> {
    radix_text(n, 10)
}

/// The lowercase hexadecimal digits of a byte string, two to a byte.
pub open spec fn hex_text(bytes: Seq<u8>) -> Seq<char> {
    Seq::new(
        2 * bytes.len(),
        |i: int|
            digit_char(
                (if i % 2 == 0 {
                    bytes[i / 2] / 16
                } else {
                    bytes[i / 2] % 16
                }) as nat,
            ),
    )
}

/// Whether a character has the Unicode property `White_Space`.
pub open spec fn is_space(c: char) -> bool {
    let u = c as u32;
    ||| 9 <= u <= 13
    ||| u == 0x20
    ||| u == 0x85
    ||| u == 0xa0
    ||| u == 0x1680
    ||| 0x2000 <= u <= 0x200a
    ||| u == 0x2028
    ||| u == 0x2029
    ||| u == 0x202f
    ||| u == 0x205f
    ||| u == 0x3000
}

/// `s` without the whitespace at its end.
pub open spec fn trim_end(s: Seq<char>) -> Seq<char>
    decreases s.len(),
{
    if s.len() > 0 && is_space(s.last()) {
        trim_end(s.drop_last())
    } else {
        s
    }
}

/// `s` without the whitespace at its start.
pub open spec fn trim_start(s: Seq<char>) -> Seq<char>
    decreases s.len(),
{
    if s.len() > 0 && is_space(s[0]) {
        trim_start(s.drop_first())
    } else {
        s
    }
}

/// `s` without the whitespace at either end.
pub open spec fn trimmed(s: Seq<char>) -> Seq<char> {
    trim_start(trim_end(s))
}

/// `s` without the slashes at its end.
pub open spec fn no_trailing_slash(s: Seq<char>) -> Seq<char>
    decreases s.len(),
{
    if s.len() > 0 && s.last() == '/' {
        no_trailing_slash(s.drop_last())
    } else {
        s
    }
}

/// `s`, filled up with spaces on the right to at least `width` characters.
pub open spec fn padded(s: Seq<char>, width: nat) -> Seq<char> {
    if s.len() < width {
        s + Seq::new((width - s.len()) as nat, |i: int| ' ')
    } else {
        s
    }
}

/// What follows the last line break of `s`, or all of `s` if it has none.
pub open spec fn after_last_break(s: Seq<char>) -> Seq<char>
    decreases s.len(),
{
    if s.len() == 0 || s.last() == '\n' {
        seq![]
    } else {
        after_last_break(s.drop_last()).push(s.last())
    }
}

/// The last line of `s`, where a line break ends a line and opens none.
pub open spec fn last_line(s: Seq<char>) -> Seq<char> {
    if s.len() > 0 && s.last() == '\n' {
        after_last_break(s.drop_last())
    } else {
        after_last_break(s)
    }
}

/// What follows `prefix` in `s`, if `s` starts with it.
pub open spec fn stripped(s: Seq<char>, prefix: Seq<char>) -> Option<Seq<char>> {
    if prefix.is_prefix_of(s) {
        Some(s.skip(prefix.len() as int))
    } else {
        None
    }
}

/// The views of a list of strings.
pub open spec fn texts(list: Seq<String>) -> Seq<Seq<char>> {
    list.map_values(|s: String| s@)
}

/// The view of an optional string.
pub open spec fn opt_text(o: Option<String>) -> Option<Seq<char>> {
    match o {
        Some(s) => Some(s@),
        None => None,
    }
}

/// The view of an optional string slice.
pub open spec fn opt_str(o: Option<&str>) -> Option<Seq<char>> {
    match o {
        Some(s) => Some(s@),
        None => None,
    }
}

/// The UTF-8 bytes of a string.
pub open spec fn utf8(s: Seq<char>) -> Seq<u8> {
    encode_utf8(s)
}

/// Two strings with the same UTF-8 bytes are the same.
pub proof fn lemma_utf8_injective(a: Seq<char>, b: Seq<char>)
    requires
        utf8(a) == utf8(b),
    ensures
        a == b,
{
    encode_utf8_decode_utf8(a);
    encode_utf8_decode_utf8(b);
}

/// A character has at most four bytes in UTF-8.
pub proof fn lemma_utf8_len(s: Seq<char>)
    ensures
        utf8(s).len() <= 4 * s.len(),
    decreases s.len(),
{
    if s.len() > 0 {
        lemma_utf8_len(s.drop_first());
    }
}

/// A byte has at most three decimal digits.
pub proof fn lemma_decimal_len(n: u8)
    ensures
        decimal_text(n as nat).len() <= 3,
{
    reveal_with_fuel(radix_text, 4);
}

/// A number of sixteen bits has at most four hexadecimal digits.
pub proof fn lemma_hex_len(n: u16)
    ensures
        radix_text(n as nat, 16).len() <= 4,
{
    reveal_with_fuel(radix_text, 5);
}

pub(crate) fn digit(d: u8) -> (c: char)
    requires
        d < 16,
    ensures
        c == digit_char(d as nat),
{
    if d < 10 {
        (48 + d) as char
    } else {
        (87 + d) as char
    }
}

/// `n` in positional notation to `base`, without leading zeros.
pub fn number_text(n: u64, base: u64) -> (r: String)
    requires
        2 <= base <= 16,
    ensures
        r@ == radix_text(n as nat, base as nat),
    decreases n,
{
    if n < base {
        let mut s = String::new();
        s.push(digit(n as u8));
        assert(s@ =~= seq![digit_char(n as nat)]);
        s
    } else {
        proof {
            assert(n / base < n) by (nonlinear_arith)
                requires
                    n >= base,
                    base >= 2,
            ;
            assert(n % base < base) by (nonlinear_arith)
                requires
                    base >= 2,
            ;
        }
        let mut s = number_text(n / base, base);
        s.push(digit((n % base) as u8));
        s
    }
}

/// `n` in decimal.
pub fn decimal(n: u64) -> (r: String)
    ensures
        r@ == decimal_text(n as nat),
{
    number_text(n, 10)
}

/// The lowercase hexadecimal digits of a byte string.
pub fn hex(bytes: &[u8]) -> (r: String)
    ensures
        r@ == hex_text(bytes@),
{
    let mut s = String::new();
    let mut i: usize = 0;
    while i < bytes.len()
        invariant
            i <= bytes.len(),
            s@ == hex_text(bytes@.take(i as int)),
        decreases bytes.len() - i,
    {
        s.push(digit(bytes[i] / 16));
        s.push(digit(bytes[i] % 16));
        proof {
            assert(hex_text(bytes@.take(i as int)).len() == 2 * i);
            assert(s@ =~= hex_text(bytes@.take(i + 1)));
        }
        i = i + 1;
    }
    assert(bytes@.take(bytes@.len() as int) =~= bytes@);
    s
}

/// `a` followed by `b`.
pub fn cat2(a: &str, b: &str) -> (r: String)
    ensures
        r@ == a@ + b@,
{
    let mut s = String::new();
    s.append(a);
    s.append(b);
    assert(s@ =~= a@ + b@);
    s
}

/// `a`, `b` and `c` in a row.
pub fn cat3(a: &str, b: &str, c: &str) -> (r: String)
    ensures
        r@ == a@ + b@ + c@,
{
    let mut s = cat2(a, b);
    s.append(c);
    s
}

/// Four strings in a row.
pub fn cat4(a: &str, b: &str, c: &str, d: &str) -> (r: String)
    ensures
        r@ == a@ + b@ + c@ + d@,
{
    let mut s = cat3(a, b, c);
    s.append(d);
    s
}

/// Five strings in a row.
pub fn cat5(a: &str, b: &str, c: &str, d: &str, e: &str) -> (r: String)
    ensures
        r@ == a@ + b@ + c@ + d@ + e@,
{
    let mut s = cat4(a, b, c, d);
    s.append(e);
    s
}

/// Six strings in a row.
pub fn cat6(a: &str, b: &str, c: &str, d: &str, e: &str, f: &str) -> (r: String)
    ensures
        r@ == a@ + b@ + c@ + d@ + e@ + f@,
{
    let mut s = cat5(a, b, c, d, e);
    s.append(f);
    s
}

/// The string `s` as an owned value.
pub fn owned(s: &str) -> (r: String)
    ensures
        r@ == s@,
{
    String::from_str(s)
}

/// Whether two byte strings are equal.
pub fn bytes_eq(a: &[u8], b: &[u8]) -> (r: bool)
    ensures
        r == (a@ == b@),
{
    if a.len() != b.len() {
        return false;
    }
    let mut i: usize = 0;
    while i < a.len()
        invariant
            i <= a.len(),
            a.len() == b.len(),
            forall|j: int| 0 <= j < i ==> a@[j] == b@[j],
        decreases a.len() - i,
    {
        if a[i] != b[i] {
            return false;
        }
        i = i + 1;
    }
    assert(a@ =~= b@);
    true
}

/// Whether two strings are equal.
pub fn str_eq(a: &str, b: &str) -> (r: bool)
    ensures
        r == (a@ == b@),
{
    let r = bytes_eq(a.as_bytes(), b.as_bytes());
    proof {
        if r {
            lemma_utf8_injective(a@, b@);
        }
    }
    r
}

/// The characters of a string.
pub fn chars_of(s: &str) -> (r: Vec<char>)
    ensures
        r@ == s@,
{
    let mut v: Vec<char> = Vec::new();
    for c in it: s.chars()
        invariant
            it.seq() == s@,
            v@ == s@.take(it.index()),
    {
        v.push(c);
        assert(v@ =~= s@.take(it.index() + 1));
    }
    assert(s@.take(s@.len() as int) =~= s@);
    v
}

/// The string of the characters `v[from..to]`.
pub fn string_of(v: &Vec<char>, from: usize, to: usize) -> (r: String)
    requires
        from <= to <= v@.len(),
    ensures
        r@ == v@.subrange(from as int, to as int),
{
    let mut s = String::new();
    let mut i: usize = from;
    while i < to
        invariant
            from <= i <= to <= v@.len(),
            s@ == v@.subrange(from as int, i as int),
        decreases to - i,
    {
        s.push(v[i]);
        i = i + 1;
        assert(s@ =~= v@.subrange(from as int, i as int));
    }
    s
}

/// Whether a character is whitespace.
pub fn space(c: char) -> (r: bool)
    ensures
        r == is_space(c),
{
    let u: u32 = c as u32;
    (9 <= u && u <= 13) || u == 0x20 || u == 0x85 || u == 0xa0 || u == 0x1680 || (0x2000 <= u && u
        <= 0x200a) || u == 0x2028 || u == 0x2029 || u == 0x202f || u == 0x205f || u == 0x3000
}

/// `s` without the whitespace at either end.
pub fn trim(s: &str) -> (r: String)
    ensures
        r@ == trimmed(s@),
{
    let v = chars_of(s);
    let mut to: usize = v.len();
    assert(v@.take(to as int) =~= s@);
    while to > 0 && space(v[to - 1])
        invariant
            to <= v@.len(),
            trim_end(v@.take(to as int)) == trim_end(s@),
        decreases to,
    {
        assert(v@.take(to as int).drop_last() =~= v@.take(to - 1));
        to = to - 1;
    }
    assert(trim_end(s@) == v@.take(to as int));
    let mut from: usize = 0;
    assert(v@.subrange(0, to as int) =~= v@.take(to as int));
    while from < to && space(v[from])
        invariant
            from <= to <= v@.len(),
            trim_start(v@.subrange(from as int, to as int)) == trimmed(s@),
        decreases to - from,
    {
        assert(v@.subrange(from as int, to as int).drop_first() =~= v@.subrange(
            from + 1,
            to as int,
        ));
        from = from + 1;
    }
    string_of(&v, from, to)
}

/// `s` without the slashes at its end.
pub fn trim_slashes(s: &str) -> (r: String)
    ensures
        r@ == no_trailing_slash(s@),
{
    let v = chars_of(s);
    let mut to: usize = v.len();
    assert(v@.take(to as int) =~= s@);
    while to > 0 && v[to - 1] == '/'
        invariant
            to <= v@.len(),
            no_trailing_slash(v@.take(to as int)) == no_trailing_slash(s@),
        decreases to,
    {
        assert(v@.take(to as int).drop_last() =~= v@.take(to - 1));
        to = to - 1;
    }
    assert(v@.subrange(0, to as int) =~= v@.take(to as int));
    string_of(&v, 0, to)
}

/// `s`, filled up with spaces on the right to at least `width` characters.
pub fn pad(s: &str, width: usize) -> (r: String)
    ensures
        r@ == padded(s@, width as nat),
{
    let mut n: usize = s.unicode_len();
    let mut r = owned(s);
    while n < width
        invariant
            s@.len() <= n,
            n <= width || n == s@.len(),
            r@ == s@ + Seq::new((n - s@.len()) as nat, |i: int| ' '),
        decreases width - n,
    {
        r.push(' ');
        n = n + 1;
        assert(r@ =~= s@ + Seq::new((n - s@.len()) as nat, |i: int| ' '));
    }
    assert(r@ =~= padded(s@, width as nat));
    r
}

proof fn lemma_after_last_break(s: Seq<char>, from: int)
    requires
        0 <= from <= s.len(),
        from == 0 || s[from - 1] == '\n',
        forall|j: int| from <= j < s.len() ==> s[j] != '\n',
    ensures
        after_last_break(s) == s.skip(from),
    decreases s.len(),
{
    if from < s.len() {
        lemma_after_last_break(s.drop_last(), from);
        assert(s.drop_last().skip(from).push(s.last()) =~= s.skip(from));
    } else {
        assert(s.skip(from) =~= seq![]);
    }
}

/// The last line of `s`.
pub fn final_line(s: &str) -> (r: String)
    ensures
        r@ == last_line(s@),
{
    let v = chars_of(s);
    let mut to: usize = v.len();
    if to > 0 && v[to - 1] == '\n' {
        to = to - 1;
    }
    let mut from: usize = to;
    while from > 0 && v[from - 1] != '\n'
        invariant
            from <= to <= v@.len(),
            forall|j: int| from <= j < to ==> v@[j] != '\n',
        decreases from,
    {
        from = from - 1;
    }
    proof {
        let t = v@.take(to as int);
        lemma_after_last_break(t, from as int);
        assert(t.skip(from as int) =~= v@.subrange(from as int, to as int));
        if to == v@.len() {
            assert(t =~= s@);
        } else {
            assert(t =~= s@.drop_last());
        }
    }
    string_of(&v, from, to)
}

/// What follows `prefix` in `s`, if `s` starts with it.
pub fn strip(s: &str, prefix: &str) -> (r: Option<String>)
    ensures
        opt_text(r) == stripped(s@, prefix@),
{
    let v = chars_of(s);
    let p = chars_of(prefix);
    if v.len() < p.len() {
        return None;
    }
    let mut i: usize = 0;
    while i < p.len()
        invariant
            i <= p@.len() <= v@.len(),
            v@ == s@,
            p@ == prefix@,
            forall|j: int| 0 <= j < i ==> v@[j] == p@[j],
        decreases p@.len() - i,
    {
        if v[i] != p[i] {
            assert(!prefix@.is_prefix_of(s@));
            return None;
        }
        i = i + 1;
    }
    assert(prefix@.is_prefix_of(s@)) by {
        assert(prefix@ =~= s@.subrange(0, prefix@.len() as int));
    }
    assert(v@.subrange(p@.len() as int, v@.len() as int) =~= s@.skip(prefix@.len() as int));
    Some(string_of(&v, p.len(), v.len()))
}

/// Appending a string appends its view.
pub proof fn lemma_texts_push(list: Seq<String>, s: String)
    ensures
        texts(list.push(s)) == texts(list).push(s@),
{
    assert(texts(list.push(s)) =~= texts(list).push(s@));
}

// --- The order of strings ---------------------------------------------------

/// Whether `a` comes before `b` in the order of strings: at the first character
/// in which they differ, or where `a` ends.
pub open spec fn precedes(a: Seq<char>, b: Seq<char>) -> bool
    decreases a.len(),
{
    if b.len() == 0 {
        false
    } else if a.len() == 0 {
        true
    } else if a[0] == b[0] {
        precedes(a.skip(1), b.skip(1))
    } else {
        a[0] < b[0]
    }
}

/// No string comes before itself.
pub proof fn lemma_precedes_irreflexive(a: Seq<char>)
    ensures
        !precedes(a, a),
    decreases a.len(),
{
    if a.len() > 0 {
        lemma_precedes_irreflexive(a.skip(1));
    }
}

/// What comes before what comes before `c` comes before `c`.
pub proof fn lemma_precedes_transitive(a: Seq<char>, b: Seq<char>, c: Seq<char>)
    requires
        precedes(a, b),
        precedes(b, c),
    ensures
        precedes(a, c),
    decreases a.len(),
{
    if a.len() > 0 && a[0] == b[0] && b[0] == c[0] {
        lemma_precedes_transitive(a.skip(1), b.skip(1), c.skip(1));
    }
}

/// Of two different strings one comes before the other.
pub proof fn lemma_precedes_total(a: Seq<char>, b: Seq<char>)
    ensures
        a == b || precedes(a, b) || precedes(b, a),
    decreases a.len(),
{
    if a.len() == 0 || b.len() == 0 {
        assert(a.len() == b.len() ==> a =~= b);
    } else if a[0] == b[0] {
        lemma_precedes_total(a.skip(1), b.skip(1));
        if a.skip(1) == b.skip(1) {
            assert(a =~= seq![a[0]] + a.skip(1));
            assert(b =~= seq![b[0]] + b.skip(1));
        }
    }
}

/// Whether `a` comes before `b` in the order of strings.
pub fn before(a: &str, b: &str) -> (r: bool)
    ensures
        r == precedes(a@, b@),
{
    let x = chars_of(a);
    let y = chars_of(b);
    let mut i: usize = 0;
    assert(x@.skip(0) =~= x@ && y@.skip(0) =~= y@);
    while i < x.len() && i < y.len()
        invariant
            i <= x@.len(),
            i <= y@.len(),
            x@ == a@,
            y@ == b@,
            precedes(a@, b@) == precedes(x@.skip(i as int), y@.skip(i as int)),
        decreases x@.len() - i,
    {
        if x[i] != y[i] {
            return x[i] < y[i];
        }
        assert(x@.skip(i as int).skip(1) =~= x@.skip(i + 1));
        assert(y@.skip(i as int).skip(1) =~= y@.skip(i + 1));
        i = i + 1;
    }
    i < y.len()
}

} // verus!
