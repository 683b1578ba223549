//! Text as the panels write it: decimal numbers, trimming, ordering, joining.
//!
//! Every function states its result over `Seq<char>`, the view of a string.

use vstd::prelude::*;
use vstd::string::*;

verus! {

/// `String::push` of std: the character is appended to the end of the text.
pub assume_specification[ String::push ](text: &mut String, c: char)
    ensures
        final(text)@ == old(text)@.push(c),
;

/// The decimal digit `d`.
pub open spec fn digit(d: nat) -> char {
    (48 + d) as char
}

/// A number written in base ten, without leading zeros.
pub open spec fn decimal(n: nat) -> Seq<char>
    decreases n,
{
    if n < 10 {
        seq![digit(n)]
    } else {
        decimal(n / 10).push(digit(n % 10))
    }
}

/// Two numbers that are written alike are one number.
pub proof fn numbers_are_written_apart(a: nat, b: nat)
    requires
        decimal(a) == decimal(b),
    ensures
        a == b,
    decreases a,
{
    written_in_digits(a);
    written_in_digits(b);
    if a >= 10 && b >= 10 {
        assert(decimal(a).drop_last() =~= decimal(a / 10));
        assert(decimal(b).drop_last() =~= decimal(b / 10));
        assert(decimal(a).last() == digit(a % 10));
        assert(decimal(b).last() == digit(b % 10));
        assert(digit(a % 10) as int == 48 + a % 10 && digit(b % 10) as int == 48 + b % 10);
        assert(decimal(a / 10) == decimal(b / 10));
        numbers_are_written_apart(a / 10, b / 10);
        assert(a == 10 * (a / 10) + a % 10 && b == 10 * (b / 10) + b % 10);
    } else {
        assert(a < 10 && b < 10);
        assert(decimal(a)[0] == digit(a) && decimal(b)[0] == digit(b));
        assert(digit(a) as int == 48 + a && digit(b) as int == 48 + b);
    }
}

proof fn written_in_digits(n: nat)
    ensures
        decimal(n).len() >= 1,
        n >= 10 ==> decimal(n).len() >= 2,
    decreases n,
{
    if n >= 10 {
        written_in_digits(n / 10);
    }
}

/// Append `n` in decimal.
pub fn push_decimal(text: &mut String, n: u128)
    ensures
        final(text)@ == old(text)@ + decimal(n as nat),
    decreases n,
{
    if n >= 10 {
        push_decimal(text, n / 10);
    }
    let unit: u8 = (n % 10) as u8;
    text.push((48 + unit) as char);
    proof {
        assert(decimal(n as nat).last() == digit((n % 10) as nat));
        if n >= 10 {
            assert(text@ =~= old(text)@ + decimal(n as nat));
        } else {
            assert(text@ =~= old(text)@ + decimal(n as nat));
        }
    }
}

/// `n` in decimal.
pub fn decimal_text(n: u64) -> (text: String)
    ensures
        text@ == decimal(n as nat),
{
    let mut text = String::new();
    push_decimal(&mut text, n as u128);
    assert(text@ =~= decimal(n as nat));
    text
}

/// The characters of a text, in order.
pub fn characters(text: &str) -> (chars: Vec<char>)
    ensures
        chars@ == text@,
{
    let mut chars: Vec<char> = Vec::new();
    for c in it: text.chars()
        invariant
            it.seq() == text@,
            chars@ == text@.take(it.index()),
    {
        chars.push(c);
    }
    chars
}

/// The characters with the Unicode `White_Space` property.
pub open spec fn is_white_space(c: char) -> bool {
    ||| '\u{9}' <= c <= '\u{d}'
    ||| c == ' '
    ||| c == '\u{85}'
    ||| c == '\u{a0}'
    ||| c == '\u{1680}'
    ||| '\u{2000}' <= c <= '\u{200a}'
    ||| c == '\u{2028}'
    ||| c == '\u{2029}'
    ||| c == '\u{202f}'
    ||| c == '\u{205f}'
    ||| c == '\u{3000}'
}

/// Whether `c` has the Unicode `White_Space` property.
pub fn white_space(c: char) -> (b: bool)
    ensures
        b == is_white_space(c),
{
    ('\u{9}' <= c && c <= '\u{d}') || c == ' ' || c == '\u{85}' || c == '\u{a0}' || c == '\u{1680}' || (
    '\u{2000}' <= c && c <= '\u{200a}') || c == '\u{2028}' || c == '\u{2029}' || c == '\u{202f}' || c
        == '\u{205f}' || c == '\u{3000}'
}

/// `s` without its leading white space.
pub open spec fn trimmed_start(s: Seq<char>) -> Seq<char>
    decreases s.len(),
{
    if s.len() > 0 && is_white_space(s[0]) {
        trimmed_start(s.skip(1))
    } else {
        s
    }
}

/// `s` without its trailing white space.
pub open spec fn trimmed_end(s: Seq<char>) -> Seq<char>
    decreases s.len(),
{
    if s.len() > 0 && is_white_space(s.last()) {
        trimmed_end(s.drop_last())
    } else {
        s
    }
}

/// `s` without its leading and trailing white space.
pub open spec fn trimmed(s: Seq<char>) -> Seq<char> {
    trimmed_end(trimmed_start(s))
}

/// The text without its leading white space.
pub fn trim_start<'a>(text: &'a str) -> (rest: &'a str)
    ensures
        rest@ == trimmed_start(text@),
{
    let chars = characters(text);
    let mut i: usize = 0;
    assert(text@.skip(0) =~= text@);
    while i < chars.len() && white_space(chars[i])
        invariant
            chars@ == text@,
            i <= chars.len(),
            trimmed_start(text@) == trimmed_start(text@.skip(i as int)),
        decreases chars.len() - i,
    {
        assert(text@.skip(i as int).skip(1) =~= text@.skip(i + 1));
        i = i + 1;
    }
    let rest = text.substring_char(i, chars.len());
    assert(rest@ =~= text@.skip(i as int));
    rest
}

/// The text without its trailing white space.
pub fn trim_end<'a>(text: &'a str) -> (rest: &'a str)
    ensures
        rest@ == trimmed_end(text@),
{
    let chars = characters(text);
    let mut i: usize = chars.len();
    assert(text@.take(i as int) =~= text@);
    while i > 0 && white_space(chars[i - 1])
        invariant
            chars@ == text@,
            i <= chars.len(),
            trimmed_end(text@) == trimmed_end(text@.take(i as int)),
        decreases i,
    {
        assert(text@.take(i as int).drop_last() =~= text@.take(i - 1));
        i = i - 1;
    }
    let rest = text.substring_char(0, i);
    assert(rest@ =~= text@.take(i as int));
    rest
}

/// The text without its leading and trailing white space.
pub fn trim<'a>(text: &'a str) -> (rest: &'a str)
    ensures
        rest@ == trimmed(text@),
{
    trim_end(trim_start(text))
}

/// Whether nothing is left of a text once it is trimmed.
pub open spec fn blank(s: Seq<char>) -> bool {
    trimmed(s).len() == 0
}

/// Whether nothing is left of `text` once it is trimmed.
pub fn is_blank(text: &str) -> (b: bool)
    ensures
        b == blank(text@),
{
    trim(text).is_empty()
}

/// `s` without the multiplication signs it ends in.
pub open spec fn without_times(s: Seq<char>) -> Seq<char>
    decreases s.len(),
{
    if s.len() > 0 && (s.last() == 'x' || s.last() == '\u{d7}') {
        without_times(s.drop_last())
    } else {
        s
    }
}

/// The number of a playback speed: plain, or with a trailing multiplication
/// sign.
pub open spec fn speed_number(s: Seq<char>) -> Seq<char> {
    trimmed(without_times(trimmed(s)))
}

/// The number of a playback speed, to be read as a decimal number.
pub fn playback_speed_number<'a>(text: &'a str) -> (number: &'a str)
    ensures
        number@ == speed_number(text@),
{
    let text = trim(text);
    let chars = characters(text);
    let mut i: usize = chars.len();
    assert(text@.take(i as int) =~= text@);
    while i > 0 && (chars[i - 1] == 'x' || chars[i - 1] == '\u{d7}')
        invariant
            chars@ == text@,
            i <= chars.len(),
            without_times(text@) == without_times(text@.take(i as int)),
        decreases i,
    {
        assert(text@.take(i as int).drop_last() =~= text@.take(i - 1));
        i = i - 1;
    }
    let number = text.substring_char(0, i);
    assert(number@ =~= text@.take(i as int));
    trim(number)
}

/// Dictionary order by code point, the order of strings.
pub open spec fn text_before(a: Seq<char>, b: Seq<char>) -> bool
    decreases a.len(),
{
    b.len() > 0 && (a.len() == 0 || a[0] < b[0] || (a[0] == b[0] && text_before(a.skip(1), b.skip(1))))
}

/// No text comes before itself.
pub proof fn text_before_irreflexive(a: Seq<char>)
    ensures
        !text_before(a, a),
    decreases a.len(),
{
    if a.len() > 0 {
        text_before_irreflexive(a.skip(1));
    }
}

/// The order of texts is transitive.
pub proof fn text_before_transitive(a: Seq<char>, b: Seq<char>, c: Seq<char>)
    requires
        text_before(a, b),
        text_before(b, c),
    ensures
        text_before(a, c),
    decreases a.len(),
{
    if a.len() > 0 && a[0] == b[0] && b[0] == c[0] {
        text_before_transitive(a.skip(1), b.skip(1), c.skip(1));
    }
}

/// Of two different texts one comes before the other.
pub proof fn text_before_total(a: Seq<char>, b: Seq<char>)
    ensures
        text_before(a, b) || a == b || text_before(b, a),
    decreases a.len(),
{
    if a.len() > 0 && b.len() > 0 && a[0] == b[0] {
        text_before_total(a.skip(1), b.skip(1));
        if a.skip(1) == b.skip(1) {
            assert(a =~= seq![a[0]] + a.skip(1));
            assert(b =~= seq![b[0]] + b.skip(1));
        }
    } else if a.len() == 0 && b.len() == 0 {
        assert(a =~= b);
    }
}

/// Whether the first text comes before the second.
pub fn comes_before(a: &str, b: &str) -> (r: bool)
    ensures
        r == text_before(a@, b@),
{
    let left = characters(a);
    let right = characters(b);
    let mut i: usize = 0;
    assert(a@.skip(0) =~= a@ && b@.skip(0) =~= b@);
    while i < left.len() && i < right.len() && left[i] == right[i]
        invariant
            left@ == a@,
            right@ == b@,
            i <= left.len(),
            i <= right.len(),
            text_before(a@, b@) == text_before(a@.skip(i as int), b@.skip(i as int)),
        decreases left.len() - i,
    {
        assert(a@.skip(i as int).skip(1) =~= a@.skip(i + 1));
        assert(b@.skip(i as int).skip(1) =~= b@.skip(i + 1));
        i = i + 1;
    }
    i < right.len() && (i == left.len() || left[i] < right[i])
}

/// Whether two texts are the same.
pub fn same_text(a: &str, b: &str) -> (r: bool)
    ensures
        r == (a@ == b@),
{
    let left = characters(a);
    let right = characters(b);
    if left.len() != right.len() {
        return false;
    }
    let mut i: usize = 0;
    while i < left.len()
        invariant
            left@ == a@,
            right@ == b@,
            left.len() == right.len(),
            i <= left.len(),
            forall|k: int| 0 <= k < i ==> left[k] == right[k],
        decreases left.len() - i,
    {
        if left[i] != right[i] {
            assert(a@[i as int] != b@[i as int]);
            return false;
        }
        i = i + 1;
    }
    assert(a@ =~= b@);
    true
}

/// The upper case letters of ASCII made lower case.
pub open spec fn ascii_lower(c: char) -> char {
    if 'A' <= c <= 'Z' {
        (c as u32 + 32) as char
    } else {
        c
    }
}

/// A text with its ASCII letters made lower case.
pub open spec fn ascii_lowered(s: Seq<char>) -> Seq<char> {
    s.map_values(|c: char| ascii_lower(c))
}

/// Whether `part` occurs in `whole` at position `at`.
pub open spec fn occurs_at(whole: Seq<char>, part: Seq<char>, at: int) -> bool {
    0 <= at && at + part.len() <= whole.len() && whole.subrange(at, at + part.len()) == part
}

/// Whether `part` occurs somewhere in `whole`.
pub open spec fn occurs_in(whole: Seq<char>, part: Seq<char>) -> bool {
    exists|at: int| occurs_at(whole, part, at)
}

/// The characters of a text with its ASCII letters made lower case.
pub fn lowered(text: &str) -> (chars: Vec<char>)
    ensures
        chars@ == ascii_lowered(text@),
{
    let plain = characters(text);
    let mut chars: Vec<char> = Vec::new();
    let mut i: usize = 0;
    while i < plain.len()
        invariant
            plain@ == text@,
            i <= plain.len(),
            chars@ == ascii_lowered(text@.take(i as int)),
        decreases plain.len() - i,
    {
        let c: char = plain[i];
        let lower: char = if 'A' <= c && c <= 'Z' {
            (c as u8 + 32) as char
        } else {
            c
        };
        chars.push(lower);
        i = i + 1;
        assert(chars@ =~= ascii_lowered(text@.take(i as int)));
    }
    assert(text@.take(i as int) =~= text@);
    chars
}

/// Whether `part` occurs in `whole`, both already in the case to be compared.
pub fn contains_part(whole: &Vec<char>, part: &Vec<char>) -> (r: bool)
    ensures
        r == occurs_in(whole@, part@),
{
    if part.len() > whole.len() {
        return false;
    }
    let last: usize = whole.len() - part.len();
    let mut at: usize = 0;
    while at <= last
        invariant
            last == whole.len() - part.len(),
            at <= last + 1,
            forall|k: int| 0 <= k < at ==> !occurs_at(whole@, part@, k),
        decreases last + 1 - at,
    {
        let mut i: usize = 0;
        let mut equal: bool = true;
        while i < part.len() && equal
            invariant
                last == whole.len() - part.len(),
                at <= last,
                i <= part.len(),
                equal ==> forall|k: int| 0 <= k < i ==> whole[at + k] == part[k],
                !equal ==> exists|k: int| 0 <= k < part.len() && whole[at + k] != part[k],
            decreases part.len() - i,
        {
            if whole[at + i] != part[i] {
                equal = false;
            }
            i = i + 1;
        }
        let ghost window = whole@.subrange(at as int, at + part.len());
        if equal {
            assert(window =~= part@);
            assert(occurs_at(whole@, part@, at as int));
            return true;
        }
        proof {
            let k = choose|k: int| 0 <= k < part.len() && whole[at + k] != part[k];
            assert(window[k] == whole[at + k]);
        }
        at = at + 1;
    }
    false
}

/// Parts with a separator between neighbours; the first `n` of them.
pub open spec fn joined_upto(parts: Seq<Seq<char>>, separator: Seq<char>, n: nat) -> Seq<char>
    decreases n,
{
    if n == 0 {
        Seq::empty()
    } else if n == 1 {
        parts[0]
    } else {
        joined_upto(parts, separator, (n - 1) as nat) + separator + parts[n - 1]
    }
}

/// Parts with a separator between neighbours.
pub open spec fn joined(parts: Seq<Seq<char>>, separator: Seq<char>) -> Seq<char> {
    joined_upto(parts, separator, parts.len())
}

/// The texts of a list.
pub open spec fn texts(list: Seq<String>) -> Seq<Seq<char>> {
    list.map_values(|s: String| s@)
}

/// The texts of `parts` with a separator between neighbours.
pub fn join(parts: &Vec<String>, separator: &str) -> (text: String)
    ensures
        text@ == joined(texts(parts@), separator@),
{
    let mut text = String::new();
    let mut i: usize = 0;
    while i < parts.len()
        invariant
            i <= parts.len(),
            text@ == joined_upto(texts(parts@), separator@, i as nat),
        decreases parts.len() - i,
    {
        if i > 0 {
            text.append(separator);
        }
        text.append(parts[i].as_str());
        i = i + 1;
        assert(text@ =~= joined_upto(texts(parts@), separator@, i as nat));
    }
    text
}

/// Two texts one after the other.
pub fn concat2(a: &str, b: &str) -> (text: String)
    ensures
        text@ == a@ + b@,
{
    let mut text = String::from_str(a);
    text.append(b);
    text
}

/// Three texts one after the other.
pub fn concat3(a: &str, b: &str, c: &str) -> (text: String)
    ensures
        text@ == a@ + b@ + c@,
{
    let mut text = concat2(a, b);
    text.append(c);
    text
}

/// Four texts one after the other.
pub fn concat4(a: &str, b: &str, c: &str, d: &str) -> (text: String)
    ensures
        text@ == a@ + b@ + c@ + d@,
{
    let mut text = concat3(a, b, c);
    text.append(d);
    text
}

/// A text followed by a number in decimal.
pub fn numbered(prefix: &str, n: u64) -> (text: String)
    ensures
        text@ == prefix@ + decimal(n as nat),
{
    let mut text = String::from_str(prefix);
    push_decimal(&mut text, n as u128);
    text
}

/// The number that a text of decimal digits stands for.
pub open spec fn digits_value(s: Seq<char>) -> nat
    decreases s.len(),
{
    if s.len() == 0 {
        0
    } else {
        10 * digits_value(s.drop_last()) + (s.last() as nat - 48) as nat
    }
}

/// A number is written in digits that read back as the number, and with a leading zero only
/// where it is zero.
pub proof fn a_number_reads_back(n: nat)
    ensures
        digits_value(decimal(n)) == n,
        decimal(n).len() >= 1,
        forall|i: int| 0 <= i < decimal(n).len() ==> '0' <= #[trigger] decimal(n)[i] <= '9',
        n > 0 ==> decimal(n)[0] != '0',
    decreases n,
{
    reveal_with_fuel(digits_value, 2);
    if n < 10 {
        assert(decimal(n) =~= seq![digit(n)]);
        assert(decimal(n).drop_last() =~= Seq::empty());
        assert(digit(n) as nat == 48 + n);
    } else {
        a_number_reads_back(n / 10);
        assert(decimal(n).drop_last() =~= decimal(n / 10));
        assert(decimal(n).last() == digit(n % 10));
        assert(digit(n % 10) as nat == 48 + n % 10);
        assert forall|i: int| 0 <= i < decimal(n).len() implies '0' <= #[trigger] decimal(n)[i]
            <= '9' by {
            if i < decimal(n / 10).len() {
                assert(decimal(n)[i] == decimal(n / 10)[i]);
            }
        }
    }
}

/// White space is the twenty-five characters that Unicode lists, the line ends and the wide
/// blanks among them, and no other; the zero-width ones are none.
pub proof fn white_space_is_what_unicode_lists(c: char)
    ensures
        is_white_space(c) <==> seq![
            0x9,
            0xa,
            0xb,
            0xc,
            0xd,
            0x20,
            0x85,
            0xa0,
            0x1680,
            0x2000,
            0x2001,
            0x2002,
            0x2003,
            0x2004,
            0x2005,
            0x2006,
            0x2007,
            0x2008,
            0x2009,
            0x200a,
            0x2028,
            0x2029,
            0x202f,
            0x205f,
            0x3000int,
        ].contains(c as int),
{
    let listed = seq![
        0x9,
        0xa,
        0xb,
        0xc,
        0xd,
        0x20,
        0x85,
        0xa0,
        0x1680,
        0x2000,
        0x2001,
        0x2002,
        0x2003,
        0x2004,
        0x2005,
        0x2006,
        0x2007,
        0x2008,
        0x2009,
        0x200a,
        0x2028,
        0x2029,
        0x202f,
        0x205f,
        0x3000int,
    ];
    assert(listed[0] == 0x9 && listed[1] == 0xa && listed[2] == 0xb && listed[3] == 0xc && listed[4]
        == 0xd && listed[5] == 0x20 && listed[6] == 0x85 && listed[7] == 0xa0 && listed[8] == 0x1680);
    assert(listed[9] == 0x2000 && listed[10] == 0x2001 && listed[11] == 0x2002 && listed[12] == 0x2003
        && listed[13] == 0x2004 && listed[14] == 0x2005 && listed[15] == 0x2006 && listed[16] == 0x2007);
    assert(listed[17] == 0x2008 && listed[18] == 0x2009 && listed[19] == 0x200a && listed[20] == 0x2028
        && listed[21] == 0x2029 && listed[22] == 0x202f && listed[23] == 0x205f && listed[24] == 0x3000);
}

proof fn lemma_trimmed_start(s: Seq<char>) -> (from: int)
    ensures
        0 <= from <= s.len(),
        trimmed_start(s) == s.skip(from),
        forall|k: int| 0 <= k < from ==> is_white_space(#[trigger] s[k]),
        from < s.len() ==> !is_white_space(s[from]),
    decreases s.len(),
{
    if s.len() > 0 && is_white_space(s[0]) {
        let rest = s.skip(1);
        let from = lemma_trimmed_start(rest);
        assert(rest.skip(from) =~= s.skip(from + 1));
        assert forall|k: int| 0 <= k < from + 1 implies is_white_space(#[trigger] s[k]) by {
            if k > 0 {
                assert(rest[k - 1] == s[k]);
            }
        }
        from + 1
    } else {
        assert(s.skip(0) =~= s);
        0
    }
}

proof fn lemma_trimmed_end(s: Seq<char>) -> (upto: int)
    ensures
        0 <= upto <= s.len(),
        trimmed_end(s) == s.take(upto),
        forall|k: int| upto <= k < s.len() ==> is_white_space(#[trigger] s[k]),
        upto > 0 ==> !is_white_space(s[upto - 1]),
    decreases s.len(),
{
    if s.len() > 0 && is_white_space(s.last()) {
        let rest = s.drop_last();
        let upto = lemma_trimmed_end(rest);
        assert(rest.take(upto) =~= s.take(upto));
        assert forall|k: int| upto <= k < s.len() implies is_white_space(#[trigger] s[k]) by {
            if k < s.len() - 1 {
                assert(rest[k] == s[k]);
            }
        }
        upto
    } else {
        assert(s.take(s.len() as int) =~= s);
        s.len() as int
    }
}

/// Trimming a text leaves one stretch of it: nothing but white space is taken from either end,
/// and what is left neither begins nor ends in white space.
pub proof fn trimming_takes_only_the_white_space_around(s: Seq<char>) -> (kept: (int, int))
    ensures
        0 <= kept.0 <= kept.1 <= s.len(),
        trimmed(s) == s.subrange(kept.0, kept.1),
        forall|k: int| 0 <= k < kept.0 ==> is_white_space(#[trigger] s[k]),
        forall|k: int| kept.1 <= k < s.len() ==> is_white_space(#[trigger] s[k]),
        kept.0 < kept.1 ==> !is_white_space(s[kept.0]) && !is_white_space(s[kept.1 - 1]),
{
    let from = lemma_trimmed_start(s);
    let rest = s.skip(from);
    let upto = lemma_trimmed_end(rest);
    assert(rest.take(upto) =~= s.subrange(from, from + upto));
    assert forall|k: int| from + upto <= k < s.len() implies is_white_space(#[trigger] s[k]) by {
        assert(rest[k - from] == s[k]);
    }
    if upto > 0 {
        assert(rest[upto - 1] == s[from + upto - 1]);
    }
    (from, from + upto)
}

/// Taking white space from the end of a text leaves what stands before it as it was.
pub proof fn trimming_the_end_leaves_the_beginning(s: Seq<char>) -> (kept: int)
    ensures
        0 <= kept <= s.len(),
        trimmed_end(s) == s.take(kept),
        forall|k: int| kept <= k < s.len() ==> is_white_space(#[trigger] s[k]),
        kept > 0 ==> !is_white_space(s[kept - 1]),
{
    lemma_trimmed_end(s)
}

/// A text is blank exactly where it holds nothing but white space.
pub proof fn a_blank_text_holds_only_white_space(s: Seq<char>)
    ensures
        blank(s) <==> forall|k: int| 0 <= k < s.len() ==> is_white_space(#[trigger] s[k]),
{
    let kept = trimming_takes_only_the_white_space_around(s);
    if blank(s) {
        assert(kept.0 == kept.1);
        assert forall|k: int| 0 <= k < s.len() implies is_white_space(#[trigger] s[k]) by {
            assert(k < kept.0 || kept.1 <= k);
        }
    } else {
        assert(trimmed(s).len() == kept.1 - kept.0);
        assert(!is_white_space(s[kept.0]));
    }
}

proof fn lemma_without_times(s: Seq<char>) -> (upto: int)
    ensures
        0 <= upto <= s.len(),
        without_times(s) == s.take(upto),
        forall|k: int| upto <= k < s.len() ==> (#[trigger] s[k] == 'x' || s[k] == '\u{d7}'),
        upto > 0 ==> s[upto - 1] != 'x' && s[upto - 1] != '\u{d7}',
    decreases s.len(),
{
    if s.len() > 0 && (s.last() == 'x' || s.last() == '\u{d7}') {
        let rest = s.drop_last();
        let upto = lemma_without_times(rest);
        assert(rest.take(upto) =~= s.take(upto));
        assert forall|k: int| upto <= k < s.len() implies (#[trigger] s[k] == 'x' || s[k]
            == '\u{d7}') by {
            if k < s.len() - 1 {
                assert(rest[k] == s[k]);
            }
        }
        upto
    } else {
        assert(s.take(s.len() as int) =~= s);
        s.len() as int
    }
}

/// The number of a playback speed is one stretch of its text. Only white space stands before
/// it, and only multiplication signs with white space around them behind it; no sign that
/// could be taken is left.
pub proof fn a_speed_is_a_number_and_its_signs(s: Seq<char>) -> (at: (int, int, int, int))
    ensures
        0 <= at.0 <= at.1 <= at.2 <= at.3 <= s.len(),
        speed_number(s) == s.subrange(at.0, at.1),
        forall|k: int| 0 <= k < at.0 ==> is_white_space(#[trigger] s[k]),
        forall|k: int| at.1 <= k < at.2 ==> is_white_space(#[trigger] s[k]),
        forall|k: int| at.2 <= k < at.3 ==> (#[trigger] s[k] == 'x' || s[k] == '\u{d7}'),
        forall|k: int| at.3 <= k < s.len() ==> is_white_space(#[trigger] s[k]),
        at.0 < at.1 ==> !is_white_space(s[at.0]) && !is_white_space(s[at.1 - 1]),
        at.0 < at.2 ==> s[at.2 - 1] != 'x' && s[at.2 - 1] != '\u{d7}',
{
    let outer = trimming_takes_only_the_white_space_around(s);
    let whole = trimmed(s);
    let upto = lemma_without_times(whole);
    let plain = whole.take(upto);
    let inner = trimming_takes_only_the_white_space_around(plain);
    assert(forall|k: int| 0 <= k < whole.len() ==> #[trigger] whole[k] == s[outer.0 + k]);
    assert(forall|k: int| 0 <= k < plain.len() ==> #[trigger] plain[k] == whole[k]);
    let at = (outer.0 + inner.0, outer.0 + inner.1, outer.0 + upto, outer.1);
    assert(plain.subrange(inner.0, inner.1) =~= s.subrange(at.0, at.1));
    assert forall|k: int| 0 <= k < at.0 implies is_white_space(#[trigger] s[k]) by {
        if k >= outer.0 {
            assert(plain[k - outer.0] == whole[k - outer.0] && whole[k - outer.0] == s[k]);
        }
    }
    assert forall|k: int| at.1 <= k < at.2 implies is_white_space(#[trigger] s[k]) by {
        assert(plain[k - outer.0] == whole[k - outer.0] && whole[k - outer.0] == s[k]);
    }
    assert forall|k: int| at.2 <= k < at.3 implies (#[trigger] s[k] == 'x' || s[k] == '\u{d7}') by {
        assert(whole[k - outer.0] == s[k]);
    }
    if at.0 < at.1 {
        assert(plain[inner.0] == whole[inner.0] && whole[inner.0] == s[at.0]);
        assert(plain[inner.1 - 1] == whole[inner.1 - 1] && whole[inner.1 - 1] == s[at.1 - 1]);
    }
    if upto > 0 {
        assert(whole[upto - 1] == s[at.2 - 1]);
    }
    at
}

/// Two texts agree up to a place; the first comes before the second where it ends there and
/// the second goes on, or has the lesser character there.
pub open spec fn parts_at(a: Seq<char>, b: Seq<char>, at: int) -> bool {
    &&& 0 <= at <= a.len() && at < b.len()
    &&& forall|k: int| 0 <= k < at ==> a[k] == b[k]
    &&& at == a.len() || a[at] < b[at]
}

/// Texts are ordered by the first place where they part.
pub proof fn texts_are_ordered_where_they_part(a: Seq<char>, b: Seq<char>)
    ensures
        text_before(a, b) <==> exists|at: int| parts_at(a, b, at),
    decreases a.len(),
{
    if b.len() > 0 {
        if a.len() == 0 || a[0] < b[0] {
            assert(parts_at(a, b, 0));
        } else if a[0] == b[0] {
            texts_are_ordered_where_they_part(a.skip(1), b.skip(1));
            if text_before(a, b) {
                let at = choose|at: int| parts_at(a.skip(1), b.skip(1), at);
                assert forall|k: int| 0 <= k < at + 1 implies a[k] == b[k] by {
                    if k > 0 {
                        assert(a.skip(1)[k - 1] == b.skip(1)[k - 1]);
                    }
                }
                assert(parts_at(a, b, at + 1));
            }
            if exists|at: int| parts_at(a, b, at) {
                let at = choose|at: int| parts_at(a, b, at);
                assert(at > 0);
                assert forall|k: int| 0 <= k < at - 1 implies a.skip(1)[k] == b.skip(1)[k] by {
                    assert(a[k + 1] == b[k + 1]);
                }
                assert(parts_at(a.skip(1), b.skip(1), at - 1));
            }
        } else {
            if exists|at: int| parts_at(a, b, at) {
                let at = choose|at: int| parts_at(a, b, at);
                assert(at > 0 ==> a[0] == b[0]);
            }
        }
    }
}

/// Making a text lower case changes the twenty-six capital letters, each to its small one, and
/// nothing else; doing it again changes nothing.
pub proof fn lower_case_replaces_capitals(s: Seq<char>)
    ensures
        ascii_lowered(s).len() == s.len(),
        forall|i: int|
            0 <= i < s.len() && !('A' <= s[i] <= 'Z') ==> #[trigger] ascii_lowered(s)[i] == s[i],
        forall|i: int|
            0 <= i < s.len() && 'A' <= s[i] <= 'Z' ==> (#[trigger] ascii_lowered(s)[i]) as int - 'a' as int
                == s[i] as int - 'A' as int,
        ascii_lowered(ascii_lowered(s)) == ascii_lowered(s),
{
    assert(ascii_lowered(ascii_lowered(s)) =~= ascii_lowered(s));
}

/// A text occurs in another one exactly where the other one is the text with something before
/// and something behind it.
pub proof fn a_part_stands_between_others(whole: Seq<char>, part: Seq<char>)
    ensures
        occurs_in(whole, part) <==> exists|at: int|
            0 <= at && at + part.len() <= whole.len() && whole == #[trigger] whole.take(at) + part
                + whole.skip(at + part.len()),
{
    if occurs_in(whole, part) {
        let at = choose|at: int| occurs_at(whole, part, at);
        assert(whole.subrange(at, at + part.len()) == part);
        assert(whole =~= whole.take(at) + whole.subrange(at, at + part.len()) + whole.skip(
            at + part.len(),
        ));
        assert(whole == whole.take(at) + part + whole.skip(at + part.len()));
    }
    if exists|at: int|
        0 <= at && at + part.len() <= whole.len() && whole == #[trigger] whole.take(at) + part
            + whole.skip(at + part.len()) {
        let at = choose|at: int|
            0 <= at && at + part.len() <= whole.len() && whole == #[trigger] whole.take(at) + part
                + whole.skip(at + part.len());
        assert forall|k: int| 0 <= k < part.len() implies whole.subrange(at, at + part.len())[k]
            == part[k] by {
            assert((whole.take(at) + part + whole.skip(at + part.len()))[at + k] == part[k]);
        }
        assert(whole.subrange(at, at + part.len()) =~= part);
        assert(occurs_at(whole, part, at));
    }
}

proof fn lemma_joined_prefix(parts: Seq<Seq<char>>, more: Seq<Seq<char>>, separator: Seq<char>, n: nat)
    requires
        n <= parts.len() <= more.len(),
        forall|i: int| 0 <= i < parts.len() ==> parts[i] == more[i],
    ensures
        joined_upto(parts, separator, n) == joined_upto(more, separator, n),
    decreases n,
{
    if n > 1 {
        lemma_joined_prefix(parts, more, separator, (n - 1) as nat);
    }
}

/// Joining nothing gives nothing, one part itself, and a further part is appended behind a
/// separator.
pub proof fn parts_are_joined_by_separators(
    parts: Seq<Seq<char>>,
    separator: Seq<char>,
    last: Seq<char>,
)
    ensures
        joined(Seq::empty(), separator).len() == 0,
        joined(seq![last], separator) == last,
        parts.len() > 0 ==> joined(parts.push(last), separator) == joined(parts, separator) + separator
            + last,
{
    lemma_joined_prefix(parts, parts.push(last), separator, parts.len());
}

/// The texts of a list are the texts of its members, in their order.
pub proof fn texts_are_those_listed(list: Seq<String>)
    ensures
        texts(list).len() == list.len(),
        forall|i: int| 0 <= i < list.len() ==> #[trigger] texts(list)[i] == list[i]@,
{
}

} // verus!
