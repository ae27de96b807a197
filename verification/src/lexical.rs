//! The lexical level of the language: classes of bytes, runs of them,
//! comments, names and numbers. The text is taken as bytes; every byte that
//! the language gives a meaning is ASCII.

use vstd::prelude::*;
use vstd::string::StringSliceAdditionalSpecFns;

verus! {

/// A class of bytes that a run can be made of.
#[derive(Debug, Clone, Copy, PartialEq, Eq, Structural)]
pub enum ByteClass {
    /// A space or a tab.
    Blank,
    /// A space, a tab, a carriage return or a line feed.
    Whitespace,
    /// Any byte but a carriage return or a line feed.
    LineRest,
    /// A byte that may follow the first one of a name.
    NameRest,
    /// A byte that a condition may be written with.
    ConditionSign,
    /// A decimal digit.
    Digit,
    /// A binary digit or an underscore.
    Numeral2,
    /// An octal digit or an underscore.
    Numeral8,
    /// A decimal digit or an underscore.
    Numeral10,
    /// A hexadecimal digit or an underscore.
    Numeral16,
}

/// The byte is an ASCII letter.
pub open spec fn is_alpha(b: u8) -> bool {
    (('a' as u8) <= b && b <= ('z' as u8)) || (('A' as u8) <= b && b <= ('Z' as u8))
}

/// The byte is a decimal digit.
pub open spec fn is_digit(b: u8) -> bool {
    ('0' as u8) <= b && b <= ('9' as u8)
}

/// The value of a byte as a digit; 255 for a byte that is none.
pub open spec fn digit_value(b: u8) -> u8 {
    if ('0' as u8) <= b && b <= ('9' as u8) {
        (b - ('0' as u8)) as u8
    } else if ('a' as u8) <= b && b <= ('f' as u8) {
        (b - ('a' as u8) + 10) as u8
    } else if ('A' as u8) <= b && b <= ('F' as u8) {
        (b - ('A' as u8) + 10) as u8
    } else {
        255u8
    }
}

/// The byte is a digit of the radix.
pub open spec fn is_digit_of(b: u8, radix: u8) -> bool {
    digit_value(b) < radix
}

/// The byte is a space or a tab.
pub open spec fn is_blank(b: u8) -> bool {
    b == (' ' as u8) || b == ('\t' as u8)
}

/// The byte is a space, a tab, a carriage return or a line feed.
pub open spec fn is_whitespace(b: u8) -> bool {
    is_blank(b) || b == ('\r' as u8) || b == ('\n' as u8)
}

/// The byte is a carriage return or a line feed.
pub open spec fn is_line_end(b: u8) -> bool {
    b == ('\r' as u8) || b == ('\n' as u8)
}

/// The byte may begin a name: a letter, `_` or `~`.
pub open spec fn is_name_start(b: u8) -> bool {
    is_alpha(b) || b == ('_' as u8) || b == ('~' as u8)
}

/// The byte may follow in a name: a letter, a digit, `_`, `|`, `&` or `^`.
pub open spec fn is_name_rest(b: u8) -> bool {
    is_alpha(b) || is_digit(b) || b == ('_' as u8) || b == ('|' as u8) || b == ('&' as u8) || b
        == ('^' as u8)
}

/// The byte may stand in a condition: a letter, `=`, `!`, `>` or `<`.
pub open spec fn is_condition_sign(b: u8) -> bool {
    is_alpha(b) || b == ('=' as u8) || b == ('!' as u8) || b == ('>' as u8) || b == ('<' as u8)
}

/// The byte is a printable ASCII character, which a character literal may hold.
pub open spec fn is_printable(b: u8) -> bool {
    0x20 <= b && b <= 0x7e
}

/// The byte belongs to the class.
pub open spec fn in_class(class: ByteClass, b: u8) -> bool {
    match class {
        ByteClass::Blank => is_blank(b),
        ByteClass::Whitespace => is_whitespace(b),
        ByteClass::LineRest => !is_line_end(b),
        ByteClass::NameRest => is_name_rest(b),
        ByteClass::ConditionSign => is_condition_sign(b),
        ByteClass::Digit => is_digit(b),
        ByteClass::Numeral2 => is_digit_of(b, 2) || b == ('_' as u8),
        ByteClass::Numeral8 => is_digit_of(b, 8) || b == ('_' as u8),
        ByteClass::Numeral10 => is_digit_of(b, 10) || b == ('_' as u8),
        ByteClass::Numeral16 => is_digit_of(b, 16) || b == ('_' as u8),
    }
}

/// Where the run of bytes of the class that begins at `from` ends: the index
/// of the first byte from `from` on that is not of the class, or the length of
/// the text.
pub open spec fn run_end(s: Seq<u8>, from: int, class: ByteClass) -> int
    decreases s.len() - from,
{
    if 0 <= from < s.len() && in_class(class, s[from]) {
        run_end(s, from + 1, class)
    } else {
        from
    }
}

/// The byte at `at` is `b`.
pub open spec fn byte_is(s: Seq<u8>, at: int, b: char) -> bool {
    0 <= at < s.len() && s[at] == b as u8
}

/// The length of the comment sign at `at`: `//`, `;`, `#`, `--` or `%`; 0 where
/// there is none.
pub open spec fn comment_sign(s: Seq<u8>, at: int) -> int {
    if byte_is(s, at, '/') && byte_is(s, at + 1, '/') {
        2
    } else if byte_is(s, at, ';') || byte_is(s, at, '#') {
        1
    } else if byte_is(s, at, '-') && byte_is(s, at + 1, '-') {
        2
    } else if byte_is(s, at, '%') {
        1
    } else {
        0
    }
}

/// The index of the first `*/` from `from` on, if there is one.
pub open spec fn closing_sign(s: Seq<u8>, from: int) -> Option<int>
    decreases s.len() - from,
{
    if from < 0 || from + 2 > s.len() {
        None
    } else if s[from] == '*' as u8 && s[from + 1] == '/' as u8 {
        Some(from)
    } else {
        closing_sign(s, from + 1)
    }
}

/// Where the block comment that begins at `at` ends, if one begins there and
/// is closed.
pub open spec fn block_comment_end(s: Seq<u8>, at: int) -> Option<int> {
    if byte_is(s, at, '/') && byte_is(s, at + 1, '*') {
        match closing_sign(s, at + 2) {
            Some(close) => Some(close + 2),
            None => None,
        }
    } else {
        None
    }
}

/// Where the piece of text that means nothing and begins at `at` ends: a line
/// comment up to the end of its line, a block comment, or a run of whitespace.
/// `at` itself where no such piece begins.
pub open spec fn filler_end(s: Seq<u8>, at: int) -> int {
    if comment_sign(s, at) > 0 {
        run_end(s, at + comment_sign(s, at), ByteClass::LineRest)
    } else if block_comment_end(s, at) is Some {
        block_comment_end(s, at)->Some_0
    } else {
        run_end(s, at, ByteClass::Whitespace)
    }
}

/// Where the text that means nothing ends: the first index from `from` on at
/// which neither a comment nor whitespace begins.
pub open spec fn skipped(s: Seq<u8>, from: int) -> int
    decreases s.len() - from,
{
    let next = filler_end(s, from);
    if from < next <= s.len() {
        skipped(s, next)
    } else {
        from
    }
}

/// Where the name that begins at `at` ends, if one begins there.
pub open spec fn name_end(s: Seq<u8>, at: int) -> Option<int> {
    if 0 <= at < s.len() && is_name_start(s[at]) {
        Some(run_end(s, at + 1, ByteClass::NameRest))
    } else {
        None
    }
}

/// The class of the digits of a radix and the underscore.
pub open spec fn numeral_class(radix: u8) -> ByteClass {
    if radix == 2 {
        ByteClass::Numeral2
    } else if radix == 8 {
        ByteClass::Numeral8
    } else if radix == 16 {
        ByteClass::Numeral16
    } else {
        ByteClass::Numeral10
    }
}

/// Where the numeral that begins at `at` ends, if one begins there: a digit of
/// the radix, and after it digits and underscores.
pub open spec fn numeral_end(s: Seq<u8>, at: int, radix: u8) -> Option<int> {
    if 0 <= at < s.len() && is_digit_of(s[at], radix) {
        Some(run_end(s, at + 1, numeral_class(radix)))
    } else {
        None
    }
}

/// The number that the digits from `from` up to `to` write in the radix.
/// Underscores between them count for nothing.
pub open spec fn numeral_value(s: Seq<u8>, from: int, to: int, radix: u8) -> int
    decreases to - from,
{
    if to <= from {
        0
    } else if s[to - 1] == '_' as u8 {
        numeral_value(s, from, to - 1, radix)
    } else {
        numeral_value(s, from, to - 1, radix) * radix + digit_value(s[to - 1])
    }
}

/// The number that a text of digits writes in the radix.
pub open spec fn digits_value(digits: Seq<u8>, radix: u8) -> int
    decreases digits.len(),
{
    if digits.len() == 0 {
        0
    } else {
        digits_value(digits.drop_last(), radix) * radix + digit_value(digits.last())
    }
}

/// Every byte of the text is a digit of the radix.
pub open spec fn all_digits(digits: Seq<u8>, radix: u8) -> bool {
    forall|i: int| 0 <= i < digits.len() ==> is_digit_of(#[trigger] digits[i], radix)
}

/// The numeral of the radix at `at` whose value does not exceed `limit`: its
/// value and where it ends.
pub open spec fn numeral_at(s: Seq<u8>, at: int, radix: u8, limit: int) -> Option<(int, int)> {
    match numeral_end(s, at, radix) {
        Some(end) => if numeral_value(s, at, end, radix) <= limit {
            Some((numeral_value(s, at, end, radix), end))
        } else {
            None
        },
        None => None,
    }
}

/// The numeral at `at` that is marked by `0` and a letter, in either case.
pub open spec fn marked_numeral_at(
    s: Seq<u8>,
    at: int,
    radix: u8,
    small: char,
    capital: char,
    limit: int,
) -> Option<(int, int)> {
    if byte_is(s, at, '0') && (byte_is(s, at + 1, small) || byte_is(s, at + 1, capital)) {
        numeral_at(s, at + 2, radix, limit)
    } else {
        None
    }
}

/// The binary number at `at`, marked by `0b`.
pub open spec fn binary_at(s: Seq<u8>, at: int, limit: int) -> Option<(int, int)> {
    marked_numeral_at(s, at, 2, 'b', 'B', limit)
}

/// The octal number at `at`, marked by `0o`.
pub open spec fn octal_at(s: Seq<u8>, at: int, limit: int) -> Option<(int, int)> {
    marked_numeral_at(s, at, 8, 'o', 'O', limit)
}

/// The hexadecimal number at `at`, marked by `0x`.
pub open spec fn hexadecimal_at(s: Seq<u8>, at: int, limit: int) -> Option<(int, int)> {
    marked_numeral_at(s, at, 16, 'x', 'X', limit)
}

/// The decimal number at `at`.
pub open spec fn decimal_at(s: Seq<u8>, at: int, limit: int) -> Option<(int, int)> {
    numeral_at(s, at, 10, limit)
}

/// The number at `at`: the first of binary, octal, hexadecimal and decimal
/// that can be read there with a value up to `limit`.
pub open spec fn number_at(s: Seq<u8>, at: int, limit: int) -> Option<(int, int)> {
    if binary_at(s, at, limit) is Some {
        binary_at(s, at, limit)
    } else if octal_at(s, at, limit) is Some {
        octal_at(s, at, limit)
    } else if hexadecimal_at(s, at, limit) is Some {
        hexadecimal_at(s, at, limit)
    } else {
        decimal_at(s, at, limit)
    }
}

/// An exec result agrees with what the grammar gives for a number.
pub open spec fn number_agrees(r: Option<(u16, usize)>, expected: Option<(int, int)>) -> bool {
    match r {
        Some((value, end)) => expected == Some((value as int, end as int)),
        None => expected is None,
    }
}

/// The characters that the bytes of an ASCII text stand for.
pub open spec fn chars_of(t: Seq<u8>) -> Seq<char> {
    Seq::new(t.len(), |i: int| t[i] as char)
}

/// Every byte of the text is ASCII.
pub open spec fn all_ascii(t: Seq<u8>) -> bool {
    forall|i: int| 0 <= i < t.len() ==> #[trigger] t[i] < 128
}

/// Whether the byte belongs to the class.
pub fn belongs(class: ByteClass, b: u8) -> (r: bool)
    ensures
        r == in_class(class, b),
{
    let alpha = (b >= ('a' as u8) && b <= ('z' as u8)) || (b >= ('A' as u8) && b <= ('Z' as u8));
    let digit = b >= ('0' as u8) && b <= ('9' as u8);
    let hex = (b >= ('a' as u8) && b <= ('f' as u8)) || (b >= ('A' as u8) && b <= ('F' as u8));
    let underscore = b == ('_' as u8);
    match class {
        ByteClass::Blank => b == (' ' as u8) || b == ('\t' as u8),
        ByteClass::Whitespace => b == (' ' as u8) || b == ('\t' as u8) || b == ('\r' as u8) || b
            == ('\n' as u8),
        ByteClass::LineRest => !(b == ('\r' as u8) || b == ('\n' as u8)),
        ByteClass::NameRest => alpha || digit || underscore || b == ('|' as u8) || b == (
        '&' as u8) || b == ('^' as u8),
        ByteClass::ConditionSign => alpha || b == ('=' as u8) || b == ('!' as u8) || b == (
        '>' as u8) || b == ('<' as u8),
        ByteClass::Digit => digit,
        ByteClass::Numeral2 => b == ('0' as u8) || b == ('1' as u8) || underscore,
        ByteClass::Numeral8 => (b >= ('0' as u8) && b <= ('7' as u8)) || underscore,
        ByteClass::Numeral10 => digit || underscore,
        ByteClass::Numeral16 => digit || hex || underscore,
    }
}

/// Where the run of bytes of the class that begins at `from` ends.
pub fn scan_run(input: &[u8], from: usize, class: ByteClass) -> (end: usize)
    requires
        from <= input@.len(),
    ensures
        end == run_end(input@, from as int, class),
        from <= end <= input@.len(),
        forall|i: int| from <= i < end ==> in_class(class, #[trigger] input@[i]),
{
    let mut at: usize = from;
    while at < input.len() && belongs(class, input[at])
        invariant
            from <= at <= input@.len(),
            run_end(input@, from as int, class) == run_end(input@, at as int, class),
            forall|i: int| from <= i < at ==> in_class(class, #[trigger] input@[i]),
        decreases input@.len() - at,
    {
        at += 1;
    }
    at
}

/// The end of the comment sign at `at`, if one stands there.
pub fn comment_start(input: &[u8], at: usize) -> (r: Option<usize>)
    requires
        at <= input@.len(),
    ensures
        match r {
            Some(end) => comment_sign(input@, at as int) > 0 && end == at + comment_sign(
                input@,
                at as int,
            ) && end <= input@.len(),
            None => comment_sign(input@, at as int) == 0,
        },
{
    if at >= input.len() {
        return None;
    }
    let first = input[at];
    let second_is = |b: u8| -> (r: bool)
        ensures
            r == (at + 1 < input@.len() && input@[at + 1] == b),
        { at + 1 < input.len() && input[at + 1] == b };
    if first == ('/' as u8) && second_is('/' as u8) {
        Some(at + 2)
    } else if first == (';' as u8) || first == ('#' as u8) {
        Some(at + 1)
    } else if first == ('-' as u8) && second_is('-' as u8) {
        Some(at + 2)
    } else if first == ('%' as u8) {
        Some(at + 1)
    } else {
        None
    }
}

/// The end of the line comment at `at`, if one begins there: a comment sign
/// and what follows it on its line.
pub fn comment(input: &[u8], at: usize) -> (r: Option<usize>)
    requires
        at <= input@.len(),
    ensures
        match r {
            Some(end) => comment_sign(input@, at as int) > 0 && end == run_end(
                input@,
                at + comment_sign(input@, at as int),
                ByteClass::LineRest,
            ) && at < end <= input@.len(),
            None => comment_sign(input@, at as int) == 0,
        },
{
    match comment_start(input, at) {
        Some(after) => Some(scan_run(input, after, ByteClass::LineRest)),
        None => None,
    }
}

/// The end of the block comment at `at`, if one begins there and is closed.
pub fn multiline_comment(input: &[u8], at: usize) -> (r: Option<usize>)
    requires
        at <= input@.len(),
    ensures
        match r {
            Some(end) => block_comment_end(input@, at as int) == Some(end as int) && at < end
                <= input@.len(),
            None => block_comment_end(input@, at as int) is None,
        },
{
    if input.len() - at < 2 {
        return None;
    }
    if input[at] != ('/' as u8) || input[at + 1] != ('*' as u8) {
        return None;
    }
    let mut k: usize = at + 2;
    while input.len() - k >= 2
        invariant
            at + 2 <= k <= input@.len(),
            byte_is(input@, at as int, '/'),
            byte_is(input@, at + 1, '*'),
            closing_sign(input@, at + 2) == closing_sign(input@, k as int),
        decreases input@.len() - k,
    {
        if input[k] == ('*' as u8) && input[k + 1] == ('/' as u8) {
            assert(closing_sign(input@, k as int) == Some(k as int));
            return Some(k + 2);
        }
        k += 1;
    }
    None
}

/// The end of the piece of text that means nothing and begins at `at`; `at`
/// itself where none begins.
fn filler(input: &[u8], at: usize) -> (end: usize)
    requires
        at <= input@.len(),
    ensures
        end == filler_end(input@, at as int),
        at <= end <= input@.len(),
{
    if let Some(end) = comment(input, at) {
        end
    } else if let Some(end) = multiline_comment(input, at) {
        end
    } else {
        scan_run(input, at, ByteClass::Whitespace)
    }
}

/// Passes over comments and whitespace: the first index from `from` on at
/// which neither begins.
pub fn skip(input: &[u8], from: usize) -> (end: usize)
    requires
        from <= input@.len(),
    ensures
        end == skipped(input@, from as int),
        from <= end <= input@.len(),
{
    let mut at: usize = from;
    loop
        invariant
            from <= at <= input@.len(),
            skipped(input@, from as int) == skipped(input@, at as int),
        decreases input@.len() - at,
    {
        let next = filler(input, at);
        if next <= at {
            return at;
        }
        at = next;
    }
}

/// The end of the name at `at`, if one begins there.
pub fn identifier(input: &[u8], at: usize) -> (r: Option<usize>)
    requires
        at <= input@.len(),
    ensures
        match r {
            Some(end) => name_end(input@, at as int) == Some(end as int) && at < end
                <= input@.len() && all_ascii(input@.subrange(at as int, end as int)),
            None => name_end(input@, at as int) is None,
        },
{
    if at >= input.len() {
        return None;
    }
    let b = input[at];
    let alpha = (b >= ('a' as u8) && b <= ('z' as u8)) || (b >= ('A' as u8) && b <= ('Z' as u8));
    if alpha || b == ('_' as u8) || b == ('~' as u8) {
        let end = scan_run(input, at + 1, ByteClass::NameRest);
        assert forall|i: int| 0 <= i < end - at implies #[trigger] input@.subrange(
            at as int,
            end as int,
        )[i] < 128 by {
            if i > 0 {
                assert(in_class(ByteClass::NameRest, input@[at + i]));
            }
        }
        Some(end)
    } else {
        None
    }
}

/// `num::Num::from_str_radix` for `u16`. Of a text that is made of digits of the
/// radix alone it gives the number that the digits write, where that number
/// fits sixteen bits, and nothing where it does not.
#[verifier::external_body]
fn u16_from_text(text: &str, radix: u8) -> (r: Option<u16>)
    requires
        text.spec_bytes().len() > 0,
        all_digits(text.spec_bytes(), radix),
        2 <= radix <= 16,
    ensures
        r == (if digits_value(text.spec_bytes(), radix) <= 0xffff {
            Some(digits_value(text.spec_bytes(), radix) as u16)
        } else {
            None
        }),
{
    <u16 as num::Num>::from_str_radix(text, radix as u32).ok()
}

/// `std::str::from_utf8`. A string that it gives is made of the very bytes
/// that it was given. It gives one for every ASCII text, and that string
/// holds one character for each byte.
#[verifier::external_body]
fn ascii_str(bytes: &[u8]) -> (r: Option<&str>)
    ensures
        all_ascii(bytes@) ==> r is Some,
        r matches Some(text) ==> text.spec_bytes() == bytes@,
        r matches Some(text) ==> all_ascii(bytes@) ==> text@ == chars_of(bytes@),
{
    std::str::from_utf8(bytes).ok()
}

/// The text from `from` up to `to` as a string. The bytes must be ASCII.
pub(crate) fn text_of(input: &[u8], from: usize, to: usize) -> (r: String)
    requires
        from <= to <= input@.len(),
        all_ascii(input@.subrange(from as int, to as int)),
    ensures
        r@ == chars_of(input@.subrange(from as int, to as int)),
{
    let part = vstd::slice::slice_subrange(input, from, to);
    match ascii_str(part) {
        Some(text) => text.to_owned(),
        None => vstd::pervasive::unreached(),
    }
}

/// Whether the byte is a digit of the radix.
fn digit_of(b: u8, radix: u8) -> (r: bool)
    requires
        radix == 2 || radix == 8 || radix == 10 || radix == 16,
    ensures
        r == is_digit_of(b, radix),
{
    let digit = b >= ('0' as u8) && b <= ('9' as u8);
    if radix == 16 {
        digit || (b >= ('a' as u8) && b <= ('f' as u8)) || (b >= ('A' as u8) && b <= ('F' as u8))
    } else {
        digit && b - ('0' as u8) < radix
    }
}

/// The numeral of the radix at `at` with a value up to `limit`.
pub fn numeral(input: &[u8], at: usize, radix: u8, limit: u16) -> (r: Option<(u16, usize)>)
    requires
        at <= input@.len(),
        radix == 2 || radix == 8 || radix == 10 || radix == 16,
    ensures
        number_agrees(r, numeral_at(input@, at as int, radix, limit as int)),
        r matches Some((_, end)) ==> at < end <= input@.len(),
{
    if at >= input.len() || !digit_of(input[at], radix) {
        return None;
    }
    let class = if radix == 2 {
        ByteClass::Numeral2
    } else if radix == 8 {
        ByteClass::Numeral8
    } else if radix == 16 {
        ByteClass::Numeral16
    } else {
        ByteClass::Numeral10
    };
    let end = scan_run(input, at + 1, class);
    let mut digits: Vec<u8> = Vec::new();
    let mut k: usize = at;
    while k < end
        invariant
            at <= k <= end <= input@.len(),
            class == numeral_class(radix),
            radix == 2 || radix == 8 || radix == 10 || radix == 16,
            is_digit_of(input@[at as int], radix),
            forall|i: int| at < i < end ==> in_class(class, #[trigger] input@[i]),
            all_digits(digits@, radix),
            k > at ==> digits@.len() > 0,
            digits_value(digits@, radix) == numeral_value(input@, at as int, k as int, radix),
            0 <= digits_value(digits@, radix),
        decreases end - k,
    {
        let b = input[k];
        if b != ('_' as u8) {
            let ghost earlier = digits@;
            digits.push(b);
            assert(digits@.drop_last() =~= earlier);
            assert(0 <= digits_value(earlier, radix) * radix) by (nonlinear_arith)
                requires
                    0 <= digits_value(earlier, radix),
                    0 <= radix,
            ;
        }
        k += 1;
    }
    assert(numeral_end(input@, at as int, radix) == Some(end as int));
    assert forall|i: int| 0 <= i < digits@.len() implies #[trigger] digits@[i] < 128 by {
        assert(is_digit_of(digits@[i], radix));
    }
    let text = match ascii_str(digits.as_slice()) {
        Some(text) => text,
        None => vstd::pervasive::unreached(),
    };
    match u16_from_text(text, radix) {
        Some(value) => if value <= limit {
            Some((value, end))
        } else {
            None
        },
        None => None,
    }
}

/// The number at `at` that is marked by `0` and one of two letters.
fn marked_numeral(
    input: &[u8],
    at: usize,
    radix: u8,
    small: char,
    capital: char,
    limit: u16,
) -> (r: Option<(u16, usize)>)
    requires
        at <= input@.len(),
        radix == 2 || radix == 8 || radix == 10 || radix == 16,
        (small as u32) < 128,
        (capital as u32) < 128,
    ensures
        number_agrees(
            r,
            marked_numeral_at(input@, at as int, radix, small, capital, limit as int),
        ),
        r matches Some((_, end)) ==> at < end <= input@.len(),
{
    if input.len() - at < 2 {
        return None;
    }
    if input[at] == ('0' as u8) && (input[at + 1] == small as u8 || input[at + 1]
        == capital as u8) {
        numeral(input, at + 2, radix, limit)
    } else {
        None
    }
}

/// The binary number at `at` with a value up to `limit`.
pub fn binary(input: &[u8], at: usize, limit: u16) -> (r: Option<(u16, usize)>)
    requires
        at <= input@.len(),
    ensures
        number_agrees(r, binary_at(input@, at as int, limit as int)),
        r matches Some((_, end)) ==> at < end <= input@.len(),
{
    marked_numeral(input, at, 2, 'b', 'B', limit)
}

/// The octal number at `at` with a value up to `limit`.
pub fn octal(input: &[u8], at: usize, limit: u16) -> (r: Option<(u16, usize)>)
    requires
        at <= input@.len(),
    ensures
        number_agrees(r, octal_at(input@, at as int, limit as int)),
        r matches Some((_, end)) ==> at < end <= input@.len(),
{
    marked_numeral(input, at, 8, 'o', 'O', limit)
}

/// The hexadecimal number at `at` with a value up to `limit`.
pub fn hexadecimal(input: &[u8], at: usize, limit: u16) -> (r: Option<(u16, usize)>)
    requires
        at <= input@.len(),
    ensures
        number_agrees(r, hexadecimal_at(input@, at as int, limit as int)),
        r matches Some((_, end)) ==> at < end <= input@.len(),
{
    marked_numeral(input, at, 16, 'x', 'X', limit)
}

/// The decimal number at `at` with a value up to `limit`.
pub fn decimal(input: &[u8], at: usize, limit: u16) -> (r: Option<(u16, usize)>)
    requires
        at <= input@.len(),
    ensures
        number_agrees(r, decimal_at(input@, at as int, limit as int)),
        r matches Some((_, end)) ==> at < end <= input@.len(),
{
    numeral(input, at, 10, limit)
}

/// The number at `at` with a value up to `limit`, in any of the four notations.
pub fn number(input: &[u8], at: usize, limit: u16) -> (r: Option<(u16, usize)>)
    requires
        at <= input@.len(),
    ensures
        number_agrees(r, number_at(input@, at as int, limit as int)),
        r matches Some((_, end)) ==> at < end <= input@.len(),
{
    if let Some(found) = binary(input, at, limit) {
        Some(found)
    } else if let Some(found) = octal(input, at, limit) {
        Some(found)
    } else if let Some(found) = hexadecimal(input, at, limit) {
        Some(found)
    } else {
        decimal(input, at, limit)
    }
}

} // verus!
