//! Text as sequences of characters: whitespace and trimming, splitting at a
//! separator, lines, and unsigned decimal numbers.
//!
//! Each notion is a spec function on `Seq<char>`; the executable functions
//! work on slices of characters and are proved against them.

use vstd::prelude::*;
use vstd::slice::slice_subrange;
use vstd::std_specs::iter::IteratorSpec;

verus! {

/// `String::push` appends one character to the end of the string.
pub assume_specification[ String::push ](s: &mut String, c: char)
    ensures
        final(s)@ == old(s)@.push(c),
;

/// What `String::from_utf8_lossy` makes of `bytes`: the text that they
/// encode, each ill-formed stretch replaced by U+FFFD.
pub uninterp spec fn lossy_decoding(bytes: Seq<u8>) -> Seq<char>;

/// Calls `String::from_utf8_lossy`, which never fails. On well-formed UTF-8
/// the result is the text that the bytes encode.
#[verifier::external_body]
fn from_utf8_lossy(bytes: &[u8]) -> (text: String)
    ensures
        text@ == lossy_decoding(bytes@),
        vstd::utf8::valid_utf8(bytes@) ==> text@ == vstd::utf8::decode_utf8(bytes@),
{
    String::from_utf8_lossy(bytes).into_owned()
}

/// The text of a response: what the bytes encode where they are well-formed
/// UTF-8, and a lossy reading of them where they are not.
pub fn decode_text(content: &[u8]) -> (text: String)
    ensures
        text@ == lossy_decoding(content@),
        vstd::utf8::valid_utf8(content@) ==> text@ == vstd::utf8::decode_utf8(content@),
{
    from_utf8_lossy(content)
}

/// The characters of `s`, in order.
pub fn chars_of(s: &str) -> (chars: Vec<char>)
    ensures
        chars@ == s@,
{
    let mut chars: Vec<char> = Vec::new();
    for c in it: s.chars()
        invariant
            it.seq() == s@,
            chars@ == it.seq().take(it.index()),
    {
        chars.push(c);
    }
    chars
}

/// The string made of `chars`.
pub fn string_of(chars: &[char]) -> (s: String)
    ensures
        s@ == chars@,
{
    let mut s = String::new();
    let mut i: usize = 0;
    while i < chars.len()
        invariant
            i <= chars.len(),
            s@ == chars@.take(i as int),
        decreases chars.len() - i,
    {
        s.push(chars[i]);
        assert(chars@.take(i + 1) == chars@.take(i as int).push(chars@[i as int]));
        i += 1;
    }
    assert(chars@.take(i as int) == chars@);
    s
}

/// Whether `c` has the Unicode property `White_Space`.
pub open spec fn is_whitespace(c: char) -> bool {
    ||| '\u{9}' <= c <= '\u{d}'
    ||| c == ' '
    ||| c == '\u{85}'
    ||| c == '\u{a0}'
    ||| c == '\u{1680}'
    ||| '\u{2000}' <= c <= '\u{200a}'
    ||| c == '\u{2028}'
    ||| c == '\u{2029}'
    ||| c == '\u{202f}'
    ||| c == '\u{205f}'
    ||| c == '\u{3000}'
}

/// Whether `s` holds nothing but whitespace; the empty sequence does.
pub open spec fn is_blank(s: Seq<char>) -> bool {
    forall|i: int| 0 <= i < s.len() ==> is_whitespace(#[trigger] s[i])
}

/// `s` without its leading whitespace.
pub open spec fn trim_start(s: Seq<char>) -> Seq<char>
    decreases s.len(),
{
    if s.len() > 0 && is_whitespace(s.first()) {
        trim_start(s.drop_first())
    } else {
        s
    }
}

/// `s` without its trailing whitespace.
pub open spec fn trim_end(s: Seq<char>) -> Seq<char>
    decreases s.len(),
{
    if s.len() > 0 && is_whitespace(s.last()) {
        trim_end(s.drop_last())
    } else {
        s
    }
}

/// `s` without its leading and trailing whitespace.
pub open spec fn trim(s: Seq<char>) -> Seq<char> {
    trim_end(trim_start(s))
}

proof fn lemma_trim_start_bounds(s: Seq<char>) -> (a: int)
    ensures
        0 <= a <= s.len(),
        trim_start(s) == s.subrange(a, s.len() as int),
        is_blank(s.subrange(0, a)),
        a < s.len() ==> !is_whitespace(s[a]),
    decreases s.len(),
{
    if s.len() > 0 && is_whitespace(s.first()) {
        let a = lemma_trim_start_bounds(s.drop_first());
        assert(s.drop_first().subrange(a, s.len() - 1) == s.subrange(a + 1, s.len() as int));
        assert forall|i: int| 0 <= i < a + 1 implies is_whitespace(
            #[trigger] s.subrange(0, a + 1)[i],
        ) by {
            if i > 0 {
                assert(s.drop_first().subrange(0, a)[i - 1] == s[i]);
            }
        }
        a + 1
    } else {
        assert(s.subrange(0, s.len() as int) == s);
        0
    }
}

proof fn lemma_trim_end_bounds(s: Seq<char>) -> (b: int)
    ensures
        0 <= b <= s.len(),
        trim_end(s) == s.subrange(0, b),
        is_blank(s.subrange(b, s.len() as int)),
        0 < b ==> !is_whitespace(s[b - 1]),
    decreases s.len(),
{
    if s.len() > 0 && is_whitespace(s.last()) {
        let b = lemma_trim_end_bounds(s.drop_last());
        assert(s.drop_last().subrange(0, b) == s.subrange(0, b));
        assert forall|i: int| 0 <= i < s.len() - b implies is_whitespace(
            #[trigger] s.subrange(b, s.len() as int)[i],
        ) by {
            if b + i < s.len() - 1 {
                assert(s.drop_last().subrange(b, s.len() - 1)[i] == s[b + i]);
            }
        }
        b
    } else {
        assert(s.subrange(0, s.len() as int) == s);
        s.len() as int
    }
}

/// Trimming cuts a stretch out of `s`: what stands before it and after it is
/// whitespace, and it neither starts nor ends with whitespace. It is empty
/// exactly where `s` is blank.
pub proof fn lemma_trim_bounds(s: Seq<char>) -> (bounds: (int, int))
    ensures
        0 <= bounds.0 <= bounds.1 <= s.len(),
        trim(s) == s.subrange(bounds.0, bounds.1),
        is_blank(s.subrange(0, bounds.0)),
        is_blank(s.subrange(bounds.1, s.len() as int)),
        bounds.0 < bounds.1 ==> !is_whitespace(s[bounds.0]) && !is_whitespace(s[bounds.1 - 1]),
        bounds.0 == bounds.1 <==> is_blank(s),
{
    let a = lemma_trim_start_bounds(s);
    let rest = s.subrange(a, s.len() as int);
    let b = lemma_trim_end_bounds(rest);
    assert(rest.subrange(0, b) == s.subrange(a, a + b));
    assert forall|i: int| 0 <= i < s.len() - (a + b) implies is_whitespace(
        #[trigger] s.subrange(a + b, s.len() as int)[i],
    ) by {
        assert(rest.subrange(b, rest.len() as int)[i] == s[a + b + i]);
    }
    if b == 0 {
        assert forall|i: int| 0 <= i < s.len() implies is_whitespace(#[trigger] s[i]) by {
            if i < a {
                assert(s.subrange(0, a)[i] == s[i]);
            } else {
                assert(rest.subrange(b, rest.len() as int)[i - a] == s[i]);
            }
        }
    } else {
        assert(rest[0] == s[a]);
        assert(rest[b - 1] == s[a + b - 1]);
    }
    (a, a + b)
}

pub fn is_whitespace_char(c: char) -> (b: bool)
    ensures
        b == is_whitespace(c),
{
    ('\u{9}' <= c && c <= '\u{d}') || c == ' ' || c == '\u{85}' || c == '\u{a0}' || c
        == '\u{1680}' || ('\u{2000}' <= c && c <= '\u{200a}') || c == '\u{2028}' || c
        == '\u{2029}' || c == '\u{202f}' || c == '\u{205f}' || c == '\u{3000}'
}

/// `chars` without its leading and trailing whitespace.
pub fn trim_chars<'a>(chars: &'a [char]) -> (trimmed: &'a [char])
    ensures
        trimmed@ == trim(chars@),
        trimmed@.len() == 0 <==> is_blank(chars@),
{
    let n = chars.len();
    let mut start: usize = 0;
    assert(chars@.subrange(0, n as int) == chars@);
    while start < n && is_whitespace_char(chars[start])
        invariant
            start <= n == chars.len(),
            trim_start(chars@) == trim_start(chars@.subrange(start as int, n as int)),
            is_blank(chars@.subrange(0, start as int)),
        decreases n - start,
    {
        assert(chars@.subrange(start as int, n as int).drop_first() == chars@.subrange(
            start + 1,
            n as int,
        ));
        assert forall|i: int| 0 <= i < start + 1 implies is_whitespace(
            #[trigger] chars@.subrange(0, start + 1)[i],
        ) by {
            if i < start {
                assert(chars@.subrange(0, start as int)[i] == chars@[i]);
            }
        }
        start += 1;
    }
    let mut end: usize = n;
    while end > start && is_whitespace_char(chars[end - 1])
        invariant
            start <= end <= n == chars.len(),
            is_blank(chars@.subrange(0, start as int)),
            start < n ==> start < end && !is_whitespace(chars@[start as int]),
            trim_end(chars@.subrange(start as int, n as int)) == trim_end(
                chars@.subrange(start as int, end as int),
            ),
        decreases end,
    {
        assert(chars@.subrange(start as int, end as int).drop_last() == chars@.subrange(
            start as int,
            end - 1,
        ));
        end -= 1;
    }
    proof {
        if start < n {
            assert(!is_whitespace(chars@[start as int]));
        } else {
            assert forall|i: int| 0 <= i < chars@.len() implies is_whitespace(
                #[trigger] chars@[i],
            ) by {
                assert(chars@.subrange(0, start as int)[i] == chars@[i]);
            }
        }
    }
    slice_subrange(chars, start, end)
}

/// The pieces of `s` between occurrences of `sep`, in order. There is one
/// more piece than there are separators, so the result is never empty.
pub open spec fn split(s: Seq<char>, sep: char) -> Seq<Seq<char>>
    decreases s.len(),
{
    if s.len() == 0 {
        seq![Seq::empty()]
    } else {
        let before = split(s.drop_last(), sep);
        if s.last() == sep {
            before.push(Seq::empty())
        } else {
            before.drop_last().push(before.last().push(s.last()))
        }
    }
}

/// The contents of the slices in `pieces`.
pub open spec fn views(pieces: Seq<&[char]>) -> Seq<Seq<char>> {
    pieces.map_values(|piece: &[char]| piece@)
}

pub proof fn lemma_split_nonempty(s: Seq<char>, sep: char)
    ensures
        split(s, sep).len() >= 1,
    decreases s.len(),
{
    if s.len() > 0 {
        lemma_split_nonempty(s.drop_last(), sep);
    }
}

/// A sequence that holds no separator is its own single piece.
pub proof fn lemma_split_without_separator(s: Seq<char>, sep: char)
    requires
        !s.contains(sep),
    ensures
        split(s, sep) == seq![s],
    decreases s.len(),
{
    if s.len() > 0 {
        let init = s.drop_last();
        assert forall|i: int| 0 <= i < init.len() implies init[i] != sep by {
            assert(s[i] == init[i]);
            assert(s.contains(s[i]));
        }
        assert(!init.contains(sep));
        lemma_split_without_separator(init, sep);
        assert(s.contains(s.last()));
        assert(init.push(s.last()) == s);
        assert(seq![init].drop_last().push(init.push(s.last())) == seq![s]);
    } else {
        assert(s == Seq::<char>::empty());
    }
}

/// Around a separator the two sides are split apart from each other: the
/// pieces of `a`, then those of `b`.
pub proof fn lemma_split_at_separator(a: Seq<char>, b: Seq<char>, sep: char)
    ensures
        split(a + seq![sep] + b, sep) == split(a, sep) + split(b, sep),
    decreases b.len(),
{
    let whole = a + seq![sep] + b;
    lemma_split_nonempty(a, sep);
    if b.len() == 0 {
        assert(whole.drop_last() == a);
        assert(split(a, sep).push(Seq::empty()) == split(a, sep) + seq![Seq::<char>::empty()]);
    } else {
        let init = b.drop_last();
        lemma_split_at_separator(a, init, sep);
        lemma_split_nonempty(init, sep);
        assert(whole.drop_last() == a + seq![sep] + init);
        assert(whole.last() == b.last());
        let left = split(a, sep);
        let right = split(init, sep);
        if b.last() == sep {
            assert((left + right).push(Seq::empty()) == left + right.push(Seq::empty()));
        } else {
            let grown = right.last().push(b.last());
            assert((left + right).last() == right.last());
            assert((left + right).drop_last().push(grown) == left + right.drop_last().push(grown));
        }
    }
}

/// The pieces of `chars` between occurrences of `sep`.
pub fn split_chars<'a>(chars: &'a [char], sep: char) -> (pieces: Vec<&'a [char]>)
    ensures
        views(pieces@) == split(chars@, sep),
{
    let mut pieces: Vec<&'a [char]> = Vec::new();
    let mut start: usize = 0;
    let mut i: usize = 0;
    assert(chars@.subrange(0, 0) == Seq::<char>::empty());
    assert(views(pieces@).push(Seq::<char>::empty()) == seq![Seq::<char>::empty()]);
    assert(chars@.take(0) == Seq::<char>::empty());
    while i < chars.len()
        invariant
            start <= i <= chars.len(),
            split(chars@.take(i as int), sep) == views(pieces@).push(
                chars@.subrange(start as int, i as int),
            ),
        decreases chars.len() - i,
    {
        let ghost before = views(pieces@);
        let ghost piece = chars@.subrange(start as int, i as int);
        assert(chars@.take(i + 1).drop_last() == chars@.take(i as int));
        if chars[i] == sep {
            pieces.push(slice_subrange(chars, start, i));
            start = i + 1;
            assert(views(pieces@) == before.push(piece));
            assert(chars@.subrange(start as int, i + 1) == Seq::<char>::empty());
        } else {
            assert(chars@.subrange(start as int, i + 1) == piece.push(chars@[i as int]));
            assert(before.push(piece).drop_last() == before);
        }
        i += 1;
    }
    assert(chars@.take(i as int) == chars@);
    let ghost before = views(pieces@);
    pieces.push(slice_subrange(chars, start, i));
    assert(views(pieces@) == before.push(chars@.subrange(start as int, i as int)));
    pieces
}

/// `s` without the carriage return at its end, if it has one.
pub open spec fn strip_carriage_return(s: Seq<char>) -> Seq<char> {
    if s.len() > 0 && s.last() == '\r' {
        s.drop_last()
    } else {
        s
    }
}

/// The lines of `text`. A line ends at a line feed, or at the end of the
/// text; a carriage return just before the line feed belongs to the line
/// ending. Text that ends in a line feed has no further, empty line.
pub open spec fn lines(text: Seq<char>) -> Seq<Seq<char>> {
    let pieces = split(text, '\n');
    let ended = pieces.drop_last().map_values(|piece: Seq<char>| strip_carriage_return(piece));
    if pieces.last().len() == 0 {
        ended
    } else {
        ended.push(pieces.last())
    }
}

/// The lines of `text`.
pub fn split_lines<'a>(text: &'a [char]) -> (found: Vec<&'a [char]>)
    ensures
        views(found@) == lines(text@),
{
    let mut found: Vec<&'a [char]> = Vec::new();
    let mut start: usize = 0;
    let mut i: usize = 0;
    assert(text@.take(0) == Seq::<char>::empty());
    assert(text@.subrange(0, 0) == Seq::<char>::empty());
    assert(views(found@) == split(text@.take(0), '\n').drop_last().map_values(
        |piece: Seq<char>| strip_carriage_return(piece),
    ));
    while i < text.len()
        invariant
            start <= i <= text.len(),
            split(text@.take(i as int), '\n').len() >= 1,
            split(text@.take(i as int), '\n').last() == text@.subrange(start as int, i as int),
            views(found@) == split(text@.take(i as int), '\n').drop_last().map_values(
                |piece: Seq<char>| strip_carriage_return(piece),
            ),
        decreases text.len() - i,
    {
        let ghost before = split(text@.take(i as int), '\n');
        let ghost ended = views(found@);
        let ghost piece = text@.subrange(start as int, i as int);
        assert(text@.take(i + 1).drop_last() == text@.take(i as int));
        if text[i] == '\n' {
            let end: usize = if i > start && text[i - 1] == '\r' {
                i - 1
            } else {
                i
            };
            assert(text@.subrange(start as int, end as int) == strip_carriage_return(piece));
            found.push(slice_subrange(text, start, end));
            start = i + 1;
            assert(before.push(Seq::empty()).drop_last() == before);
            assert(before == before.drop_last().push(piece));
            assert(views(found@) == ended.push(strip_carriage_return(piece)));
            assert(text@.subrange(start as int, i + 1) == Seq::<char>::empty());
        } else {
            assert(text@.subrange(start as int, i + 1) == piece.push(text@[i as int]));
            assert(before.drop_last().push(piece.push(text@[i as int])).drop_last()
                == before.drop_last());
        }
        i += 1;
    }
    assert(text@.take(i as int) == text@);
    if start < i {
        let ghost ended = views(found@);
        found.push(slice_subrange(text, start, i));
        assert(views(found@) == ended.push(text@.subrange(start as int, i as int)));
    }
    found
}

/// Whether `c` is one of the ASCII digits `0` to `9`.
pub open spec fn is_digit(c: char) -> bool {
    '0' <= c <= '9'
}

/// The number that the digit `c` stands for.
pub open spec fn digit_value(c: char) -> nat
    recommends
        is_digit(c),
{
    (c as u32 - '0' as u32) as nat
}

/// The digit that stands for `d`.
pub open spec fn digit_char(d: nat) -> char
    recommends
        d < 10,
{
    (d + '0' as u32) as char
}

pub open spec fn all_digits(s: Seq<char>) -> bool {
    forall|i: int| 0 <= i < s.len() ==> is_digit(#[trigger] s[i])
}

/// The number that the digits `s` write in base ten; leading zeros count for
/// nothing.
pub open spec fn decimal_value(s: Seq<char>) -> nat
    decreases s.len(),
{
    if s.len() == 0 {
        0
    } else {
        decimal_value(s.drop_last()) * 10 + digit_value(s.last())
    }
}

/// The number that `digits` writes, if there is at least one digit, nothing
/// but digits, and the number is at most `max`.
pub open spec fn parse_digits(digits: Seq<char>, max: nat) -> Option<nat> {
    if digits.len() > 0 && all_digits(digits) && decimal_value(digits) <= max {
        Some(decimal_value(digits))
    } else {
        None
    }
}

/// The number that `s` writes, if `s` is an optional `+` followed by at
/// least one digit and the number is at most `max`.
pub open spec fn parse_decimal(s: Seq<char>, max: nat) -> Option<nat> {
    if s.len() > 0 && s[0] == '+' {
        parse_digits(s.drop_first(), max)
    } else {
        parse_digits(s, max)
    }
}

/// `n` in base ten, without sign or leading zeros.
pub open spec fn decimal_digits(n: nat) -> Seq<char>
    decreases n,
{
    if n < 10 {
        seq![digit_char(n)]
    } else {
        decimal_digits(n / 10).push(digit_char(n % 10))
    }
}

/// A longer run of digits writes a number that is no smaller.
pub proof fn lemma_decimal_value_grows(s: Seq<char>, k: int)
    requires
        0 <= k <= s.len(),
        all_digits(s),
    ensures
        decimal_value(s.take(k)) <= decimal_value(s),
    decreases s.len() - k,
{
    if k < s.len() {
        lemma_decimal_value_grows(s, k + 1);
        assert(s.take(k + 1).drop_last() == s.take(k));
        assert(is_digit(s[k]));
    } else {
        assert(s.take(k) == s);
    }
}

proof fn lemma_digit_char(d: nat)
    requires
        d < 10,
    ensures
        is_digit(digit_char(d)),
        digit_value(digit_char(d)) == d,
{
    assert('0' as u32 == 48);
    assert('9' as u32 == 57);
    assert(digit_char(d) as u32 == d + 48);
}

/// Reading back what `decimal_digits` wrote gives the number again, under
/// any limit that admits it.
pub proof fn lemma_decimal_round_trip(n: nat, max: nat)
    requires
        n <= max,
    ensures
        decimal_digits(n).len() >= 1,
        all_digits(decimal_digits(n)),
        decimal_value(decimal_digits(n)) == n,
        parse_decimal(decimal_digits(n), max) == Some(n),
    decreases n,
{
    let digits = decimal_digits(n);
    lemma_digit_char(n % 10);
    if n < 10 {
        assert(digits.drop_last() == Seq::<char>::empty());
        assert(decimal_value(digits.drop_last()) == 0);
    } else {
        lemma_decimal_round_trip(n / 10, max);
        assert(digits.drop_last() == decimal_digits(n / 10));
    }
    assert(is_digit(digits[0]));
}

/// Reads an unsigned decimal number of at most `max`.
pub fn parse_number(chars: &[char], max: u64) -> (number: Option<u64>)
    ensures
        number matches Some(n) ==> parse_decimal(chars@, max as nat) == Some(n as nat),
        number is None ==> parse_decimal(chars@, max as nat) is None,
{
    let n = chars.len();
    let start: usize = if n > 0 && chars[0] == '+' {
        1
    } else {
        0
    };
    if start == n {
        return None;
    }
    let ghost digits = chars@.subrange(start as int, n as int);
    assert(digits == if start == 1 {
        chars@.drop_first()
    } else {
        chars@
    });
    let mut value: u64 = 0;
    let mut i: usize = start;
    assert(digits.take(0) == Seq::<char>::empty());
    while i < n
        invariant
            start <= i <= n == chars.len(),
            digits == chars@.subrange(start as int, n as int),
            parse_decimal(chars@, max as nat) == parse_digits(digits, max as nat),
            all_digits(digits.take(i - start)),
            value == decimal_value(digits.take(i - start)),
            value <= max,
        decreases n - i,
    {
        let c = chars[i];
        assert(digits[i - start] == c);
        if !('0' <= c && c <= '9') {
            assert(!is_digit(digits[i - start]));
            return None;
        }
        let d: u64 = (c as u32 - '0' as u32) as u64;
        assert(digits.take(i - start + 1).drop_last() == digits.take(i - start));
        assert(digits.take(i - start + 1).last() == c);
        if value > max / 10 || (value == max / 10 && d > max % 10) {
            proof {
                if all_digits(digits) {
                    lemma_decimal_value_grows(digits, i - start + 1);
                }
            }
            return None;
        }
        value = value * 10 + d;
        i += 1;
    }
    assert(digits.take(i - start) == digits);
    Some(value)
}

/// Appends `n` in base ten to `out`.
pub fn push_decimal(out: &mut String, n: u64)
    ensures
        final(out)@ == old(out)@ + decimal_digits(n as nat),
    decreases n,
{
    if n >= 10 {
        push_decimal(out, n / 10);
    }
    let d: u8 = (n % 10) as u8;
    out.push((d + 48) as char);
}

} // verus!
