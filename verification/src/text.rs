use vstd::prelude::*;
use vstd::string::{StringExecFns, StringSliceAdditionalSpecFns};
use vstd::utf8::{
    encode_utf8_decode_utf8, encode_utf8_valid_utf8, is_char_boundary, valid_utf8,
    valid_utf8_split,
};

verus! {

/// Compares two string slices for equality, byte by byte.
pub fn str_eq(a: &str, b: &str) -> (r: bool)
    ensures
        r == (a@ == b@),
{
    let x = a.as_bytes();
    let y = b.as_bytes();
    proof {
        encode_utf8_decode_utf8(a@);
        encode_utf8_decode_utf8(b@);
    }
    if x.len() != y.len() {
        return false;
    }
    let mut i: usize = 0;
    while i < x.len()
        invariant
            i <= x.len(),
            x.len() == y.len(),
            x@ == a.spec_bytes(),
            y@ == b.spec_bytes(),
            forall|j: int| 0 <= j < i ==> x@[j] == y@[j],
        decreases x.len() - i,
    {
        if x[i] != y[i] {
            return false;
        }
        i += 1;
    }
    assert(x@ =~= y@);
    true
}

/// The byte is an ASCII decimal digit.
pub open spec fn is_digit(b: u8) -> bool {
    48 <= b <= 57
}

/// Every byte of the sequence is a decimal digit.
pub open spec fn all_digits(s: Seq<u8>) -> bool {
    forall|i: int| 0 <= i < s.len() ==> is_digit(#[trigger] s[i])
}

/// The number that a sequence of decimal digits writes.
pub open spec fn digits_value(s: Seq<u8>) -> nat
    decreases s.len(),
{
    if s.len() == 0 {
        0
    } else {
        digits_value(s.drop_last()) * 10 + (s.last() - 48) as nat
    }
}

/// The number written by a field of text: the field must be one or more
/// decimal digits, nothing else.
pub open spec fn decimal_field(s: Seq<u8>) -> Option<nat> {
    if s.len() > 0 && all_digits(s) {
        Some(digits_value(s))
    } else {
        None
    }
}

/// A number grows with every digit that is written behind it.
pub proof fn lemma_digits_value_monotone(s: Seq<u8>, i: int)
    requires
        0 <= i <= s.len(),
    ensures
        digits_value(s.take(i)) <= digits_value(s),
    decreases s.len() - i,
{
    if i < s.len() {
        lemma_digits_value_monotone(s, i + 1);
        assert(s.take(i + 1).drop_last() =~= s.take(i));
    } else {
        assert(s.take(i) =~= s);
    }
}

/// Reads the decimal number that the bytes from `from` up to `to` write.
/// `None` if the range is empty, holds anything but digits, or writes a
/// number that does not fit.
pub fn parse_decimal(bytes: &[u8], from: usize, to: usize) -> (r: Option<usize>)
    requires
        from <= to <= bytes@.len(),
    ensures
        match r {
            Some(v) => decimal_field(bytes@.subrange(from as int, to as int)) == Some(v as nat),
            None => match decimal_field(bytes@.subrange(from as int, to as int)) {
                Some(v) => v > usize::MAX,
                None => true,
            },
        },
{
    let ghost field = bytes@.subrange(from as int, to as int);
    if from == to {
        return None;
    }
    let mut value: usize = 0;
    let mut i: usize = from;
    while i < to
        invariant
            from <= i <= to <= bytes@.len(),
            field == bytes@.subrange(from as int, to as int),
            all_digits(field.take(i - from)),
            value == digits_value(field.take(i - from)),
        decreases to - i,
    {
        let b = bytes[i];
        assert(field[i - from] == b);
        assert(field.take(i - from + 1).drop_last() =~= field.take(i - from));
        assert(field.take(i - from + 1).last() == b);
        if b < 48 || b > 57 {
            assert(!all_digits(field));
            return None;
        }
        let digit = (b - 48) as usize;
        if value > (usize::MAX - digit) / 10 {
            proof {
                lemma_digits_value_monotone(field, i - from + 1);
                if all_digits(field) {
                } else {
                }
            }
            return None;
        }
        value = value * 10 + digit;
        assert(all_digits(field.take(i - from + 1))) by {
            assert forall|j: int| 0 <= j < i - from + 1 implies is_digit(
                #[trigger] field.take(i - from + 1)[j],
            ) by {
                if j < i - from {
                    assert(field.take(i - from)[j] == field.take(i - from + 1)[j]);
                }
            }
        }
        i += 1;
    }
    assert(field.take(to - from) =~= field);
    Some(value)
}

/// The index of the first occurrence of `b` at or after `from`; the length
/// of the sequence if there is none.
pub open spec fn first_at(s: Seq<u8>, from: int, b: u8) -> int
    decreases s.len() - from,
{
    if from >= s.len() {
        s.len() as int
    } else if s[from] == b {
        from
    } else {
        first_at(s, from + 1, b)
    }
}

/// Finds the first occurrence of a byte at or after `from`.
pub fn find_byte(bytes: &[u8], from: usize, b: u8) -> (r: usize)
    requires
        from <= bytes@.len(),
    ensures
        r == first_at(bytes@, from as int, b),
        from <= r <= bytes@.len(),
{
    let mut i = from;
    while i < bytes.len()
        invariant
            from <= i <= bytes@.len(),
            first_at(bytes@, i as int, b) == first_at(bytes@, from as int, b),
        decreases bytes@.len() - i,
    {
        if bytes[i] == b {
            return i;
        }
        i += 1;
    }
    i
}

/// The offset and the length that a source span of the form
/// `offset:length:file` names: the first two fields, cut at the colons,
/// each a decimal number. A span with fewer than two colons names none.
pub open spec fn span_location(s: Seq<u8>) -> Option<(nat, nat)> {
    let first = first_at(s, 0, 58);
    let second = first_at(s, first + 1, 58);
    if first < s.len() && second < s.len() {
        match (decimal_field(s.subrange(0, first)), decimal_field(s.subrange(first + 1, second))) {
            (Some(offset), Some(length)) => Some((offset, length)),
            _ => None,
        }
    } else {
        None
    }
}

/// The offset that a source span names: its first field, up to the first
/// colon or to the end of the span.
pub open spec fn span_offset(s: Seq<u8>) -> Option<nat> {
    decimal_field(s.subrange(0, first_at(s, 0, 58)))
}

/// Reads the offset and the length out of a source span of the form
/// `offset:length:file`. `None` if the span is not of this form or a
/// number does not fit.
pub fn parse_span(src: &str) -> (r: Option<(usize, usize)>)
    ensures
        match r {
            Some((offset, length)) => span_location(src.spec_bytes()) == Some(
                (offset as nat, length as nat),
            ),
            None => match span_location(src.spec_bytes()) {
                Some((offset, length)) => offset > usize::MAX || length > usize::MAX,
                None => true,
            },
        },
{
    let bytes = src.as_bytes();
    let first = find_byte(bytes, 0, 58);
    if first >= bytes.len() {
        return None;
    }
    let second = find_byte(bytes, first + 1, 58);
    if second >= bytes.len() {
        return None;
    }
    let offset = parse_decimal(bytes, 0, first);
    let length = parse_decimal(bytes, first + 1, second);
    match (offset, length) {
        (Some(offset), Some(length)) => Some((offset, length)),
        _ => None,
    }
}

/// Reads the offset out of a source span: its first field. `None` if the
/// field is no decimal number or does not fit.
pub fn parse_span_offset(src: &str) -> (r: Option<usize>)
    ensures
        match r {
            Some(offset) => span_offset(src.spec_bytes()) == Some(offset as nat),
            None => match span_offset(src.spec_bytes()) {
                Some(offset) => offset > usize::MAX,
                None => true,
            },
        },
{
    let bytes = src.as_bytes();
    let first = find_byte(bytes, 0, 58);
    parse_decimal(bytes, 0, first)
}

/// The number of line feeds among the bytes.
pub open spec fn count_newlines(s: Seq<u8>) -> nat
    decreases s.len(),
{
    if s.len() == 0 {
        0
    } else {
        count_newlines(s.drop_last()) + if s.last() == 10 {
            1nat
        } else {
            0nat
        }
    }
}

/// There are no more line feeds than bytes.
pub proof fn lemma_count_newlines_bound(s: Seq<u8>)
    ensures
        count_newlines(s) <= s.len(),
    decreases s.len(),
{
    if s.len() > 0 {
        lemma_count_newlines_bound(s.drop_last());
    }
}

/// The number of the line, counted from one, on which the byte at `offset`
/// of the text stands. `None` if the offset lies behind the end of the
/// text, or the number does not fit.
pub fn line_of(source: &str, offset: usize) -> (r: Option<usize>)
    ensures
        match r {
            Some(line) => offset <= source.spec_bytes().len() && line == count_newlines(
                source.spec_bytes().take(offset as int),
            ) + 1,
            None => offset > source.spec_bytes().len() || count_newlines(
                source.spec_bytes().take(offset as int),
            ) >= usize::MAX,
        },
{
    let bytes = source.as_bytes();
    if offset > bytes.len() {
        return None;
    }
    let mut count: usize = 0;
    let mut i: usize = 0;
    while i < offset
        invariant
            i <= offset <= bytes@.len(),
            count == count_newlines(bytes@.take(i as int)),
            count <= i,
        decreases offset - i,
    {
        assert(bytes@.take(i + 1).drop_last() =~= bytes@.take(i as int));
        if bytes[i] == 10 {
            count += 1;
        }
        i += 1;
    }
    if count == usize::MAX {
        return None;
    }
    Some(count + 1)
}

/// The piece of `length` bytes at `offset` can be cut out of the text: it
/// starts at a character boundary of the text and ends at one.
pub open spec fn cuts_cleanly(bytes: Seq<u8>, offset: int, length: int) -> bool {
    &&& 0 <= offset <= bytes.len()
    &&& is_char_boundary(bytes, offset)
    &&& is_char_boundary(bytes.subrange(offset, bytes.len() as int), length)
}

/// A piece that can be cut out lies within the text.
pub proof fn lemma_cut_within(bytes: Seq<u8>, offset: int, length: int)
    requires
        valid_utf8(bytes),
        cuts_cleanly(bytes, offset, length),
    ensures
        0 <= length,
        offset + length <= bytes.len(),
{
    valid_utf8_split(bytes, offset);
}

/// Cuts the piece of `length` bytes at `offset` out of a text. `None` if
/// the piece does not lie within the text or would split a character.
pub fn snippet(source: &str, offset: usize, length: usize) -> (r: Option<&str>)
    ensures
        match r {
            Some(piece) => {
                &&& cuts_cleanly(source.spec_bytes(), offset as int, length as int)
                &&& offset + length <= source.spec_bytes().len()
                &&& piece.spec_bytes() == source.spec_bytes().subrange(
                    offset as int,
                    offset + length,
                )
            },
            None => !cuts_cleanly(source.spec_bytes(), offset as int, length as int),
        },
{
    proof {
        encode_utf8_valid_utf8(source@);
    }
    if offset > source.as_bytes().len() {
        return None;
    }
    if !source.is_char_boundary(offset) {
        return None;
    }
    let (_, tail) = source.split_at(offset);
    proof {
        encode_utf8_valid_utf8(tail@);
    }
    if length > tail.as_bytes().len() {
        assert(!is_char_boundary(tail.spec_bytes(), length as int));
        return None;
    }
    if !tail.is_char_boundary(length) {
        return None;
    }
    let (piece, _) = tail.split_at(length);
    assert(piece.spec_bytes() =~= source.spec_bytes().subrange(offset as int, offset + length));
    Some(piece)
}

/// The decimal digit for a number below ten.
pub open spec fn digit_char(d: int) -> char {
    if d == 0 {
        '0'
    } else if d == 1 {
        '1'
    } else if d == 2 {
        '2'
    } else if d == 3 {
        '3'
    } else if d == 4 {
        '4'
    } else if d == 5 {
        '5'
    } else if d == 6 {
        '6'
    } else if d == 7 {
        '7'
    } else if d == 8 {
        '8'
    } else {
        '9'
    }
}

/// The decimal notation of a natural number, without leading zeros.
pub open spec fn decimal_nat(n: nat) -> Seq<char>
    decreases n,
{
    if n < 10 {
        seq![digit_char(n as int)]
    } else {
        decimal_nat(n / 10).push(digit_char((n % 10) as int))
    }
}

/// The decimal notation of an integer, with a minus sign in front of a
/// negative one.
pub open spec fn decimal(i: int) -> Seq<char> {
    if i < 0 {
        seq!['-'] + decimal_nat((-i) as nat)
    } else {
        decimal_nat(i as nat)
    }
}

/// The text of one decimal digit.
fn digit_text(d: u64) -> (r: &'static str)
    requires
        d < 10,
    ensures
        r@ == seq![digit_char(d as int)],
{
    proof {
        reveal_strlit("0");
        reveal_strlit("1");
        reveal_strlit("2");
        reveal_strlit("3");
        reveal_strlit("4");
        reveal_strlit("5");
        reveal_strlit("6");
        reveal_strlit("7");
        reveal_strlit("8");
        reveal_strlit("9");
    }
    let r = if d == 0 {
        "0"
    } else if d == 1 {
        "1"
    } else if d == 2 {
        "2"
    } else if d == 3 {
        "3"
    } else if d == 4 {
        "4"
    } else if d == 5 {
        "5"
    } else if d == 6 {
        "6"
    } else if d == 7 {
        "7"
    } else if d == 8 {
        "8"
    } else {
        "9"
    };
    assert(r@ =~= seq![digit_char(d as int)]);
    r
}

/// Writes a natural number in decimal notation.
pub fn nat_to_string(n: u64) -> (r: String)
    ensures
        r@ == decimal_nat(n as nat),
    decreases n,
{
    if n < 10 {
        String::from_str(digit_text(n))
    } else {
        let mut text = nat_to_string(n / 10);
        text.append(digit_text(n % 10));
        assert(text@ =~= decimal_nat(n as nat));
        text
    }
}

/// Writes an integer in decimal notation.
pub fn int_to_string(i: i64) -> (r: String)
    ensures
        r@ == decimal(i as int),
{
    if i < 0 {
        let magnitude: u64 = (-(i as i128)) as u64;
        let mut text = String::from_str("-");
        proof {
            reveal_strlit("-");
        }
        let digits = nat_to_string(magnitude);
        text.append(digits.as_str());
        assert(text@ =~= decimal(i as int));
        text
    } else {
        nat_to_string(i as u64)
    }
}

/// The needle occurs in the haystack at position `at`.
pub open spec fn occurs_at(haystack: Seq<u8>, needle: Seq<u8>, at: int) -> bool {
    &&& 0 <= at
    &&& at + needle.len() <= haystack.len()
    &&& haystack.subrange(at, at + needle.len()) == needle
}

/// The needle occurs somewhere in the haystack.
pub open spec fn occurs_in(haystack: Seq<u8>, needle: Seq<u8>) -> bool {
    exists|at: int| occurs_at(haystack, needle, at)
}

/// Whether the needle occurs in the haystack at the given position.
fn matches_at(haystack: &[u8], needle: &[u8], at: usize) -> (r: bool)
    requires
        at + needle@.len() <= haystack@.len(),
    ensures
        r == occurs_at(haystack@, needle@, at as int),
{
    let n = needle.len();
    let total = haystack.len();
    let mut j: usize = 0;
    while j < n
        invariant
            j <= n,
            n == needle@.len(),
            total == haystack@.len(),
            at + n <= haystack@.len(),
            forall|k: int| 0 <= k < j ==> haystack@[at + k] == needle@[k],
        decreases n - j,
    {
        if haystack[at + j] != needle[j] {
            assert(haystack@.subrange(at as int, at + n)[j as int] != needle@[j as int]);
            return false;
        }
        j += 1;
    }
    assert(haystack@.subrange(at as int, at + n) =~= needle@);
    true
}

/// Whether the text holds the given piece of text somewhere, compared
/// byte by byte.
pub fn str_contains(haystack: &str, needle: &str) -> (r: bool)
    ensures
        r == occurs_in(haystack.spec_bytes(), needle.spec_bytes()),
{
    let h = haystack.as_bytes();
    let n = needle.as_bytes();
    if n.len() > h.len() {
        assert forall|at: int| !occurs_at(h@, n@, at) by {}
        return false;
    }
    let last = h.len() - n.len();
    let mut at: usize = 0;
    loop
        invariant
            at <= last,
            last == h@.len() - n@.len(),
            h@ == haystack.spec_bytes(),
            n@ == needle.spec_bytes(),
            forall|k: int| 0 <= k < at ==> !occurs_at(h@, n@, k),
        decreases last - at,
    {
        if matches_at(h, n, at) {
            return true;
        }
        if at == last {
            assert forall|k: int| !occurs_at(h@, n@, k) by {}
            return false;
        }
        at += 1;
    }
}

/// Whether the text starts with the given piece of text, compared byte by
/// byte.
pub fn str_starts_with(text: &str, prefix: &str) -> (r: bool)
    ensures
        r == occurs_at(text.spec_bytes(), prefix.spec_bytes(), 0),
{
    let t = text.as_bytes();
    let p = prefix.as_bytes();
    if p.len() > t.len() {
        return false;
    }
    matches_at(t, p, 0)
}

} // verus!
