//! Texts that the library puts together.

use vstd::prelude::*;
use vstd::string::*;

verus! {

/// One decimal digit.
pub open spec fn digit_char(digit: int) -> char {
    if digit == 0 {
        '0'
    } else if digit == 1 {
        '1'
    } else if digit == 2 {
        '2'
    } else if digit == 3 {
        '3'
    } else if digit == 4 {
        '4'
    } else if digit == 5 {
        '5'
    } else if digit == 6 {
        '6'
    } else if digit == 7 {
        '7'
    } else if digit == 8 {
        '8'
    } else {
        '9'
    }
}

/// A number in decimal, without leading zeros.
pub open spec fn decimal(value: nat) -> Seq<char>
    decreases value,
{
    if value < 10 {
        seq![digit_char(value as int)]
    } else {
        decimal(value / 10).push(digit_char((value % 10) as int))
    }
}

/// The text of a single digit.
fn digit_text(digit: u128) -> (text: &'static str)
    requires
        digit < 10,
    ensures
        text@ == seq![digit_char(digit as int)],
{
    proof {
        reveal_strlit("0");
        reveal_strlit("1");
        reveal_strlit("2");
        reveal_strlit("3");
        reveal_strlit("4");
        reveal_strlit("5");
        reveal_strlit("6");
        reveal_strlit("7");
        reveal_strlit("8");
        reveal_strlit("9");
    }
    let text: &'static str = if digit == 0 {
        "0"
    } else if digit == 1 {
        "1"
    } else if digit == 2 {
        "2"
    } else if digit == 3 {
        "3"
    } else if digit == 4 {
        "4"
    } else if digit == 5 {
        "5"
    } else if digit == 6 {
        "6"
    } else if digit == 7 {
        "7"
    } else if digit == 8 {
        "8"
    } else {
        "9"
    };
    assert(text@ =~= seq![digit_char(digit as int)]);
    text
}

/// A number in decimal.
pub fn decimal_text(value: u128) -> (text: String)
    ensures
        text@ == decimal(value as nat),
    decreases value,
{
    if value < 10 {
        digit_text(value).to_owned()
    } else {
        let mut text: String = decimal_text(value / 10);
        text.append(digit_text(value % 10));
        assert(text@ =~= decimal(value as nat));
        text
    }
}

/// Appends a number in decimal.
pub(crate) fn append_decimal(text: &mut String, value: u128)
    ensures
        final(text)@ == old(text)@ + decimal(value as nat),
{
    let digits: String = decimal_text(value);
    text.append(digits.as_str());
}

/// Appends `label` and then a number in decimal.
pub(crate) fn append_field(text: &mut String, label: &str, value: u128)
    ensures
        final(text)@ == old(text)@ + label@ + decimal(value as nat),
{
    text.append(label);
    append_decimal(text, value);
}

/// The texts of a list.
pub open spec fn texts(list: Seq<String>) -> Seq<Seq<char>> {
    Seq::new(list.len(), |i: int| list[i]@)
}

/// Moves the texts of one list behind those of another.
pub(crate) fn append_texts(list: &mut Vec<String>, more: Vec<String>)
    ensures
        texts(final(list)@) == texts(old(list)@) + texts(more@),
{
    let ghost added = more@;
    let mut rest = more;
    list.append(&mut rest);
    assert(texts(list@) =~= texts(old(list)@) + texts(added));
}

/// Whether two texts are the same.
pub fn same_text(a: &str, b: &str) -> (same: bool)
    ensures
        same == (a@ == b@),
{
    let left: String = a.to_owned();
    let right: String = b.to_owned();
    left == right
}

/// Whether a text comes before another in the order of texts: by the first characters that
/// differ, a text before those that continue it.
pub open spec fn comes_before(a: Seq<char>, b: Seq<char>) -> bool
    decreases a.len(),
{
    if a.len() == 0 || b.len() == 0 {
        a.len() < b.len()
    } else if a[0] == b[0] {
        comes_before(a.drop_first(), b.drop_first())
    } else {
        (a[0] as u32) < (b[0] as u32)
    }
}

/// No text comes before itself, of two texts one comes before the other, and the order
/// passes on.
pub proof fn law_texts_are_in_order(a: Seq<char>, b: Seq<char>, c: Seq<char>)
    ensures
        !comes_before(a, a),
        a == b || comes_before(a, b) || comes_before(b, a),
        comes_before(a, b) && comes_before(b, c) ==> comes_before(a, c),
    decreases a.len(),
{
    if a.len() > 0 {
        law_texts_are_in_order(a.drop_first(), a.drop_first(), Seq::empty());
        if b.len() > 0 {
            law_texts_are_in_order(
                a.drop_first(),
                b.drop_first(),
                if c.len() > 0 {
                    c.drop_first()
                } else {
                    c
                },
            );
            lemma_codes_differ(a[0], b[0]);
            if a[0] == b[0] && a.drop_first() == b.drop_first() {
                assert(a =~= seq![a[0]] + a.drop_first());
                assert(b =~= seq![b[0]] + b.drop_first());
            }
        }
    } else if b.len() == 0 {
        assert(a =~= b);
    }
}

proof fn lemma_codes_differ(x: char, y: char)
    ensures
        x != y ==> x as u32 != y as u32,
{
}

/// Whether a text comes before another.
pub fn text_comes_before(a: &str, b: &str) -> (yes: bool)
    ensures
        yes == comes_before(a@, b@),
{
    let left: usize = a.unicode_len();
    let right: usize = b.unicode_len();
    let mut at: usize = 0;
    assert(a@.skip(0) =~= a@);
    assert(b@.skip(0) =~= b@);
    while at < left && at < right
        invariant
            at <= left == a@.len(),
            at <= right == b@.len(),
            comes_before(a@, b@) == comes_before(a@.skip(at as int), b@.skip(at as int)),
        decreases left - at,
    {
        let x: char = a.get_char(at);
        let y: char = b.get_char(at);
        if x != y {
            return (x as u32) < (y as u32);
        }
        assert(a@.skip(at as int).drop_first() =~= a@.skip(at + 1));
        assert(b@.skip(at as int).drop_first() =~= b@.skip(at + 1));
        at = at + 1;
    }
    left < right
}

/// Whether a character is white space (Unicode's White_Space).
pub open spec fn is_white_space(c: char) -> bool {
    let code = c as u32;
    ||| 0x9 <= code <= 0xd
    ||| code == 0x20
    ||| code == 0x85
    ||| code == 0xa0
    ||| code == 0x1680
    ||| 0x2000 <= code <= 0x200a
    ||| code == 0x2028
    ||| code == 0x2029
    ||| code == 0x202f
    ||| code == 0x205f
    ||| code == 0x3000
}

/// A text without white space in front.
pub open spec fn without_leading(text: Seq<char>) -> Seq<char>
    decreases text.len(),
{
    if text.len() > 0 && is_white_space(text[0]) {
        without_leading(text.drop_first())
    } else {
        text
    }
}

/// A text without white space at its end.
pub open spec fn without_trailing(text: Seq<char>) -> Seq<char>
    decreases text.len(),
{
    if text.len() > 0 && is_white_space(text.last()) {
        without_trailing(text.drop_last())
    } else {
        text
    }
}

/// A text without white space round it.
pub open spec fn trimmed(text: Seq<char>) -> Seq<char> {
    without_trailing(without_leading(text))
}

fn white_space(c: char) -> (white: bool)
    ensures
        white == is_white_space(c),
{
    let code: u32 = c as u32;
    (0x9 <= code && code <= 0xd) || code == 0x20 || code == 0x85 || code == 0xa0 || code == 0x1680
        || (0x2000 <= code && code <= 0x200a) || code == 0x2028 || code == 0x2029 || code == 0x202f
        || code == 0x205f || code == 0x3000
}

/// A text without white space round it.
pub fn trimmed_text(text: &str) -> (inner: String)
    ensures
        inner@ == trimmed(text@),
{
    let length: usize = text.unicode_len();
    let mut start: usize = 0;
    assert(text@.skip(0) =~= text@);
    while start < length && white_space(text.get_char(start))
        invariant
            start <= length == text@.len(),
            without_leading(text@.skip(start as int)) == without_leading(text@),
        ensures
            start <= length,
            without_leading(text@.skip(start as int)) == without_leading(text@),
            start < length ==> !is_white_space(text@[start as int]),
        decreases length - start,
    {
        assert(text@.skip(start as int).drop_first() =~= text@.skip(start + 1));
        start = start + 1;
    }
    let ghost rest = text@.skip(start as int);
    assert(rest == without_leading(text@));
    let mut end: usize = length;
    assert(text@.subrange(start as int, end as int) =~= rest);
    while end > start && white_space(text.get_char(end - 1))
        invariant
            start <= end <= length == text@.len(),
            without_trailing(text@.subrange(start as int, end as int)) == without_trailing(rest),
        ensures
            start <= end <= length,
            without_trailing(text@.subrange(start as int, end as int)) == without_trailing(rest),
            end > start ==> !is_white_space(text@[end - 1]),
        decreases end,
    {
        assert(text@.subrange(start as int, end as int).drop_last() =~= text@.subrange(
            start as int,
            end - 1,
        ));
        end = end - 1;
    }
    text.substring_char(start, end).to_owned()
}

/// The text of an optional string.
pub open spec fn optional_text(text: Option<String>) -> Option<Seq<char>> {
    match text {
        Some(text) => Some(text@),
        None => None,
    }
}

/// A copy of an optional string.
pub(crate) fn copied_text(text: &Option<String>) -> (copy: Option<String>)
    ensures
        optional_text(copy) == optional_text(*text),
{
    match text {
        Some(text) => Some(text.clone()),
        None => None,
    }
}

/// What a row of decimal digits stands for.
pub open spec fn read_decimal(digits: Seq<char>) -> int
    decreases digits.len(),
{
    if digits.len() == 0 {
        0
    } else {
        10 * read_decimal(digits.drop_last()) + (digits.last() as u32 - '0' as u32)
    }
}

/// A number in decimal reads back as that number, is made of digits alone, and starts with a
/// zero only where it is zero.
pub proof fn law_decimals_read_back(value: nat)
    ensures
        read_decimal(decimal(value)) == value,
        decimal(value).len() >= 1,
        forall|i: int| 0 <= i < decimal(value).len() ==> '0' <= #[trigger] decimal(value)[i] <= '9',
        decimal(value)[0] == '0' <==> value == 0,
        value == 0 ==> decimal(value).len() == 1,
    decreases value,
{
    let digits = decimal(value);
    if value < 10 {
        assert(digits.drop_last() =~= Seq::<char>::empty());
        assert(read_decimal(digits.drop_last()) == 0);
    } else {
        law_decimals_read_back(value / 10);
        assert(digits.drop_last() =~= decimal(value / 10));
    }
}

/// The order of texts is that of the first characters that differ, and a text comes before
/// every longer one that begins with it.
pub proof fn law_first_difference_decides(a: Seq<char>, b: Seq<char>, common: int)
    requires
        0 <= common <= a.len(),
        common < b.len(),
        forall|i: int| 0 <= i < common ==> a[i] == b[i],
        common < a.len() ==> a[common] != b[common],
    ensures
        common == a.len() ==> comes_before(a, b),
        common < a.len() ==> (comes_before(a, b) <==> (a[common] as u32) < (b[common] as u32)),
    decreases common,
{
    if common > 0 {
        let c = a.drop_first();
        let d = b.drop_first();
        assert forall|i: int| 0 <= i < common - 1 implies c[i] == d[i] by {
            assert(a[i + 1] == b[i + 1]);
        }
        law_first_difference_decides(c, d, common - 1);
    }
}

/// Trimming takes white space away from both ends and nothing else: what is left begins and
/// ends with something else, and all that was taken is white space.
pub proof fn law_trimming_takes_white_space_only(text: Seq<char>) -> (ends: (int, int))
    ensures
        0 <= ends.0 <= ends.1 <= text.len(),
        trimmed(text) == text.subrange(ends.0, ends.1),
        forall|i: int| 0 <= i < ends.0 ==> is_white_space(#[trigger] text[i]),
        forall|i: int| ends.1 <= i < text.len() ==> is_white_space(#[trigger] text[i]),
        trimmed(text).len() > 0 ==> !is_white_space(trimmed(text)[0]) && !is_white_space(
            trimmed(text).last(),
        ),
{
    let from = lemma_without_leading(text);
    let rest = without_leading(text);
    let length = lemma_without_trailing(rest);
    assert(trimmed(text) =~= text.subrange(from, from + length));
    assert forall|i: int| from + length <= i < text.len() implies is_white_space(
        #[trigger] text[i],
    ) by {
        assert(rest[i - from] == text[i]);
    }
    if length > 0 {
        assert(trimmed(text)[0] == rest[0]);
    }
    (from, from + length)
}

proof fn lemma_without_leading(text: Seq<char>) -> (from: int)
    ensures
        0 <= from <= text.len(),
        without_leading(text) == text.skip(from),
        forall|i: int| 0 <= i < from ==> is_white_space(#[trigger] text[i]),
        from < text.len() ==> !is_white_space(text[from]),
    decreases text.len(),
{
    if text.len() > 0 && is_white_space(text[0]) {
        let from = lemma_without_leading(text.drop_first());
        assert(text.skip(from + 1) =~= text.drop_first().skip(from));
        assert forall|i: int| 0 <= i < from + 1 implies is_white_space(#[trigger] text[i]) by {
            if i > 0 {
                assert(text.drop_first()[i - 1] == text[i]);
            }
        }
        if from + 1 < text.len() {
            assert(text.drop_first()[from] == text[from + 1]);
        }
        from + 1
    } else {
        assert(text.skip(0) =~= text);
        0
    }
}

proof fn lemma_without_trailing(text: Seq<char>) -> (length: int)
    ensures
        0 <= length <= text.len(),
        without_trailing(text) == text.take(length),
        forall|i: int| length <= i < text.len() ==> is_white_space(#[trigger] text[i]),
        length > 0 ==> !is_white_space(text[length - 1]),
    decreases text.len(),
{
    if text.len() > 0 && is_white_space(text.last()) {
        let length = lemma_without_trailing(text.drop_last());
        assert(text.take(length) =~= text.drop_last().take(length));
        assert forall|i: int| length <= i < text.len() implies is_white_space(
            #[trigger] text[i],
        ) by {
            if i < text.len() - 1 {
                assert(text.drop_last()[i] == text[i]);
            }
        }
        length
    } else {
        assert(text.take(text.len() as int) =~= text);
        text.len() as int
    }
}

/// Of the characters below 128, tab, the line breaks and space are white space and no others.
pub proof fn law_spaces_and_line_breaks_are_white(c: char)
    requires
        (c as u32) < 128,
    ensures
        is_white_space(c) <==> c == ' ' || c == '\t' || c == '\n' || c == '\r' || c as u32 == 0xb
            || c as u32 == 0xc,
{
}

/// From 128 on, white space is the next line, the spaces of the other blocks, those that do not
/// break among them, and the separators of lines and paragraphs; nothing else is.
pub proof fn law_other_blocks_have_their_spaces(c: char)
    requires
        (c as u32) >= 128,
    ensures
        c == '\u{85}' || c == '\u{a0}' || c == '\u{1680}' || c == '\u{2028}' || c == '\u{2029}' || c
            == '\u{202f}' || c == '\u{205f}' || c == '\u{3000}' ==> is_white_space(c),
        '\u{2000}' <= c <= '\u{200a}' ==> is_white_space(c),
        '\u{80}' <= c <= '\u{84}' || '\u{86}' <= c <= '\u{9f}' || '\u{a1}' <= c <= '\u{167f}'
            || '\u{1681}' <= c <= '\u{1fff}' || '\u{200b}' <= c <= '\u{2027}' || '\u{202a}' <= c
            <= '\u{202e}' || '\u{2030}' <= c <= '\u{205e}' || '\u{2060}' <= c <= '\u{2fff}'
            || '\u{3001}' <= c ==> !is_white_space(c),
{
}

/// A text in front of another is a prefix of both together, and the other a suffix.
pub proof fn lemma_both_ends(front: Seq<char>, back: Seq<char>)
    ensures
        front.is_prefix_of(front + back),
        back.is_suffix_of(front + back),
{
    assert(front =~= (front + back).subrange(0, front.len() as int));
    assert(back =~= (front + back).subrange(front.len() as int, (front + back).len() as int));
}

} // verus!
