//! Operations on text that the rest of the library shares.
//!
//! Text is modelled by the sequence of its characters, which is the view that
//! `str` and `String` have.

use vstd::prelude::*;
use vstd::string::*;

verus! {

// ---------------------------------------------------------------------------
// What is taken from the standard library
// ---------------------------------------------------------------------------

/// `String::push` appends the character to the end of the text.
pub assume_specification[ String::push ](text: &mut String, c: char)
    ensures
        final(text)@ == old(text)@.push(c),
;

/// `==` on `str` compares the texts character by character.
pub assume_specification[ <str as PartialEq>::eq ](a: &str, b: &str) -> (equal: bool)
    ensures
        equal == (a@ == b@),
;

/// `char::is_whitespace` holds of the characters with the Unicode property
/// `White_Space`, which are those that `white_char` lists.
pub assume_specification[ char::is_whitespace ](c: char) -> (found: bool)
    ensures
        found == white_char(c),
;

/// `char::is_control` holds of the characters of the Unicode category `Cc`,
/// which are the two ranges that `control_char` lists.
pub assume_specification[ char::is_control ](c: char) -> (found: bool)
    ensures
        found == control_char(c),
;

/// The characters with the Unicode property `White_Space`.
pub open spec fn white_char(c: char) -> bool {
    let code = c as u32;
    ||| 0x9 <= code <= 0xd
    ||| code == 0x20
    ||| code == 0x85
    ||| code == 0xa0
    ||| code == 0x1680
    ||| 0x2000 <= code <= 0x200a
    ||| code == 0x2028
    ||| code == 0x2029
    ||| code == 0x202f
    ||| code == 0x205f
    ||| code == 0x3000
}

/// The characters of the Unicode category `Cc`.
pub open spec fn control_char(c: char) -> bool {
    c as u32 <= 0x1f || 0x7f <= c as u32 <= 0x9f
}

// ---------------------------------------------------------------------------
// Texts and their characters
// ---------------------------------------------------------------------------

/// The texts of a list of strings.
pub open spec fn texts(list: Seq<String>) -> Seq<Seq<char>> {
    list.map_values(|text: String| text@)
}

/// The text of a string that may be absent.
pub open spec fn optional_text(text: Option<String>) -> Option<Seq<char>> {
    match text {
        Some(text) => Some(text@),
        None => None,
    }
}

/// The text of a borrowed string that may be absent.
pub open spec fn optional_str(text: Option<&str>) -> Option<Seq<char>> {
    match text {
        Some(text) => Some(text@),
        None => None,
    }
}

/// The characters of a text, one by one.
pub(crate) fn chars_of(text: &str) -> (chars: Vec<char>)
    ensures
        chars@ == text@,
{
    let mut chars: Vec<char> = Vec::new();
    for c in it: text.chars()
        invariant
            chars@ == text@.take(it.index() as int),
            it.seq() == text@,
    {
        proof {
            assert(text@.take(it.index() + 1) =~= text@.take(it.index() as int).push(c));
        }
        chars.push(c);
    }
    proof {
        assert(text@.take(text@.len() as int) =~= text@);
    }
    chars
}

/// The text that the characters from `from` up to `to` form.
pub(crate) fn text_of(chars: &Vec<char>, from: usize, to: usize) -> (text: String)
    requires
        from <= to <= chars@.len(),
    ensures
        text@ == chars@.subrange(from as int, to as int),
{
    let mut text = String::new();
    let mut i: usize = from;
    while i < to
        invariant
            from <= i <= to <= chars@.len(),
            text@ == chars@.subrange(from as int, i as int),
        decreases to - i,
    {
        proof {
            assert(chars@.subrange(from as int, i + 1) =~= chars@.subrange(
                from as int,
                i as int,
            ).push(chars@[i as int]));
        }
        text.push(chars[i]);
        i = i + 1;
    }
    text
}

/// The two texts one after the other.
pub(crate) fn concat2(a: &str, b: &str) -> (text: String)
    ensures
        text@ == a@ + b@,
{
    let mut text = a.to_owned();
    text.append(b);
    text
}

/// The three texts one after the other.
pub(crate) fn concat3(a: &str, b: &str, c: &str) -> (text: String)
    ensures
        text@ == a@ + b@ + c@,
{
    let mut text = a.to_owned();
    text.append(b);
    text.append(c);
    text
}

// ---------------------------------------------------------------------------
// Numbers
// ---------------------------------------------------------------------------

/// The digit of a value below sixteen, in lower case.
pub open spec fn digit(value: int) -> char {
    if value == 0 {
        '0'
    } else if value == 1 {
        '1'
    } else if value == 2 {
        '2'
    } else if value == 3 {
        '3'
    } else if value == 4 {
        '4'
    } else if value == 5 {
        '5'
    } else if value == 6 {
        '6'
    } else if value == 7 {
        '7'
    } else if value == 8 {
        '8'
    } else if value == 9 {
        '9'
    } else if value == 10 {
        'a'
    } else if value == 11 {
        'b'
    } else if value == 12 {
        'c'
    } else if value == 13 {
        'd'
    } else if value == 14 {
        'e'
    } else {
        'f'
    }
}

/// A number in decimal, without leading zeros.
pub open spec fn decimal(n: nat) -> Seq<char>
    decreases n,
{
    if n < 10 {
        seq![digit(n as int)]
    } else {
        decimal(n / 10).push(digit((n % 10) as int))
    }
}

/// A number below 2^32 in hexadecimal, with leading zeros up to eight digits.
pub open spec fn hex8(n: u32) -> Seq<char> {
    seq![
        digit(n as int / 0x1000_0000 % 16),
        digit(n as int / 0x100_0000 % 16),
        digit(n as int / 0x10_0000 % 16),
        digit(n as int / 0x1_0000 % 16),
        digit(n as int / 0x1000 % 16),
        digit(n as int / 0x100 % 16),
        digit(n as int / 0x10 % 16),
        digit(n as int % 16),
    ]
}

/// The digit of a value below sixteen.
fn digit_char(value: u32) -> (c: char)
    requires
        value < 16,
    ensures
        c == digit(value as int),
{
    match value {
        0 => '0',
        1 => '1',
        2 => '2',
        3 => '3',
        4 => '4',
        5 => '5',
        6 => '6',
        7 => '7',
        8 => '8',
        9 => '9',
        10 => 'a',
        11 => 'b',
        12 => 'c',
        13 => 'd',
        14 => 'e',
        _ => 'f',
    }
}

/// Appends a number in decimal.
pub(crate) fn push_decimal(text: &mut String, n: u64)
    ensures
        final(text)@ == old(text)@ + decimal(n as nat),
    decreases n,
{
    if n >= 10 {
        push_decimal(text, n / 10);
    }
    text.push(digit_char((n % 10) as u32));
}

/// Appends a number in hexadecimal, with leading zeros up to eight digits.
pub(crate) fn push_hex8(text: &mut String, n: u32)
    ensures
        final(text)@ == old(text)@ + hex8(n),
{
    text.push(digit_char(n / 0x1000_0000 % 16));
    text.push(digit_char(n / 0x100_0000 % 16));
    text.push(digit_char(n / 0x10_0000 % 16));
    text.push(digit_char(n / 0x1_0000 % 16));
    text.push(digit_char(n / 0x1000 % 16));
    text.push(digit_char(n / 0x100 % 16));
    text.push(digit_char(n / 0x10 % 16));
    text.push(digit_char(n % 16));
}

/// Different numbers have different decimal texts.
pub proof fn lemma_decimal_injective(a: nat, b: nat)
    requires
        decimal(a) == decimal(b),
    ensures
        a == b,
    decreases a,
{
    lemma_decimal_last(a);
    lemma_decimal_last(b);
    if a < 10 {
        if b >= 10 {
            lemma_decimal_last(b / 10);
            assert(decimal(b).len() == decimal(b / 10).len() + 1);
        }
    } else if b < 10 {
        lemma_decimal_last(a / 10);
        assert(decimal(a).len() == decimal(a / 10).len() + 1);
    } else {
        assert(decimal(a).drop_last() =~= decimal(a / 10));
        assert(decimal(b).drop_last() =~= decimal(b / 10));
        lemma_decimal_injective(a / 10, b / 10);
    }
}

/// A decimal text is not empty, and its last digit is that of the number.
pub proof fn lemma_decimal_last(n: nat)
    ensures
        decimal(n).len() > 0,
        decimal(n).last() == digit((n % 10) as int),
{
}

// ---------------------------------------------------------------------------
// Searching and cutting
// ---------------------------------------------------------------------------

/// Whether `needle` occurs in `text` at `at`.
pub open spec fn occurs_at(text: Seq<char>, needle: Seq<char>, at: int) -> bool {
    0 <= at && at + needle.len() <= text.len() && text.subrange(at, at + needle.len()) == needle
}

/// Whether `needle` occurs anywhere in `text`.
pub open spec fn occurs_in(text: Seq<char>, needle: Seq<char>) -> bool {
    exists|at: int| occurs_at(text, needle, at)
}

/// Whether `needle` occurs anywhere in `text`.
pub(crate) fn contains_text(text: &str, needle: &str) -> (found: bool)
    ensures
        found == occurs_in(text@, needle@),
{
    let hay = chars_of(text);
    let pin = chars_of(needle);
    if pin.len() > hay.len() {
        return false;
    }
    if pin.len() == 0 {
        proof {
            assert(text@.subrange(0, 0) =~= needle@);
            assert(occurs_at(text@, needle@, 0));
        }
        return true;
    }
    let count: usize = hay.len() - pin.len() + 1;
    let mut at: usize = 0;
    while at < count
        invariant
            hay@ == text@,
            pin@ == needle@,
            count + pin@.len() == hay@.len() + 1,
            at <= count,
            hay@.len() <= usize::MAX,
            forall|k: int| 0 <= k < at ==> !occurs_at(text@, needle@, k),
        decreases count - at,
    {
        let mut i: usize = 0;
        while i < pin.len() && hay[at + i] == pin[i]
            invariant
                i <= pin@.len(),
                at + pin@.len() <= hay@.len() <= usize::MAX,
                forall|k: int| 0 <= k < i ==> hay@[at + k] == pin@[k],
            decreases pin@.len() - i,
        {
            i = i + 1;
        }
        if i == pin.len() {
            proof {
                assert(text@.subrange(at as int, at + needle@.len()) =~= needle@);
                assert(occurs_at(text@, needle@, at as int));
            }
            return true;
        }
        proof {
            assert(!occurs_at(text@, needle@, at as int)) by {
                if occurs_at(text@, needle@, at as int) {
                    assert(text@.subrange(at as int, at + needle@.len())[i as int]
                        == needle@[i as int]);
                }
            }
        }
        at = at + 1;
    }
    false
}

/// The text without the whitespace it starts with.
pub open spec fn trim_start(text: Seq<char>) -> Seq<char>
    decreases text.len(),
{
    if text.len() > 0 && white_char(text[0]) {
        trim_start(text.drop_first())
    } else {
        text
    }
}

/// The text without the whitespace it ends with.
pub open spec fn trim_end(text: Seq<char>) -> Seq<char>
    decreases text.len(),
{
    if text.len() > 0 && white_char(text.last()) {
        trim_end(text.drop_last())
    } else {
        text
    }
}

/// The text without the whitespace around it.
pub open spec fn trimmed(text: Seq<char>) -> Seq<char> {
    trim_end(trim_start(text))
}

/// The text that the characters from `from` up to `to` form, without the
/// whitespace around it.
fn trimmed_text(chars: &Vec<char>, from: usize, to: usize) -> (text: String)
    requires
        from <= to <= chars@.len(),
    ensures
        text@ == trimmed(chars@.subrange(from as int, to as int)),
{
    let mut start: usize = from;
    while start < to && chars[start].is_whitespace()
        invariant
            from <= start <= to <= chars@.len(),
            trim_start(chars@.subrange(from as int, to as int)) == trim_start(
                chars@.subrange(start as int, to as int),
            ),
        decreases to - start,
    {
        proof {
            let rest = chars@.subrange(start as int, to as int);
            assert(rest[0] == chars@[start as int]);
            assert(rest.drop_first() =~= chars@.subrange(start + 1, to as int));
        }
        start = start + 1;
    }
    proof {
        let rest = chars@.subrange(start as int, to as int);
        if start < to {
            assert(rest[0] == chars@[start as int]);
        }
        assert(trim_start(rest) == rest);
    }
    let mut end: usize = to;
    while start < end && chars[end - 1].is_whitespace()
        invariant
            start <= end <= to <= chars@.len(),
            trim_end(chars@.subrange(start as int, to as int)) == trim_end(
                chars@.subrange(start as int, end as int),
            ),
        decreases end - start,
    {
        proof {
            let rest = chars@.subrange(start as int, end as int);
            assert(rest.last() == chars@[end - 1]);
            assert(rest.drop_last() =~= chars@.subrange(start as int, end - 1));
        }
        end = end - 1;
    }
    proof {
        let rest = chars@.subrange(start as int, end as int);
        if start < end {
            assert(rest.last() == chars@[end - 1]);
        }
        assert(trim_end(rest) == rest);
    }
    text_of(chars, start, end)
}

/// The parts of a text between the separators, in order. There is always one
/// part more than there are separators.
pub open spec fn pieces(text: Seq<char>, separator: char) -> Seq<Seq<char>>
    decreases text.len(),
{
    if text.len() == 0 {
        seq![Seq::empty()]
    } else {
        let before = pieces(text.drop_last(), separator);
        if text.last() == separator {
            before.push(Seq::empty())
        } else {
            before.drop_last().push(before.last().push(text.last()))
        }
    }
}

/// The parts of a text between commas, without the whitespace around each, and
/// without the parts that are empty.
pub open spec fn list_entries(text: Seq<char>) -> Seq<Seq<char>> {
    pieces(text, ',').map_values(|piece: Seq<char>| trimmed(piece)).filter(
        |entry: Seq<char>| entry.len() > 0,
    )
}

/// Adding a part to the list of the trimmed parts that are not empty.
proof fn lemma_entries_of_pieces_push(list: Seq<Seq<char>>, piece: Seq<char>)
    ensures
        list.push(piece).map_values(|piece: Seq<char>| trimmed(piece)).filter(
            |entry: Seq<char>| entry.len() > 0,
        ) == (if trimmed(piece).len() > 0 {
            list.map_values(|piece: Seq<char>| trimmed(piece)).filter(
                |entry: Seq<char>| entry.len() > 0,
            ).push(trimmed(piece))
        } else {
            list.map_values(|piece: Seq<char>| trimmed(piece)).filter(
                |entry: Seq<char>| entry.len() > 0,
            )
        }),
{
    let f = |piece: Seq<char>| trimmed(piece);
    let p = |entry: Seq<char>| entry.len() > 0;
    let mapped = list.map_values(f);
    assert(list.push(piece).map_values(f) =~= mapped.push(trimmed(piece)));
    assert(mapped.push(trimmed(piece)).drop_last() =~= mapped);
    reveal_with_fuel(Seq::filter, 2);
}

/// The parts of a text between commas, without the whitespace around each, and
/// without the parts that are empty.
pub(crate) fn split_list(text: &str) -> (entries: Vec<String>)
    ensures
        texts(entries@) == list_entries(text@),
{
    let chars = chars_of(text);
    let ghost f = |piece: Seq<char>| trimmed(piece);
    let ghost p = |entry: Seq<char>| entry.len() > 0;
    let mut entries: Vec<String> = Vec::new();
    let mut start: usize = 0;
    let mut i: usize = 0;
    let ghost mut done: Seq<Seq<char>> = seq![];
    proof {
        assert(chars@.take(0) =~= seq![]);
        assert(chars@.subrange(0, 0) =~= seq![]);
        assert(pieces(chars@.take(0), ',') =~= done.push(chars@.subrange(0, 0)));
        assert(done.map_values(f) =~= seq![]);
        assert(done.map_values(f).filter(p) =~= seq![]) by {
            reveal_with_fuel(Seq::filter, 1);
        }
        assert(texts(entries@) =~= seq![]);
    }
    while i < chars.len()
        invariant
            chars@ == text@,
            start <= i <= chars@.len(),
            f == |piece: Seq<char>| trimmed(piece),
            p == |entry: Seq<char>| entry.len() > 0,
            pieces(chars@.take(i as int), ',') == done.push(
                chars@.subrange(start as int, i as int),
            ),
            texts(entries@) == done.map_values(f).filter(p),
        decreases chars@.len() - i,
    {
        let ghost before = pieces(chars@.take(i as int), ',');
        proof {
            assert(chars@.take(i + 1).drop_last() =~= chars@.take(i as int));
            assert(chars@.take(i + 1).last() == chars@[i as int]);
            assert(before.drop_last() =~= done);
        }
        if chars[i] == ',' {
            let entry = trimmed_text(&chars, start, i);
            let ghost piece = chars@.subrange(start as int, i as int);
            proof {
                lemma_entries_of_pieces_push(done, piece);
                done = done.push(piece);
            }
            if !entry.as_str().is_empty() {
                let ghost earlier = entries@;
                entries.push(entry);
                proof {
                    assert(texts(entries@) =~= texts(earlier).push(entry@));
                }
            }
            start = i + 1;
            proof {
                assert(chars@.subrange(i + 1, i + 1) =~= seq![]);
            }
        } else {
            proof {
                assert(chars@.subrange(start as int, i + 1) =~= chars@.subrange(
                    start as int,
                    i as int,
                ).push(chars@[i as int]));
            }
        }
        i = i + 1;
    }
    let entry = trimmed_text(&chars, start, i);
    proof {
        assert(chars@.take(i as int) =~= text@);
        lemma_entries_of_pieces_push(done, chars@.subrange(start as int, i as int));
    }
    if !entry.as_str().is_empty() {
        let ghost earlier = entries@;
        entries.push(entry);
        proof {
            assert(texts(entries@) =~= texts(earlier).push(entry@));
        }
    }
    entries
}

/// Whether a text is not empty, and neither starts nor ends with whitespace.
pub open spec fn is_trimmed(text: Seq<char>) -> bool {
    text.len() > 0 && !white_char(text[0]) && !white_char(text.last())
}

proof fn lemma_trim_start(text: Seq<char>, c: char)
    ensures
        trim_start(text).len() > 0 ==> !white_char(trim_start(text)[0]),
        trim_start(text).contains(c) ==> text.contains(c),
    decreases text.len(),
{
    if text.len() > 0 && white_char(text[0]) {
        let rest = text.drop_first();
        lemma_trim_start(rest, c);
        if rest.contains(c) {
            let i = choose|i: int| 0 <= i < rest.len() && rest[i] == c;
            assert(text[i + 1] == c);
        }
    }
}

proof fn lemma_trim_end(text: Seq<char>, c: char)
    ensures
        trim_end(text).len() > 0 ==> !white_char(trim_end(text).last()) && trim_end(text)[0]
            == text[0],
        trim_end(text).contains(c) ==> text.contains(c),
    decreases text.len(),
{
    if text.len() > 0 && white_char(text.last()) {
        let rest = text.drop_last();
        lemma_trim_end(rest, c);
        if rest.contains(c) {
            let i = choose|i: int| 0 <= i < rest.len() && rest[i] == c;
            assert(text[i] == c);
        }
    }
}

proof fn lemma_pieces_without_separator(text: Seq<char>, separator: char, i: int)
    requires
        0 <= i < pieces(text, separator).len(),
    ensures
        !pieces(text, separator)[i].contains(separator),
    decreases text.len(),
{
    if text.len() > 0 {
        let before = pieces(text.drop_last(), separator);
        lemma_pieces_exist(text.drop_last(), separator);
        if i < before.len() {
            lemma_pieces_without_separator(text.drop_last(), separator, i);
        }
        if text.last() != separator && i == before.len() - 1 {
            let longer = before.last().push(text.last());
            if longer.contains(separator) {
                let k = choose|k: int| 0 <= k < longer.len() && longer[k] == separator;
                assert(before.last()[k] == separator);
            }
        }
    }
}

proof fn lemma_pieces_exist(text: Seq<char>, separator: char)
    ensures
        pieces(text, separator).len() > 0,
    decreases text.len(),
{
    if text.len() > 0 {
        lemma_pieces_exist(text.drop_last(), separator);
    }
}

/// The entries of a list are trimmed, and no comma is in them.
pub proof fn law_list_entries_are_trimmed(text: Seq<char>, i: int)
    requires
        0 <= i < list_entries(text).len(),
    ensures
        is_trimmed(list_entries(text)[i]),
        !list_entries(text)[i].contains(','),
{
    let trim = |piece: Seq<char>| trimmed(piece);
    let filled = |entry: Seq<char>| entry.len() > 0;
    let all = pieces(text, ',').map_values(trim);
    let entry = list_entries(text)[i];
    lemma_filter_from(all, filled, i);
    let k = choose|k: int| 0 <= k < all.len() && all[k] == entry;
    let piece = pieces(text, ',')[k];
    lemma_pieces_without_separator(text, ',', k);
    lemma_trim_start(piece, ',');
    lemma_trim_end(trim_start(piece), ',');
}

proof fn lemma_filter_from(
    list: Seq<Seq<char>>,
    condition: spec_fn(Seq<char>) -> bool,
    i: int,
)
    requires
        0 <= i < list.filter(condition).len(),
    ensures
        condition(list.filter(condition)[i]),
        list.contains(list.filter(condition)[i]),
    decreases list.len(),
{
    reveal_with_fuel(Seq::filter, 2);
    if list.len() > 0 {
        let shorter = list.drop_last();
        if i < shorter.filter(condition).len() {
            lemma_filter_from(shorter, condition, i);
            let entry = list.filter(condition)[i];
            assert(shorter.contains(entry));
            let k = choose|k: int| 0 <= k < shorter.len() && shorter[k] == entry;
            assert(list[k] == entry);
        } else {
            assert(list[list.len() - 1] == list.filter(condition)[i]);
        }
    }
}

proof fn lemma_pieces_join(a: Seq<char>, b: Seq<char>, separator: char)
    ensures
        pieces(a + seq![separator] + b, separator) == pieces(a, separator) + pieces(b, separator),
    decreases b.len(),
{
    let joined = a + seq![separator] + b;
    if b.len() == 0 {
        assert(joined.drop_last() =~= a);
        assert(joined.last() == separator);
        assert(pieces(joined, separator) =~= pieces(a, separator) + pieces(b, separator));
    } else {
        lemma_pieces_join(a, b.drop_last(), separator);
        lemma_pieces_exist(b.drop_last(), separator);
        assert(joined.drop_last() =~= a + seq![separator] + b.drop_last());
        assert(joined.last() == b.last());
        let left = pieces(a, separator);
        let right = pieces(b.drop_last(), separator);
        assert((left + right).last() == right.last());
        assert((left + right).drop_last() =~= left + right.drop_last());
        assert(pieces(joined, separator) =~= left + pieces(b, separator));
    }
}

/// The entries of two lists with a comma between them are those of the first and
/// then those of the second.
pub proof fn law_lists_join(a: Seq<char>, b: Seq<char>)
    ensures
        list_entries(a + seq![','] + b) == list_entries(a) + list_entries(b),
{
    let trim = |piece: Seq<char>| trimmed(piece);
    let filled = |entry: Seq<char>| entry.len() > 0;
    let left = pieces(a, ',');
    let right = pieces(b, ',');
    lemma_pieces_join(a, b, ',');
    assert((left + right).map_values(trim) =~= left.map_values(trim) + right.map_values(trim));
    Seq::filter_distributes_over_add(left.map_values(trim), right.map_values(trim), filled);
}

/// A list of one entry, with white space around it, has just that entry.
pub proof fn law_single_entry(before: Seq<char>, entry: Seq<char>, after: Seq<char>)
    requires
        is_trimmed(entry),
        !entry.contains(','),
        forall|i: int| 0 <= i < before.len() ==> white_char(#[trigger] before[i]),
        forall|i: int| 0 <= i < after.len() ==> white_char(#[trigger] after[i]),
    ensures
        list_entries(before + entry + after) == seq![entry],
{
    let text = before + entry + after;
    assert forall|i: int| 0 <= i < text.len() implies text[i] != ',' by {
        if before.len() <= i < before.len() + entry.len() {
            assert(entry[i - before.len()] == text[i]);
        } else if i < before.len() {
            assert(white_char(before[i]));
        } else {
            assert(white_char(after[i - before.len() - entry.len()]));
        }
    }
    lemma_single_piece(text, ',');
    lemma_trims_before(before, entry + after);
    assert(text =~= before + (entry + after));
    lemma_trims_after(entry, after);
    assert(trimmed(text) == entry);
    lemma_filtered_single(text);
}

/// White space makes no entry.
pub proof fn law_white_space_is_no_entry(text: Seq<char>)
    requires
        forall|i: int| 0 <= i < text.len() ==> white_char(#[trigger] text[i]),
    ensures
        list_entries(text) == Seq::<Seq<char>>::empty(),
{
    assert forall|i: int| 0 <= i < text.len() implies text[i] != ',' by {
        assert(white_char(text[i]));
    }
    lemma_single_piece(text, ',');
    lemma_trims_all(text);
    lemma_filtered_single(text);
}

proof fn lemma_single_piece(text: Seq<char>, separator: char)
    requires
        forall|i: int| 0 <= i < text.len() ==> #[trigger] text[i] != separator,
    ensures
        pieces(text, separator) == seq![text],
    decreases text.len(),
{
    if text.len() > 0 {
        lemma_single_piece(text.drop_last(), separator);
        assert(text.drop_last().push(text.last()) =~= text);
        assert(pieces(text, separator) =~= seq![text]);
    } else {
        assert(text =~= Seq::empty());
    }
}

proof fn lemma_trims_before(before: Seq<char>, rest: Seq<char>)
    requires
        rest.len() > 0,
        !white_char(rest[0]),
        forall|i: int| 0 <= i < before.len() ==> white_char(#[trigger] before[i]),
    ensures
        trim_start(before + rest) == rest,
    decreases before.len(),
{
    if before.len() > 0 {
        assert((before + rest)[0] == before[0]);
        assert((before + rest).drop_first() =~= before.drop_first() + rest);
        lemma_trims_before(before.drop_first(), rest);
    } else {
        assert(before + rest =~= rest);
    }
}

proof fn lemma_trims_after(entry: Seq<char>, after: Seq<char>)
    requires
        entry.len() > 0,
        !white_char(entry.last()),
        forall|i: int| 0 <= i < after.len() ==> white_char(#[trigger] after[i]),
    ensures
        trim_end(entry + after) == entry,
    decreases after.len(),
{
    if after.len() > 0 {
        assert((entry + after).last() == after[after.len() - 1]);
        assert((entry + after).drop_last() =~= entry + after.drop_last());
        lemma_trims_after(entry, after.drop_last());
    } else {
        assert(entry + after =~= entry);
    }
}

proof fn lemma_trims_all(text: Seq<char>)
    requires
        forall|i: int| 0 <= i < text.len() ==> white_char(#[trigger] text[i]),
    ensures
        trim_start(text).len() == 0,
    decreases text.len(),
{
    if text.len() > 0 {
        assert(white_char(text[0]));
        lemma_trims_all(text.drop_first());
    }
}

proof fn lemma_filtered_single(text: Seq<char>)
    requires
        pieces(text, ',') == seq![text],
    ensures
        list_entries(text) == if trimmed(text).len() > 0 {
            seq![trimmed(text)]
        } else {
            Seq::empty()
        },
{
    let kept = |entry: Seq<char>| entry.len() > 0;
    let list = pieces(text, ',').map_values(|piece: Seq<char>| trimmed(piece));
    assert(list =~= seq![trimmed(text)]);
    reveal(Seq::filter);
    assert(list.drop_last() =~= Seq::empty());
    assert(list.drop_last().filter(kept) =~= Seq::<Seq<char>>::empty());
}

/// The number that a text of decimal digits stands for.
pub open spec fn read_decimal(text: Seq<char>) -> int
    decreases text.len(),
{
    if text.len() == 0 {
        0
    } else {
        read_decimal(text.drop_last()) * 10 + (text.last() as int - '0' as int)
    }
}

/// A number in decimal reads back as the number. It is made of the digits from `0` to
/// `9`, and starts with `0` only if it is zero.
pub proof fn law_decimal_reads_back(n: nat)
    ensures
        read_decimal(decimal(n)) == n,
        decimal(n).len() > 0,
        decimal(n)[0] == '0' ==> n == 0 && decimal(n).len() == 1,
        forall|i: int| 0 <= i < decimal(n).len() ==> '0' <= #[trigger] decimal(n)[i] <= '9',
    decreases n,
{
    if n < 10 {
        assert(decimal(n).drop_last() =~= Seq::empty());
        assert(read_decimal(decimal(n).drop_last()) == 0);
    } else {
        law_decimal_reads_back(n / 10);
        assert(decimal(n).drop_last() =~= decimal(n / 10));
        assert(decimal(n)[0] == decimal(n / 10)[0]);
        assert forall|i: int| 0 <= i < decimal(n).len() implies '0' <= #[trigger] decimal(n)[i]
            <= '9' by {
            if i < decimal(n / 10).len() {
                assert(decimal(n)[i] == decimal(n / 10)[i]);
            }
        }
    }
}

/// The value of a hexadecimal digit.
pub open spec fn hex_value(c: char) -> int {
    if '0' <= c <= '9' {
        c as int - '0' as int
    } else {
        c as int - 'a' as int + 10
    }
}

/// A digit reads back as its value.
pub proof fn lemma_digit_reads_back(value: int)
    requires
        0 <= value < 16,
    ensures
        hex_value(digit(value)) == value,
        '0' <= digit(value) <= '9' || 'a' <= digit(value) <= 'f',
{
}

proof fn lemma_split_into_digits(i: int)
    requires
        0 <= i < 0x1_0000_0000,
    ensures
        i == (i / 0x1000_0000 % 16) * 0x1000_0000 + (i / 0x100_0000 % 16) * 0x100_0000 + (i
            / 0x10_0000 % 16) * 0x10_0000 + (i / 0x1_0000 % 16) * 0x1_0000 + (i / 0x1000 % 16)
            * 0x1000 + (i / 0x100 % 16) * 0x100 + (i / 0x10 % 16) * 0x10 + i % 16,
{
    assert(i / 0x100 == i / 0x10 / 16);
    assert(i / 0x1000 == i / 0x100 / 16);
    assert(i / 0x1_0000 == i / 0x1000 / 16);
    assert(i / 0x10_0000 == i / 0x1_0000 / 16);
    assert(i / 0x100_0000 == i / 0x10_0000 / 16);
    assert(i / 0x1000_0000 == i / 0x100_0000 / 16);
}

/// A number in hexadecimal has eight digits, from `0` to `9` and from `a` to `f`.
pub proof fn law_hexadecimal_has_eight_digits(n: u32, i: int)
    requires
        0 <= i < 8,
    ensures
        hex8(n).len() == 8,
        '0' <= hex8(n)[i] <= '9' || 'a' <= hex8(n)[i] <= 'f',
{
}

/// A number in hexadecimal reads back as the number.
pub proof fn law_hexadecimal_reads_back(n: u32)
    ensures
        n == hex_value(hex8(n)[0]) * 0x1000_0000 + hex_value(hex8(n)[1]) * 0x100_0000 + hex_value(
            hex8(n)[2],
        ) * 0x10_0000 + hex_value(hex8(n)[3]) * 0x1_0000 + hex_value(hex8(n)[4]) * 0x1000
            + hex_value(hex8(n)[5]) * 0x100 + hex_value(hex8(n)[6]) * 0x10 + hex_value(
            hex8(n)[7],
        ),
{
    let i = n as int;
    assert(hex_value(hex8(n)[0]) == i / 0x1000_0000 % 16) by {
        lemma_digit_reads_back(i / 0x1000_0000 % 16);
    }
    assert(hex_value(hex8(n)[1]) == i / 0x100_0000 % 16) by {
        lemma_digit_reads_back(i / 0x100_0000 % 16);
    }
    assert(hex_value(hex8(n)[2]) == i / 0x10_0000 % 16) by {
        lemma_digit_reads_back(i / 0x10_0000 % 16);
    }
    assert(hex_value(hex8(n)[3]) == i / 0x1_0000 % 16) by {
        lemma_digit_reads_back(i / 0x1_0000 % 16);
    }
    assert(hex_value(hex8(n)[4]) == i / 0x1000 % 16) by {
        lemma_digit_reads_back(i / 0x1000 % 16);
    }
    assert(hex_value(hex8(n)[5]) == i / 0x100 % 16) by {
        lemma_digit_reads_back(i / 0x100 % 16);
    }
    assert(hex_value(hex8(n)[6]) == i / 0x10 % 16) by {
        lemma_digit_reads_back(i / 0x10 % 16);
    }
    assert(hex_value(hex8(n)[7]) == i % 16) by {
        lemma_digit_reads_back(i % 16);
    }
    lemma_split_into_digits(i);
}

/// A text occurs in another exactly if the other is made of something, the text and
/// something else.
pub proof fn law_occurring_is_being_a_part(
    before: Seq<char>,
    needle: Seq<char>,
    after: Seq<char>,
    text: Seq<char>,
)
    ensures
        occurs_in(before + needle + after, needle),
        occurs_in(text, needle) ==> exists|a: Seq<char>, b: Seq<char>|
            text == #[trigger] (a + needle + b),
{
    let whole = before + needle + after;
    assert(whole.subrange(before.len() as int, (before.len() + needle.len()) as int) =~= needle);
    assert(occurs_at(whole, needle, before.len() as int));
    if occurs_in(text, needle) {
        let at = choose|at: int| occurs_at(text, needle, at);
        let a = text.take(at);
        let b = text.skip(at + needle.len());
        assert(text =~= a + needle + b);
    }
}

} // verus!
