//! Text building blocks: decimal numbers, joining, blank text and text on one
//! line.

use vstd::prelude::*;
use vstd::string::*;

verus! {

/// The text of an optional string.
pub open spec fn opt_text(value: Option<String>) -> Option<Seq<char>> {
    match value {
        Some(s) => Some(s@),
        None => None,
    }
}

/// The texts of a sequence of strings.
pub open spec fn texts(values: Seq<String>) -> Seq<Seq<char>> {
    values.map_values(|s: String| s@)
}

/// Adding a string adds its text.
pub broadcast proof fn texts_push(values: Seq<String>, s: String)
    ensures
        #[trigger] texts(values.push(s)) == texts(values).push(s@),
{
    assert(texts(values.push(s)) =~= texts(values).push(s@));
}

/// Adding a value adds its view.
pub broadcast proof fn views_push<T: View>(values: Seq<T>, x: T)
    ensures
        #[trigger] views(values.push(x)) == views(values).push(x@),
{
    assert(views(values.push(x)) =~= views(values).push(x@));
}

/// The views of a sequence of values.
pub open spec fn views<T: View>(values: Seq<T>) -> Seq<T::V> {
    values.map_values(|x: T| x@)
}

/// The view of an optional value.
pub open spec fn opt_view<T: View>(value: Option<T>) -> Option<T::V> {
    match value {
        Some(x) => Some(x@),
        None => None,
    }
}

/// The text of an optional string, empty where there is none.
pub open spec fn text_or_empty(value: Option<Seq<char>>) -> Seq<char> {
    match value {
        Some(s) => s,
        None => Seq::empty(),
    }
}

/// Copy an optional string.
pub fn clone_opt(value: &Option<String>) -> (copy: Option<String>)
    ensures
        copy == *value,
{
    match value {
        Some(s) => Some(s.clone()),
        None => None,
    }
}

/// Copy a list of strings.
pub fn clone_texts(values: &Vec<String>) -> (copy: Vec<String>)
    ensures
        copy@ == values@,
        texts(copy@) == texts(values@),
{
    let mut copy: Vec<String> = Vec::new();
    for i in 0..values.len()
        invariant
            copy@ == values@.take(i as int),
    {
        copy.push(values[i].clone());
        assert(copy@ =~= values@.take(i + 1));
    }
    assert(copy@ =~= values@);
    copy
}

/// The string, or an empty one where there is none.
pub fn opt_or_empty(value: &Option<String>) -> (text: String)
    ensures
        text@ == text_or_empty(opt_text(*value)),
{
    match value {
        Some(s) => s.clone(),
        None => String::new(),
    }
}

// ── Decimal numbers ────────────────────────────────────────────────────

/// The decimal digit for a number below ten.
pub open spec fn digit_text(digit: nat) -> Seq<char> {
    if digit == 0 {
        "0"@
    } else if digit == 1 {
        "1"@
    } else if digit == 2 {
        "2"@
    } else if digit == 3 {
        "3"@
    } else if digit == 4 {
        "4"@
    } else if digit == 5 {
        "5"@
    } else if digit == 6 {
        "6"@
    } else if digit == 7 {
        "7"@
    } else if digit == 8 {
        "8"@
    } else {
        "9"@
    }
}

/// A number written in decimal, without leading zeros.
pub open spec fn decimal(n: nat) -> Seq<char>
    decreases n,
{
    if n < 10 {
        digit_text(n)
    } else {
        decimal(n / 10) + digit_text(n % 10)
    }
}

/// A signed number written in decimal.
pub open spec fn signed_decimal(n: int) -> Seq<char> {
    if n < 0 {
        "-"@ + decimal((-n) as nat)
    } else {
        decimal(n as nat)
    }
}

/// Write a digit.
pub fn digit_str(digit: u8) -> (text: &'static str)
    requires
        digit < 10,
    ensures
        text@ == digit_text(digit as nat),
{
    match digit {
        0 => "0",
        1 => "1",
        2 => "2",
        3 => "3",
        4 => "4",
        5 => "5",
        6 => "6",
        7 => "7",
        8 => "8",
        _ => "9",
    }
}

/// Write a number in decimal.
pub fn decimal_text(n: u128) -> (text: String)
    ensures
        text@ == decimal(n as nat),
    decreases n,
{
    if n < 10 {
        digit_str(n as u8).to_string()
    } else {
        let mut text = decimal_text(n / 10);
        text.append(digit_str((n % 10) as u8));
        text
    }
}

/// Write a signed number in decimal.
pub fn signed_decimal_text(n: i32) -> (text: String)
    ensures
        text@ == signed_decimal(n as int),
{
    if n < 0 {
        let magnitude: i64 = -(n as i64);
        let mut text = "-".to_string();
        text.append(decimal_text(magnitude as u128).as_str());
        text
    } else {
        decimal_text(n as u128)
    }
}

/// A number's decimal text is never empty and holds decimal digits only.
pub proof fn decimal_digits(n: nat)
    ensures
        decimal(n).len() > 0,
        forall|i: int| 0 <= i < decimal(n).len() ==> '0' <= #[trigger] decimal(n)[i] <= '9',
    decreases n,
{
    reveal_strlit("0");
    reveal_strlit("1");
    reveal_strlit("2");
    reveal_strlit("3");
    reveal_strlit("4");
    reveal_strlit("5");
    reveal_strlit("6");
    reveal_strlit("7");
    reveal_strlit("8");
    reveal_strlit("9");
    if n >= 10 {
        decimal_digits(n / 10);
    }
}

// ── Joining ────────────────────────────────────────────────────────────

/// The parts in order, with the separator between neighbours.
pub open spec fn joined(parts: Seq<Seq<char>>, separator: Seq<char>) -> Seq<char>
    decreases parts.len(),
{
    if parts.len() == 0 {
        Seq::empty()
    } else if parts.len() == 1 {
        parts[0]
    } else {
        joined(parts.drop_last(), separator) + separator + parts.last()
    }
}

/// Join the parts, with the separator between neighbours.
pub fn join_texts(parts: &Vec<String>, separator: &str) -> (text: String)
    ensures
        text@ == joined(texts(parts@), separator@),
{
    if parts.len() == 0 {
        return String::new();
    }
    let mut text = parts[0].clone();
    let ghost all = texts(parts@);
    assert(all.take(1).drop_last() =~= Seq::empty());
    for i in 1..parts.len()
        invariant
            0 < i <= parts.len(),
            all == texts(parts@),
            text@ == joined(all.take(i as int), separator@),
    {
        text.append(separator);
        text.append(parts[i].as_str());
        assert(all.take(i + 1).drop_last() =~= all.take(i as int));
        assert(all.take(i + 1).last() == parts@[i as int]@);
    }
    assert(all.take(parts.len() as int) =~= all);
    text
}

// ── Line breaks ────────────────────────────────────────────────────────

/// The characters that end a line.
pub open spec fn line_break(c: char) -> bool {
    c == '\n' || c == '\r'
}

/// Text without a line break.
pub open spec fn unbroken(text: Seq<char>) -> bool {
    forall|i: int| 0 <= i < text.len() ==> !line_break(#[trigger] text[i])
}

/// A text on one line: a space stands for each line break.
pub open spec fn one_line(text: Seq<char>) -> Seq<char> {
    text.map_values(
        |c: char|
            if line_break(c) {
                ' '
            } else {
                c
            },
    )
}

/// A text on one line holds no line break.
pub broadcast proof fn one_line_is_unbroken(text: Seq<char>)
    ensures
        unbroken(#[trigger] one_line(text)),
{
}

/// A text without line breaks is on one line already.
pub proof fn unbroken_is_one_line(text: Seq<char>)
    requires
        unbroken(text),
    ensures
        one_line(text) == text,
{
    assert(one_line(text) =~= text);
}

/// Write a text on one line.
pub fn one_line_text(text: &str) -> (line: String)
    ensures
        line@ == one_line(text@),
{
    let n = text.unicode_len();
    let mut line = String::new();
    let mut start: usize = 0;
    let mut i: usize = 0;
    for c in it: text.chars()
        invariant
            it.seq() == text@,
            n == text@.len(),
            i == it.index(),
            start <= i <= n,
            line@ == one_line(text@.take(start as int)),
            unbroken(text@.subrange(start as int, i as int)),
    {
        let ghost before = start as int;
        assert(c == text@[i as int]);
        if c == '\n' || c == '\r' {
            let segment = text.substring_char(start, i);
            line.append(segment);
            line.append(" ");
            proof {
                reveal_strlit(" ");
                assert(segment@ == text@.subrange(before, i as int));
                assert(line@ =~= one_line(text@.take(i + 1))) by {
                    assert forall|k: int| 0 <= k < i + 1 implies line@[k] == one_line(
                        text@.take(i + 1),
                    )[k] by {
                        if k < before {
                            assert(text@.take(before)[k] == text@[k]);
                        } else if k < i {
                            assert(segment@[k - before] == text@[k]);
                        }
                    }
                }
            }
            start = i + 1;
            assert(unbroken(text@.subrange(start as int, i + 1)));
        } else {
            assert forall|k: int| 0 <= k < i + 1 - before implies !line_break(
                #[trigger] text@.subrange(before, i + 1)[k],
            ) by {
                if k < i - before {
                    assert(text@.subrange(before, i as int)[k] == text@[before + k]);
                }
            }
        }
        i = i + 1;
    }
    let segment = text.substring_char(start, n);
    line.append(segment);
    proof {
        let rest = text@.subrange(start as int, n as int);
        unbroken_is_one_line(rest);
        assert(line@ =~= one_line(text@)) by {
            assert forall|k: int| 0 <= k < n implies line@[k] == one_line(text@)[k] by {
                if k < start {
                    assert(text@.take(start as int)[k] == text@[k]);
                } else {
                    assert(rest[k - start] == text@[k]);
                }
            }
        }
    }
    line
}

/// Texts without line breaks make a text without line breaks.
pub broadcast proof fn unbroken_concat(a: Seq<char>, b: Seq<char>)
    requires
        unbroken(a),
        unbroken(b),
    ensures
        #[trigger] unbroken(a + b),
{
    assert forall|i: int| 0 <= i < (a + b).len() implies !line_break(#[trigger] (a + b)[i]) by {
        if i < a.len() {
            assert((a + b)[i] == a[i]);
        } else {
            assert((a + b)[i] == b[i - a.len()]);
        }
    }
}

/// A decimal number holds no line break.
pub broadcast proof fn unbroken_decimal(n: nat)
    ensures
        #[trigger] unbroken(decimal(n)),
{
    decimal_digits(n);
}

/// Joining texts without line breaks gives a text without line breaks.
pub broadcast proof fn unbroken_joined(parts: Seq<Seq<char>>, separator: Seq<char>)
    requires
        unbroken(separator),
        forall|i: int| 0 <= i < parts.len() ==> unbroken(#[trigger] parts[i]),
    ensures
        #[trigger] unbroken(joined(parts, separator)),
    decreases parts.len(),
{
    if parts.len() > 1 {
        assert forall|i: int| 0 <= i < parts.drop_last().len() implies unbroken(
            #[trigger] parts.drop_last()[i],
        ) by {
            assert(parts.drop_last()[i] == parts[i]);
        }
        unbroken_joined(parts.drop_last(), separator);
        unbroken_concat(joined(parts.drop_last(), separator), separator);
        unbroken_concat(joined(parts.drop_last(), separator) + separator, parts.last());
    }
}

// ── Blank text ─────────────────────────────────────────────────────────

/// The characters with the Unicode property `White_Space`.
pub open spec fn white_space(c: char) -> bool {
    let code = c as u32;
    ||| 0x09 <= code <= 0x0d
    ||| code == 0x20
    ||| code == 0x85
    ||| code == 0xa0
    ||| code == 0x1680
    ||| 0x2000 <= code <= 0x200a
    ||| code == 0x2028
    ||| code == 0x2029
    ||| code == 0x202f
    ||| code == 0x205f
    ||| code == 0x3000
}

/// Text that holds nothing but white space.
pub open spec fn blank(text: Seq<char>) -> bool {
    forall|i: int| 0 <= i < text.len() ==> white_space(#[trigger] text[i])
}

fn is_white_space(c: char) -> (r: bool)
    ensures
        r == white_space(c),
{
    let code: u32 = c as u32;
    (0x09 <= code && code <= 0x0d) || code == 0x20 || code == 0x85 || code == 0xa0 || code == 0x1680
        || (0x2000 <= code && code <= 0x200a) || code == 0x2028 || code == 0x2029 || code == 0x202f
        || code == 0x205f || code == 0x3000
}

/// Whether the text holds nothing but white space.
pub fn is_blank(text: &str) -> (r: bool)
    ensures
        r == blank(text@),
{
    for c in it: text.chars()
        invariant
            it.seq() == text@,
            forall|i: int| 0 <= i < it.index() ==> white_space(#[trigger] text@[i]),
    {
        if !is_white_space(c) {
            assert(!white_space(text@[it.index()]));
            return false;
        }
    }
    true
}

// ── Laws ───────────────────────────────────────────────────────────────

/// The number that decimal digits stand for, read from the left.
pub open spec fn read_back(digits: Seq<char>) -> nat
    decreases digits.len(),
{
    if digits.len() == 0 {
        0
    } else {
        10 * read_back(digits.drop_last()) + (digits.last() as u32 - '0' as u32) as nat
    }
}

/// A decimal number reads back as the number it was written from, and has no
/// leading zero but its own.
pub proof fn decimals_read_back(n: nat)
    ensures
        read_back(decimal(n)) == n,
        decimal(n).len() > 0,
        n > 0 ==> decimal(n)[0] != '0',
        forall|i: int| 0 <= i < decimal(n).len() ==> '0' <= #[trigger] decimal(n)[i] <= '9',
    decreases n,
{
    reveal_strlit("0");
    reveal_strlit("1");
    reveal_strlit("2");
    reveal_strlit("3");
    reveal_strlit("4");
    reveal_strlit("5");
    reveal_strlit("6");
    reveal_strlit("7");
    reveal_strlit("8");
    reveal_strlit("9");
    reveal_with_fuel(read_back, 2);
    if n < 10 {
        assert(decimal(n).drop_last() =~= Seq::empty());
    } else {
        decimals_read_back(n / 10);
        assert(decimal(n).drop_last() =~= decimal(n / 10));
        assert(decimal(n).last() == digit_text(n % 10)[0]);
        assert(decimal(n)[0] == decimal(n / 10)[0]);
        assert forall|i: int| 0 <= i < decimal(n).len() implies '0' <= #[trigger] decimal(n)[i]
            <= '9' by {
            if i < decimal(n / 10).len() {
                assert(decimal(n)[i] == decimal(n / 10)[i]);
            }
        }
    }
}

/// A negative number is written as a minus sign and its opposite, any other
/// as it is without a sign.
pub proof fn signs_are_written(n: nat)
    ensures
        signed_decimal(n as int) == decimal(n),
        n > 0 ==> signed_decimal(-n) == "-"@ + decimal(n),
{
}

/// Joining puts the separator between the parts and nowhere else: joining two
/// runs of parts joins the joined runs.
pub proof fn joins_join(a: Seq<Seq<char>>, b: Seq<Seq<char>>, separator: Seq<char>)
    requires
        a.len() > 0,
        b.len() > 0,
    ensures
        joined(a + b, separator) == joined(a, separator) + separator + joined(b, separator),
    decreases b.len(),
{
    let all = a + b;
    assert(all.drop_last() =~= a + b.drop_last());
    if b.len() == 1 {
        assert(all.drop_last() =~= a);
    } else {
        joins_join(a, b.drop_last(), separator);
        assert(joined(all, separator) =~= joined(a, separator) + separator + joined(b, separator));
    }
}

/// One part joins to itself, and none to nothing.
pub proof fn single_parts_join_to_themselves(part: Seq<char>, separator: Seq<char>)
    ensures
        joined(seq![part], separator) == part,
        joined(Seq::empty(), separator).len() == 0,
{
}

/// A text is put on one line character by character: a line feed or a carriage
/// return gives way to a space, and nothing else changes.
pub proof fn lines_keep_their_characters(text: Seq<char>, i: int)
    requires
        0 <= i < text.len(),
    ensures
        one_line(text).len() == text.len(),
        text[i] == '\n' || text[i] == '\r' ==> one_line(text)[i] == ' ',
        text[i] != '\n' && text[i] != '\r' ==> one_line(text)[i] == text[i],
{
}

/// A text is blank when its parts are, and only then; nothing is blank.
pub proof fn blank_parts_make_blank_texts(a: Seq<char>, b: Seq<char>)
    ensures
        blank(a + b) <==> blank(a) && blank(b),
        blank(Seq::<char>::empty()),
{
    if blank(a + b) {
        assert forall|i: int| 0 <= i < a.len() implies white_space(#[trigger] a[i]) by {
            assert((a + b)[i] == a[i]);
        }
        assert forall|i: int| 0 <= i < b.len() implies white_space(#[trigger] b[i]) by {
            assert((a + b)[a.len() + i] == b[i]);
        }
    }
}

/// Spaces, tabs, line feeds and carriage returns are blank. A text with a
/// visible ASCII character in it is not.
pub proof fn visible_characters_are_not_blank(text: Seq<char>)
    ensures
        (forall|i: int|
            0 <= i < text.len() ==> #[trigger] text[i] == ' ' || text[i] == '\t' || text[i]
                == '\n' || text[i] == '\r') ==> blank(text),
        (exists|i: int| 0 <= i < text.len() && '!' <= #[trigger] text[i] <= '~') ==> !blank(text),
{
}

/// The white space beyond ASCII is blank too: the next-line and no-break
/// characters, the spaces of general punctuation, and the ideographic space.
/// The characters between them are not.
pub proof fn unicode_spaces_are_blank(c: char)
    ensures
        c == '\u{85}' || c == '\u{a0}' || c == '\u{1680}' || '\u{2000}' <= c <= '\u{200a}' || c
            == '\u{2028}' || c == '\u{2029}' || c == '\u{202f}' || c == '\u{205f}' || c
            == '\u{3000}' ==> blank(seq![c]),
        c == '\u{b}' || c == '\u{c}' ==> blank(seq![c]),
        '\u{a1}' <= c <= '\u{167f}' || '\u{1681}' <= c <= '\u{1fff}' || '\u{200b}' <= c
            <= '\u{2027}' || '\u{3001}' <= c ==> !blank(seq![c]),
{
    assert(seq![c][0] == c);
}

} // verus!
