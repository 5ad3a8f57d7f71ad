//! Small text building blocks: decimal numerals and splitting a file name.

use vstd::prelude::*;
use vstd::string::*;

verus! {

/// The character that writes a single decimal digit.
pub open spec fn digit_char(d: nat) -> char
    recommends
        d < 10,
{
    if d == 0 {
        '0'
    } else if d == 1 {
        '1'
    } else if d == 2 {
        '2'
    } else if d == 3 {
        '3'
    } else if d == 4 {
        '4'
    } else if d == 5 {
        '5'
    } else if d == 6 {
        '6'
    } else if d == 7 {
        '7'
    } else if d == 8 {
        '8'
    } else {
        '9'
    }
}

/// The decimal numeral of a natural number, without leading zeros.
pub open spec fn decimal(n: nat) -> Seq<char>
    decreases n,
{
    if n < 10 {
        seq![digit_char(n)]
    } else {
        decimal(n / 10).push(digit_char(n % 10))
    }
}

/// The one-character text of a decimal digit.
fn digit_str(d: u8) -> (text: &'static str)
    requires
        d < 10,
    ensures
        text@ == seq![digit_char(d as nat)],
{
    proof {
        reveal_strlit("0");
        reveal_strlit("1");
        reveal_strlit("2");
        reveal_strlit("3");
        reveal_strlit("4");
        reveal_strlit("5");
        reveal_strlit("6");
        reveal_strlit("7");
        reveal_strlit("8");
        reveal_strlit("9");
    }
    let text = if d == 0 {
        "0"
    } else if d == 1 {
        "1"
    } else if d == 2 {
        "2"
    } else if d == 3 {
        "3"
    } else if d == 4 {
        "4"
    } else if d == 5 {
        "5"
    } else if d == 6 {
        "6"
    } else if d == 7 {
        "7"
    } else if d == 8 {
        "8"
    } else {
        "9"
    };
    assert(text@ =~= seq![digit_char(d as nat)]);
    text
}

/// Writes a number as a decimal numeral.
pub fn decimal_string(n: u128) -> (text: String)
    ensures
        text@ == decimal(n as nat),
    decreases n,
{
    if n < 10 {
        String::from_str(digit_str(n as u8))
    } else {
        let mut text = decimal_string(n / 10);
        text.append(digit_str((n % 10) as u8));
        assert(text@ =~= decimal(n as nat));
        text
    }
}

/// Joins two pieces of text.
pub fn join2(first: &str, second: &str) -> (text: String)
    ensures
        text@ == first@ + second@,
{
    let mut text = String::from_str(first);
    text.append(second);
    text
}

/// Joins three pieces of text.
pub fn join3(first: &str, second: &str, third: &str) -> (text: String)
    ensures
        text@ == first@ + second@ + third@,
{
    let mut text = String::from_str(first);
    text.append(second);
    text.append(third);
    text
}

/// A run of `count` zeros.
pub open spec fn zeros(count: nat) -> Seq<char> {
    Seq::new(count, |i: int| '0')
}

/// The decimal numeral of a number, with zeros in front up to `width` digits.
pub open spec fn zero_padded(n: nat, width: nat) -> Seq<char> {
    let digits = decimal(n);
    if digits.len() >= width {
        digits
    } else {
        zeros((width - digits.len()) as nat) + digits
    }
}

/// Writes a number with zeros in front up to `width` digits.
pub fn zero_padded_string(n: u128, width: usize) -> (text: String)
    ensures
        text@ == zero_padded(n as nat, width as nat),
{
    let digits = decimal_string(n);
    let len = digits.as_str().unicode_len();
    let mut text = String::from_str("");
    let mut written: usize = 0;
    proof {
        reveal_strlit("");
        reveal_strlit("0");
    }
    assert(text@ =~= zeros(0));
    while len < width && written < width - len
        invariant
            len == digits@.len(),
            text@ == zeros(written as nat),
            "0"@ == seq!['0'],
            len >= width ==> written == 0,
            len < width ==> written <= width - len,
        decreases width - written,
    {
        text.append("0");
        written = written + 1;
        assert(text@ =~= zeros(written as nat));
    }
    text.append(digits.as_str());
    assert(text@ =~= zero_padded(n as nat, width as nat));
    text
}

/// Whether two pieces of text hold the same characters.
pub fn same_text(first: &str, second: &str) -> (same: bool)
    ensures
        same == (first@ == second@),
{
    String::from_str(first) == String::from_str(second)
}

/// The text without the characters `c` it begins with.
pub open spec fn trim_start(text: Seq<char>, c: char) -> Seq<char>
    decreases text.len(),
{
    if text.len() > 0 && text[0] == c {
        trim_start(text.drop_first(), c)
    } else {
        text
    }
}

/// The text without the characters `c` it ends with.
pub open spec fn trim_end(text: Seq<char>, c: char) -> Seq<char>
    decreases text.len(),
{
    if text.len() > 0 && text.last() == c {
        trim_end(text.drop_last(), c)
    } else {
        text
    }
}

/// The text without the characters `c` at either end.
pub open spec fn trimmed(text: Seq<char>, c: char) -> Seq<char> {
    trim_end(trim_start(text, c), c)
}

/// Skipping `count` leading characters `c` first changes nothing.
proof fn lemma_trim_start_skip(text: Seq<char>, c: char, count: int)
    requires
        0 <= count <= text.len(),
        forall|j: int| 0 <= j < count ==> text[j] == c,
    ensures
        trim_start(text, c) == trim_start(text.subrange(count, text.len() as int), c),
    decreases count,
{
    if count == 0 {
        assert(text.subrange(0, text.len() as int) =~= text);
    } else {
        lemma_trim_start_skip(text.drop_first(), c, count - 1);
        assert(text.drop_first().subrange(count - 1, text.drop_first().len() as int)
            =~= text.subrange(count, text.len() as int));
    }
}

/// Dropping trailing characters `c` down to length `keep` first changes
/// nothing.
proof fn lemma_trim_end_skip(text: Seq<char>, c: char, keep: int)
    requires
        0 <= keep <= text.len(),
        forall|j: int| keep <= j < text.len() ==> text[j] == c,
    ensures
        trim_end(text, c) == trim_end(text.subrange(0, keep), c),
    decreases text.len() - keep,
{
    if keep == text.len() {
        assert(text.subrange(0, keep) =~= text);
    } else {
        lemma_trim_end_skip(text.drop_last(), c, keep);
        assert(text.drop_last().subrange(0, keep) =~= text.subrange(0, keep));
    }
}

/// Takes the characters `c` off both ends of a text.
pub fn trim_char<'a>(text: &'a str, c: char) -> (rest: &'a str)
    ensures
        rest@ == trimmed(text@, c),
{
    let len = text.unicode_len();
    let mut start: usize = 0;
    while start < len && text.get_char(start) == c
        invariant
            len == text@.len(),
            start <= len,
            forall|j: int| 0 <= j < start ==> text@[j] == c,
        decreases len - start,
    {
        start = start + 1;
    }
    let mut end: usize = len;
    while end > start && text.get_char(end - 1) == c
        invariant
            len == text@.len(),
            start <= end <= len,
            forall|j: int| end <= j < len ==> text@[j] == c,
        decreases end,
    {
        end = end - 1;
    }
    let rest = text.substring_char(start, end);
    proof {
        let tail = text@.subrange(start as int, len as int);
        lemma_trim_start_skip(text@, c, start as int);
        assert(trim_start(tail, c) == tail);
        lemma_trim_end_skip(tail, c, end - start);
        assert(tail.subrange(0, end - start) =~= rest@);
        assert(trim_end(rest@, c) == rest@);
    }
    rest
}

/// Whether `text` ends with `suffix`.
pub open spec fn ends_with(text: Seq<char>, suffix: Seq<char>) -> bool {
    text.len() >= suffix.len() && text.subrange(text.len() - suffix.len(), text.len() as int)
        == suffix
}

/// Whether a text ends with another.
pub fn has_suffix(text: &str, suffix: &str) -> (ends: bool)
    ensures
        ends == ends_with(text@, suffix@),
{
    let len = text.unicode_len();
    let suffix_len = suffix.unicode_len();
    if len < suffix_len {
        return false;
    }
    same_text(text.substring_char(len - suffix_len, len), suffix)
}

/// The text with every `suffix` at its end taken off, one after another.
pub open spec fn strip_suffixes(text: Seq<char>, suffix: Seq<char>) -> Seq<char>
    decreases text.len(),
{
    if suffix.len() > 0 && ends_with(text, suffix) {
        strip_suffixes(text.subrange(0, text.len() - suffix.len()), suffix)
    } else {
        text
    }
}

/// Takes `suffix` off the end of a text as often as it stands there.
pub fn trim_suffix<'a>(text: &'a str, suffix: &str) -> (rest: &'a str)
    ensures
        rest@ == strip_suffixes(text@, suffix@),
{
    let suffix_len = suffix.unicode_len();
    let mut rest = text;
    if suffix_len == 0 {
        return rest;
    }
    while has_suffix(rest, suffix)
        invariant
            suffix_len == suffix@.len(),
            suffix_len > 0,
            strip_suffixes(rest@, suffix@) == strip_suffixes(text@, suffix@),
        decreases rest@.len(),
    {
        let len = rest.unicode_len();
        rest = rest.substring_char(0, len - suffix_len);
    }
    rest
}

/// The text with every carriage return that a line feed follows left out.
pub open spec fn unix_newlines(text: Seq<char>) -> Seq<char>
    decreases text.len(),
{
    if text.len() == 0 {
        text
    } else if text.len() >= 2 && text[0] == '\r' && text[1] == '\n' {
        seq!['\n'] + unix_newlines(text.subrange(2, text.len() as int))
    } else {
        seq![text[0]] + unix_newlines(text.drop_first())
    }
}

/// Writes every pair of carriage return and line feed as a line feed.
pub fn to_unix_newlines(text: &str) -> (plain: String)
    ensures
        plain@ == unix_newlines(text@),
{
    let len = text.unicode_len();
    let mut plain = String::from_str("");
    let mut i: usize = 0;
    proof {
        reveal_strlit("");
        assert(text@.subrange(0, len as int) =~= text@);
    }
    while i < len
        invariant
            len == text@.len(),
            i <= len,
            plain@ + unix_newlines(text@.subrange(i as int, len as int)) == unix_newlines(text@),
        decreases len - i,
    {
        let ghost rest = text@.subrange(i as int, len as int);
        let ghost written = plain@;
        if i + 1 < len && text.get_char(i) == '\r' && text.get_char(i + 1) == '\n' {
            plain.append(text.substring_char(i + 1, i + 2));
            proof {
                assert(text@.subrange(i + 1, i + 2) =~= seq!['\n']);
                assert(rest.subrange(2, rest.len() as int) =~= text@.subrange(i + 2, len as int));
                assert(plain@ + unix_newlines(text@.subrange(i + 2, len as int)) =~= written
                    + unix_newlines(rest));
            }
            i = i + 2;
        } else {
            plain.append(text.substring_char(i, i + 1));
            proof {
                assert(text@.subrange(i as int, i + 1) =~= seq![rest[0]]);
                assert(rest.drop_first() =~= text@.subrange(i + 1, len as int));
                assert(plain@ + unix_newlines(text@.subrange(i + 1, len as int)) =~= written
                    + unix_newlines(rest));
            }
            i = i + 1;
        }
    }
    assert(text@.subrange(len as int, len as int) =~= Seq::<char>::empty());
    assert(plain@ =~= plain@ + unix_newlines(Seq::<char>::empty()));
    plain
}

/// The place of the last `c` in a text, or -1 where there is none.
pub open spec fn last_index_of(text: Seq<char>, c: char) -> int
    decreases text.len(),
{
    if text.len() == 0 {
        -1
    } else if text.last() == c {
        text.len() - 1
    } else {
        last_index_of(text.drop_last(), c)
    }
}

/// The last `c` of a text stands at `last_index_of`, and none stands after.
pub proof fn lemma_last_index_of(text: Seq<char>, c: char)
    ensures
        -1 <= last_index_of(text, c) < text.len(),
        last_index_of(text, c) >= 0 ==> text[last_index_of(text, c)] == c,
        forall|j: int| last_index_of(text, c) < j < text.len() ==> text[j] != c,
    decreases text.len(),
{
    if text.len() > 0 && text.last() != c {
        lemma_last_index_of(text.drop_last(), c);
        assert forall|j: int| last_index_of(text, c) < j < text.len() implies text[j] != c by {
            if j < text.len() - 1 {
                assert(text.drop_last()[j] != c);
            }
        }
    }
}

/// The part of a file name before its last dot: the whole name where it has
/// no dot.
pub open spec fn name_key(name: Seq<char>) -> Seq<char> {
    let dot = last_index_of(name, '.');
    if dot < 0 {
        name
    } else {
        name.subrange(0, dot)
    }
}

/// The part of a file name after its last dot: nothing where it has no dot.
pub open spec fn name_extension(name: Seq<char>) -> Seq<char> {
    let dot = last_index_of(name, '.');
    if dot < 0 {
        Seq::empty()
    } else {
        name.subrange(dot + 1, name.len() as int)
    }
}

/// Splits a file name at its last dot into key and extension.
pub fn split_name<'a>(name: &'a str) -> (parts: (&'a str, &'a str))
    ensures
        parts.0@ == name_key(name@),
        parts.1@ == name_extension(name@),
{
    let len = name.unicode_len();
    let mut end: usize = len;
    proof {
        lemma_last_index_of(name@, '.');
    }
    while end > 0 && name.get_char(end - 1) != '.'
        invariant
            len == name@.len(),
            end <= len,
            forall|j: int| end <= j < len ==> name@[j] != '.',
        decreases end,
    {
        end = end - 1;
    }
    if end == 0 {
        assert(last_index_of(name@, '.') < 0);
        assert(name@.subrange(0, len as int) =~= name@);
        assert(name@.subrange(len as int, len as int) =~= Seq::<char>::empty());
        (name.substring_char(0, len), name.substring_char(len, len))
    } else {
        assert(last_index_of(name@, '.') == end - 1);
        (name.substring_char(0, end - 1), name.substring_char(end, len))
    }
}

/// A decimal numeral holds no dot.
pub proof fn lemma_decimal_has_no_dot(n: nat)
    ensures
        !decimal(n).contains('.'),
    decreases n,
{
    if n >= 10 {
        lemma_decimal_has_no_dot(n / 10);
        let front = decimal(n / 10);
        assert forall|i: int| 0 <= i < decimal(n).len() implies decimal(n)[i] != '.' by {
            if i < front.len() {
                assert(front[i] == decimal(n)[i]);
                assert(front.contains(front[i]));
            }
        }
    }
}

/// A numeral with zeros in front holds no dot.
pub proof fn lemma_zero_padded_has_no_dot(n: nat, width: nat)
    ensures
        !zero_padded(n, width).contains('.'),
{
    lemma_decimal_has_no_dot(n);
    let digits = decimal(n);
    let padded = zero_padded(n, width);
    assert forall|i: int| 0 <= i < padded.len() implies padded[i] != '.' by {
        if digits.len() < width {
            let lead = (width - digits.len()) as int;
            if i >= lead {
                assert(padded[i] == digits[i - lead]);
                assert(digits.contains(digits[i - lead]));
            }
        } else {
            assert(digits.contains(digits[i]));
        }
    }
}

/// A file name made of a key, a dot and an extension without a dot splits
/// into that key and that extension.
pub proof fn lemma_name_parts(key: Seq<char>, extension: Seq<char>)
    requires
        !extension.contains('.'),
    ensures
        name_key(key + seq!['.'] + extension) == key,
        name_extension(key + seq!['.'] + extension) == extension,
{
    let name = key + seq!['.'] + extension;
    lemma_last_index_of(name, '.');
    let dot = last_index_of(name, '.');
    assert(name[key.len() as int] == '.');
    if dot > key.len() {
        assert(name[dot] == extension[dot - key.len() - 1]);
        assert(extension.contains(extension[dot - key.len() - 1]));
    }
    assert(dot == key.len());
    assert(name.subrange(0, dot) =~= key);
    assert(name.subrange(dot + 1, name.len() as int) =~= extension);
}

} // verus!
