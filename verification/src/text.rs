//! Text as the process-accounting files hold it: lines, white-space
//! separated fields, and unsigned decimal numbers.

use vstd::prelude::*;

verus! {

/// The characters of `text`, in order.
pub fn chars_of(text: &str) -> (chars: Vec<char>)
    ensures
        chars@ == text@,
{
    let mut chars: Vec<char> = Vec::new();
    for c in it: text.chars()
        invariant
            it.seq() == text@,
            chars@ == text@.take(it.index()),
    {
        chars.push(c);
    }
    chars
}

/// Whether `c` is white space: a character with the Unicode property
/// `White_Space`.
pub open spec fn is_space(c: char) -> bool {
    let code = c as u32;
    ||| 0x09 <= code <= 0x0d
    ||| code == 0x20
    ||| code == 0x85
    ||| code == 0xa0
    ||| code == 0x1680
    ||| 0x2000 <= code <= 0x200a
    ||| code == 0x2028
    ||| code == 0x2029
    ||| code == 0x202f
    ||| code == 0x205f
    ||| code == 0x3000
}

/// Decides `is_space`.
pub fn space(c: char) -> (b: bool)
    ensures
        b == is_space(c),
{
    let code: u32 = c as u32;
    (0x09 <= code && code <= 0x0d) || code == 0x20 || code == 0x85 || code == 0xa0 || code
        == 0x1680 || (0x2000 <= code && code <= 0x200a) || code == 0x2028 || code == 0x2029
        || code == 0x202f || code == 0x205f || code == 0x3000
}

/// The white-space separated fields of `text`, in order. The text is read
/// character by character: white space adds nothing, a character after
/// another non-space character extends the last field, and any other
/// character starts a field.
pub open spec fn fields(text: Seq<char>) -> Seq<Seq<char>>
    decreases text.len(),
{
    if text.len() == 0 {
        Seq::empty()
    } else {
        let front = text.drop_last();
        let c = text.last();
        if is_space(c) {
            fields(front)
        } else if front.len() > 0 && !is_space(front.last()) {
            fields(front).drop_last().push(fields(front).last().push(c))
        } else {
            fields(front).push(seq![c])
        }
    }
}

/// The lines of `text`, in order, without their terminating line feeds. The
/// last line needs no terminator. A carriage return stays part of its line.
pub open spec fn lines(text: Seq<char>) -> Seq<Seq<char>>
    decreases text.len(),
{
    if text.len() == 0 {
        Seq::empty()
    } else {
        let front = text.drop_last();
        let c = text.last();
        let fresh = front.len() == 0 || front.last() == '\n';
        if c == '\n' {
            if fresh {
                lines(front).push(Seq::empty())
            } else {
                lines(front)
            }
        } else if fresh {
            lines(front).push(seq![c])
        } else {
            lines(front).drop_last().push(lines(front).last().push(c))
        }
    }
}

/// Whether `c` is one of the ten decimal digits.
pub open spec fn is_digit(c: char) -> bool {
    0x30 <= c as u32 <= 0x39
}

/// The number that the digit `c` stands for.
pub open spec fn digit_value(c: char) -> nat
    recommends
        is_digit(c),
{
    (c as u32 - 0x30) as nat
}

/// The number that `digits` denote in base ten.
pub open spec fn decimal_value(digits: Seq<char>) -> nat
    decreases digits.len(),
{
    if digits.len() == 0 {
        0
    } else {
        10 * decimal_value(digits.drop_last()) + digit_value(digits.last())
    }
}

/// `word` without its plus sign, if it starts with one.
pub open spec fn unsigned_part(word: Seq<char>) -> Seq<char> {
    if word.len() > 0 && word[0] == '+' {
        word.subrange(1, word.len() as int)
    } else {
        word
    }
}

/// The number that `word` denotes: an optional plus sign, then one or more
/// decimal digits, of a value that fits 64 bits. Any other word denotes
/// none.
pub open spec fn parse_u64(word: Seq<char>) -> Option<u64> {
    let digits = unsigned_part(word);
    if digits.len() > 0 && (forall|i: int| 0 <= i < digits.len() ==> is_digit(#[trigger] digits[i]))
        && decimal_value(digits) <= u64::MAX {
        Some(decimal_value(digits) as u64)
    } else {
        None
    }
}

/// Whether `text` begins with `prefix`.
pub open spec fn starts_with(text: Seq<char>, prefix: Seq<char>) -> bool {
    prefix.len() <= text.len() && text.subrange(0, prefix.len() as int) == prefix
}

/// The model of a text that may be absent.
pub open spec fn text_view(text: Option<String>) -> Option<Seq<char>> {
    match text {
        Some(t) => Some(t@),
        None => None,
    }
}

/// The model of a run of characters that may be absent.
pub open spec fn value_of(value: Option<Vec<char>>) -> Option<Seq<char>> {
    match value {
        Some(v) => Some(v@),
        None => None,
    }
}

/// The models of the words, in order.
pub open spec fn word_views(words: Seq<Vec<char>>) -> Seq<Seq<char>> {
    Seq::new(words.len(), |i: int| words[i]@)
}

/// What follows the last `mark` in `text`; none where `text` holds no
/// `mark`.
pub open spec fn after_last(text: Seq<char>, mark: char) -> Option<Seq<char>>
    decreases text.len(),
{
    if text.len() == 0 {
        None
    } else if text.last() == mark {
        Some(Seq::empty())
    } else {
        match after_last(text.drop_last(), mark) {
            Some(rest) => Some(rest.push(text.last())),
            None => None,
        }
    }
}

/// What follows the last `mark` is the end of the text, stands right after
/// a `mark` and holds none; there is none exactly where the text holds no
/// `mark`.
pub proof fn lemma_after_last(text: Seq<char>, mark: char)
    ensures
        match after_last(text, mark) {
            Some(rest) => {
                &&& rest.len() < text.len()
                &&& text[text.len() - rest.len() - 1] == mark
                &&& rest == text.subrange(text.len() - rest.len(), text.len() as int)
                &&& !rest.contains(mark)
            },
            None => !text.contains(mark),
        },
    decreases text.len(),
{
    if text.len() > 0 && text.last() != mark {
        let front = text.drop_last();
        lemma_after_last(front, mark);
        match after_last(front, mark) {
            Some(rest) => {
                let grown = rest.push(text.last());
                assert(grown =~= text.subrange(text.len() - grown.len(), text.len() as int));
                assert forall|j: int| 0 <= j < grown.len() implies grown[j] != mark by {
                    if j < rest.len() {
                        assert(rest.contains(rest[j]));
                    }
                }
            },
            None => {
                assert forall|j: int| 0 <= j < text.len() implies text[j] != mark by {
                    if j < front.len() {
                        assert(front.contains(front[j]));
                    }
                }
            },
        }
    } else if text.len() > 0 {
        assert(Seq::<char>::empty() =~= text.subrange(text.len() as int, text.len() as int));
    }
}

/// Whether `word` holds at least one character and no white space.
pub open spec fn is_word(word: Seq<char>) -> bool {
    word.len() > 0 && forall|j: int| 0 <= j < word.len() ==> !is_space(#[trigger] word[j])
}

/// Every field is a word, and a text that ends in a character that is not
/// white space has a field.
pub proof fn lemma_fields_are_words(text: Seq<char>)
    ensures
        forall|i: int| 0 <= i < fields(text).len() ==> is_word(#[trigger] fields(text)[i]),
        text.len() > 0 && !is_space(text.last()) ==> fields(text).len() > 0,
    decreases text.len(),
{
    if text.len() > 0 {
        let front = text.drop_last();
        lemma_fields_are_words(front);
        if !is_space(text.last()) {
            if front.len() > 0 && !is_space(front.last()) {
                let grown = fields(front).last().push(text.last());
                assert forall|j: int| 0 <= j < grown.len() implies !is_space(
                    #[trigger] grown[j],
                ) by {}
            }
            assert forall|i: int| 0 <= i < fields(text).len() implies is_word(
                #[trigger] fields(text)[i],
            ) by {}
        }
    }
}

/// No line holds a line feed, and a text that ends in a character other
/// than a line feed has a line.
pub proof fn lemma_lines_hold_no_line_feed(text: Seq<char>)
    ensures
        forall|i: int, j: int|
            0 <= i < lines(text).len() && 0 <= j < lines(text)[i].len() ==> #[trigger] lines(
                text,
            )[i][j] != '\n',
        text.len() > 0 && text.last() != '\n' ==> lines(text).len() > 0,
    decreases text.len(),
{
    if text.len() > 0 {
        let front = text.drop_last();
        lemma_lines_hold_no_line_feed(front);
        assert forall|i: int, j: int|
            0 <= i < lines(text).len() && 0 <= j < lines(text)[i].len() implies #[trigger] lines(
            text,
        )[i][j] != '\n' by {
            if i < lines(text).len() - 1 {
                assert(lines(text)[i] == lines(front)[i]);
            } else if lines(text) != lines(front) && j < lines(text)[i].len() - 1 {
                assert(lines(text)[i][j] == lines(front).last()[j]);
            }
        }
    }
}

/// The value of a digit string is at least the value of each of its
/// prefixes.
pub proof fn lemma_decimal_value_monotonic(digits: Seq<char>, k: int)
    requires
        0 <= k <= digits.len(),
    ensures
        decimal_value(digits.take(k)) <= decimal_value(digits),
    decreases digits.len(),
{
    if k == digits.len() {
        assert(digits.take(k) =~= digits);
    } else {
        lemma_decimal_value_monotonic(digits.drop_last(), k);
        assert(digits.drop_last().take(k) =~= digits.take(k));
    }
}

/// Splits `text` into its white-space separated fields.
pub fn split_whitespace(text: &Vec<char>) -> (words: Vec<Vec<char>>)
    ensures
        word_views(words@) == fields(text@),
        forall|i: int| 0 <= i < words@.len() ==> is_word(#[trigger] words@[i]@),
{
    proof {
        lemma_fields_are_words(text@);
    }
    let mut done: Vec<Vec<char>> = Vec::new();
    let mut word: Vec<char> = Vec::new();
    let mut i: usize = 0;
    while i < text.len()
        invariant
            i <= text@.len(),
            word@.len() > 0 <==> i > 0 && !is_space(text@[i - 1]),
            fields(text@.take(i as int)) == if word@.len() > 0 {
                word_views(done@).push(word@)
            } else {
                word_views(done@)
            },
        decreases text@.len() - i,
    {
        let c = text[i];
        assert(text@.take(i as int + 1).drop_last() =~= text@.take(i as int));
        if space(c) {
            if word.len() > 0 {
                done.push(word);
                word = Vec::new();
            }
        } else {
            word.push(c);
            assert(word@.len() == 1 ==> word@ =~= seq![c]);
        }
        i = i + 1;
    }
    assert(text@.take(i as int) =~= text@);
    if word.len() > 0 {
        done.push(word);
    }
    assert forall|i: int| 0 <= i < done@.len() implies is_word(#[trigger] done@[i]@) by {
        assert(done@[i]@ == fields(text@)[i]);
    }
    done
}

/// Splits `text` into its lines.
pub fn split_lines(text: &Vec<char>) -> (rows: Vec<Vec<char>>)
    ensures
        word_views(rows@) == lines(text@),
        forall|i: int, j: int|
            0 <= i < rows@.len() && 0 <= j < rows@[i]@.len() ==> #[trigger] rows@[i]@[j] != '\n',
{
    proof {
        lemma_lines_hold_no_line_feed(text@);
    }
    let mut done: Vec<Vec<char>> = Vec::new();
    let mut row: Vec<char> = Vec::new();
    let mut open = false;
    let mut i: usize = 0;
    while i < text.len()
        invariant
            i <= text@.len(),
            open <==> i > 0 && text@[i - 1] != '\n',
            !open ==> row@.len() == 0,
            lines(text@.take(i as int)) == if open {
                word_views(done@).push(row@)
            } else {
                word_views(done@)
            },
        decreases text@.len() - i,
    {
        let c = text[i];
        assert(text@.take(i as int + 1).drop_last() =~= text@.take(i as int));
        if c == '\n' {
            assert(!open ==> row@ =~= Seq::<char>::empty());
            done.push(row);
            row = Vec::new();
            open = false;
        } else {
            row.push(c);
            assert(!open ==> row@ =~= seq![c]);
            open = true;
        }
        i = i + 1;
    }
    assert(text@.take(i as int) =~= text@);
    if open {
        done.push(row);
    }
    assert forall|i: int, j: int|
        0 <= i < done@.len() && 0 <= j < done@[i]@.len() implies #[trigger] done@[i]@[j]
        != '\n' by {
        assert(done@[i]@ == lines(text@)[i]);
    }
    done
}

/// Reads `word` as an unsigned decimal number of 64 bits.
pub fn parse_number(word: &Vec<char>) -> (number: Option<u64>)
    ensures
        number == parse_u64(word@),
{
    let n = word.len();
    let start: usize = if n > 0 && word[0] == '+' {
        1
    } else {
        0
    };
    if start == n {
        return None;
    }
    let ghost digits = unsigned_part(word@);
    let mut value: u64 = 0;
    let mut i: usize = start;
    while i < n
        invariant
            start <= i <= n,
            start < n,
            n == word@.len(),
            digits == unsigned_part(word@),
            digits == word@.subrange(start as int, n as int),
            forall|k: int| 0 <= k < i - start ==> is_digit(#[trigger] digits[k]),
            value == decimal_value(digits.take(i - start)),
        decreases n - i,
    {
        let code: u32 = word[i] as u32;
        if code < 0x30 || code > 0x39 {
            assert(!is_digit(digits[i - start]));
            return None;
        }
        let digit: u64 = (code - 0x30) as u64;
        proof {
            assert(digits.take(i - start + 1).drop_last() =~= digits.take(i - start));
            lemma_decimal_value_monotonic(digits, i - start + 1);
        }
        let tens = match value.checked_mul(10) {
            Some(t) => t,
            None => {
                return None;
            },
        };
        value = match tens.checked_add(digit) {
            Some(v) => v,
            None => {
                return None;
            },
        };
        i = i + 1;
    }
    assert(digits.take(n - start) =~= digits);
    Some(value)
}

/// Whether `text` begins with `prefix`.
pub fn begins_with(text: &Vec<char>, prefix: &Vec<char>) -> (b: bool)
    ensures
        b == starts_with(text@, prefix@),
{
    if prefix.len() > text.len() {
        return false;
    }
    let mut i: usize = 0;
    while i < prefix.len()
        invariant
            i <= prefix@.len() <= text@.len(),
            forall|k: int| 0 <= k < i ==> text@[k] == prefix@[k],
        decreases prefix@.len() - i,
    {
        if text[i] != prefix[i] {
            return false;
        }
        i = i + 1;
    }
    assert(text@.subrange(0, prefix@.len() as int) =~= prefix@);
    true
}

/// The characters of `text` from position `from` up to position `to`.
pub fn sub_text(text: &Vec<char>, from: usize, to: usize) -> (part: Vec<char>)
    requires
        from <= to <= text@.len(),
    ensures
        part@ == text@.subrange(from as int, to as int),
{
    let mut part: Vec<char> = Vec::new();
    let mut i: usize = from;
    while i < to
        invariant
            from <= i <= to <= text@.len(),
            part@ == text@.subrange(from as int, i as int),
        decreases to - i,
    {
        part.push(text[i]);
        i = i + 1;
    }
    part
}

/// What follows the last `mark` in `text`.
pub fn text_after_last(text: &Vec<char>, mark: char) -> (rest: Option<Vec<char>>)
    ensures
        value_of(rest) == after_last(text@, mark),
        rest matches Some(r) ==> {
            &&& r@.len() < text@.len()
            &&& text@[text@.len() - r@.len() - 1] == mark
            &&& r@ == text@.subrange(text@.len() - r@.len(), text@.len() as int)
            &&& !r@.contains(mark)
        },
        rest is None ==> !text@.contains(mark),
{
    proof {
        lemma_after_last(text@, mark);
    }
    let n = text.len();
    let mut i: usize = n;
    while i > 0 && text[i - 1] != mark
        invariant
            i <= n,
            n == text@.len(),
            forall|j: int| i <= j < n ==> text@[j] != mark,
        decreases i,
    {
        i = i - 1;
    }
    if i == 0 {
        assert(!text@.contains(mark));
        None
    } else {
        let rest = sub_text(text, i, n);
        proof {
            match after_last(text@, mark) {
                Some(found) => {
                    let k = text@.len() - found.len() - 1;
                    if k < i - 1 {
                        assert(found[i - 1 - (k + 1)] == text@[i - 1]);
                        assert(found.contains(text@[i - 1]));
                    }
                    assert(found =~= rest@);
                },
                None => {
                    assert(text@.contains(text@[i - 1]));
                },
            }
        }
        Some(rest)
    }
}

/// Whether `a` and `b` hold the same characters.
pub fn same_text(a: &Vec<char>, b: &Vec<char>) -> (equal: bool)
    ensures
        equal == (a@ == b@),
{
    if a.len() != b.len() {
        return false;
    }
    let equal = begins_with(a, b);
    assert(a@.subrange(0, a@.len() as int) =~= a@);
    equal
}

} // verus!
