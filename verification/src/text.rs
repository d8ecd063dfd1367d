//! Text as sequences of characters: the character classes, trimming, tokens,
//! lines and decimal numbers that the control-group files are read with.

use vstd::prelude::*;
use vstd::string::*;

verus! {

/// `String::push`: the character goes to the end of the string.
pub assume_specification[ String::push ](text: &mut String, c: char)
    ensures
        final(text)@ == old(text)@.push(c),
;

/// The characters of `text`, in a vector that can be indexed in constant time.
pub fn chars_of(text: &str) -> (chars: Vec<char>)
    ensures
        chars@ == text@,
{
    broadcast use vstd::string::group_string_axioms;

    let mut chars: Vec<char> = Vec::new();
    for c in it: text.chars()
        invariant
            it.seq() == text@,
            chars@ == text@.take(it.index() as int),
    {
        chars.push(c);
    }
    chars
}

/// The text made of `chars[from..to]`.
pub fn string_of(chars: &Vec<char>, from: usize, to: usize) -> (text: String)
    requires
        from <= to <= chars.len(),
    ensures
        text@ == chars@.subrange(from as int, to as int),
{
    let mut text = String::new();
    let mut i: usize = from;
    while i < to
        invariant
            from <= i <= to <= chars.len(),
            text@ == chars@.subrange(from as int, i as int),
        decreases to - i,
    {
        text.push(chars[i]);
        i += 1;
    }
    text
}

/// White space of ASCII: space, tab, line feed, form feed, carriage return.
pub open spec fn is_ascii_space(c: char) -> bool {
    c == ' ' || c == '\t' || c == '\n' || c == '\x0C' || c == '\r'
}

/// Whether `c` is white space of ASCII.
pub fn ascii_space(c: char) -> (b: bool)
    ensures
        b == is_ascii_space(c),
{
    c == ' ' || c == '\t' || c == '\n' || c == '\x0C' || c == '\r'
}

/// The characters with the Unicode property `White_Space`.
pub open spec fn is_white_space(c: char) -> bool {
    let u = c as u32;
    (0x09 <= u <= 0x0D) || u == 0x20 || u == 0x85 || u == 0xA0 || u == 0x1680 || (0x2000 <= u
        <= 0x200A) || u == 0x2028 || u == 0x2029 || u == 0x202F || u == 0x205F || u == 0x3000
}

/// Whether `c` has the Unicode property `White_Space`.
pub fn white_space(c: char) -> (b: bool)
    ensures
        b == is_white_space(c),
{
    let u: u32 = c as u32;
    (0x09 <= u && u <= 0x0D) || u == 0x20 || u == 0x85 || u == 0xA0 || u == 0x1680 || (0x2000 <= u
        && u <= 0x200A) || u == 0x2028 || u == 0x2029 || u == 0x202F || u == 0x205F || u == 0x3000
}

/// `s` without the white space at its end.
pub open spec fn trim_end(s: Seq<char>) -> Seq<char>
    decreases s.len(),
{
    if s.len() > 0 && is_white_space(s.last()) {
        trim_end(s.drop_last())
    } else {
        s
    }
}

/// `s` without the white space at its start.
pub open spec fn trim_start(s: Seq<char>) -> Seq<char>
    decreases s.len(),
{
    if s.len() > 0 && is_white_space(s[0]) {
        trim_start(s.drop_first())
    } else {
        s
    }
}

/// `s` without the white space at either end.
pub open spec fn trim(s: Seq<char>) -> Seq<char> {
    trim_start(trim_end(s))
}

/// Where `trim_end` of `chars[from..to]` ends.
pub fn trim_end_in(chars: &Vec<char>, from: usize, to: usize) -> (end: usize)
    requires
        from <= to <= chars.len(),
    ensures
        from <= end <= to,
        chars@.subrange(from as int, end as int) == trim_end(chars@.subrange(from as int, to as int)),
{
    let mut end: usize = to;
    while end > from && white_space(chars[end - 1])
        invariant
            from <= end <= to <= chars.len(),
            trim_end(chars@.subrange(from as int, end as int)) == trim_end(
                chars@.subrange(from as int, to as int),
            ),
        decreases end,
    {
        assert(chars@.subrange(from as int, end as int).drop_last() =~= chars@.subrange(
            from as int,
            end - 1,
        ));
        end -= 1;
    }
    end
}

/// Where `trim_start` of `chars[from..to]` starts.
pub fn trim_start_in(chars: &Vec<char>, from: usize, to: usize) -> (start: usize)
    requires
        from <= to <= chars.len(),
    ensures
        from <= start <= to,
        chars@.subrange(start as int, to as int) == trim_start(
            chars@.subrange(from as int, to as int),
        ),
{
    let mut start: usize = from;
    while start < to && white_space(chars[start])
        invariant
            from <= start <= to <= chars.len(),
            trim_start(chars@.subrange(start as int, to as int)) == trim_start(
                chars@.subrange(from as int, to as int),
            ),
        decreases to - start,
    {
        assert(chars@.subrange(start as int, to as int).drop_first() =~= chars@.subrange(
            start + 1,
            to as int,
        ));
        start += 1;
    }
    start
}

/// Whether `c` is a decimal digit of ASCII.
pub open spec fn is_digit(c: char) -> bool {
    '0' as u32 <= c as u32 <= '9' as u32
}

/// The number that the digit `c` writes.
pub open spec fn digit_value(c: char) -> nat {
    (c as u32 - '0' as u32) as nat
}

/// Whether `s` holds nothing but decimal digits.
pub open spec fn all_digits(s: Seq<char>) -> bool {
    forall|i: int| 0 <= i < s.len() ==> is_digit(#[trigger] s[i])
}

/// The number that the decimal digits `s` write.
pub open spec fn digits_value(s: Seq<char>) -> nat
    decreases s.len(),
{
    if s.len() == 0 {
        0
    } else {
        digits_value(s.drop_last()) * 10 + digit_value(s.last())
    }
}

/// `s` without a plus sign in front.
pub open spec fn unsigned_part(s: Seq<char>) -> Seq<char> {
    if s.len() > 0 && s[0] == '+' {
        s.drop_first()
    } else {
        s
    }
}

/// The number that `s` writes: decimal digits, at least one, after at most
/// one plus sign, with a value that fits in 64 bits. Nothing else is a number.
pub open spec fn parse_u64(s: Seq<char>) -> Option<u64> {
    let d = unsigned_part(s);
    if d.len() > 0 && all_digits(d) && digits_value(d) <= u64::MAX {
        Some(digits_value(d) as u64)
    } else {
        None
    }
}

/// A prefix of decimal digits writes no more than the whole.
pub proof fn lemma_digits_value_prefix(s: Seq<char>, n: int)
    requires
        0 <= n <= s.len(),
    ensures
        digits_value(s.take(n)) <= digits_value(s),
    decreases s.len(),
{
    if n == s.len() {
        assert(s.take(n) =~= s);
    } else {
        assert(s.drop_last().take(n) =~= s.take(n));
        lemma_digits_value_prefix(s.drop_last(), n);
    }
}

/// The number written in `chars[from..to]`.
pub fn parse_u64_in(chars: &Vec<char>, from: usize, to: usize) -> (number: Option<u64>)
    requires
        from <= to <= chars.len(),
    ensures
        number == parse_u64(chars@.subrange(from as int, to as int)),
{
    let mut i: usize = from;
    if from < to && chars[from] == '+' {
        i = from + 1;
    }
    let start: usize = i;
    let ghost d = chars@.subrange(start as int, to as int);
    if start == to {
        return None;
    }
    let mut value: u64 = 0;
    while i < to
        invariant
            from <= start <= i <= to <= chars.len(),
            start < to,
            d == chars@.subrange(start as int, to as int),
            d == unsigned_part(chars@.subrange(from as int, to as int)),
            all_digits(d.take(i - start)),
            value == digits_value(d.take(i - start)),
        decreases to - i,
    {
        let c: char = chars[i];
        let u: u32 = c as u32;
        let ghost next = d.take(i - start + 1);
        assert(next.drop_last() =~= d.take(i - start));
        if u < 0x30 || u > 0x39 {
            assert(!is_digit(d[i - start]));
            return None;
        }
        let digit: u64 = (u - 0x30) as u64;
        let scaled = value.checked_mul(10);
        let sum = match scaled {
            Some(v) => v.checked_add(digit),
            None => None,
        };
        match sum {
            Some(v) => {
                value = v;
            },
            None => {
                proof {
                    lemma_digits_value_prefix(d, i - start + 1);
                }
                return None;
            },
        }
        i += 1;
    }
    assert(d.take(to - start) =~= d);
    Some(value)
}

/// `s` without the ASCII white space at its end.
pub open spec fn trim_ascii_end(s: Seq<char>) -> Seq<char>
    decreases s.len(),
{
    if s.len() > 0 && is_ascii_space(s.last()) {
        trim_ascii_end(s.drop_last())
    } else {
        s
    }
}

/// The longest end of `s` that holds no ASCII white space.
pub open spec fn tail_word(s: Seq<char>) -> Seq<char>
    decreases s.len(),
{
    if s.len() > 0 && !is_ascii_space(s.last()) {
        tail_word(s.drop_last()).push(s.last())
    } else {
        Seq::empty()
    }
}

/// The last of the words that ASCII white space separates in `s`, if there
/// is any.
pub open spec fn last_token(s: Seq<char>) -> Option<Seq<char>> {
    let word = tail_word(trim_ascii_end(s));
    if word.len() == 0 {
        None
    } else {
        Some(word)
    }
}

/// The bounds of the last token of `chars[from..to]`.
pub fn last_token_in(chars: &Vec<char>, from: usize, to: usize) -> (bounds: Option<(usize, usize)>)
    requires
        from <= to <= chars.len(),
    ensures
        match bounds {
            Some((b, e)) => from <= b < e <= to && last_token(
                chars@.subrange(from as int, to as int),
            ) == Some(chars@.subrange(b as int, e as int)),
            None => last_token(chars@.subrange(from as int, to as int)) is None,
        },
{
    let mut end: usize = to;
    while end > from && ascii_space(chars[end - 1])
        invariant
            from <= end <= to <= chars.len(),
            trim_ascii_end(chars@.subrange(from as int, end as int)) == trim_ascii_end(
                chars@.subrange(from as int, to as int),
            ),
        decreases end,
    {
        assert(chars@.subrange(from as int, end as int).drop_last() =~= chars@.subrange(
            from as int,
            end - 1,
        ));
        end -= 1;
    }
    let ghost trimmed = chars@.subrange(from as int, end as int);
    let mut begin: usize = end;
    while begin > from && !ascii_space(chars[begin - 1])
        invariant
            from <= begin <= end <= to <= chars.len(),
            trimmed == chars@.subrange(from as int, end as int),
            tail_word(trimmed) == tail_word(chars@.subrange(from as int, begin as int))
                + chars@.subrange(begin as int, end as int),
        decreases begin,
    {
        let ghost head = chars@.subrange(from as int, begin as int);
        assert(head.drop_last() =~= chars@.subrange(from as int, begin - 1));
        begin -= 1;
    }
    if begin == end {
        None
    } else {
        Some((begin, end))
    }
}

/// Whether `s` begins with `prefix`.
pub open spec fn starts_with(s: Seq<char>, prefix: Seq<char>) -> bool {
    prefix.len() <= s.len() && s.take(prefix.len() as int) == prefix
}

/// Whether `part` stands in `s` at index `at`.
pub open spec fn occurs_at(s: Seq<char>, part: Seq<char>, at: int) -> bool {
    0 <= at && at + part.len() <= s.len() && s.subrange(at, at + part.len()) == part
}

/// Whether `part` stands anywhere in `s`.
pub open spec fn contains(s: Seq<char>, part: Seq<char>) -> bool {
    exists|at: int| occurs_at(s, part, at)
}

/// Whether `part` stands in `chars[from..to]` at `at`, counted from `from`.
pub fn occurs_at_in(chars: &Vec<char>, from: usize, to: usize, part: &Vec<char>, at: usize) -> (b:
    bool)
    requires
        from <= to <= chars.len(),
        at <= to - from,
    ensures
        b == occurs_at(chars@.subrange(from as int, to as int), part@, at as int),
{
    let ghost s = chars@.subrange(from as int, to as int);
    if part.len() > to - from - at {
        return false;
    }
    let mut k: usize = 0;
    while k < part.len()
        invariant
            from <= to <= chars.len(),
            at + part.len() <= to - from,
            k <= part.len(),
            s == chars@.subrange(from as int, to as int),
            forall|j: int| 0 <= j < k ==> s[at + j] == part@[j],
        decreases part.len() - k,
    {
        if chars[from + at + k] != part[k] {
            return false;
        }
        k += 1;
    }
    assert(s.subrange(at as int, at + part.len()) =~= part@);
    true
}

/// Whether `chars[from..to]` begins with `prefix`.
pub fn starts_with_in(chars: &Vec<char>, from: usize, to: usize, prefix: &Vec<char>) -> (b: bool)
    requires
        from <= to <= chars.len(),
    ensures
        b == starts_with(chars@.subrange(from as int, to as int), prefix@),
{
    occurs_at_in(chars, from, to, prefix, 0)
}

/// Whether `part` stands anywhere in `chars[from..to]`.
pub fn contains_in(chars: &Vec<char>, from: usize, to: usize, part: &Vec<char>) -> (b: bool)
    requires
        from <= to <= chars.len(),
    ensures
        b == contains(chars@.subrange(from as int, to as int), part@),
{
    let ghost s = chars@.subrange(from as int, to as int);
    let mut at: usize = 0;
    while at < to - from
        invariant
            from <= to <= chars.len(),
            at <= to - from,
            s == chars@.subrange(from as int, to as int),
            forall|j: int| 0 <= j < at ==> !occurs_at(s, part@, j),
        decreases to - from - at,
    {
        if occurs_at_in(chars, from, to, part, at) {
            return true;
        }
        at += 1;
    }
    if occurs_at_in(chars, from, to, part, at) {
        return true;
    }
    false
}

/// Where the line that starts at `from` ends: at the next line feed, or at
/// the end of `s`.
pub open spec fn line_end(s: Seq<char>, from: int) -> int
    decreases s.len() - from,
{
    if from < 0 || from >= s.len() {
        s.len() as int
    } else if s[from] == '\n' {
        from
    } else {
        line_end(s, from + 1)
    }
}

/// The lines of `s` from index `from` on, without their line feeds. A line
/// feed at the very end starts no further line.
pub open spec fn lines_from(s: Seq<char>, from: int) -> Seq<Seq<char>>
    decreases s.len() - from,
{
    if from < 0 || from >= s.len() {
        Seq::empty()
    } else {
        let end = line_end(s, from);
        if from <= end < s.len() {
            seq![s.subrange(from, end)] + lines_from(s, end + 1)
        } else {
            seq![s.subrange(from, s.len() as int)]
        }
    }
}

/// The lines of `s`.
pub open spec fn lines(s: Seq<char>) -> Seq<Seq<char>> {
    lines_from(s, 0)
}

/// Where the line of `chars` that starts at `from` ends.
pub fn line_end_in(chars: &Vec<char>, from: usize) -> (end: usize)
    requires
        from <= chars.len(),
    ensures
        from <= end <= chars.len(),
        end == line_end(chars@, from as int),
{
    let mut end: usize = from;
    while end < chars.len() && chars[end] != '\n'
        invariant
            from <= end <= chars.len(),
            line_end(chars@, end as int) == line_end(chars@, from as int),
        decreases chars.len() - end,
    {
        end += 1;
    }
    end
}

/// The bounds of the line of `chars` that starts at `from`, and where the
/// next one starts.
pub fn next_line(chars: &Vec<char>, from: usize) -> (bounds: (usize, usize))
    requires
        from < chars.len(),
    ensures
        from <= bounds.0 <= chars.len(),
        from < bounds.1 <= chars.len(),
        bounds.0 <= bounds.1,
        lines_from(chars@, from as int) == seq![chars@.subrange(from as int, bounds.0 as int)]
            + lines_from(chars@, bounds.1 as int),
{
    let end = line_end_in(chars, from);
    if end < chars.len() {
        (end, end + 1)
    } else {
        (end, end)
    }
}

/// The words that ASCII white space separates in `s`, read from left to
/// right: white space ends a word, any other character goes on with the
/// word before it or starts one.
pub open spec fn tokens(s: Seq<char>) -> Seq<Seq<char>>
    decreases s.len(),
{
    if s.len() == 0 {
        Seq::empty()
    } else {
        let before = tokens(s.drop_last());
        if is_ascii_space(s.last()) {
            before
        } else if s.len() >= 2 && !is_ascii_space(s[s.len() - 2]) && before.len() > 0 {
            before.drop_last().push(before.last().push(s.last()))
        } else {
            before.push(seq![s.last()])
        }
    }
}

/// The part of `s` before its first `c`, all of `s` where it holds none.
pub open spec fn before_first(s: Seq<char>, c: char) -> Seq<char>
    decreases s.len(),
{
    if s.len() > 0 && s[0] != c {
        seq![s[0]] + before_first(s.drop_first(), c)
    } else {
        Seq::empty()
    }
}

/// The part of `s` after its last `c`, all of `s` where it holds none.
pub open spec fn after_last(s: Seq<char>, c: char) -> Seq<char>
    decreases s.len(),
{
    if s.len() > 0 && s.last() != c {
        after_last(s.drop_last(), c).push(s.last())
    } else {
        Seq::empty()
    }
}

/// The length of `before_first` of `chars[from..to]`.
pub fn before_first_in(chars: &Vec<char>, from: usize, to: usize, c: char) -> (end: usize)
    requires
        from <= to <= chars.len(),
    ensures
        from <= end <= to,
        chars@.subrange(from as int, end as int) == before_first(
            chars@.subrange(from as int, to as int),
            c,
        ),
        end < to ==> chars@[end as int] == c,
        forall|i: int| from <= i < end ==> chars@[i] != c,
{
    let mut end: usize = from;
    while end < to && chars[end] != c
        invariant
            from <= end <= to <= chars.len(),
            before_first(chars@.subrange(from as int, to as int), c) == chars@.subrange(
                from as int,
                end as int,
            ) + before_first(chars@.subrange(end as int, to as int), c),
            forall|i: int| from <= i < end ==> chars@[i] != c,
        decreases to - end,
    {
        let ghost rest = chars@.subrange(end as int, to as int);
        assert(rest.drop_first() =~= chars@.subrange(end + 1, to as int));
        end += 1;
    }
    end
}

/// Where `after_last` of `chars[from..to]` starts.
pub fn after_last_in(chars: &Vec<char>, from: usize, to: usize, c: char) -> (start: usize)
    requires
        from <= to <= chars.len(),
    ensures
        from <= start <= to,
        chars@.subrange(start as int, to as int) == after_last(
            chars@.subrange(from as int, to as int),
            c,
        ),
{
    let mut start: usize = to;
    while start > from && chars[start - 1] != c
        invariant
            from <= start <= to <= chars.len(),
            after_last(chars@.subrange(from as int, to as int), c) == after_last(
                chars@.subrange(from as int, start as int),
                c,
            ) + chars@.subrange(start as int, to as int),
        decreases start,
    {
        let ghost head = chars@.subrange(from as int, start as int);
        assert(head.drop_last() =~= chars@.subrange(from as int, start - 1));
        start -= 1;
    }
    start
}

/// Whether two texts hold the same characters.
pub fn same_text(a: &Vec<char>, from: usize, to: usize, b: &Vec<char>) -> (same: bool)
    requires
        from <= to <= a.len(),
    ensures
        same == (a@.subrange(from as int, to as int) == b@),
{
    if to - from != b.len() {
        return false;
    }
    let r = occurs_at_in(a, from, to, b, 0);
    assert(a@.subrange(from as int, to as int).subrange(0, 0 + b@.len() as int) =~= a@.subrange(
        from as int,
        to as int,
    ));
    r
}

/// What each of `items` holds.
pub open spec fn views(items: Seq<String>) -> Seq<Seq<char>> {
    Seq::new(items.len(), |i: int| items[i]@)
}

/// Whether one of `items` holds `text`.
pub fn holds_text(items: &Vec<String>, text: &str) -> (found: bool)
    ensures
        found == views(items@).contains(text@),
{
    let wanted = String::from_str(text);
    let mut i: usize = 0;
    while i < items.len()
        invariant
            i <= items.len(),
            wanted@ == text@,
            forall|j: int| 0 <= j < i ==> views(items@)[j] != text@,
        decreases items.len() - i,
    {
        if items[i] == wanted {
            assert(views(items@)[i as int] == text@);
            return true;
        }
        i += 1;
    }
    false
}

} // verus!
